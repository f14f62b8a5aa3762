//! Dialog core of a SIP user agent: dialog identity and routing state, the
//! per-call state machine, the mid-dialog message builders, and the decision
//! logic of the INVITE and in-dialog request drivers.
//!
//! Transport, transactions and the message parser are outside collaborators:
//! the drivers are written as step functions over the messages they deliver,
//! and the observer channel is modelled by the dialog's observation log.
use vstd::prelude::*;

pub mod message;
pub mod rsip_ext;
pub mod dialog;
pub mod client_dialog;
pub mod laws;

verus! {

/// Identifying triple of a dialog. The `to_tag` is empty on the client side
/// until the first non-provisional response fills it; once filled it is
/// stable for the dialog's lifetime.
#[derive(Debug)]
pub struct DialogId {
    pub call_id: String,
    pub from_tag: String,
    pub to_tag: String,
}

#[verifier::ext_equal]
pub ghost struct DialogIdView {
    pub call_id: Seq<char>,
    pub from_tag: Seq<char>,
    pub to_tag: Seq<char>,
}

impl View for DialogId {
    type V = DialogIdView;

    open spec fn view(&self) -> DialogIdView {
        DialogIdView {
            call_id: self.call_id@,
            from_tag: self.from_tag@,
            to_tag: self.to_tag@,
        }
    }
}

impl PartialEq for DialogId {
    /// Dialog identities are equal exactly when all three parts are.
    fn eq(&self, other: &DialogId) -> (r: bool) {
        self.call_id == other.call_id && self.from_tag == other.from_tag && self.to_tag
            == other.to_tag
    }
}

impl vstd::std_specs::cmp::PartialEqSpecImpl for DialogId {
    open spec fn obeys_eq_spec() -> bool {
        true
    }

    open spec fn eq_spec(&self, other: &DialogId) -> bool {
        self@ == other@
    }
}

impl DialogId {
    pub fn duplicate(&self) -> (r: DialogId)
        ensures
            r@ == self@,
    {
        DialogId {
            call_id: self.call_id.clone(),
            from_tag: self.from_tag.clone(),
            to_tag: self.to_tag.clone(),
        }
    }
}

/// Errors surfaced by the dialog core. Transport failures stay with the
/// transaction layer and never reach these functions.
#[derive(Debug)]
pub enum Error {
    /// A protocol-level violation inside a dialog, such as a method that is
    /// not allowed in the current state.
    DialogError(String, DialogId),
    /// A required header is missing or its value could not be parsed.
    ParseError(String),
    /// The transaction layer failed to send or receive.
    TransportError(String),
    /// The observer side of the dialog has gone away.
    ChannelClosed,
}

} // verus!
