//! The client side of an INVITE dialog: the driver of the initial INVITE
//! transaction, the per-method operations (BYE, CANCEL, INFO, re-INVITE),
//! and the dispatcher for inbound in-dialog requests.
//!
//! The transaction belongs to the caller: each driver is a step function
//! from the delivered message to the next action, so every decision the
//! loop takes is stated and checked here, while the caller only sends,
//! receives and rebuilds transactions.
use vstd::prelude::*;

use crate::dialog::{
    built_request, effective_cseq, opt_msg_view, opt_response_view, transition_effect,
    DialogInner, DialogInnerView, DialogState, DialogStateView, RequestDriver,
};
use crate::message::{
    cseq_of, first_kind_index, first_of_kind, has_kind, Header, HeaderKind, HeaderView, Headers,
    Method, Request, RequestView, Response, ResponseView, SipMessage, SipMessageView, Version,
};
use crate::rsip_ext::request_dialog_id;
use crate::{DialogId, DialogIdView, Error};

verus! {

/// A client INVITE dialog and its record.
pub struct ClientInviteDialog {
    pub inner: DialogInner,
}

impl View for ClientInviteDialog {
    type V = DialogInnerView;

    open spec fn view(&self) -> DialogInnerView {
        self.inner@
    }
}

/// What the inbound dispatcher asks its caller to do.
pub enum InboundAction {
    /// Answer the request with this status code.
    Reply(u16),
    /// Absorb the request without an answer.
    Ignore,
}

/// What `handle` does with an inbound request, whose CSeq pair is read off
/// its headers: a missing CSeq is a parse error; a CSeq below the highest
/// seen is answered 500 and changes nothing; otherwise the remote counter
/// advances to it, and in the confirmed state a BYE terminates the dialog
/// and an INFO publishes its side-channel event, both answered 200, an
/// INVITE is absorbed, and any other method is a dialog error the caller
/// answers with 405; before confirmation every request is absorbed.
pub open spec fn handle_spec(
    pre: DialogInnerView,
    req: RequestView,
    post: DialogInnerView,
    r: Result<InboundAction, Error>,
) -> bool {
    match cseq_of(req.headers) {
        None => post == pre && r is Err && r->Err_0 is ParseError,
        Some(pair) => {
            let cs = pair.0;
            let m = req.method;
            if cs < pre.remote_seq {
                post == pre && r == Ok::<InboundAction, Error>(InboundAction::Reply(500))
            } else {
                let mid = DialogInnerView { remote_seq: cs, ..pre };
                if !(pre.state is Confirmed) {
                    post == mid && r == Ok::<InboundAction, Error>(InboundAction::Ignore)
                } else if m == Method::Bye {
                    transition_effect(mid, DialogStateView::Terminated(pre.id, None), post) && r
                        == Ok::<InboundAction, Error>(InboundAction::Reply(200))
                } else if m == Method::Info {
                    transition_effect(mid, DialogStateView::Info(pre.id, req), post) && r == Ok::<
                        InboundAction,
                        Error,
                    >(InboundAction::Reply(200))
                } else if m == Method::Invite {
                    post == mid && r == Ok::<InboundAction, Error>(InboundAction::Ignore)
                } else {
                    post == mid && r is Err && r->Err_0 is DialogError
                }
            }
        },
    }
}

/// The loop state of the initial INVITE driver.
pub struct InviteDriver {
    pub auth_sent: bool,
    pub done: bool,
    pub dialog_id: DialogId,
    pub final_response: Option<Response>,
}

#[verifier::ext_equal]
pub ghost struct InviteDriverView {
    pub auth_sent: bool,
    pub done: bool,
    pub dialog_id: DialogIdView,
    pub final_response: Option<ResponseView>,
}

impl View for InviteDriver {
    type V = InviteDriverView;

    open spec fn view(&self) -> InviteDriverView {
        InviteDriverView {
            auth_sent: self.auth_sent,
            done: self.done,
            dialog_id: self.dialog_id@,
            final_response: opt_response_view(self.final_response),
        }
    }
}

/// What the caller of the INVITE driver must do next.
pub enum InviteAction {
    /// Keep receiving from the transaction.
    Continue,
    /// Send this ACK outside the transaction, then stop: the dialog is
    /// confirmed.
    SendAck(Request),
    /// Rebuild the transaction with the credential and this CSeq, send it,
    /// and keep receiving.
    Authenticate(u32),
    /// The loop is over.
    Stop,
}

/// The ACK a 2xx answer to the INVITE gets: the initial request's URI, the
/// response's headers as they stand, and no body.
pub open spec fn ack_of(initial: RequestView, resp: ResponseView) -> RequestView {
    RequestView {
        method: Method::Ack,
        uri: initial.uri,
        headers: resp.headers,
        body: Seq::empty(),
        version: Version::V2,
    }
}

/// One turn of the INVITE driver: 100 publishes `Trying`, 180/183 publish
/// `Early`; a 200 synthesizes the ACK, recomputes the dialog identity from
/// it, confirms the dialog and ends the loop; 603 and 487 terminate with
/// their status; a 401/407 is retried once through the credential and
/// otherwise terminates; every other redirection or failure terminates;
/// other responses and requests are ignored; the end of the stream ends
/// the loop.
pub open spec fn process_invite_step_spec(
    pre: DialogInnerView,
    drv_pre: InviteDriverView,
    msg: Option<SipMessageView>,
    post: DialogInnerView,
    drv_post: InviteDriverView,
    r: Result<InviteAction, Error>,
) -> bool {
    match msg {
        None => post == pre && drv_post == (InviteDriverView { done: true, ..drv_pre }) && r
            matches Ok(InviteAction::Stop),
        Some(SipMessageView::Request(_)) => post == pre && drv_post == drv_pre && r matches Ok(
            InviteAction::Continue,
        ),
        Some(SipMessageView::Response(resp)) => {
            let code = resp.status_code;
            if code == 100 {
                transition_effect(pre, DialogStateView::Trying(pre.id), post) && drv_post
                    == drv_pre && r matches Ok(InviteAction::Continue)
            } else if code == 180 || code == 183 {
                transition_effect(pre, DialogStateView::Early(pre.id, resp), post) && drv_post
                    == drv_pre && r matches Ok(InviteAction::Continue)
            } else if code == 200 {
                let ack = ack_of(pre.initial_request, resp);
                match request_dialog_id(ack) {
                    None => post == pre && drv_post == drv_pre && r is Err && r->Err_0
                        is ParseError,
                    Some(nid) => {
                        &&& transition_effect(pre, DialogStateView::Confirmed(nid), post)
                        &&& drv_post == (InviteDriverView {
                            dialog_id: nid,
                            final_response: Some(resp),
                            done: true,
                            auth_sent: drv_pre.auth_sent,
                        })
                        &&& r matches Ok(InviteAction::SendAck(a)) && a@ == ack
                    },
                }
            } else if code == 603 || code == 487 {
                transition_effect(pre, DialogStateView::Terminated(pre.id, Some(code)), post)
                    && drv_post == drv_pre && r matches Ok(InviteAction::Continue)
            } else if code == 401 || code == 407 {
                if drv_pre.auth_sent {
                    transition_effect(pre, DialogStateView::Terminated(pre.id, Some(code)), post)
                        && drv_post == (InviteDriverView { done: true, ..drv_pre }) && r matches Ok(
                        InviteAction::Stop,
                    )
                } else if pre.credential is Some {
                    &&& post == (DialogInnerView {
                        local_seq: (pre.local_seq + 1) as u32,
                        ..pre
                    })
                    &&& drv_post == (InviteDriverView { auth_sent: true, ..drv_pre })
                    &&& r matches Ok(InviteAction::Authenticate(ns)) && ns == (pre.local_seq
                        + 1) as u32
                } else {
                    transition_effect(pre, DialogStateView::Terminated(pre.id, Some(code)), post)
                        && drv_post == (InviteDriverView { auth_sent: true, ..drv_pre }) && r
                        matches Ok(InviteAction::Continue)
                }
            } else if crate::message::is_terminating_other(code) {
                transition_effect(pre, DialogStateView::Terminated(pre.id, Some(code)), post)
                    && drv_post == drv_pre && r matches Ok(InviteAction::Continue)
            } else {
                post == pre && drv_post == drv_pre && r matches Ok(InviteAction::Continue)
            }
        },
    }
}

impl ClientInviteDialog {
    /// The dialog's current identity.
    pub fn id(&self) -> (r: DialogId)
        ensures
            r@ == self@.id,
    {
        self.inner.id.duplicate()
    }

    /// Start the initial INVITE: publish `Calling` and hand out the loop
    /// state. The caller then sends the transaction and feeds every
    /// received message to `process_invite_step`.
    pub fn process_invite_start(&mut self) -> (drv: InviteDriver)
        ensures
            transition_effect(old(self)@, DialogStateView::Calling(old(self)@.id), final(self)@),
            drv@ == (InviteDriverView {
                auth_sent: false,
                done: false,
                dialog_id: old(self)@.id,
                final_response: None,
            }),
    {
        let id = self.inner.id.duplicate();
        self.inner.transition(DialogState::Calling(id));
        InviteDriver {
            auth_sent: false,
            done: false,
            dialog_id: self.inner.id.duplicate(),
            final_response: None,
        }
    }

    /// Drive the initial INVITE one message further.
    pub fn process_invite_step(&mut self, drv: &mut InviteDriver, msg: Option<&SipMessage>) -> (r:
        Result<InviteAction, Error>)
        requires
            old(self)@.local_seq < u32::MAX,
        ensures
            process_invite_step_spec(
                old(self)@,
                old(drv)@,
                opt_msg_view(msg),
                final(self)@,
                final(drv)@,
                r,
            ),
    {
        let resp = match msg {
            None => {
                drv.done = true;
                proof {
                    assert(drv@ =~~= (InviteDriverView { done: true, ..old(drv)@ }));
                }
                return Ok(InviteAction::Stop);
            },
            Some(SipMessage::Request(_)) => {
                return Ok(InviteAction::Continue);
            },
            Some(SipMessage::Response(resp)) => resp,
        };
        let code = resp.status_code;
        if code == 100 {
            self.inner.transition(DialogState::Trying(self.inner.id.duplicate()));
            Ok(InviteAction::Continue)
        } else if code == 180 || code == 183 {
            self.inner.transition(DialogState::Early(self.inner.id.duplicate(), resp.duplicate()));
            Ok(InviteAction::Continue)
        } else if code == 200 {
            let ack = Request {
                method: Method::Ack,
                uri: self.inner.initial_request.uri.duplicate(),
                headers: resp.headers.duplicate(),
                body: Vec::new(),
                version: Version::V2,
            };
            proof {
                assert(ack@ =~~= ack_of(old(self)@.initial_request, resp@));
            }
            let nid = match DialogId::from_request(&ack) {
                Ok(nid) => nid,
                Err(e) => {
                    return Err(e);
                },
            };
            drv.dialog_id = nid;
            drv.final_response = Some(resp.duplicate());
            drv.done = true;
            self.inner.transition(DialogState::Confirmed(drv.dialog_id.duplicate()));
            proof {
                assert(drv@ =~~= (InviteDriverView {
                    dialog_id: request_dialog_id(ack_of(old(self)@.initial_request, resp@))->Some_0,
                    final_response: Some(resp@),
                    done: true,
                    auth_sent: old(drv)@.auth_sent,
                }));
            }
            Ok(InviteAction::SendAck(ack))
        } else if code == 603 || code == 487 {
            self.inner.transition(
                DialogState::Terminated(self.inner.id.duplicate(), Some(code)),
            );
            Ok(InviteAction::Continue)
        } else if code == 401 || code == 407 {
            if drv.auth_sent {
                self.inner.transition(
                    DialogState::Terminated(self.inner.id.duplicate(), Some(code)),
                );
                drv.done = true;
                proof {
                    assert(drv@ =~~= (InviteDriverView { done: true, ..old(drv)@ }));
                }
                Ok(InviteAction::Stop)
            } else {
                drv.auth_sent = true;
                proof {
                    assert(drv@ =~~= (InviteDriverView { auth_sent: true, ..old(drv)@ }));
                }
                if self.inner.credential.is_some() {
                    let ns = self.inner.increment_local_seq();
                    Ok(InviteAction::Authenticate(ns))
                } else {
                    self.inner.transition(
                        DialogState::Terminated(self.inner.id.duplicate(), Some(code)),
                    );
                    Ok(InviteAction::Continue)
                }
            }
        } else if 300 <= code && code < 700 {
            self.inner.transition(
                DialogState::Terminated(self.inner.id.duplicate(), Some(code)),
            );
            Ok(InviteAction::Continue)
        } else {
            Ok(InviteAction::Continue)
        }
    }

    /// The driver's outcome: the confirmed identity (which may carry a
    /// newly learnt to-tag) and the final response, when one arrived.
    pub fn process_invite_result(drv: InviteDriver) -> (r: (DialogId, Option<Response>))
        ensures
            r.0@ == drv@.dialog_id,
            opt_response_view(r.1) == drv@.final_response,
    {
        (drv.dialog_id, drv.final_response)
    }

    /// Build the BYE for a confirmed dialog; a dialog in any other state is
    /// left untouched. The caller drives the request with the in-dialog
    /// loop and then reports the outcome to `bye_finish`.
    pub fn bye(&mut self, via: String) -> (r: Option<Request>)
        requires
            old(self)@.local_seq < u32::MAX,
        ensures
            !(old(self)@.state is Confirmed) ==> r is None && final(self)@ == old(self)@,
            old(self)@.state is Confirmed ==> r is Some && r->Some_0@ == built_request(
                old(self)@,
                Method::Bye,
                effective_cseq(old(self)@, None),
                via@,
                Seq::empty(),
                None,
            ) && final(self)@ == (DialogInnerView {
                local_seq: effective_cseq(old(self)@, None),
                ..old(self)@
            }),
    {
        if !self.inner.is_confirmed() {
            return None;
        }
        Some(self.inner.make_request(Method::Bye, None, via, None, None))
    }

    /// Terminate the dialog with the status of the BYE's final response.
    pub fn bye_finish(&mut self, response: Option<&Response>)
        ensures
            transition_effect(
                old(self)@,
                DialogStateView::Terminated(
                    old(self)@.id,
                    match response {
                        Some(resp) => Some(resp.status_code),
                        None => None,
                    },
                ),
                final(self)@,
            ),
    {
        let status = match response {
            Some(resp) => Some(resp.status_code),
            None => None,
        };
        let id = self.inner.id.duplicate();
        self.inner.transition(DialogState::Terminated(id, status));
    }

    /// Build the CANCEL for the initial INVITE: the initial request with
    /// its method replaced, its CSeq number set to the current local
    /// counter without advancing it, and its body cleared.
    pub fn cancel(&self) -> (r: Result<Request, Error>)
        ensures
            has_kind(self@.initial_request.headers, HeaderKind::CSeq) ==> r is Ok
                && r->Ok_0@ == (RequestView {
                method: Method::Cancel,
                headers: self@.initial_request.headers.update(
                    first_kind_index(self@.initial_request.headers, HeaderKind::CSeq),
                    HeaderView::CSeq(
                        self@.local_seq,
                        first_of_kind(self@.initial_request.headers, HeaderKind::CSeq)->CSeq_1,
                    ),
                ),
                body: Seq::empty(),
                ..self@.initial_request
            }),
            !has_kind(self@.initial_request.headers, HeaderKind::CSeq) ==> r is Err && r->Err_0
                is ParseError,
    {
        let mut req = self.inner.initial_request.duplicate();
        req.method = Method::Cancel;
        let found = req.headers.set_first_cseq_seq(self.inner.get_local_seq());
        if !found {
            return Err(Error::ParseError(String::from_str("cseq")));
        }
        req.body = Vec::new();
        proof {
            assert(req@.headers =~= self@.initial_request.headers.update(
                first_kind_index(self@.initial_request.headers, HeaderKind::CSeq),
                HeaderView::CSeq(
                    self@.local_seq,
                    first_of_kind(self@.initial_request.headers, HeaderKind::CSeq)->CSeq_1,
                ),
            ));
        }
        Ok(req)
    }

    /// Build the INFO for a confirmed dialog, as `bye`. After the in-dialog
    /// loop, `info_finish` publishes the side-channel event.
    pub fn info(&mut self, via: String) -> (r: Option<Request>)
        requires
            old(self)@.local_seq < u32::MAX,
        ensures
            !(old(self)@.state is Confirmed) ==> r is None && final(self)@ == old(self)@,
            old(self)@.state is Confirmed ==> r is Some && r->Some_0@ == built_request(
                old(self)@,
                Method::Info,
                effective_cseq(old(self)@, None),
                via@,
                Seq::empty(),
                None,
            ) && final(self)@ == (DialogInnerView {
                local_seq: effective_cseq(old(self)@, None),
                ..old(self)@
            }),
    {
        if !self.inner.is_confirmed() {
            return None;
        }
        Some(self.inner.make_request(Method::Info, None, via, None, None))
    }

    /// Publish the `Info` side-channel event for a driven INFO request; the
    /// stored state stays what it was.
    pub fn info_finish(&mut self, request: Request)
        ensures
            transition_effect(
                old(self)@,
                DialogStateView::Info(old(self)@.id, request@),
                final(self)@,
            ),
            final(self)@.state == old(self)@.state,
    {
        let id = self.inner.id.duplicate();
        self.inner.transition(DialogState::Info(id, request));
    }

    /// Build an in-dialog INVITE for a confirmed dialog. It is driven like
    /// any other in-dialog request, and a success leaves the dialog
    /// confirmed: no finishing transition exists for it.
    pub fn reinvite(&mut self, via: String) -> (r: Option<Request>)
        requires
            old(self)@.local_seq < u32::MAX,
        ensures
            !(old(self)@.state is Confirmed) ==> r is None && final(self)@ == old(self)@,
            old(self)@.state is Confirmed ==> r is Some && r->Some_0@ == built_request(
                old(self)@,
                Method::Invite,
                effective_cseq(old(self)@, None),
                via@,
                Seq::empty(),
                None,
            ) && final(self)@ == (DialogInnerView {
                local_seq: effective_cseq(old(self)@, None),
                ..old(self)@
            }),
    {
        if !self.inner.is_confirmed() {
            return None;
        }
        Some(self.inner.make_request(Method::Invite, None, via, None, None))
    }

    /// Dispatch an inbound in-dialog request: reject a stale CSeq with 500,
    /// advance the remote counter otherwise, and in the confirmed state
    /// answer BYE and INFO with 200; a dialog error asks the caller to
    /// answer 405.
    pub fn handle(&mut self, request: &Request) -> (r: Result<InboundAction, Error>)
        ensures
            handle_spec(old(self)@, request@, final(self)@, r),
    {
        let pair = match request.headers.first_cseq() {
            Some(p) => p,
            None => {
                return Err(Error::ParseError(String::from_str("cseq")));
            },
        };
        let cs = pair.0;
        let m = request.method;
        if cs < self.inner.remote_seq {
            return Ok(InboundAction::Reply(500));
        }
        self.inner.remote_seq = cs;
        proof {
            assert(self@ =~~= (DialogInnerView { remote_seq: cs, ..old(self)@ }));
        }
        if self.inner.is_confirmed() {
            match m {
                Method::Bye => {
                    let id = self.inner.id.duplicate();
                    self.inner.transition(DialogState::Terminated(id, None));
                    Ok(InboundAction::Reply(200))
                },
                Method::Info => {
                    let id = self.inner.id.duplicate();
                    self.inner.transition(DialogState::Info(id, request.duplicate()));
                    Ok(InboundAction::Reply(200))
                },
                Method::Invite => Ok(InboundAction::Ignore),
                _ => Err(
                    Error::DialogError(String::from_str("invalid request"), self.inner.id.duplicate()),
                ),
            }
        } else {
            Ok(InboundAction::Ignore)
        }
    }
}

/// A dialog of either role. The server side lives outside this crate; the
/// client side is the one driven here.
pub enum Dialog {
    ClientInvite(ClientInviteDialog),
}

impl View for Dialog {
    type V = DialogInnerView;

    open spec fn view(&self) -> DialogInnerView {
        match self {
            Dialog::ClientInvite(d) => d@,
        }
    }
}

impl Dialog {
    pub fn id(&self) -> (r: DialogId)
        ensures
            r@ == self@.id,
    {
        match self {
            Dialog::ClientInvite(d) => d.id(),
        }
    }

    pub fn handle(&mut self, request: &Request) -> (r: Result<InboundAction, Error>)
        ensures
            handle_spec(old(self)@, request@, final(self)@, r),
    {
        match self {
            Dialog::ClientInvite(d) => d.handle(request),
        }
    }
}

} // verus!
