//! The dialog record and its state machine: identity and routing state, the
//! two sequence counters, the mid-dialog request and response builders, and
//! the decision logic of the in-dialog request loop.
//!
//! Every state change goes through [`DialogInner::transition`], which first
//! appends the event to the observation log (the observer channel) and only
//! then, for a persistent event on a live dialog, replaces the stored state.
use vstd::prelude::*;

use crate::message::{
    cseq_of, first_kind_index, first_of_kind, has_kind, headers_view, hkind, htext, texts_of_kind,
    Header, HeaderKind, HeaderView, Headers, Method, Request, RequestView, Response, ResponseView,
    SipMessage, SipMessageView, SipUri, SipUriView, Version,
};
use crate::rsip_ext::{
    extract_uri_from_contact, extracted_contact_uri, from_tag_of, from_tag_scan, to_tag_of,
    to_tag_scan, to_with_tag, to_with_tag_of,
};
use crate::{DialogId, DialogIdView, Error};

verus! {

/// Which side of the dialog this endpoint plays.
#[derive(Clone, Copy, Debug, PartialEq, Eq, Structural)]
pub enum TransactionRole {
    Client,
    Server,
}

/// A digest credential for answering 401/407 challenges. The computation
/// itself belongs to the authentication helper outside the core.
pub struct Credential {
    pub username: String,
    pub password: String,
}

#[verifier::ext_equal]
pub ghost struct CredentialView {
    pub username: Seq<char>,
    pub password: Seq<char>,
}

impl View for Credential {
    type V = CredentialView;

    open spec fn view(&self) -> CredentialView {
        CredentialView { username: self.username@, password: self.password@ }
    }
}

/// A dialog event: the persistent states of the call, and the side-channel
/// notifications (`Updated`, `Notify`, `Info`) that are published to the
/// observer but never replace the stored state.
pub enum DialogState {
    Calling(DialogId),
    Trying(DialogId),
    Early(DialogId, Response),
    WaitAck(DialogId, Response),
    Confirmed(DialogId),
    Updated(DialogId, Request),
    Notify(DialogId, Request),
    Info(DialogId, Request),
    Terminated(DialogId, Option<u16>),
}

#[verifier::ext_equal]
pub ghost enum DialogStateView {
    Calling(DialogIdView),
    Trying(DialogIdView),
    Early(DialogIdView, ResponseView),
    WaitAck(DialogIdView, ResponseView),
    Confirmed(DialogIdView),
    Updated(DialogIdView, RequestView),
    Notify(DialogIdView, RequestView),
    Info(DialogIdView, RequestView),
    Terminated(DialogIdView, Option<u16>),
}

impl View for DialogState {
    type V = DialogStateView;

    open spec fn view(&self) -> DialogStateView {
        match self {
            DialogState::Calling(id) => DialogStateView::Calling(id@),
            DialogState::Trying(id) => DialogStateView::Trying(id@),
            DialogState::Early(id, r) => DialogStateView::Early(id@, r@),
            DialogState::WaitAck(id, r) => DialogStateView::WaitAck(id@, r@),
            DialogState::Confirmed(id) => DialogStateView::Confirmed(id@),
            DialogState::Updated(id, r) => DialogStateView::Updated(id@, r@),
            DialogState::Notify(id, r) => DialogStateView::Notify(id@, r@),
            DialogState::Info(id, r) => DialogStateView::Info(id@, r@),
            DialogState::Terminated(id, c) => DialogStateView::Terminated(id@, *c),
        }
    }
}

/// The events that are published but never stored.
pub open spec fn is_side_channel(s: DialogStateView) -> bool {
    s is Updated || s is Notify || s is Info
}

/// The observations that must never follow a `Terminated` one.
pub open spec fn is_reviving(s: DialogStateView) -> bool {
    s is Confirmed || s is Early || s is Trying
}

impl DialogState {
    pub fn is_confirmed(&self) -> (r: bool)
        ensures
            r == (self@ is Confirmed),
    {
        matches!(self, DialogState::Confirmed(_))
    }

    /// The event's name, as a log line would show it.
    pub fn name(&self) -> (r: &'static str)
        ensures
            self@ is Calling ==> r@ == "Calling"@,
            self@ is Trying ==> r@ == "Trying"@,
            self@ is Early ==> r@ == "Early"@,
            self@ is WaitAck ==> r@ == "WaitAck"@,
            self@ is Confirmed ==> r@ == "Confirmed"@,
            self@ is Updated ==> r@ == "Updated"@,
            self@ is Notify ==> r@ == "Notify"@,
            self@ is Info ==> r@ == "Info"@,
            self@ is Terminated ==> r@ == "Terminated"@,
    {
        match self {
            DialogState::Calling(_) => "Calling",
            DialogState::Trying(_) => "Trying",
            DialogState::Early(_, _) => "Early",
            DialogState::WaitAck(_, _) => "WaitAck",
            DialogState::Confirmed(_) => "Confirmed",
            DialogState::Updated(_, _) => "Updated",
            DialogState::Notify(_, _) => "Notify",
            DialogState::Info(_, _) => "Info",
            DialogState::Terminated(_, _) => "Terminated",
        }
    }

    pub fn duplicate(&self) -> (r: DialogState)
        ensures
            r@ == self@,
    {
        match self {
            DialogState::Calling(id) => DialogState::Calling(id.duplicate()),
            DialogState::Trying(id) => DialogState::Trying(id.duplicate()),
            DialogState::Early(id, r) => DialogState::Early(id.duplicate(), r.duplicate()),
            DialogState::WaitAck(id, r) => DialogState::WaitAck(id.duplicate(), r.duplicate()),
            DialogState::Confirmed(id) => DialogState::Confirmed(id.duplicate()),
            DialogState::Updated(id, r) => DialogState::Updated(id.duplicate(), r.duplicate()),
            DialogState::Notify(id, r) => DialogState::Notify(id.duplicate(), r.duplicate()),
            DialogState::Info(id, r) => DialogState::Info(id.duplicate(), r.duplicate()),
            DialogState::Terminated(id, c) => DialogState::Terminated(id.duplicate(), *c),
        }
    }
}

/// View of an observation log.
pub open spec fn states_view(v: Seq<DialogState>) -> Seq<DialogStateView> {
    v.map_values(|s: DialogState| s@)
}

/// The shared dialog record.
pub struct DialogInner {
    pub role: TransactionRole,
    pub id: DialogId,
    pub state: DialogState,
    pub local_seq: u32,
    pub remote_seq: u32,
    pub local_contact: Option<SipUri>,
    pub remote_uri: SipUri,
    pub from: String,
    pub to: String,
    pub credential: Option<Credential>,
    pub route_set: Vec<String>,
    pub user_agent: String,
    pub initial_request: Request,
    pub observations: Vec<DialogState>,
}

#[verifier::ext_equal]
pub ghost struct DialogInnerView {
    pub role: TransactionRole,
    pub id: DialogIdView,
    pub state: DialogStateView,
    pub local_seq: u32,
    pub remote_seq: u32,
    pub local_contact: Option<SipUriView>,
    pub remote_uri: SipUriView,
    pub from: Seq<char>,
    pub to: Seq<char>,
    pub credential: Option<CredentialView>,
    pub route_set: Seq<Seq<char>>,
    pub user_agent: Seq<char>,
    pub initial_request: RequestView,
    pub observations: Seq<DialogStateView>,
}

pub open spec fn opt_uri_view(u: Option<SipUri>) -> Option<SipUriView> {
    match u {
        Some(x) => Some(x@),
        None => None,
    }
}

pub open spec fn opt_credential_view(c: Option<Credential>) -> Option<CredentialView> {
    match c {
        Some(x) => Some(x@),
        None => None,
    }
}

/// View of a route set.
pub open spec fn strings_view(v: Seq<String>) -> Seq<Seq<char>> {
    v.map_values(|s: String| s@)
}

impl View for DialogInner {
    type V = DialogInnerView;

    open spec fn view(&self) -> DialogInnerView {
        DialogInnerView {
            role: self.role,
            id: self.id@,
            state: self.state@,
            local_seq: self.local_seq,
            remote_seq: self.remote_seq,
            local_contact: opt_uri_view(self.local_contact),
            remote_uri: self.remote_uri@,
            from: self.from@,
            to: self.to@,
            credential: opt_credential_view(self.credential),
            route_set: strings_view(self.route_set@),
            user_agent: self.user_agent@,
            initial_request: self.initial_request@,
            observations: states_view(self.observations@),
        }
    }
}

/// What one call of `transition` does: the event is always appended to the
/// observation log before the stored state can change; a side-channel event
/// never changes the stored state; once the stored state is `Terminated`,
/// nothing is published or stored any more.
pub open spec fn transition_effect(
    pre: DialogInnerView,
    ev: DialogStateView,
    post: DialogInnerView,
) -> bool {
    &&& post == (DialogInnerView { state: post.state, observations: post.observations, ..pre })
    &&& if is_side_channel(ev) {
        post.observations == pre.observations.push(ev) && post.state == pre.state
    } else if pre.state is Terminated {
        post.observations == pre.observations && post.state == pre.state
    } else {
        post.observations == pre.observations.push(ev) && post.state == ev
    }
}

/// No observation after a `Terminated` one announces a live state again.
pub open spec fn no_revival(obs: Seq<DialogStateView>) -> bool {
    forall|i: int, j: int|
        0 <= i < j < obs.len() && (#[trigger] obs[i]) is Terminated ==> !is_reviving(
            #[trigger] obs[j],
        )
}

/// Whether the log holds a `Terminated` observation.
pub open spec fn has_terminated_obs(obs: Seq<DialogStateView>) -> bool {
    exists|i: int| 0 <= i < obs.len() && (#[trigger] obs[i]) is Terminated
}

/// Well-formedness of the record: the log never revives a terminated
/// dialog, and a published termination is also the stored state.
pub open spec fn inner_wf(d: DialogInnerView) -> bool {
    &&& no_revival(d.observations)
    &&& has_terminated_obs(d.observations) ==> d.state is Terminated
}

/// One `transition` keeps the record well-formed.
pub proof fn lemma_transition_preserves_wf(
    pre: DialogInnerView,
    ev: DialogStateView,
    post: DialogInnerView,
)
    requires
        inner_wf(pre),
        transition_effect(pre, ev, post),
    ensures
        inner_wf(post),
{
    if is_side_channel(ev) || !(pre.state is Terminated) {
        let obs = pre.observations.push(ev);
        assert(forall|j: int| 0 <= j < pre.observations.len() ==> obs[j] == pre.observations[j]);
        assert(no_revival(post.observations)) by {
            if is_side_channel(ev) {
            } else {
            }
        }
        if has_terminated_obs(post.observations) && !(post.state is Terminated) {
            let i = choose|i: int|
                0 <= i < post.observations.len() && (#[trigger] post.observations[i]) is Terminated;
            if i < pre.observations.len() {
                assert(has_terminated_obs(pre.observations));
            } else {
                assert(post.observations[i] == ev);
            }
            assert(false);
        }
    }
}

impl DialogInner {
    /// Publish a dialog event: append it to the observation log, and then,
    /// when it is persistent and the dialog is not already terminated, store
    /// it as the current state. The append comes first, so an observer sees
    /// every stored state before any reader of `state` does.
    pub fn transition(&mut self, state: DialogState)
        ensures
            transition_effect(old(self)@, state@, final(self)@),
    {
        let ghost ev = state@;
        match &state {
            DialogState::Updated(_, _) | DialogState::Notify(_, _) | DialogState::Info(_, _) => {
                self.observations.push(state);
                proof {
                    assert(states_view(self.observations@) =~= old(
                        self,
                    )@.observations.push(ev));
                    assert(self@ =~~= (DialogInnerView {
                        observations: self@.observations,
                        ..old(self)@
                    }));
                }
                return ;
            },
            _ => {},
        }
        if matches!(&self.state, DialogState::Terminated(_, _)) {
            proof {
                assert(self@ =~~= old(self)@);
            }
            return ;
        }
        let stored = state.duplicate();
        self.observations.push(state);
        self.state = stored;
        proof {
            assert(states_view(self.observations@) =~= old(self)@.observations.push(ev));
            assert(self@ =~~= (DialogInnerView {
                state: ev,
                observations: old(self)@.observations.push(ev),
                ..old(self)@
            }));
        }
    }

    pub fn is_confirmed(&self) -> (r: bool)
        ensures
            r == (self@.state is Confirmed),
    {
        self.state.is_confirmed()
    }

    pub fn get_local_seq(&self) -> (r: u32)
        ensures
            r == self@.local_seq,
    {
        self.local_seq
    }

    /// Advance the local CSeq counter and hand out its new value.
    pub fn increment_local_seq(&mut self) -> (r: u32)
        requires
            old(self)@.local_seq < u32::MAX,
        ensures
            r == old(self)@.local_seq + 1,
            final(self)@ == (DialogInnerView { local_seq: r, ..old(self)@ }),
    {
        self.local_seq = self.local_seq + 1;
        let r = self.local_seq;
        proof {
            assert(self@ =~~= (DialogInnerView { local_seq: r, ..old(self)@ }));
        }
        r
    }

    /// Advance the highest-remote-CSeq counter and hand out its new value.
    pub fn increment_remove_seq(&mut self) -> (r: u32)
        requires
            old(self)@.remote_seq < u32::MAX,
        ensures
            r == old(self)@.remote_seq + 1,
            final(self)@ == (DialogInnerView { remote_seq: r, ..old(self)@ }),
    {
        self.remote_seq = self.remote_seq + 1;
        let r = self.remote_seq;
        proof {
            assert(self@ =~~= (DialogInnerView { remote_seq: r, ..old(self)@ }));
        }
        r
    }

    /// Fill the remote tag once: the identity's `to_tag` and the stored To
    /// header value change only when the tag is still empty; a dialog whose
    /// tag is set keeps it for its whole lifetime.
    pub fn update_remote_tag(&mut self, tag: &str) -> (r: Result<(), Error>)
        ensures
            old(self)@.id.to_tag.len() > 0 ==> r is Ok && final(self)@ == old(self)@,
            old(self)@.id.to_tag.len() == 0 ==> match to_tag_of(old(self)@.to) {
                Some(_) => r is Ok && final(self)@ == (DialogInnerView {
                    id: DialogIdView { to_tag: tag@, ..old(self)@.id },
                    to: to_with_tag_of(old(self)@.to, tag@),
                    ..old(self)@
                }),
                None => r is Err && r->Err_0 is ParseError && final(self)@ == old(self)@,
            },
    {
        if self.id.to_tag.as_str().unicode_len() > 0 {
            proof {
                assert(self@ =~~= old(self)@);
            }
            return Ok(());
        }
        match to_with_tag(self.to.as_str(), tag) {
            Some(new_to) => {
                self.to = new_to;
                self.id.to_tag = String::from_str(tag);
                proof {
                    assert(self@ =~~= (DialogInnerView {
                        id: DialogIdView { to_tag: tag@, ..old(self)@.id },
                        to: to_with_tag_of(old(self)@.to, tag@),
                        ..old(self)@
                    }));
                }
                Ok(())
            },
            None => {
                proof {
                    assert(self@ =~~= old(self)@);
                }
                Err(Error::ParseError(String::from_str("to header")))
            },
        }
    }
}

pub open spec fn opt_headers_view(h: Option<Headers>) -> Seq<HeaderView> {
    match h {
        Some(x) => x@,
        None => Seq::empty(),
    }
}

pub open spec fn opt_bytes_view(b: Option<Vec<u8>>) -> Option<Seq<u8>> {
    match b {
        Some(x) => Some(x@),
        None => None,
    }
}

pub open spec fn bytes_or_empty(b: Option<Seq<u8>>) -> Seq<u8> {
    match b {
        Some(x) => x,
        None => Seq::empty(),
    }
}

/// The CSeq a mid-dialog request gets: the caller's when supplied, else the
/// next value of the local counter.
pub open spec fn effective_cseq(d: DialogInnerView, cseq: Option<u32>) -> u32 {
    match cseq {
        Some(n) => n,
        None => (d.local_seq + 1) as u32,
    }
}

pub open spec fn route_headers(rs: Seq<Seq<char>>) -> Seq<HeaderView> {
    rs.map_values(|r: Seq<char>| HeaderView::Route(r))
}

/// The header list of a mid-dialog request, in the order the builder
/// assembles it: the caller's extra headers, then Via, Call-ID, From, To,
/// CSeq, User-Agent, the Contact when one is configured, the stored route
/// set, Max-Forwards 70, and a Content-Length when a body is supplied.
pub open spec fn request_headers_spec(
    d: DialogInnerView,
    method: Method,
    seq: u32,
    via: Seq<char>,
    extra: Seq<HeaderView>,
    body: Option<Seq<u8>>,
) -> Seq<HeaderView> {
    let base = extra + seq![
        HeaderView::Via(via),
        HeaderView::CallId(d.id.call_id),
        HeaderView::From(d.from),
        HeaderView::To(d.to),
        HeaderView::CSeq(seq, method),
        HeaderView::UserAgent(d.user_agent),
    ];
    let with_contact = match d.local_contact {
        Some(u) => base.push(HeaderView::Contact(crate::message::uri_text(u))),
        None => base,
    };
    let with_routes = with_contact + route_headers(d.route_set);
    let with_mf = with_routes.push(HeaderView::MaxForwards(70));
    match body {
        Some(b) => with_mf.push(HeaderView::ContentLength(b.len() as u32)),
        None => with_mf,
    }
}

/// The mid-dialog request the builder produces.
pub open spec fn built_request(
    d: DialogInnerView,
    method: Method,
    seq: u32,
    via: Seq<char>,
    extra: Seq<HeaderView>,
    body: Option<Seq<u8>>,
) -> RequestView {
    RequestView {
        method: method,
        uri: d.remote_uri,
        headers: request_headers_spec(d, method, seq, via, extra, body),
        body: bytes_or_empty(body),
        version: Version::V2,
    }
}

/// What the response builder makes of one request header: Record-Route,
/// Via, From, CSeq and Call-ID are cloned; a To header is cloned, with the
/// dialog's tag injected when the response is not 100 and the value has no
/// tag yet, and skipped when its value does not parse; everything else is
/// left out.
pub open spec fn response_header_clone(h: HeaderView, status: u16, to_tag: Seq<char>) -> Seq<
    HeaderView,
> {
    match h {
        HeaderView::RecordRoute(_) => seq![h],
        HeaderView::Via(_) => seq![h],
        HeaderView::From(_) => seq![h],
        HeaderView::CSeq(_, _) => seq![h],
        HeaderView::CallId(_) => seq![h],
        HeaderView::To(v) => match to_tag_of(v) {
            None => Seq::empty(),
            Some(t) => if t is Some || status == 100 {
                seq![HeaderView::To(v)]
            } else {
                seq![HeaderView::To(to_with_tag_of(v, to_tag))]
            },
        },
        _ => Seq::empty(),
    }
}

pub open spec fn response_cloned_headers(
    hs: Seq<HeaderView>,
    status: u16,
    to_tag: Seq<char>,
) -> Seq<HeaderView>
    decreases hs.len(),
{
    if hs.len() == 0 {
        Seq::empty()
    } else {
        response_cloned_headers(hs.drop_last(), status, to_tag) + response_header_clone(
            hs.last(),
            status,
            to_tag,
        )
    }
}

/// Each extra header pushed uniquely, in order: any earlier header of the
/// same kind is dropped and the new one appended.
pub open spec fn unique_push_all(s: Seq<HeaderView>, extras: Seq<HeaderView>) -> Seq<HeaderView>
    decreases extras.len(),
{
    if extras.len() == 0 {
        s
    } else {
        crate::message::keep_other_kinds(
            unique_push_all(s, extras.drop_last()),
            hkind(extras.last()),
        ).push(extras.last())
    }
}

/// The response the builder produces for `request`.
pub open spec fn response_spec(
    d: DialogInnerView,
    req: RequestView,
    status: u16,
    extras: Seq<HeaderView>,
    body: Option<Seq<u8>>,
) -> ResponseView {
    let start = match d.local_contact {
        Some(u) => seq![HeaderView::Contact(crate::message::uri_text(u))],
        None => Seq::<HeaderView>::empty(),
    };
    let cloned = start + response_cloned_headers(req.headers, status, d.id.to_tag);
    let with_extras = unique_push_all(cloned, extras);
    let with_len = match body {
        Some(b) => with_extras.push(HeaderView::ContentLength(b.len() as u32)),
        None => with_extras,
    };
    let hs = crate::message::keep_other_kinds(with_len, HeaderKind::UserAgent).push(
        HeaderView::UserAgent(d.user_agent),
    );
    ResponseView {
        status_code: status,
        headers: hs,
        body: bytes_or_empty(body),
        version: req.version,
    }
}

impl DialogInner {
    /// Build a mid-dialog request: CSeq from the
    /// caller or from the advanced local counter, the dialog's identity and
    /// routing headers, and the supplied Via and body.
    pub fn make_request(
        &mut self,
        method: Method,
        cseq: Option<u32>,
        via: String,
        headers: Option<Headers>,
        body: Option<Vec<u8>>,
    ) -> (r: Request)
        requires
            cseq is None ==> old(self)@.local_seq < u32::MAX,
            body is Some ==> body->Some_0@.len() <= u32::MAX,
        ensures
            r@ == built_request(
                old(self)@,
                method,
                effective_cseq(old(self)@, cseq),
                via@,
                opt_headers_view(headers),
                opt_bytes_view(body),
            ),
            cseq is Some ==> final(self)@ == old(self)@,
            cseq is None ==> final(self)@ == (DialogInnerView {
                local_seq: effective_cseq(old(self)@, cseq),
                ..old(self)@
            }),
    {
        let seq_n = match cseq {
            Some(n) => n,
            None => self.increment_local_seq(),
        };
        let mut hs = match headers {
            Some(h) => h,
            None => Headers::new(),
        };
        let ghost extra = hs@;
        hs.push(Header::Via(via));
        hs.push(Header::CallId(self.id.call_id.clone()));
        hs.push(Header::From(self.from.clone()));
        hs.push(Header::To(self.to.clone()));
        hs.push(Header::CSeq(seq_n, method));
        hs.push(Header::UserAgent(self.user_agent.clone()));
        let ghost base = extra + seq![
            HeaderView::Via(via@),
            HeaderView::CallId(old(self)@.id.call_id),
            HeaderView::From(old(self)@.from),
            HeaderView::To(old(self)@.to),
            HeaderView::CSeq(seq_n, method),
            HeaderView::UserAgent(old(self)@.user_agent),
        ];
        proof {
            assert(hs@ =~= base);
        }
        match &self.local_contact {
            Some(u) => {
                let text = u.to_text();
                hs.push(Header::Contact(text));
            },
            None => {},
        }
        let ghost with_contact = match old(self)@.local_contact {
            Some(u) => base.push(HeaderView::Contact(crate::message::uri_text(u))),
            None => base,
        };
        proof {
            assert(hs@ =~= with_contact);
        }
        let mut i: usize = 0;
        while i < self.route_set.len()
            invariant
                i <= self.route_set@.len(),
                strings_view(self.route_set@) == old(self)@.route_set,
                hs@ =~= with_contact + route_headers(old(self)@.route_set.subrange(0, i as int)),
            decreases self.route_set@.len() - i,
        {
            hs.push(Header::Route(self.route_set[i].clone()));
            i = i + 1;
            proof {
                assert(hs@ =~= with_contact + route_headers(
                    old(self)@.route_set.subrange(0, i as int),
                ));
            }
        }
        proof {
            assert(old(self)@.route_set.subrange(0, old(self)@.route_set.len() as int) =~= old(
                self,
            )@.route_set);
        }
        hs.push(Header::MaxForwards(70));
        let body_vec = match body {
            Some(b) => {
                hs.push(Header::ContentLength(b.len() as u32));
                b
            },
            None => Vec::new(),
        };
        let r = Request {
            method,
            uri: self.remote_uri.duplicate(),
            headers: hs,
            body: body_vec,
            version: Version::V2,
        };
        proof {
            assert(r@.headers =~= request_headers_spec(
                old(self)@,
                method,
                effective_cseq(old(self)@, cseq),
                via@,
                opt_headers_view(headers),
                opt_bytes_view(body),
            ));
            assert(r@ =~~= built_request(
                old(self)@,
                method,
                effective_cseq(old(self)@, cseq),
                via@,
                opt_headers_view(headers),
                opt_bytes_view(body),
            ));
            if cseq is Some {
                assert(self@ =~~= old(self)@);
            }
        }
        r
    }

    /// Build a response to `request`: clone the
    /// routing headers in encounter order with the To tag injected for
    /// non-100 responses, push the caller's extra headers uniquely, add a
    /// Content-Length for a body, and a unique User-Agent.
    pub fn make_response(
        &self,
        request: &Request,
        status: u16,
        headers: Option<Headers>,
        body: Option<Vec<u8>>,
    ) -> (r: Response)
        requires
            body is Some ==> body->Some_0@.len() <= u32::MAX,
        ensures
            r@ == response_spec(self@, request@, status, opt_headers_view(headers), opt_bytes_view(body)),
    {
        let mut hs = Headers::new();
        match &self.local_contact {
            Some(u) => {
                let text = u.to_text();
                hs.push(Header::Contact(text));
            },
            None => {},
        }
        let ghost start = match self@.local_contact {
            Some(u) => seq![HeaderView::Contact(crate::message::uri_text(u))],
            None => Seq::<HeaderView>::empty(),
        };
        proof {
            assert(hs@ =~= start);
        }
        let n = request.headers.len();
        let mut i: usize = 0;
        while i < n
            invariant
                n == request@.headers.len(),
                i <= n,
                hs@ =~= start + response_cloned_headers(
                    request@.headers.subrange(0, i as int),
                    status,
                    self@.id.to_tag,
                ),
            decreases n - i,
        {
            let ghost pre = request@.headers.subrange(0, i as int);
            let ghost cur = request@.headers.subrange(0, i as int + 1);
            proof {
                assert(cur.drop_last() =~= pre);
                assert(cur.last() == request@.headers[i as int]);
            }
            let h = request.headers.get(i);
            match h {
                Header::RecordRoute(s) => {
                    hs.push(Header::RecordRoute(s.clone()));
                },
                Header::Via(s) => {
                    hs.push(Header::Via(s.clone()));
                },
                Header::From(s) => {
                    hs.push(Header::From(s.clone()));
                },
                Header::CSeq(sn, m) => {
                    hs.push(Header::CSeq(*sn, *m));
                },
                Header::CallId(s) => {
                    hs.push(Header::CallId(s.clone()));
                },
                Header::To(v) => {
                    match to_tag_scan(v.as_str()) {
                        None => {},
                        Some(Some(_)) => {
                            hs.push(Header::To(v.clone()));
                        },
                        Some(None) => {
                            if status == 100 {
                                hs.push(Header::To(v.clone()));
                            } else {
                                match to_with_tag(v.as_str(), self.id.to_tag.as_str()) {
                                    Some(s2) => {
                                        hs.push(Header::To(s2));
                                    },
                                    None => {
                                        proof {
                                            assert(false);
                                        }
                                    },
                                }
                            }
                        },
                    }
                },
                _ => {},
            }
            i = i + 1;
            proof {
                assert(hs@ =~= start + response_cloned_headers(
                    request@.headers.subrange(0, i as int),
                    status,
                    self@.id.to_tag,
                ));
            }
        }
        proof {
            assert(request@.headers.subrange(0, request@.headers.len() as int) =~= request@.headers);
        }
        let ghost cloned = start + response_cloned_headers(
            request@.headers,
            status,
            self@.id.to_tag,
        );
        match &headers {
            Some(ex) => {
                let m = ex.len();
                let mut j: usize = 0;
                while j < m
                    invariant
                        m == ex@.len(),
                        j <= m,
                        hs@ =~= unique_push_all(cloned, ex@.subrange(0, j as int)),
                    decreases m - j,
                {
                    proof {
                        assert(ex@.subrange(0, j as int + 1).drop_last() =~= ex@.subrange(
                            0,
                            j as int,
                        ));
                        assert(ex@.subrange(0, j as int + 1).last() == ex@[j as int]);
                    }
                    let item = ex.get(j).duplicate();
                    hs.unique_push(item);
                    j = j + 1;
                    proof {
                        assert(hs@ =~= unique_push_all(cloned, ex@.subrange(0, j as int)));
                    }
                }
                proof {
                    assert(ex@.subrange(0, ex@.len() as int) =~= ex@);
                }
            },
            None => {},
        }
        let body_vec = match body {
            Some(b) => {
                hs.push(Header::ContentLength(b.len() as u32));
                b
            },
            None => Vec::new(),
        };
        hs.unique_push(Header::UserAgent(self.user_agent.clone()));
        let r = Response { status_code: status, headers: hs, body: body_vec, version: request.version };
        proof {
            assert(r@.headers =~= response_spec(
                self@,
                request@,
                status,
                opt_headers_view(headers),
                opt_bytes_view(body),
            ).headers);
            assert(r@ =~~= response_spec(
                self@,
                request@,
                status,
                opt_headers_view(headers),
                opt_bytes_view(body),
            ));
        }
        r
    }
}

/// The route set a new dialog stores: the Record-Route values of the
/// dialog-establishing request, reversed for the client side as RFC 3261
/// directs, in request order for the server side.
pub open spec fn initial_route_set(req: RequestView, role: TransactionRole) -> Seq<Seq<char>> {
    let rr = texts_of_kind(req.headers, HeaderKind::RecordRoute);
    if role == TransactionRole::Client {
        rr.reverse()
    } else {
        rr
    }
}

/// The record `DialogInner::new` derives from an initial request, `None`
/// when a required header is missing or does not parse. The client seeds
/// its local counter from the request's CSeq; the server seeds its remote
/// counter from it; the other counter starts at zero.
pub open spec fn new_inner_spec(
    role: TransactionRole,
    id: DialogIdView,
    req: RequestView,
    user_agent: Seq<char>,
    credential: Option<CredentialView>,
    local_contact: Option<SipUriView>,
) -> Option<DialogInnerView> {
    if cseq_of(req.headers) is None || !has_kind(req.headers, HeaderKind::From) || !has_kind(
        req.headers,
        HeaderKind::To,
    ) {
        None
    } else {
        let cseq = cseq_of(req.headers)->Some_0.0;
        let from_v = htext(first_of_kind(req.headers, HeaderKind::From));
        let to_v = htext(first_of_kind(req.headers, HeaderKind::To));
        if from_tag_of(from_v) is None || to_tag_of(to_v) is None {
            None
        } else {
            let to_final = if to_tag_of(to_v)->Some_0 is None {
                to_with_tag_of(to_v, id.to_tag)
            } else {
                to_v
            };
            let remote = if role == TransactionRole::Client {
                Some(req.uri)
            } else if !has_kind(req.headers, HeaderKind::Contact) {
                None
            } else {
                extracted_contact_uri(htext(first_of_kind(req.headers, HeaderKind::Contact)))
            };
            match remote {
                None => None,
                Some(ru) => Some(
                    DialogInnerView {
                        role: role,
                        id: id,
                        state: DialogStateView::Calling(id),
                        local_seq: if role == TransactionRole::Client {
                            cseq
                        } else {
                            0
                        },
                        remote_seq: if role == TransactionRole::Client {
                            0
                        } else {
                            cseq
                        },
                        local_contact: local_contact,
                        remote_uri: ru,
                        from: if role == TransactionRole::Client {
                            from_v
                        } else {
                            to_final
                        },
                        to: if role == TransactionRole::Client {
                            to_final
                        } else {
                            from_v
                        },
                        credential: credential,
                        route_set: initial_route_set(req, role),
                        user_agent: user_agent,
                        initial_request: req,
                        observations: Seq::empty(),
                    },
                ),
            }
        }
    }
}

impl DialogInner {
    /// Derive a dialog record from its establishing request: remote URI by
    /// role, From/To swapped for the server,
    /// the dialog tag injected into To when absent, the Record-Route values
    /// as route set, and the sequence counters seeded by role.
    pub fn new(
        role: TransactionRole,
        id: DialogId,
        initial_request: Request,
        user_agent: String,
        credential: Option<Credential>,
        local_contact: Option<SipUri>,
    ) -> (r: Result<DialogInner, Error>)
        ensures
            match new_inner_spec(
                role,
                id@,
                initial_request@,
                user_agent@,
                opt_credential_view(credential),
                opt_uri_view(local_contact),
            ) {
                Some(d) => r is Ok && r->Ok_0@ == d,
                None => r is Err && r->Err_0 is ParseError,
            },
            r is Ok ==> inner_wf(r->Ok_0@),
    {
        let cseq = match initial_request.headers.first_cseq() {
            Some(p) => p.0,
            None => {
                return Err(Error::ParseError(String::from_str("cseq")));
            },
        };
        let from_value = match initial_request.headers.first_text(HeaderKind::From) {
            Some(s) => s.clone(),
            None => {
                return Err(Error::ParseError(String::from_str("from")));
            },
        };
        let to_value = match initial_request.headers.first_text(HeaderKind::To) {
            Some(s) => s.clone(),
            None => {
                return Err(Error::ParseError(String::from_str("to")));
            },
        };
        proof {
            crate::message::lemma_first_kind_index(initial_request@.headers, HeaderKind::From);
            crate::message::lemma_first_kind_index(initial_request@.headers, HeaderKind::To);
        }
        if from_tag_scan(from_value.as_str()).is_none() {
            return Err(Error::ParseError(String::from_str("from header")));
        }
        let to_final = match to_tag_scan(to_value.as_str()) {
            None => {
                return Err(Error::ParseError(String::from_str("to header")));
            },
            Some(Some(_)) => to_value,
            Some(None) => match to_with_tag(to_value.as_str(), id.to_tag.as_str()) {
                Some(s) => s,
                None => {
                    proof {
                        assert(false);
                    }
                    vstd::pervasive::unreached()
                },
            },
        };
        let remote_uri = if matches!(role, TransactionRole::Client) {
            initial_request.uri.duplicate()
        } else {
            let contact_value = match initial_request.headers.first_text(HeaderKind::Contact) {
                Some(s) => s.clone(),
                None => {
                    return Err(Error::ParseError(String::from_str("contact")));
                },
            };
            proof {
                crate::message::lemma_first_kind_index(
                    initial_request@.headers,
                    HeaderKind::Contact,
                );
            }
            match extract_uri_from_contact(contact_value.as_str()) {
                Ok(u) => u,
                Err(e) => {
                    return Err(e);
                },
            }
        };
        let rr = initial_request.headers.collect_texts(HeaderKind::RecordRoute);
        let route_set = if matches!(role, TransactionRole::Client) {
            crate::message::reverse_strings(&rr)
        } else {
            rr
        };
        let (from, to) = if matches!(role, TransactionRole::Client) {
            (from_value, to_final)
        } else {
            (to_final, from_value)
        };
        let (local_seq, remote_seq): (u32, u32) = if matches!(role, TransactionRole::Client) {
            (cseq, 0)
        } else {
            (0, cseq)
        };
        let state = DialogState::Calling(id.duplicate());
        let inner = DialogInner {
            role,
            id,
            state,
            local_seq,
            remote_seq,
            local_contact,
            remote_uri,
            from,
            to,
            credential,
            route_set,
            user_agent,
            initial_request,
            observations: Vec::new(),
        };
        proof {
            assert(states_view(inner.observations@) =~= Seq::<DialogStateView>::empty());
            assert(inner@ =~~= new_inner_spec(
                role,
                inner.id@,
                inner.initial_request@,
                inner.user_agent@,
                opt_credential_view(inner.credential),
                opt_uri_view(inner.local_contact),
            )->Some_0);
        }
        Ok(inner)
    }
}

/// The loop state of an in-dialog request:
/// which method is being driven, whether an authentication retry was
/// already sent, whether the loop is over, and the final response if one
/// arrived.
pub struct RequestDriver {
    pub method: Method,
    pub auth_sent: bool,
    pub done: bool,
    pub final_response: Option<Response>,
}

#[verifier::ext_equal]
pub ghost struct RequestDriverView {
    pub method: Method,
    pub auth_sent: bool,
    pub done: bool,
    pub final_response: Option<ResponseView>,
}

pub open spec fn opt_response_view(r: Option<Response>) -> Option<ResponseView> {
    match r {
        Some(x) => Some(x@),
        None => None,
    }
}

impl View for RequestDriver {
    type V = RequestDriverView;

    open spec fn view(&self) -> RequestDriverView {
        RequestDriverView {
            method: self.method,
            auth_sent: self.auth_sent,
            done: self.done,
            final_response: opt_response_view(self.final_response),
        }
    }
}

/// What the caller of the request loop must do next.
pub enum RequestAction {
    /// Keep receiving from the transaction.
    Continue,
    /// Rebuild the transaction with the credential and this CSeq, send it,
    /// and keep receiving.
    Authenticate(u32),
    /// The loop is over.
    Stop,
}

pub open spec fn opt_msg_view(m: Option<&SipMessage>) -> Option<SipMessageView> {
    match m {
        Some(x) => Some(x@),
        None => None,
    }
}

/// The request headers with the first Route header consumed.
pub open spec fn popped_route(hs: Seq<HeaderView>) -> Seq<HeaderView> {
    if has_kind(hs, HeaderKind::Route) {
        hs.remove(first_kind_index(hs, HeaderKind::Route))
    } else {
        hs
    }
}

/// One turn of the in-dialog request loop, as a relation between the
/// record, the driver and the delivered message: 100 is ignored; 180/183
/// publish `Early`; a 401/407 is answered once through the credential (a
/// CANCEL reusing the current CSeq, every other method advancing it),
/// terminates the dialog when it repeats or no credential is set; any other
/// response ends the loop as the final response; a request or the end of
/// the stream ends the loop without one.
pub open spec fn do_request_step_spec(
    pre: DialogInnerView,
    drv_pre: RequestDriverView,
    msg: Option<SipMessageView>,
    post: DialogInnerView,
    drv_post: RequestDriverView,
    action: RequestAction,
) -> bool {
    match msg {
        None => post == pre && drv_post == (RequestDriverView { done: true, ..drv_pre })
            && action is Stop,
        Some(SipMessageView::Request(_)) => post == pre && drv_post == (RequestDriverView {
            done: true,
            ..drv_pre
        }) && action is Stop,
        Some(SipMessageView::Response(resp)) => {
            let code = resp.status_code;
            if code == 100 {
                post == pre && drv_post == drv_pre && action is Continue
            } else if code == 180 || code == 183 {
                transition_effect(pre, DialogStateView::Early(pre.id, resp), post) && drv_post
                    == drv_pre && action is Continue
            } else if code == 401 || code == 407 {
                if drv_pre.auth_sent {
                    transition_effect(pre, DialogStateView::Terminated(pre.id, Some(code)), post)
                        && drv_post == (RequestDriverView { done: true, ..drv_pre })
                        && action is Stop
                } else if pre.credential is Some {
                    let ns = if drv_pre.method == Method::Cancel {
                        pre.local_seq
                    } else {
                        (pre.local_seq + 1) as u32
                    };
                    &&& post == (DialogInnerView { local_seq: ns, ..pre })
                    &&& drv_post == (RequestDriverView { auth_sent: true, ..drv_pre })
                    &&& action == RequestAction::Authenticate(ns)
                } else {
                    transition_effect(pre, DialogStateView::Terminated(pre.id, Some(code)), post)
                        && drv_post == (RequestDriverView { auth_sent: true, ..drv_pre })
                        && action is Continue
                }
            } else {
                post == pre && drv_post == (RequestDriverView {
                    done: true,
                    final_response: Some(resp),
                    ..drv_pre
                }) && action is Stop
            }
        },
    }
}

impl DialogInner {
    /// Prepare an in-dialog request for sending: read the next-hop hint off
    /// the first Route header, consume that header, and start the loop
    /// state.
    pub fn do_request_start(&self, request: Request) -> (r: (Request, Option<String>, RequestDriver))
        ensures
            r.0@ == (RequestView { headers: popped_route(request@.headers), ..request@ }),
            has_kind(request@.headers, HeaderKind::Route) ==> r.1 is Some
                && r.1->Some_0@ == htext(first_of_kind(request@.headers, HeaderKind::Route)),
            !has_kind(request@.headers, HeaderKind::Route) ==> r.1 is None,
            r.2@ == (RequestDriverView {
                method: request@.method,
                auth_sent: false,
                done: false,
                final_response: None,
            }),
    {
        let mut req = request;
        let destination = match req.headers.first_text(HeaderKind::Route) {
            Some(s) => Some(s.clone()),
            None => None,
        };
        proof {
            if has_kind(req@.headers, HeaderKind::Route) {
                crate::message::lemma_first_kind_index(req@.headers, HeaderKind::Route);
            }
        }
        req.headers.pop_first(HeaderKind::Route);
        let drv = RequestDriver {
            method: req.method,
            auth_sent: false,
            done: false,
            final_response: None,
        };
        proof {
            assert(req@ =~~= (RequestView { headers: popped_route(request@.headers), ..request@ }));
        }
        (req, destination, drv)
    }

    /// Drive the in-dialog request loop one message further.
    pub fn do_request_step(&mut self, drv: &mut RequestDriver, msg: Option<&SipMessage>) -> (a:
        RequestAction)
        requires
            old(self)@.local_seq < u32::MAX,
        ensures
            do_request_step_spec(
                old(self)@,
                old(drv)@,
                opt_msg_view(msg),
                final(self)@,
                final(drv)@,
                a,
            ),
    {
        let resp = match msg {
            None => {
                drv.done = true;
                proof {
                    assert(drv@ =~~= (RequestDriverView { done: true, ..old(drv)@ }));
                }
                return RequestAction::Stop;
            },
            Some(SipMessage::Request(_)) => {
                drv.done = true;
                proof {
                    assert(drv@ =~~= (RequestDriverView { done: true, ..old(drv)@ }));
                }
                return RequestAction::Stop;
            },
            Some(SipMessage::Response(resp)) => resp,
        };
        let code = resp.status_code;
        if code == 100 {
            RequestAction::Continue
        } else if code == 180 || code == 183 {
            self.transition(DialogState::Early(self.id.duplicate(), resp.duplicate()));
            RequestAction::Continue
        } else if code == 401 || code == 407 {
            if drv.auth_sent {
                self.transition(DialogState::Terminated(self.id.duplicate(), Some(code)));
                drv.done = true;
                proof {
                    assert(drv@ =~~= (RequestDriverView { done: true, ..old(drv)@ }));
                }
                RequestAction::Stop
            } else {
                drv.auth_sent = true;
                proof {
                    assert(drv@ =~~= (RequestDriverView { auth_sent: true, ..old(drv)@ }));
                }
                if self.credential.is_some() {
                    let ns = if matches!(drv.method, Method::Cancel) {
                        self.get_local_seq()
                    } else {
                        self.increment_local_seq()
                    };
                    proof {
                        if old(drv)@.method == Method::Cancel {
                            assert(self@ =~~= (DialogInnerView { local_seq: ns, ..old(self)@ }));
                        }
                    }
                    RequestAction::Authenticate(ns)
                } else {
                    self.transition(DialogState::Terminated(self.id.duplicate(), Some(code)));
                    RequestAction::Continue
                }
            }
        } else {
            drv.done = true;
            drv.final_response = Some(resp.duplicate());
            proof {
                assert(drv@ =~~= (RequestDriverView {
                    done: true,
                    final_response: Some(resp@),
                    ..old(drv)@
                }));
            }
            RequestAction::Stop
        }
    }
}

} // verus!
