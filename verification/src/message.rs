//! Structural model of the SIP messages the dialog core reads and builds.
//!
//! The wire parser and serializer are outside collaborators; the core works
//! on this model, in which a header carries the fields the dialog logic
//! inspects (the CSeq pair as numbers, everything else as its textual value).
use vstd::prelude::*;

verus! {

/// SIP request methods.
#[derive(Clone, Copy, Debug, PartialEq, Eq, Structural)]
pub enum Method {
    Ack,
    Bye,
    Cancel,
    Info,
    Invite,
    Message,
    Notify,
    Options,
    Prack,
    Publish,
    Refer,
    Register,
    Subscribe,
    Update,
}

/// SIP protocol version of a message.
#[derive(Clone, Copy, Debug, PartialEq, Eq, Structural)]
pub enum Version {
    V1,
    V2,
}

/// A SIP URI, split into the part before any parameter and the parameters
/// themselves. Each parameter keeps its serialized text (leading `;`
/// included) and whether it is a `transport` parameter.
pub struct UriParam {
    pub transport: bool,
    pub text: String,
}

#[verifier::ext_equal]
pub ghost struct UriParamView {
    pub transport: bool,
    pub text: Seq<char>,
}

impl View for UriParam {
    type V = UriParamView;

    open spec fn view(&self) -> UriParamView {
        UriParamView { transport: self.transport, text: self.text@ }
    }
}

impl UriParam {
    pub fn duplicate(&self) -> (r: UriParam)
        ensures
            r@ == self@,
    {
        UriParam { transport: self.transport, text: self.text.clone() }
    }
}

pub struct SipUri {
    pub base: String,
    pub params: Vec<UriParam>,
}

#[verifier::ext_equal]
pub ghost struct SipUriView {
    pub base: Seq<char>,
    pub params: Seq<UriParamView>,
}

/// View of a parameter list.
pub open spec fn uri_params_view(v: Seq<UriParam>) -> Seq<UriParamView> {
    v.map_values(|p: UriParam| p@)
}

impl View for SipUri {
    type V = SipUriView;

    open spec fn view(&self) -> SipUriView {
        SipUriView {
            base: self.base@,
            params: uri_params_view(self.params@),
        }
    }
}

impl SipUri {
    pub fn duplicate(&self) -> (r: SipUri)
        ensures
            r@ == self@,
    {
        let mut params: Vec<UriParam> = Vec::new();
        let mut i: usize = 0;
        while i < self.params.len()
            invariant
                i <= self.params.len(),
                params@.len() == i,
                forall|j: int| 0 <= j < i ==> #[trigger] params@[j]@ == self.params@[j]@,
            decreases self.params.len() - i,
        {
            params.push(self.params[i].duplicate());
            i = i + 1;
        }
        let r = SipUri { base: self.base.clone(), params };
        proof {
            assert(uri_params_view(r.params@) =~= uri_params_view(self.params@));
        }
        r
    }
}

/// The serialized text of a URI: its base followed by each parameter's text.
pub open spec fn params_text(ps: Seq<UriParamView>) -> Seq<char>
    decreases ps.len(),
{
    if ps.len() == 0 {
        Seq::empty()
    } else {
        params_text(ps.drop_last()) + ps.last().text
    }
}

pub open spec fn uri_text(u: SipUriView) -> Seq<char> {
    u.base + params_text(u.params)
}

impl SipUri {
    /// Serialize the URI back to text.
    pub fn to_text(&self) -> (r: String)
        ensures
            r@ == uri_text(self@),
    {
        let ghost pv = self@.params;
        let mut r = self.base.clone();
        let mut i: usize = 0;
        while i < self.params.len()
            invariant
                pv == self@.params,
                i <= self.params@.len(),
                pv.len() == self.params@.len(),
                r@ =~= self@.base + params_text(pv.subrange(0, i as int)),
            decreases self.params@.len() - i,
        {
            proof {
                assert(pv.subrange(0, i as int + 1).drop_last() =~= pv.subrange(0, i as int));
                assert(pv.subrange(0, i as int + 1).last() == self.params@[i as int]@);
            }
            r.append(self.params[i].text.as_str());
            i = i + 1;
        }
        proof {
            assert(pv.subrange(0, pv.len() as int) =~= pv);
        }
        r
    }
}

/// The kinds of header the dialog core tells apart.
#[derive(Clone, Copy, Debug, PartialEq, Eq, Structural)]
pub enum HeaderKind {
    Via,
    From,
    To,
    CallId,
    CSeq,
    Contact,
    Route,
    RecordRoute,
    MaxForwards,
    ContentLength,
    UserAgent,
    Other,
}

/// A header of the model: the CSeq pair is structured, every other header
/// carries its textual value.
#[derive(Debug, Clone, PartialEq, Eq)]
pub enum Header {
    Via(String),
    From(String),
    To(String),
    CallId(String),
    CSeq(u32, Method),
    Contact(String),
    Route(String),
    RecordRoute(String),
    MaxForwards(u32),
    ContentLength(u32),
    UserAgent(String),
    Other(String, String),
}

#[verifier::ext_equal]
pub ghost enum HeaderView {
    Via(Seq<char>),
    From(Seq<char>),
    To(Seq<char>),
    CallId(Seq<char>),
    CSeq(u32, Method),
    Contact(Seq<char>),
    Route(Seq<char>),
    RecordRoute(Seq<char>),
    MaxForwards(u32),
    ContentLength(u32),
    UserAgent(Seq<char>),
    Other(Seq<char>, Seq<char>),
}

impl View for Header {
    type V = HeaderView;

    open spec fn view(&self) -> HeaderView {
        match self {
            Header::Via(s) => HeaderView::Via(s@),
            Header::From(s) => HeaderView::From(s@),
            Header::To(s) => HeaderView::To(s@),
            Header::CallId(s) => HeaderView::CallId(s@),
            Header::CSeq(n, m) => HeaderView::CSeq(*n, *m),
            Header::Contact(s) => HeaderView::Contact(s@),
            Header::Route(s) => HeaderView::Route(s@),
            Header::RecordRoute(s) => HeaderView::RecordRoute(s@),
            Header::MaxForwards(n) => HeaderView::MaxForwards(*n),
            Header::ContentLength(n) => HeaderView::ContentLength(*n),
            Header::UserAgent(s) => HeaderView::UserAgent(s@),
            Header::Other(n, v) => HeaderView::Other(n@, v@),
        }
    }
}

/// The kind of a header view.
pub open spec fn hkind(h: HeaderView) -> HeaderKind {
    match h {
        HeaderView::Via(_) => HeaderKind::Via,
        HeaderView::From(_) => HeaderKind::From,
        HeaderView::To(_) => HeaderKind::To,
        HeaderView::CallId(_) => HeaderKind::CallId,
        HeaderView::CSeq(_, _) => HeaderKind::CSeq,
        HeaderView::Contact(_) => HeaderKind::Contact,
        HeaderView::Route(_) => HeaderKind::Route,
        HeaderView::RecordRoute(_) => HeaderKind::RecordRoute,
        HeaderView::MaxForwards(_) => HeaderKind::MaxForwards,
        HeaderView::ContentLength(_) => HeaderKind::ContentLength,
        HeaderView::UserAgent(_) => HeaderKind::UserAgent,
        HeaderView::Other(_, _) => HeaderKind::Other,
    }
}

impl Header {
    pub fn kind(&self) -> (k: HeaderKind)
        ensures
            k == hkind(self@),
    {
        match self {
            Header::Via(_) => HeaderKind::Via,
            Header::From(_) => HeaderKind::From,
            Header::To(_) => HeaderKind::To,
            Header::CallId(_) => HeaderKind::CallId,
            Header::CSeq(_, _) => HeaderKind::CSeq,
            Header::Contact(_) => HeaderKind::Contact,
            Header::Route(_) => HeaderKind::Route,
            Header::RecordRoute(_) => HeaderKind::RecordRoute,
            Header::MaxForwards(_) => HeaderKind::MaxForwards,
            Header::ContentLength(_) => HeaderKind::ContentLength,
            Header::UserAgent(_) => HeaderKind::UserAgent,
            Header::Other(_, _) => HeaderKind::Other,
        }
    }

    pub fn duplicate(&self) -> (r: Header)
        ensures
            r@ == self@,
    {
        match self {
            Header::Via(s) => Header::Via(s.clone()),
            Header::From(s) => Header::From(s.clone()),
            Header::To(s) => Header::To(s.clone()),
            Header::CallId(s) => Header::CallId(s.clone()),
            Header::CSeq(n, m) => Header::CSeq(*n, *m),
            Header::Contact(s) => Header::Contact(s.clone()),
            Header::Route(s) => Header::Route(s.clone()),
            Header::RecordRoute(s) => Header::RecordRoute(s.clone()),
            Header::MaxForwards(n) => Header::MaxForwards(*n),
            Header::ContentLength(n) => Header::ContentLength(*n),
            Header::UserAgent(s) => Header::UserAgent(s.clone()),
            Header::Other(n, v) => Header::Other(n.clone(), v.clone()),
        }
    }
}

/// Whether some header of kind `k` occurs in `s`.
pub open spec fn has_kind(s: Seq<HeaderView>, k: HeaderKind) -> bool {
    exists|j: int| 0 <= j < s.len() && hkind(s[j]) == k
}

/// Index of the first header of kind `k`; meaningful only when `has_kind`.
pub open spec fn first_kind_index(s: Seq<HeaderView>, k: HeaderKind) -> int
    decreases s.len(),
{
    if s.len() == 0 {
        0
    } else if hkind(s[0]) == k {
        0
    } else {
        1 + first_kind_index(s.drop_first(), k)
    }
}

/// The first header of kind `k`; meaningful only when `has_kind`.
pub open spec fn first_of_kind(s: Seq<HeaderView>, k: HeaderKind) -> HeaderView {
    s[first_kind_index(s, k)]
}

pub proof fn lemma_first_kind_index(s: Seq<HeaderView>, k: HeaderKind)
    requires
        has_kind(s, k),
    ensures
        0 <= first_kind_index(s, k) < s.len(),
        hkind(s[first_kind_index(s, k)]) == k,
        forall|j: int| 0 <= j < first_kind_index(s, k) ==> hkind(s[j]) != k,
    decreases s.len(),
{
    if s.len() == 0 {
    } else if hkind(s[0]) == k {
    } else {
        let t = s.drop_first();
        assert(has_kind(t, k)) by {
            let j = choose|j: int| 0 <= j < s.len() && hkind(s[j]) == k;
            assert(t[j - 1] == s[j]);
        }
        lemma_first_kind_index(t, k);
        assert(forall|j: int| 1 <= j < s.len() ==> s[j] == t[j - 1]);
    }
}

/// An ordered list of headers.
pub struct Headers {
    pub items: Vec<Header>,
}

/// View of a header list.
pub open spec fn headers_view(v: Seq<Header>) -> Seq<HeaderView> {
    v.map_values(|h: Header| h@)
}

/// The headers of `s` whose kind is not `k`, in order.
pub open spec fn keep_other_kinds(s: Seq<HeaderView>, k: HeaderKind) -> Seq<HeaderView> {
    s.filter(|x: HeaderView| hkind(x) != k)
}

impl View for Headers {
    type V = Seq<HeaderView>;

    open spec fn view(&self) -> Seq<HeaderView> {
        headers_view(self.items@)
    }
}

impl Headers {
    pub fn new() -> (r: Headers)
        ensures
            r@ =~= Seq::<HeaderView>::empty(),
    {
        Headers { items: Vec::new() }
    }

    pub fn len(&self) -> (n: usize)
        ensures
            n == self@.len(),
    {
        self.items.len()
    }

    pub fn get(&self, i: usize) -> (h: &Header)
        requires
            i < self@.len(),
        ensures
            h@ == self@[i as int],
    {
        &self.items[i]
    }

    /// Append a header at the end.
    pub fn push(&mut self, h: Header)
        ensures
            final(self)@ =~= old(self)@.push(h@),
    {
        let ghost hv = h@;
        self.items.push(h);
        proof {
            assert(self@ =~= old(self)@.push(hv));
        }
    }

    /// Insert a header at index 0.
    pub fn push_front(&mut self, h: Header)
        ensures
            final(self)@ =~= seq![h@] + old(self)@,
    {
        let ghost hv = h@;
        self.items.insert(0, h);
        proof {
            assert(self@ =~= seq![hv] + old(self)@);
        }
    }

    /// Remove the first header of kind `k`, leaving later headers of the
    /// same kind in place; no change when none occurs.
    pub fn pop_first(&mut self, k: HeaderKind)
        ensures
            has_kind(old(self)@, k) ==> final(self)@ =~= old(self)@.remove(
                first_kind_index(old(self)@, k),
            ),
            !has_kind(old(self)@, k) ==> final(self)@ =~= old(self)@,
    {
        match self.index_of_first(k) {
            Some(i) => {
                proof {
                    lemma_first_kind_index(old(self)@, k);
                }
                self.items.remove(i);
                proof {
                    assert(self@ =~= old(self)@.remove(i as int));
                }
            },
            None => {},
        }
    }

    /// Index of the first header of kind `k`, if any occurs.
    pub fn index_of_first(&self, k: HeaderKind) -> (r: Option<usize>)
        ensures
            r is Some <==> has_kind(self@, k),
            r is Some ==> r->Some_0 == first_kind_index(self@, k),
    {
        let mut i: usize = 0;
        while i < self.items.len()
            invariant
                i <= self@.len(),
                forall|j: int| 0 <= j < i ==> hkind(self@[j]) != k,
            decreases self@.len() - i,
        {
            if self.items[i].kind() == k {
                proof {
                    assert(hkind(self@[i as int]) == k);
                    assert(has_kind(self@, k));
                    lemma_first_kind_index(self@, k);
                    assert(first_kind_index(self@, k) == i) by {
                        let f = first_kind_index(self@, k);
                        if f < i {
                            assert(hkind(self@[f]) != k);
                        }
                        if f > i {
                            assert(hkind(self@[i as int]) != k);
                        }
                    }
                }
                return Some(i);
            }
            i = i + 1;
        }
        None
    }

    /// Replace every header of the same kind as `h` by `h`, appended at the
    /// end; plain append when none occurs.
    pub fn unique_push(&mut self, h: Header)
        ensures
            final(self)@ =~= keep_other_kinds(old(self)@, hkind(h@)).push(h@),
    {
        let ghost hv = h@;
        let k = h.kind();
        let mut kept: Vec<Header> = Vec::new();
        let mut i: usize = 0;
        while i < self.items.len()
            invariant
                i <= self.items@.len(),
                k == hkind(hv),
                h@ == hv,
                headers_view(kept@) =~= keep_other_kinds(
                    headers_view(self.items@.subrange(0, i as int)),
                    hkind(hv),
                ),
            decreases self.items@.len() - i,
        {
            let ghost prefix = headers_view(self.items@.subrange(0, i as int));
            let ghost longer = headers_view(self.items@.subrange(0, i as int + 1));
            proof {
                assert(longer.drop_last() =~= prefix);
                assert(longer.last() == self.items@[i as int]@);
                reveal(Seq::filter);
            }
            if self.items[i].kind() != k {
                kept.push(self.items[i].duplicate());
            }
            i = i + 1;
            proof {
                assert(headers_view(kept@) =~= keep_other_kinds(
                    headers_view(self.items@.subrange(0, i as int)),
                    hkind(hv),
                ));
            }
        }
        proof {
            assert(self.items@.subrange(0, self.items@.len() as int) =~= self.items@);
        }
        kept.push(h);
        self.items = kept;
        proof {
            assert(self@ =~= keep_other_kinds(old(self)@, hkind(hv)).push(hv));
        }
    }

    pub fn duplicate(&self) -> (r: Headers)
        ensures
            r@ =~= self@,
    {
        let mut items: Vec<Header> = Vec::new();
        let mut i: usize = 0;
        while i < self.items.len()
            invariant
                i <= self.items@.len(),
                items@.len() == i,
                forall|j: int| 0 <= j < i ==> #[trigger] items@[j]@ == self.items@[j]@,
            decreases self.items@.len() - i,
        {
            items.push(self.items[i].duplicate());
            i = i + 1;
        }
        let r = Headers { items };
        proof {
            assert(r@ =~= self@);
        }
        r
    }
}

/// The textual value a header carries; the structured headers carry none.
pub open spec fn htext(h: HeaderView) -> Seq<char> {
    match h {
        HeaderView::Via(s) => s,
        HeaderView::From(s) => s,
        HeaderView::To(s) => s,
        HeaderView::CallId(s) => s,
        HeaderView::CSeq(_, _) => Seq::empty(),
        HeaderView::Contact(s) => s,
        HeaderView::Route(s) => s,
        HeaderView::RecordRoute(s) => s,
        HeaderView::MaxForwards(_) => Seq::empty(),
        HeaderView::ContentLength(_) => Seq::empty(),
        HeaderView::UserAgent(s) => s,
        HeaderView::Other(_, v) => v,
    }
}

/// The kinds whose headers carry a textual value.
pub open spec fn is_text_kind(k: HeaderKind) -> bool {
    !(k is CSeq || k is MaxForwards || k is ContentLength)
}

/// The first CSeq pair of a header list, when one occurs.
pub open spec fn cseq_of(s: Seq<HeaderView>) -> Option<(u32, Method)> {
    if has_kind(s, HeaderKind::CSeq) {
        let h = first_of_kind(s, HeaderKind::CSeq);
        Some((h->CSeq_0, h->CSeq_1))
    } else {
        None
    }
}

/// The textual values of every header of kind `k`, in order.
pub open spec fn texts_of_kind(s: Seq<HeaderView>, k: HeaderKind) -> Seq<Seq<char>>
    decreases s.len(),
{
    if s.len() == 0 {
        Seq::empty()
    } else {
        let rest = texts_of_kind(s.drop_last(), k);
        if hkind(s.last()) == k {
            rest.push(htext(s.last()))
        } else {
            rest
        }
    }
}

impl Headers {
    /// The textual value of the first header of kind `k`.
    pub fn first_text(&self, k: HeaderKind) -> (r: Option<&String>)
        requires
            is_text_kind(k),
        ensures
            r is Some <==> has_kind(self@, k),
            r is Some ==> r->Some_0@ == htext(first_of_kind(self@, k)),
    {
        match self.index_of_first(k) {
            Some(i) => {
                proof {
                    lemma_first_kind_index(self@, k);
                }
                let h = self.get(i);
                match h {
                    Header::Via(s) => Some(s),
                    Header::From(s) => Some(s),
                    Header::To(s) => Some(s),
                    Header::CallId(s) => Some(s),
                    Header::Contact(s) => Some(s),
                    Header::Route(s) => Some(s),
                    Header::RecordRoute(s) => Some(s),
                    Header::UserAgent(s) => Some(s),
                    Header::Other(_, v) => Some(v),
                    _ => {
                        proof {
                            assert(false);
                        }
                        vstd::pervasive::unreached()
                    },
                }
            },
            None => None,
        }
    }

    /// The first CSeq pair, when one occurs.
    pub fn first_cseq(&self) -> (r: Option<(u32, Method)>)
        ensures
            r is Some <==> has_kind(self@, HeaderKind::CSeq),
            r is Some ==> Some(r->Some_0) == cseq_of(self@),
    {
        match self.index_of_first(HeaderKind::CSeq) {
            Some(i) => {
                proof {
                    lemma_first_kind_index(self@, HeaderKind::CSeq);
                }
                let h = self.get(i);
                match h {
                    Header::CSeq(n, m) => Some((*n, *m)),
                    _ => {
                        proof {
                            assert(false);
                        }
                        vstd::pervasive::unreached()
                    },
                }
            },
            None => None,
        }
    }

    /// Replace the sequence number of the first CSeq header, keeping its
    /// method part; reports whether one was found.
    pub fn set_first_cseq_seq(&mut self, seq: u32) -> (found: bool)
        ensures
            found <==> has_kind(old(self)@, HeaderKind::CSeq),
            found ==> final(self)@ =~= old(self)@.update(
                first_kind_index(old(self)@, HeaderKind::CSeq),
                HeaderView::CSeq(seq, first_of_kind(old(self)@, HeaderKind::CSeq)->CSeq_1),
            ),
            !found ==> final(self)@ =~= old(self)@,
    {
        match self.index_of_first(HeaderKind::CSeq) {
            Some(i) => {
                proof {
                    lemma_first_kind_index(self@, HeaderKind::CSeq);
                }
                let method = match self.get(i) {
                    Header::CSeq(_, m) => *m,
                    _ => {
                        proof {
                            assert(false);
                        }
                        vstd::pervasive::unreached()
                    },
                };
                self.items.remove(i);
                self.items.insert(i, Header::CSeq(seq, method));
                proof {
                    assert(self@ =~= old(self)@.update(
                        i as int,
                        HeaderView::CSeq(seq, first_of_kind(old(self)@, HeaderKind::CSeq)->CSeq_1),
                    ));
                }
                true
            },
            None => false,
        }
    }

    /// Copy out the textual values of every header of kind `k`, in order.
    pub fn collect_texts(&self, k: HeaderKind) -> (r: Vec<String>)
        requires
            is_text_kind(k),
        ensures
            r@.map_values(|s: String| s@) =~= texts_of_kind(self@, k),
    {
        let mut out: Vec<String> = Vec::new();
        let mut i: usize = 0;
        while i < self.items.len()
            invariant
                is_text_kind(k),
                i <= self.items@.len(),
                out@.map_values(|s: String| s@) =~= texts_of_kind(
                    headers_view(self.items@.subrange(0, i as int)),
                    k,
                ),
            decreases self.items@.len() - i,
        {
            let ghost prefix = headers_view(self.items@.subrange(0, i as int));
            let ghost longer = headers_view(self.items@.subrange(0, i as int + 1));
            proof {
                assert(longer.drop_last() =~= prefix);
                assert(longer.last() == self.items@[i as int]@);
            }
            if self.items[i].kind() == k {
                match self.get(i) {
                    Header::Via(s) => out.push(s.clone()),
                    Header::From(s) => out.push(s.clone()),
                    Header::To(s) => out.push(s.clone()),
                    Header::CallId(s) => out.push(s.clone()),
                    Header::Contact(s) => out.push(s.clone()),
                    Header::Route(s) => out.push(s.clone()),
                    Header::RecordRoute(s) => out.push(s.clone()),
                    Header::UserAgent(s) => out.push(s.clone()),
                    Header::Other(_, v) => out.push(v.clone()),
                    _ => {
                        proof {
                            assert(false);
                        }
                        vstd::pervasive::unreached()
                    },
                }
            }
            proof {
                assert(texts_of_kind(longer, k).drop_last() =~= texts_of_kind(prefix, k) || texts_of_kind(longer, k) =~= texts_of_kind(prefix, k));
                assert(out@.map_values(|s: String| s@) =~= texts_of_kind(longer, k));
            }
            i = i + 1;
            proof {
                assert(headers_view(self.items@.subrange(0, i as int)) =~= longer);
                assert(out@.map_values(|s: String| s@) =~= texts_of_kind(
                    headers_view(self.items@.subrange(0, i as int)),
                    k,
                ));
            }
        }
        proof {
            assert(self.items@.subrange(0, self.items@.len() as int) =~= self.items@);
        }
        out
    }
}

/// Copy a list of strings in reverse order.
pub fn reverse_strings(v: &Vec<String>) -> (r: Vec<String>)
    ensures
        r@.map_values(|s: String| s@) =~= v@.map_values(|s: String| s@).reverse(),
{
    let mut r: Vec<String> = Vec::new();
    let n = v.len();
    let mut i: usize = 0;
    while i < n
        invariant
            n == v@.len(),
            i <= n,
            r@.len() == i,
            forall|j: int| 0 <= j < i ==> #[trigger] r@[j]@ == v@[n - 1 - j]@,
        decreases n - i,
    {
        r.push(v[n - 1 - i].clone());
        i = i + 1;
    }
    proof {
        assert(r@.map_values(|s: String| s@) =~= v@.map_values(|s: String| s@).reverse());
    }
    r
}

/// Copy a byte vector.
pub fn clone_bytes(v: &Vec<u8>) -> (r: Vec<u8>)
    ensures
        r@ =~= v@,
{
    let mut r: Vec<u8> = Vec::new();
    let mut i: usize = 0;
    while i < v.len()
        invariant
            i <= v@.len(),
            r@ =~= v@.subrange(0, i as int),
        decreases v@.len() - i,
    {
        r.push(v[i]);
        i = i + 1;
    }
    proof {
        assert(v@.subrange(0, v@.len() as int) =~= v@);
    }
    r
}

/// A SIP request of the model.
pub struct Request {
    pub method: Method,
    pub uri: SipUri,
    pub headers: Headers,
    pub body: Vec<u8>,
    pub version: Version,
}

#[verifier::ext_equal]
pub ghost struct RequestView {
    pub method: Method,
    pub uri: SipUriView,
    pub headers: Seq<HeaderView>,
    pub body: Seq<u8>,
    pub version: Version,
}

impl View for Request {
    type V = RequestView;

    open spec fn view(&self) -> RequestView {
        RequestView {
            method: self.method,
            uri: self.uri@,
            headers: self.headers@,
            body: self.body@,
            version: self.version,
        }
    }
}

impl Request {
    pub fn duplicate(&self) -> (r: Request)
        ensures
            r@ == self@,
    {
        let r = Request {
            method: self.method,
            uri: self.uri.duplicate(),
            headers: self.headers.duplicate(),
            body: clone_bytes(&self.body),
            version: self.version,
        };
        r
    }
}

/// A SIP response of the model.
pub struct Response {
    pub status_code: u16,
    pub headers: Headers,
    pub body: Vec<u8>,
    pub version: Version,
}

#[verifier::ext_equal]
pub ghost struct ResponseView {
    pub status_code: u16,
    pub headers: Seq<HeaderView>,
    pub body: Seq<u8>,
    pub version: Version,
}

impl View for Response {
    type V = ResponseView;

    open spec fn view(&self) -> ResponseView {
        ResponseView {
            status_code: self.status_code,
            headers: self.headers@,
            body: self.body@,
            version: self.version,
        }
    }
}

impl Response {
    pub fn duplicate(&self) -> (r: Response)
        ensures
            r@ == self@,
    {
        Response {
            status_code: self.status_code,
            headers: self.headers.duplicate(),
            body: clone_bytes(&self.body),
            version: self.version,
        }
    }
}

/// A message delivered by a transaction: either direction.
pub enum SipMessage {
    Request(Request),
    Response(Response),
}

#[verifier::ext_equal]
pub ghost enum SipMessageView {
    Request(RequestView),
    Response(ResponseView),
}

impl View for SipMessage {
    type V = SipMessageView;

    open spec fn view(&self) -> SipMessageView {
        match self {
            SipMessage::Request(r) => SipMessageView::Request(r@),
            SipMessage::Response(r) => SipMessageView::Response(r@),
        }
    }
}

/// Status code classes of responses, as the drivers tell them apart.
pub open spec fn is_redirection(code: u16) -> bool {
    300 <= code < 400
}

pub open spec fn is_failure(code: u16) -> bool {
    400 <= code < 700
}

/// The statuses on which the INVITE driver terminates the dialog when they
/// arrive outside the specially handled ones.
pub open spec fn is_terminating_other(code: u16) -> bool {
    is_redirection(code) || is_failure(code)
}

} // verus!
