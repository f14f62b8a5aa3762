//! The points where the dialog core leans on the `rsip` crate: parsing a
//! Contact line into a URI, reading and injecting the `tag` parameter of
//! From/To header values. Each outside call sits behind one trusted wrapper;
//! everything around the calls is verified.
use vstd::prelude::*;

use crate::message::{
    first_of_kind, has_kind, hkind, Header, HeaderKind, HeaderView, Headers, SipUri, SipUriView,
    UriParam, UriParamView,
};
use crate::{DialogId, DialogIdView, Error};
use rsip::prelude::UntypedHeader;

verus! {

/// Marker for extensions to whole SIP messages.
pub trait RsipMessageExt {

}


/// Extensions to a header list.
pub trait RsipHeadersExt {
    /// Insert a header at index 0.
    fn push_front(&mut self, header: Header);
}

impl RsipHeadersExt for Headers {
    fn push_front(&mut self, header: Header) {
        Headers::push_front(self, header);
    }
}

/// The URI a Contact line carries, as rsip parses it: the text before any
/// URI parameter, and the parameters (serialized with their leading `;`),
/// each flagged as a `transport` parameter or not. `None` when the line does
/// not parse as a Contact header with a URI.
pub uninterp spec fn contact_uri_of(line: Seq<char>) -> Option<(Seq<char>, Seq<(bool, Seq<char>)>)>;

/// The same split for a bare URI text. `None` when it does not parse.
pub uninterp spec fn uri_of(text: Seq<char>) -> Option<(Seq<char>, Seq<(bool, Seq<char>)>)>;

/// The tag parameter of a To header value: `None` when the value does not
/// parse, `Some(None)` when it parses and has no tag.
pub uninterp spec fn to_tag_of(value: Seq<char>) -> Option<Option<Seq<char>>>;

/// The tag parameter of a From header value, as `to_tag_of`.
pub uninterp spec fn from_tag_of(value: Seq<char>) -> Option<Option<Seq<char>>>;

/// A To header value re-serialized with its tag parameter replaced by `tag`.
pub uninterp spec fn to_with_tag_of(value: Seq<char>, tag: Seq<char>) -> Seq<char>;

pub open spec fn param_pair_views(ps: Seq<(bool, Seq<char>)>) -> Seq<UriParamView> {
    ps.map_values(|p: (bool, Seq<char>)| UriParamView { transport: p.0, text: p.1 })
}

/// The transport parameters of a parameter list, in order.
pub open spec fn transport_only(ps: Seq<(bool, Seq<char>)>) -> Seq<(bool, Seq<char>)>
    decreases ps.len(),
{
    if ps.len() == 0 {
        Seq::empty()
    } else {
        let rest = transport_only(ps.drop_last());
        if ps.last().0 {
            rest.push(ps.last())
        } else {
            rest
        }
    }
}

pub open spec fn param_pairs_view(v: Seq<(bool, String)>) -> Seq<(bool, Seq<char>)> {
    v.map_values(|p: (bool, String)| (p.0, p.1@))
}

/// Relies on rsip's Contact and Uri parsers (`Contact::uri`, `Uri`'s
/// serializer): the URI of a Contact line, split into its pre-parameter text
/// and its parameters. The result depends on the line alone.
#[verifier::external_body]
fn contact_uri_parts(line: &str) -> (r: Option<(String, Vec<(bool, String)>)>)
    ensures
        r is Some <==> contact_uri_of(line@) is Some,
        r is Some ==> (r->Some_0.0@, param_pairs_view(r->Some_0.1@)) == contact_uri_of(
            line@,
        )->Some_0,
{
    let contact = rsip::headers::Contact::from(line);
    let mut uri = match contact.uri() {
        Ok(u) => u,
        Err(_) => return None,
    };
    let params = core::mem::take(&mut uri.params);
    let pairs = params.iter().map(
        |p| (matches!(p, rsip::Param::Transport(_)), p.to_string()),
    ).collect();
    Some((uri.to_string(), pairs))
}

/// Relies on rsip's Uri parser and serializer, in the same way as
/// `contact_uri_parts`, for a bare URI text.
#[verifier::external_body]
fn uri_parts(text: &str) -> (r: Option<(String, Vec<(bool, String)>)>)
    ensures
        r is Some <==> uri_of(text@) is Some,
        r is Some ==> (r->Some_0.0@, param_pairs_view(r->Some_0.1@)) == uri_of(text@)->Some_0,
{
    let mut uri = match rsip::Uri::try_from(text) {
        Ok(u) => u,
        Err(_) => return None,
    };
    let params = core::mem::take(&mut uri.params);
    let pairs = params.iter().map(
        |p| (matches!(p, rsip::Param::Transport(_)), p.to_string()),
    ).collect();
    Some((uri.to_string(), pairs))
}

/// Relies on rsip's To header parser (`To::tag`): whether the value parses,
/// and the tag parameter it carries.
#[verifier::external_body]
pub(crate) fn to_tag_scan(value: &str) -> (r: Option<Option<String>>)
    ensures
        r is Some <==> to_tag_of(value@) is Some,
        r is Some ==> opt_string_view(r->Some_0) == to_tag_of(value@)->Some_0,
{
    let header = rsip::headers::To::from(value);
    match header.tag() {
        Ok(t) => Some(t.map(|tag| tag.to_string())),
        Err(_) => None,
    }
}

/// Relies on rsip's From header parser (`From::tag`), as `to_tag_scan`.
#[verifier::external_body]
pub(crate) fn from_tag_scan(value: &str) -> (r: Option<Option<String>>)
    ensures
        r is Some <==> from_tag_of(value@) is Some,
        r is Some ==> opt_string_view(r->Some_0) == from_tag_of(value@)->Some_0,
{
    let header: rsip::headers::From = rsip::headers::From::from(value);
    match header.tag() {
        Ok(t) => Some(t.map(|tag| tag.to_string())),
        Err(_) => None,
    }
}

/// Relies on rsip's `To::with_tag`: the value re-serialized with its tag
/// parameter replaced. It goes through the same parse as `To::tag`, so it
/// succeeds exactly when that parse does.
#[verifier::external_body]
pub(crate) fn to_with_tag(value: &str, tag: &str) -> (r: Option<String>)
    ensures
        r is Some <==> to_tag_of(value@) is Some,
        r is Some ==> r->Some_0@ == to_with_tag_of(value@, tag@),
{
    let header = rsip::headers::To::from(value);
    match header.with_tag(tag.into()) {
        Ok(h) => Some(h.value().to_string()),
        Err(_) => None,
    }
}

pub open spec fn opt_string_view(o: Option<String>) -> Option<Seq<char>> {
    match o {
        Some(s) => Some(s@),
        None => None,
    }
}

/// Whether `c` occurs in `s`.
pub open spec fn has_char(s: Seq<char>, c: char) -> bool {
    exists|i: int| 0 <= i < s.len() && s[i] == c
}

/// Index of the first occurrence of `c`; meaningful only when `has_char`.
pub open spec fn first_char_index(s: Seq<char>, c: char) -> int
    decreases s.len(),
{
    if s.len() == 0 {
        0
    } else if s[0] == c {
        0
    } else {
        1 + first_char_index(s.drop_first(), c)
    }
}

pub proof fn lemma_first_char_index(s: Seq<char>, c: char)
    requires
        has_char(s, c),
    ensures
        0 <= first_char_index(s, c) < s.len(),
        s[first_char_index(s, c)] == c,
        forall|j: int| 0 <= j < first_char_index(s, c) ==> s[j] != c,
    decreases s.len(),
{
    if s.len() == 0 {
    } else if s[0] == c {
    } else {
        let t = s.drop_first();
        assert(has_char(t, c)) by {
            let j = choose|j: int| 0 <= j < s.len() && s[j] == c;
            assert(t[j - 1] == s[j]);
        }
        lemma_first_char_index(t, c);
        assert(forall|j: int| 1 <= j < s.len() ==> s[j] == t[j - 1]);
    }
}

/// The text between the first `<` and the `>` that follows it (to the end
/// when no `>` follows); `None` when the line has no `<`.
pub open spec fn angle_content(s: Seq<char>) -> Option<Seq<char>> {
    if !has_char(s, '<') {
        None
    } else {
        let rest = s.subrange(first_char_index(s, '<') + 1, s.len() as int);
        if has_char(rest, '>') {
            Some(rest.subrange(0, first_char_index(rest, '>')))
        } else {
            Some(rest)
        }
    }
}

/// Index of the first occurrence of `c` in `s`, scanned by characters.
fn find_char(s: &str, c: char) -> (r: Option<usize>)
    ensures
        r is Some <==> has_char(s@, c),
        r is Some ==> r->Some_0 == first_char_index(s@, c),
{
    let n = s.unicode_len();
    let mut i: usize = 0;
    while i < n
        invariant
            n == s@.len(),
            i <= n,
            forall|j: int| 0 <= j < i ==> s@[j] != c,
        decreases n - i,
    {
        if s.get_char(i) == c {
            proof {
                assert(s@[i as int] == c);
                assert(has_char(s@, c));
                lemma_first_char_index(s@, c);
                let f = first_char_index(s@, c);
                if f < i {
                    assert(s@[f] != c);
                }
                if f > i {
                    assert(s@[i as int] != c);
                }
            }
            return Some(i);
        }
        i = i + 1;
    }
    None
}

/// The expected result of `extract_uri_from_contact`, over the names of the
/// two parses it may try: the structured parse keeps only the transport
/// parameters; the fallback between angle brackets keeps every parameter.
pub open spec fn extracted_contact_uri(line: Seq<char>) -> Option<SipUriView> {
    match contact_uri_of(line) {
        Some(parts) => Some(
            SipUriView { base: parts.0, params: param_pair_views(transport_only(parts.1)) },
        ),
        None => match angle_content(line) {
            Some(sub) => match uri_of(sub) {
                Some(parts) => Some(
                    SipUriView { base: parts.0, params: param_pair_views(parts.1) },
                ),
                None => None,
            },
            None => None,
        },
    }
}

/// Parse a Contact header value into a URI. The structured parse strips
/// every URI parameter except `transport`; when it fails, the text between
/// `<` and `>` is parsed as a URI and kept whole; otherwise the line is
/// rejected.
pub fn extract_uri_from_contact(line: &str) -> (r: Result<SipUri, Error>)
    ensures
        match extracted_contact_uri(line@) {
            Some(u) => r is Ok && r->Ok_0@ == u,
            None => r is Err && r->Err_0 is ParseError,
        },
{
    match contact_uri_parts(line) {
        Some((base, pairs)) => {
            let mut params: Vec<UriParam> = Vec::new();
            let mut i: usize = 0;
            while i < pairs.len()
                invariant
                    i <= pairs@.len(),
                    crate::message::uri_params_view(params@) =~~= param_pair_views(
                        transport_only(param_pairs_view(pairs@.subrange(0, i as int))),
                    ),
                decreases pairs@.len() - i,
            {
                let ghost prefix = param_pairs_view(pairs@.subrange(0, i as int));
                let ghost longer = param_pairs_view(pairs@.subrange(0, i as int + 1));
                proof {
                    assert(longer.drop_last() =~= prefix);
                    assert(longer.last() == (pairs@[i as int].0, pairs@[i as int].1@));
                }
                if pairs[i].0 {
                    let text = pairs[i].1.clone();
                    params.push(UriParam { transport: true, text });
                }
                proof {
                    assert(longer.len() == i + 1);
                    assert(longer.drop_last() == prefix);
                    if pairs@[i as int].0 {
                        assert(transport_only(longer) == transport_only(prefix).push(
                            longer.last(),
                        ));
                    } else {
                        assert(transport_only(longer) == transport_only(prefix));
                    }
                    let lhs = crate::message::uri_params_view(params@);
                    let rhs = param_pair_views(transport_only(longer));
                    assert(lhs.len() == rhs.len());
                    assert forall|j: int| 0 <= j < lhs.len() implies lhs[j] == rhs[j] by {
                        assert(lhs[j] == params@[j]@);
                        assert(rhs[j] == (UriParamView {
                            transport: transport_only(longer)[j].0,
                            text: transport_only(longer)[j].1,
                        }));
                        if pairs@[i as int].0 && j == lhs.len() - 1 {
                            assert(transport_only(longer)[j] == longer.last());
                            assert(params@[j]@.transport == true);
                            assert(params@[j]@.text == pairs@[i as int].1@);
                            assert(longer.last().1 == pairs@[i as int].1@);
                        } else {
                            assert(params@[j]@ == param_pair_views(transport_only(prefix))[j]);
                            assert(transport_only(longer)[j] == transport_only(prefix)[j]);
                        }
                    }
                    assert(crate::message::uri_params_view(params@) =~~= param_pair_views(
                        transport_only(longer),
                    ));
                }
                i = i + 1;
                proof {
                    assert(param_pairs_view(pairs@.subrange(0, i as int)) =~= longer);
                    assert(crate::message::uri_params_view(params@) =~~= param_pair_views(
                        transport_only(param_pairs_view(pairs@.subrange(0, i as int))),
                    ));
                }
            }
            proof {
                assert(pairs@.subrange(0, pairs@.len() as int) =~= pairs@);
            }
            Ok(SipUri { base, params })
        },
        None => {
            match find_char(line, '<') {
                Some(i) => {
                    let n = line.unicode_len();
                    proof {
                        lemma_first_char_index(line@, '<');
                    }
                    let after = line.substring_char(i + 1, n);
                    proof {
                        assert(after@ =~= line@.subrange(i as int + 1, line@.len() as int));
                    }
                    let sub = match find_char(after, '>') {
                        Some(j) => {
                            proof {
                                lemma_first_char_index(after@, '>');
                            }
                            after.substring_char(0, j)
                        },
                        None => after,
                    };
                    proof {
                        if has_char(after@, '>') {
                            assert(sub@ =~= angle_content(line@)->Some_0);
                        } else {
                            assert(sub@ =~= after@.subrange(0, after@.len() as int));
                            assert(sub@ =~= angle_content(line@)->Some_0);
                        }
                    }
                    match uri_parts(sub) {
                        Some((base, pairs)) => {
                            let mut params: Vec<UriParam> = Vec::new();
                            let mut i2: usize = 0;
                            while i2 < pairs.len()
                                invariant
                                    i2 <= pairs@.len(),
                                    crate::message::uri_params_view(params@).len() == i2,
                                    forall|j: int| 0 <= j < i2
                                        ==> #[trigger] params@[j]@ == (UriParamView {
                                            transport: pairs@[j].0,
                                            text: pairs@[j].1@,
                                        }),
                                decreases pairs@.len() - i2,
                            {
                                let transport = pairs[i2].0;
                                let text = pairs[i2].1.clone();
                                params.push(UriParam { transport, text });
                                i2 = i2 + 1;
                            }
                            let u = SipUri { base, params };
                            proof {
                                assert(u@.params =~= param_pair_views(param_pairs_view(pairs@)));
                            }
                            Ok(u)
                        },
                        None => Err(Error::ParseError(String::from_str("contact uri"))),
                    }
                },
                None => Err(Error::ParseError(String::from_str("no uri found"))),
            }
        },
    }
}

/// The dialog identity a request determines: its Call-ID and the tags of its
/// From and To headers (empty when absent); `None` when a header is missing
/// or does not parse.
pub open spec fn request_dialog_id(r: crate::message::RequestView) -> Option<DialogIdView> {
    if !has_kind(r.headers, HeaderKind::CallId) || !has_kind(r.headers, HeaderKind::From)
        || !has_kind(r.headers, HeaderKind::To) {
        None
    } else {
        let call_id = first_of_kind(r.headers, HeaderKind::CallId)->CallId_0;
        let from_value = first_of_kind(r.headers, HeaderKind::From)->From_0;
        let to_value = first_of_kind(r.headers, HeaderKind::To)->To_0;
        match (from_tag_of(from_value), to_tag_of(to_value)) {
            (Some(from_tag), Some(to_tag)) => Some(
                DialogIdView {
                    call_id: call_id,
                    from_tag: opt_tag_or_empty(from_tag),
                    to_tag: opt_tag_or_empty(to_tag),
                },
            ),
            _ => None,
        }
    }
}

pub open spec fn opt_tag_or_empty(t: Option<Seq<char>>) -> Seq<char> {
    match t {
        Some(s) => s,
        None => Seq::empty(),
    }
}

impl DialogId {
    /// Read the dialog identity off a request: Call-ID, From tag, To tag.
    pub fn from_request(request: &crate::message::Request) -> (r: Result<DialogId, Error>)
        ensures
            match request_dialog_id(request@) {
                Some(id) => r is Ok && r->Ok_0@ == id,
                None => r is Err && r->Err_0 is ParseError,
            },
    {
        proof {
            if has_kind(request@.headers, HeaderKind::CallId) {
                crate::message::lemma_first_kind_index(request@.headers, HeaderKind::CallId);
                assert(first_of_kind(request@.headers, HeaderKind::CallId) is CallId);
            }
            if has_kind(request@.headers, HeaderKind::From) {
                crate::message::lemma_first_kind_index(request@.headers, HeaderKind::From);
                assert(first_of_kind(request@.headers, HeaderKind::From) is From);
            }
            if has_kind(request@.headers, HeaderKind::To) {
                crate::message::lemma_first_kind_index(request@.headers, HeaderKind::To);
                assert(first_of_kind(request@.headers, HeaderKind::To) is To);
            }
        }
        let call_id = match request.headers.first_text(HeaderKind::CallId) {
            Some(s) => s.clone(),
            None => {
                return Err(Error::ParseError(String::from_str("call-id")));
            },
        };
        let from_value = match request.headers.first_text(HeaderKind::From) {
            Some(s) => s,
            None => {
                return Err(Error::ParseError(String::from_str("from")));
            },
        };
        let to_value = match request.headers.first_text(HeaderKind::To) {
            Some(s) => s,
            None => {
                return Err(Error::ParseError(String::from_str("to")));
            },
        };
        let from_tag = match from_tag_scan(from_value.as_str()) {
            Some(t) => tag_or_empty(t),
            None => {
                return Err(Error::ParseError(String::from_str("from tag")));
            },
        };
        let to_tag = match to_tag_scan(to_value.as_str()) {
            Some(t) => tag_or_empty(t),
            None => {
                return Err(Error::ParseError(String::from_str("to tag")));
            },
        };
        Ok(DialogId { call_id, from_tag, to_tag })
    }
}

/// The tag itself when present, the empty string otherwise.
fn tag_or_empty(t: Option<String>) -> (r: String)
    ensures
        r@ == opt_tag_or_empty(opt_string_view(t)),
{
    match t {
        Some(s) => s,
        None => String::new(),
    }
}

} // verus!
