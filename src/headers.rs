//! Header rules of the proxy: lookup, forwarding, and response normalization.

use vstd::prelude::*;
use vstd::string::*;
use crate::text::{eq_ignoring_case, has_prefix, eq_ignore_case, eq_text, starts_with_text};

verus! {

pub const HOST: &'static str = "host";
pub const AUTHORIZATION: &'static str = "authorization";
pub const CACHE_CONTROL: &'static str = "cache-control";
pub const CONTENT_TYPE: &'static str = "content-type";
pub const CONTENT_ENCODING: &'static str = "content-encoding";
pub const CONTENT_LENGTH: &'static str = "content-length";
pub const TRANSFER_ENCODING: &'static str = "transfer-encoding";
pub const CONNECTION: &'static str = "connection";
pub const APIKEY: &'static str = "apikey";
pub const SERVER: &'static str = "server";

/// The identifier that every response carries in its `Server` header.
pub const SERVER_ID: &'static str = "XYLEX/0";

/// The media type forced onto every forwarded `Content-Type`.
pub const JSON_MEDIA_TYPE: &'static str = "application/json";

/// Scheme prefix of a bearer `Authorization` value.
pub const BEARER_PREFIX: &'static str = "Bearer ";

/// The one `Cache-Control` value that bypasses the cache.
pub const NO_CACHE: &'static str = "no-cache";

/// One header line.
pub struct Header {
    pub name: String,
    pub value: String,
}

impl View for Header {
    type V = (Seq<char>, Seq<char>);

    open spec fn view(&self) -> (Seq<char>, Seq<char>) {
        (self.name@, self.value@)
    }
}

/// The (name, value) pairs of a header list.
pub open spec fn pairs(hs: Seq<Header>) -> Seq<(Seq<char>, Seq<char>)> {
    hs.map_values(|h: Header| h@)
}

/// The value of the first header named `name`, names compared without case.
pub open spec fn first_value(hs: Seq<(Seq<char>, Seq<char>)>, name: Seq<char>) -> Option<Seq<char>>
    decreases hs.len(),
{
    if hs.len() == 0 {
        None
    } else if eq_ignoring_case(hs[0].0, name) {
        Some(hs[0].1)
    } else {
        first_value(hs.drop_first(), name)
    }
}

/// `hs` without the headers named `name`, in their order.
pub open spec fn without_named(hs: Seq<(Seq<char>, Seq<char>)>, name: Seq<char>) -> Seq<(Seq<char>, Seq<char>)>
    decreases hs.len(),
{
    if hs.len() == 0 {
        Seq::empty()
    } else {
        let rest = without_named(hs.drop_last(), name);
        if eq_ignoring_case(hs.last().0, name) {
            rest
        } else {
            rest.push(hs.last())
        }
    }
}

/// Headers that belong to one transport leg and are not relayed.
pub open spec fn is_hop_by_hop(name: Seq<char>) -> bool {
    eq_ignoring_case(name, CONTENT_ENCODING@) || eq_ignoring_case(name, CONTENT_LENGTH@)
        || eq_ignoring_case(name, TRANSFER_ENCODING@) || eq_ignoring_case(name, CONNECTION@)
}

/// A relayed response header: `Content-Type` becomes `application/json`.
pub open spec fn normalized(h: (Seq<char>, Seq<char>)) -> (Seq<char>, Seq<char>) {
    if eq_ignoring_case(h.0, CONTENT_TYPE@) {
        (h.0, JSON_MEDIA_TYPE@)
    } else {
        h
    }
}

/// Upstream response headers as relayed: hop-by-hop headers dropped, the rest
/// normalized, order kept.
pub open spec fn normalize_headers(hs: Seq<(Seq<char>, Seq<char>)>) -> Seq<(Seq<char>, Seq<char>)>
    decreases hs.len(),
{
    if hs.len() == 0 {
        Seq::empty()
    } else {
        let rest = normalize_headers(hs.drop_last());
        if is_hop_by_hop(hs.last().0) {
            rest
        } else {
            rest.push(normalized(hs.last()))
        }
    }
}

/// `hs` with its `Server` headers replaced by the proxy's own.
pub open spec fn with_server(hs: Seq<(Seq<char>, Seq<char>)>) -> Seq<(Seq<char>, Seq<char>)> {
    without_named(hs, SERVER@).push((SERVER@, SERVER_ID@))
}

/// Headers sent to the backend: all inbound ones but `Host`, and an `apikey`
/// header carrying the credential when there is one.
pub open spec fn outbound_headers(hs: Seq<(Seq<char>, Seq<char>)>, credential: Seq<char>) -> Seq<(Seq<char>, Seq<char>)> {
    if credential.len() == 0 {
        without_named(hs, HOST@)
    } else {
        without_named(hs, HOST@).push((APIKEY@, credential))
    }
}

/// The token of a bearer `Authorization` value; empty when the header is
/// absent or of another scheme.
pub open spec fn bearer_credential(auth: Option<Seq<char>>) -> Seq<char> {
    match auth {
        Some(a) => if has_prefix(a, BEARER_PREFIX@) {
            a.subrange(BEARER_PREFIX@.len() as int, a.len() as int)
        } else {
            Seq::empty()
        },
        None => Seq::empty(),
    }
}

/// A cached response may be served unless `Cache-Control` is exactly `no-cache`.
pub open spec fn cache_allowed(cache_control: Option<Seq<char>>) -> bool {
    cache_control != Some(NO_CACHE@)
}

/// A relayed header is clean: not hop-by-hop, and `application/json` if it is
/// a `Content-Type`.
pub open spec fn is_clean(h: (Seq<char>, Seq<char>)) -> bool {
    !is_hop_by_hop(h.0) && (eq_ignoring_case(h.0, CONTENT_TYPE@) ==> h.1 == JSON_MEDIA_TYPE@)
}

proof fn lemma_without_named_members(hs: Seq<(Seq<char>, Seq<char>)>, name: Seq<char>)
    ensures
        forall|i: int|
            0 <= i < without_named(hs, name).len() ==> hs.contains(#[trigger] without_named(hs, name)[i]),
    decreases hs.len(),
{
    if hs.len() > 0 {
        lemma_without_named_members(hs.drop_last(), name);
        let rest = without_named(hs.drop_last(), name);
        assert forall|i: int| 0 <= i < without_named(hs, name).len() implies hs.contains(
            #[trigger] without_named(hs, name)[i],
        ) by {
            if i < rest.len() {
                let j = choose|j: int| 0 <= j < hs.drop_last().len() && hs.drop_last()[j] == rest[i];
                assert(hs[j] == rest[i]);
            } else {
                assert(hs[hs.len() - 1] == hs.last());
            }
        }
    }
}

proof fn lemma_normalize_clean(hs: Seq<(Seq<char>, Seq<char>)>)
    ensures
        forall|i: int| 0 <= i < normalize_headers(hs).len() ==> is_clean(#[trigger] normalize_headers(hs)[i]),
    decreases hs.len(),
{
    if hs.len() > 0 {
        lemma_normalize_clean(hs.drop_last());
        let rest = normalize_headers(hs.drop_last());
        if !is_hop_by_hop(hs.last().0) {
            assert(is_clean(normalized(hs.last())));
            assert forall|i: int| 0 <= i < normalize_headers(hs).len() implies is_clean(
                #[trigger] normalize_headers(hs)[i],
            ) by {
                if i < rest.len() {
                    assert(normalize_headers(hs)[i] == rest[i]);
                }
            }
        }
    }
}

/// No hop-by-hop header reaches the client, whatever the backend sent, and
/// every `Content-Type` the client sees is `application/json`.
pub proof fn relayed_headers_are_clean(upstream: Seq<(Seq<char>, Seq<char>)>)
    ensures
        forall|i: int|
            0 <= i < with_server(normalize_headers(upstream)).len() ==> is_clean(
                #[trigger] with_server(normalize_headers(upstream))[i],
            ),
{
    let norm = normalize_headers(upstream);
    lemma_normalize_clean(upstream);
    lemma_without_named_members(norm, SERVER@);
    reveal_strlit("server");
    reveal_strlit("content-type");
    reveal_strlit("content-encoding");
    reveal_strlit("content-length");
    reveal_strlit("transfer-encoding");
    reveal_strlit("connection");
    let kept = without_named(norm, SERVER@);
    assert forall|i: int| 0 <= i < with_server(norm).len() implies is_clean(#[trigger] with_server(norm)[i]) by {
        if i < kept.len() {
            let j = choose|j: int| 0 <= j < norm.len() && norm[j] == kept[i];
            assert(is_clean(norm[j]));
        } else {
            assert(with_server(norm)[i] == (SERVER@, SERVER_ID@));
        }
    }
}

fn copy_header(h: &Header) -> (r: Header)
    ensures
        r@ == h@,
{
    Header { name: h.name.clone(), value: h.value.clone() }
}

/// The value of the first header named `name`, names compared without case.
pub fn find_header<'a>(hs: &'a Vec<Header>, name: &str) -> (r: Option<&'a String>)
    ensures
        r.is_some() == first_value(pairs(hs@), name@).is_some(),
        r.is_some() ==> r.unwrap()@ == first_value(pairs(hs@), name@).unwrap(),
{
    let ghost all = pairs(hs@);
    let n = hs.len();
    let mut i: usize = 0;
    assert(all.subrange(0, n as int) =~= all);
    while i < n
        invariant
            n == hs@.len(),
            all == pairs(hs@),
            i <= n,
            first_value(all, name@) == first_value(all.subrange(i as int, n as int), name@),
        decreases n - i,
    {
        let h = &hs[i];
        assert(all.subrange(i as int, n as int)[0] == h@);
        if eq_ignore_case(h.name.as_str(), name) {
            return Some(&h.value);
        }
        assert(all.subrange(i as int, n as int).drop_first() =~= all.subrange(i + 1, n as int));
        i = i + 1;
    }
    None
}

proof fn lemma_prefix_step(hs: Seq<Header>, i: int)
    requires
        0 <= i < hs.len(),
    ensures
        pairs(hs).subrange(0, i + 1).drop_last() == pairs(hs).subrange(0, i),
        pairs(hs).subrange(0, i + 1).last() == hs[i]@,
        pairs(hs).subrange(0, i + 1).len() == i + 1,
{
    assert(pairs(hs).subrange(0, i + 1).drop_last() =~= pairs(hs).subrange(0, i));
}

/// `hs` without the headers named `name`, names compared without case.
pub fn remove_named(hs: &Vec<Header>, name: &str) -> (r: Vec<Header>)
    ensures
        pairs(r@) == without_named(pairs(hs@), name@),
{
    let n = hs.len();
    let mut out: Vec<Header> = Vec::new();
    let mut i: usize = 0;
    assert(pairs(out@) =~= without_named(pairs(hs@).subrange(0, 0), name@));
    while i < n
        invariant
            n == hs@.len(),
            i <= n,
            pairs(out@) == without_named(pairs(hs@).subrange(0, i as int), name@),
        decreases n - i,
    {
        proof {
            lemma_prefix_step(hs@, i as int);
        }
        let h = &hs[i];
        if !eq_ignore_case(h.name.as_str(), name) {
            let c = copy_header(h);
            out.push(c);
            assert(pairs(out@) =~= without_named(pairs(hs@).subrange(0, i + 1), name@));
        }
        i = i + 1;
    }
    assert(pairs(hs@).subrange(0, n as int) =~= pairs(hs@));
    out
}

/// Is `name` one of the hop-by-hop headers?
pub fn is_hop_by_hop_name(name: &str) -> (r: bool)
    ensures
        r == is_hop_by_hop(name@),
{
    eq_ignore_case(name, CONTENT_ENCODING) || eq_ignore_case(name, CONTENT_LENGTH)
        || eq_ignore_case(name, TRANSFER_ENCODING) || eq_ignore_case(name, CONNECTION)
}

/// Upstream response headers as relayed to the client: the hop-by-hop ones
/// dropped and `Content-Type` forced to `application/json`.
pub fn normalize_response_headers(hs: &Vec<Header>) -> (r: Vec<Header>)
    ensures
        pairs(r@) == normalize_headers(pairs(hs@)),
{
    let n = hs.len();
    let mut out: Vec<Header> = Vec::new();
    let mut i: usize = 0;
    assert(pairs(out@) =~= normalize_headers(pairs(hs@).subrange(0, 0)));
    while i < n
        invariant
            n == hs@.len(),
            i <= n,
            pairs(out@) == normalize_headers(pairs(hs@).subrange(0, i as int)),
        decreases n - i,
    {
        proof {
            lemma_prefix_step(hs@, i as int);
        }
        let h = &hs[i];
        if !is_hop_by_hop_name(h.name.as_str()) {
            if eq_ignore_case(h.name.as_str(), CONTENT_TYPE) {
                out.push(Header { name: h.name.clone(), value: String::from_str(JSON_MEDIA_TYPE) });
            } else {
                out.push(copy_header(h));
            }
            assert(pairs(out@) =~= normalize_headers(pairs(hs@).subrange(0, i + 1)));
        }
        i = i + 1;
    }
    assert(pairs(hs@).subrange(0, n as int) =~= pairs(hs@));
    out
}

/// `hs` with its `Server` headers replaced by the proxy's identifier.
pub fn with_server_header(hs: &Vec<Header>) -> (r: Vec<Header>)
    ensures
        pairs(r@) == with_server(pairs(hs@)),
{
    let mut out = remove_named(hs, SERVER);
    let ghost before = out@;
    out.push(Header { name: String::from_str(SERVER), value: String::from_str(SERVER_ID) });
    assert(pairs(out@) =~= pairs(before).push((SERVER@, SERVER_ID@)));
    out
}

/// Headers for the backend call: every inbound header but `Host`, plus
/// `apikey` set to the credential when it is non-empty.
pub fn outbound_headers_for(hs: &Vec<Header>, credential: &str) -> (r: Vec<Header>)
    ensures
        pairs(r@) == outbound_headers(pairs(hs@), credential@),
{
    let mut out = remove_named(hs, HOST);
    if credential.unicode_len() > 0 {
        let ghost before = out@;
        out.push(Header { name: String::from_str(APIKEY), value: String::from_str(credential) });
        assert(pairs(out@) =~= pairs(before).push((APIKEY@, credential@)));
    }
    out
}

/// The bearer token of an `Authorization` value, or empty text.
pub fn bearer_credential_of(auth: Option<&String>) -> (r: String)
    ensures
        r@ == bearer_credential(match auth {
            Some(a) => Some(a@),
            None => None,
        }),
{
    match auth {
        Some(a) => {
            if starts_with_text(a.as_str(), BEARER_PREFIX) {
                let k = BEARER_PREFIX.unicode_len();
                let n = a.as_str().unicode_len();
                String::from_str(a.as_str().substring_char(k, n))
            } else {
                String::new()
            }
        },
        None => String::new(),
    }
}

/// May a cached response be served, given the `Cache-Control` value?
pub fn cache_allowed_by(cache_control: Option<&String>) -> (r: bool)
    ensures
        r == cache_allowed(match cache_control {
            Some(c) => Some(c@),
            None => None,
        }),
{
    match cache_control {
        Some(c) => !eq_text(c.as_str(), NO_CACHE),
        None => true,
    }
}

} // verus!
