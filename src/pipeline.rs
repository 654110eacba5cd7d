//! The forwarding pipeline, as decisions between the I/O steps that its host
//! performs: plan a request, answer it from the cache or forward it, then
//! record and relay the backend's reply.

use vstd::prelude::*;
use vstd::string::*;
use crate::cache::{lookup, TtlCache, CACHE_TTL_MS};
use crate::cache_key::{cache_key, derive_cache_key};
use crate::headers::{
    bearer_credential, bearer_credential_of, cache_allowed, cache_allowed_by, find_header, first_value,
    normalize_headers, normalize_response_headers, outbound_headers, outbound_headers_for, pairs, with_server,
    with_server_header, Header, AUTHORIZATION, CACHE_CONTROL, HOST, NO_CACHE,
};
use crate::json::{is_json_text, parse_json};
use crate::router::{resolve_target, resolved_url};
use crate::text::eq_text;

verus! {

/// Methods the backend call can carry.
#[derive(Clone, Copy, Debug, PartialEq, Eq, Structural)]
pub enum Method {
    Get,
    Post,
    Put,
    Delete,
    Patch,
}

/// A request as it reached the proxy.
pub struct InboundRequest {
    pub method: String,
    /// The absolute URL, scheme and host included.
    pub full_url: String,
    pub path: String,
    /// The query string without its `?`; empty when there is none.
    pub query: String,
    pub headers: Vec<Header>,
    pub body: Vec<u8>,
}

/// The call to make to the backend.
pub struct OutboundRequest {
    pub method: Method,
    pub url: String,
    pub headers: Vec<Header>,
    pub body: Vec<u8>,
}

/// What the pipeline decided for one inbound request.
pub struct RequestPlan {
    pub cache_key: String,
    /// Whether a cached response may answer the request.
    pub use_cache: bool,
    pub outbound: OutboundRequest,
}

/// A backend reply.
pub struct UpstreamResponse {
    pub status: u16,
    pub headers: Vec<Header>,
    pub body: Vec<u8>,
}

/// What the client receives.
pub struct ClientResponse {
    pub status: u16,
    pub headers: Vec<Header>,
    pub body: Vec<u8>,
}

/// Status of the reply when the backend could not be reached.
pub const UPSTREAM_FAILURE_STATUS: u16 = 500;

/// The backend method for an inbound method name. GET, POST, PUT, DELETE and
/// PATCH map to themselves; any other method is forwarded as GET.
pub open spec fn outbound_method(m: Seq<char>) -> Method {
    if m == "POST"@ {
        Method::Post
    } else if m == "PUT"@ {
        Method::Put
    } else if m == "DELETE"@ {
        Method::Delete
    } else if m == "PATCH"@ {
        Method::Patch
    } else {
        Method::Get
    }
}

/// The `Host` header's value, or empty text.
pub open spec fn host_of(hs: Seq<(Seq<char>, Seq<char>)>) -> Seq<char> {
    match first_value(hs, HOST@) {
        Some(h) => h,
        None => Seq::empty(),
    }
}

/// The bearer credential that a request carries, or empty text.
pub open spec fn credential_of(hs: Seq<(Seq<char>, Seq<char>)>) -> Seq<char> {
    bearer_credential(first_value(hs, AUTHORIZATION@))
}

/// What the cache answers for a request: the stored payload when the request
/// allows the cache and a live entry is held under its key.
pub open spec fn served_from_cache<V>(
    contents: Map<Seq<char>, (V, u64)>,
    key: Seq<char>,
    use_cache: bool,
    now: u64,
    ttl: u64,
) -> Option<V> {
    if use_cache {
        lookup(contents, key, now, ttl)
    } else {
        None
    }
}

/// The backend method for an inbound method name.
pub fn forward_method(m: &str) -> (r: Method)
    ensures
        r == outbound_method(m@),
{
    if eq_text(m, "POST") {
        Method::Post
    } else if eq_text(m, "PUT") {
        Method::Put
    } else if eq_text(m, "DELETE") {
        Method::Delete
    } else if eq_text(m, "PATCH") {
        Method::Patch
    } else {
        Method::Get
    }
}

/// An empty response store with the proxy's time to live.
pub fn new_response_cache() -> (c: TtlCache<Option<serde_json::Value>>)
    ensures
        c.wf(),
        c@ == Map::<Seq<char>, (Option<serde_json::Value>, u64)>::empty(),
        c.ttl() == CACHE_TTL_MS,
{
    TtlCache::new(CACHE_TTL_MS)
}

/// Decides everything about a request before any I/O: its cache key, whether
/// the cache may answer it, and the backend call to make on a miss.
pub fn plan_request(req: InboundRequest) -> (p: RequestPlan)
    ensures
        p.cache_key@ == cache_key(req.method@, req.full_url@, credential_of(pairs(req.headers@))),
        p.use_cache == cache_allowed(first_value(pairs(req.headers@), CACHE_CONTROL@)),
        p.outbound.method == outbound_method(req.method@),
        p.outbound.url@ == resolved_url(host_of(pairs(req.headers@)), req.path@, req.query@),
        pairs(p.outbound.headers@) == outbound_headers(pairs(req.headers@), credential_of(pairs(req.headers@))),
        p.outbound.body@ == req.body@,
{
    let ghost hs = pairs(req.headers@);
    let auth = find_header(&req.headers, AUTHORIZATION);
    let credential = bearer_credential_of(auth);
    assert(credential@ == credential_of(hs));
    let cache_control = find_header(&req.headers, CACHE_CONTROL);
    let use_cache = cache_allowed_by(cache_control);
    let host = match find_header(&req.headers, HOST) {
        Some(h) => h.as_str(),
        None => "",
    };
    proof {
        reveal_strlit("");
    }
    assert(host@ == host_of(hs));
    let key = derive_cache_key(req.method.as_str(), req.full_url.as_str(), credential.as_str());
    let url = resolve_target(host, req.path.as_str(), req.query.as_str());
    let headers = outbound_headers_for(&req.headers, credential.as_str());
    let method = forward_method(req.method.as_str());
    RequestPlan { cache_key: key, use_cache, outbound: OutboundRequest { method, url, headers, body: req.body } }
}

/// The cached payload that answers `plan` at `now`, if any. `None` inside the
/// result stands for a backend body that was not JSON.
pub fn cached_payload<'a>(
    cache: &'a TtlCache<Option<serde_json::Value>>,
    plan: &RequestPlan,
    now: u64,
) -> (r: Option<&'a Option<serde_json::Value>>)
    requires
        cache.wf(),
    ensures
        r.is_some() == served_from_cache(cache@, plan.cache_key@, plan.use_cache, now, cache.ttl()).is_some(),
        r.is_some() ==> *r.unwrap() == served_from_cache(
            cache@,
            plan.cache_key@,
            plan.use_cache,
            now,
            cache.ttl(),
        ).unwrap(),
{
    if plan.use_cache {
        cache.get(plan.cache_key.as_str(), now)
    } else {
        None
    }
}

/// Records the backend's reply under the plan's key and builds the client's
/// response: status and body as the backend sent them, headers normalized and
/// marked with the proxy's identifier. The store keeps the parsed body, or
/// `None` when the body is not JSON; replies of every status are stored.
pub fn complete_request(
    cache: &mut TtlCache<Option<serde_json::Value>>,
    plan: RequestPlan,
    upstream: UpstreamResponse,
    now: u64,
) -> (r: ClientResponse)
    requires
        old(cache).wf(),
    ensures
        final(cache).wf(),
        final(cache).ttl() == old(cache).ttl(),
        final(cache)@.contains_key(plan.cache_key@),
        final(cache)@[plan.cache_key@].1 == now,
        final(cache)@[plan.cache_key@].0.is_some() == is_json_text(upstream.body@),
        final(cache)@.remove(plan.cache_key@) == old(cache)@.remove(plan.cache_key@),
        r.status == upstream.status,
        pairs(r.headers@) == with_server(normalize_headers(pairs(upstream.headers@))),
        r.body@ == upstream.body@,
{
    let payload = parse_json(&upstream.body);
    let ghost key = plan.cache_key@;
    cache.insert(plan.cache_key, payload, now);
    assert(cache@.remove(key) =~= old(cache)@.remove(key));
    let relayed = normalize_response_headers(&upstream.headers);
    let headers = with_server_header(&relayed);
    ClientResponse { status: upstream.status, headers, body: upstream.body }
}

/// The client's response when the backend call failed: a bare 500.
pub fn upstream_failure() -> (r: ClientResponse)
    ensures
        r.status == UPSTREAM_FAILURE_STATUS,
        pairs(r.headers@) == with_server(Seq::empty()),
        r.body@.len() == 0,
{
    let none: Vec<Header> = Vec::new();
    assert(pairs(none@) =~= Seq::empty());
    let headers = with_server_header(&none);
    ClientResponse { status: UPSTREAM_FAILURE_STATUS, headers, body: Vec::new() }
}

/// A request repeated with the same method, URL and credential, allowing the
/// cache, less than the time to live after the first one's reply was stored,
/// is answered with that reply: it makes no second backend call.
pub proof fn repeat_within_ttl_is_served_from_cache<V>(
    contents: Map<Seq<char>, (V, u64)>,
    method: Seq<char>,
    url: Seq<char>,
    first_headers: Seq<(Seq<char>, Seq<char>)>,
    again_headers: Seq<(Seq<char>, Seq<char>)>,
    payload: V,
    t0: u64,
    t1: u64,
    ttl: u64,
)
    requires
        credential_of(first_headers) == credential_of(again_headers),
        cache_allowed(first_value(again_headers, CACHE_CONTROL@)),
        t0 <= t1,
        t1 - t0 < ttl,
    ensures
        served_from_cache(
            contents.insert(cache_key(method, url, credential_of(first_headers)), (payload, t0)),
            cache_key(method, url, credential_of(again_headers)),
            cache_allowed(first_value(again_headers, CACHE_CONTROL@)),
            t1,
            ttl,
        ) == Some(payload),
{
}

/// A request whose `Cache-Control` is exactly `no-cache` is never answered from
/// the cache, whatever it holds: it always reaches the backend.
pub proof fn no_cache_always_forwards<V>(
    contents: Map<Seq<char>, (V, u64)>,
    headers: Seq<(Seq<char>, Seq<char>)>,
    key: Seq<char>,
    now: u64,
    ttl: u64,
)
    requires
        first_value(headers, CACHE_CONTROL@) == Some(NO_CACHE@),
    ensures
        served_from_cache(contents, key, cache_allowed(first_value(headers, CACHE_CONTROL@)), now, ttl) == None::<V>,
{
}

} // verus!
