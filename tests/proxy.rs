use athena_proxy::cache::{TtlCache, CACHE_TTL_MS};
use athena_proxy::cache_key::{derive_cache_key, escape_key_text};
use athena_proxy::headers::{
    bearer_credential_of, cache_allowed_by, find_header, is_hop_by_hop_name, normalize_response_headers,
    outbound_headers_for, remove_named, with_server_header, Header,
};
use athena_proxy::pipeline::{
    cached_payload, complete_request, forward_method, new_response_cache, plan_request, upstream_failure,
    ClientResponse, InboundRequest, Method, OutboundRequest, UpstreamResponse,
};
use athena_proxy::router::{
    determine_target_url, resolve_target, strip_api_prefix_of, RouteRule, RoutingTable,
};
use athena_proxy::text::{contains_text, eq_ignore_case, eq_text, starts_with_text};

fn header(name: &str, value: &str) -> Header {
    Header { name: name.to_string(), value: value.to_string() }
}

fn pairs(hs: &[Header]) -> Vec<(String, String)> {
    hs.iter().map(|h| (h.name.clone(), h.value.clone())).collect()
}

fn inbound(method: &str, host: &str, path: &str, query: &str, extra: Vec<Header>) -> InboundRequest {
    let mut headers = vec![header("host", host)];
    headers.extend(extra);
    let full_url = if query.is_empty() {
        format!("http://{}{}", host, path)
    } else {
        format!("http://{}{}?{}", host, path, query)
    };
    InboundRequest {
        method: method.to_string(),
        full_url,
        path: path.to_string(),
        query: query.to_string(),
        headers,
        body: Vec::new(),
    }
}

/// A backend stand-in that counts its calls and answers with a fixed reply.
struct StubBackend {
    calls: usize,
    last_call: Option<(Method, String, Vec<(String, String)>)>,
    status: u16,
    headers: Vec<(String, String)>,
    body: Vec<u8>,
}

impl StubBackend {
    fn new(status: u16, headers: &[(&str, &str)], body: &[u8]) -> StubBackend {
        StubBackend {
            calls: 0,
            last_call: None,
            status,
            headers: headers.iter().map(|(n, v)| (n.to_string(), v.to_string())).collect(),
            body: body.to_vec(),
        }
    }

    fn call(&mut self, req: &OutboundRequest) -> UpstreamResponse {
        self.calls += 1;
        self.last_call = Some((req.method, req.url.clone(), pairs(&req.headers)));
        UpstreamResponse {
            status: self.status,
            headers: self.headers.iter().map(|(n, v)| header(n, v)).collect(),
            body: self.body.clone(),
        }
    }
}

/// What one inbound request yields: a cached payload, or a relayed response.
enum Outcome {
    Hit(Option<serde_json::Value>),
    Relayed(ClientResponse),
}

fn handle(
    cache: &mut TtlCache<Option<serde_json::Value>>,
    backend: &mut StubBackend,
    req: InboundRequest,
    now: u64,
) -> Outcome {
    let plan = plan_request(req);
    if let Some(p) = cached_payload(cache, &plan, now) {
        return Outcome::Hit(p.clone());
    }
    let reply = backend.call(&plan.outbound);
    Outcome::Relayed(complete_request(cache, plan, reply, now))
}

#[test]
fn dexter_host_routes_to_dexter_origin() {
    assert_eq!(
        determine_target_url("db-dexter.xylex.cloud", "/items"),
        "https://athena.dexter.xylex.cloud/items"
    );
    assert_eq!(
        determine_target_url("eu.db-dexter.xylex.cloud:443", "/x"),
        "https://athena.dexter.xylex.cloud/x"
    );
}

#[test]
fn other_hosts_route_to_default_origin() {
    assert_eq!(
        determine_target_url("db-suitsbooks.example", "/items"),
        "https://db-suitsbooks-nl.xylex.cloud/items"
    );
    assert_eq!(determine_target_url("", ""), "https://db-suitsbooks-nl.xylex.cloud");
    assert_eq!(
        determine_target_url("db-dexter.xylex.clou", "/a"),
        "https://db-suitsbooks-nl.xylex.cloud/a"
    );
}

#[test]
fn first_matching_rule_wins() {
    let table = RoutingTable {
        rules: vec![
            RouteRule { matcher: "alpha".to_string(), origin: "https://one".to_string() },
            RouteRule { matcher: "beta".to_string(), origin: "https://two".to_string() },
        ],
        default_origin: "https://fallback".to_string(),
    };
    assert_eq!(table.origin_for("alpha.beta.host"), "https://one");
    assert_eq!(table.origin_for("beta.host"), "https://two");
    assert_eq!(table.origin_for("gamma.host"), "https://fallback");
    let standard = RoutingTable::standard();
    assert_eq!(standard.origin_for("db-dexter.xylex.cloud"), "https://athena.dexter.xylex.cloud");
}

#[test]
fn path_rewrite_strips_prefix_once() {
    assert_eq!(strip_api_prefix_of("/rest/v1/rest/v1/items"), "/rest/v1/items");
    assert_eq!(
        resolve_target("other.host", "/rest/v1/rest/v1/items", ""),
        "https://db-suitsbooks-nl.xylex.cloud/rest/v1/items"
    );
    assert_eq!(strip_api_prefix_of("/items/rest/v1"), "/items/rest/v1");
    assert_eq!(strip_api_prefix_of("/rest/v1"), "");
}

#[test]
fn query_string_is_appended_verbatim() {
    assert_eq!(
        resolve_target("db-dexter.xylex.cloud", "/rest/v1/books", "limit=10&order=id.desc"),
        "https://athena.dexter.xylex.cloud/books?limit=10&order=id.desc"
    );
    assert_eq!(resolve_target("h", "/rest/v1/books", ""), "https://db-suitsbooks-nl.xylex.cloud/books");
}

#[test]
fn cache_key_substitutes_unsafe_characters() {
    assert_eq!(
        derive_cache_key("GET", "http://localhost:4052/rest/v1/books?select=*", "abc"),
        "GET-http-__localhost-4052_rest_v1_books?select=_xXx_-abc"
    );
    assert_eq!(escape_key_text("a b*c:d/e"), "a_b_xXx_c-d_e");
    assert_eq!(derive_cache_key("GET", "u", ""), "GET-u-");
}

#[test]
fn cache_key_is_deterministic_and_distinguishes_inputs() {
    let a = derive_cache_key("GET", "http://h/rest/v1/books", "tok");
    let b = derive_cache_key("GET", "http://h/rest/v1/books", "tok");
    assert_eq!(a, b);
    assert_ne!(a, derive_cache_key("POST", "http://h/rest/v1/books", "tok"));
    assert_ne!(a, derive_cache_key("GET", "http://h/rest/v1/authors", "tok"));
    assert_ne!(a, derive_cache_key("GET", "http://h/rest/v1/books", "other"));
}

#[test]
fn ttl_boundary() {
    let mut cache: TtlCache<u32> = TtlCache::new(CACHE_TTL_MS);
    let t0: u64 = 5_000_000;
    cache.insert("k".to_string(), 7, t0);
    assert_eq!(cache.get("k", t0), Some(&7));
    assert_eq!(cache.get("k", t0 + 59_000), Some(&7));
    assert_eq!(cache.get("k", t0 + 59_999), Some(&7));
    assert_eq!(cache.get("k", t0 + 60_000), None);
    assert_eq!(cache.get("k", t0 + 61_000), None);
    assert_eq!(cache.get("other", t0), None);
}

#[test]
fn reads_do_not_extend_expiry_and_inserts_replace() {
    let mut cache: TtlCache<u32> = TtlCache::new(1_000);
    cache.insert("k".to_string(), 1, 0);
    assert_eq!(cache.get("k", 900), Some(&1));
    assert_eq!(cache.get("k", 1_500), None);
    cache.insert("k".to_string(), 2, 1_500);
    assert_eq!(cache.get("k", 2_000), Some(&2));
    assert_eq!(cache.len(), 1);
    cache.insert("j".to_string(), 3, 1_500);
    assert_eq!(cache.len(), 2);
    assert_eq!(cache.ttl_ms(), 1_000);
}

#[test]
fn methods_map_one_to_one_and_others_become_get() {
    assert_eq!(forward_method("GET"), Method::Get);
    assert_eq!(forward_method("POST"), Method::Post);
    assert_eq!(forward_method("PUT"), Method::Put);
    assert_eq!(forward_method("DELETE"), Method::Delete);
    assert_eq!(forward_method("PATCH"), Method::Patch);
    assert_eq!(forward_method("HEAD"), Method::Get);
    assert_eq!(forward_method("OPTIONS"), Method::Get);
}

#[test]
fn bearer_credential_extraction() {
    let bearer = "Bearer abc".to_string();
    let basic = "Basic abc".to_string();
    assert_eq!(bearer_credential_of(Some(&bearer)), "abc");
    assert_eq!(bearer_credential_of(Some(&basic)), "");
    assert_eq!(bearer_credential_of(None), "");
}

#[test]
fn only_exact_no_cache_bypasses() {
    let no_cache = "no-cache".to_string();
    let no_store = "no-store".to_string();
    let upper = "No-Cache".to_string();
    assert!(!cache_allowed_by(Some(&no_cache)));
    assert!(cache_allowed_by(Some(&no_store)));
    assert!(cache_allowed_by(Some(&upper)));
    assert!(cache_allowed_by(None));
}

#[test]
fn outbound_headers_drop_host_and_add_apikey() {
    let hs = vec![header("Host", "h"), header("authorization", "Bearer abc"), header("accept", "*/*")];
    let out = outbound_headers_for(&hs, "abc");
    assert_eq!(
        pairs(&out),
        vec![
            ("authorization".to_string(), "Bearer abc".to_string()),
            ("accept".to_string(), "*/*".to_string()),
            ("apikey".to_string(), "abc".to_string()),
        ]
    );
    let without = outbound_headers_for(&hs, "");
    assert_eq!(pairs(&without).len(), 2);
}

#[test]
fn response_headers_are_normalized() {
    let hs = vec![
        header("Content-Encoding", "gzip"),
        header("content-type", "text/plain"),
        header("Content-Length", "12"),
        header("transfer-encoding", "chunked"),
        header("CONNECTION", "keep-alive"),
        header("x-request-id", "42"),
    ];
    let out = normalize_response_headers(&hs);
    assert_eq!(
        pairs(&out),
        vec![
            ("content-type".to_string(), "application/json".to_string()),
            ("x-request-id".to_string(), "42".to_string()),
        ]
    );
    assert!(is_hop_by_hop_name("Transfer-Encoding"));
    assert!(!is_hop_by_hop_name("content-type"));
}

#[test]
fn server_header_is_overridden() {
    let hs = vec![header("Server", "nginx"), header("x", "y")];
    let out = with_server_header(&hs);
    assert_eq!(
        pairs(&out),
        vec![("x".to_string(), "y".to_string()), ("server".to_string(), "XYLEX/0".to_string())]
    );
}

#[test]
fn header_lookup_ignores_case_and_takes_first() {
    let hs = vec![header("X-A", "1"), header("x-a", "2")];
    assert_eq!(find_header(&hs, "x-a").map(|s| s.as_str()), Some("1"));
    assert_eq!(find_header(&hs, "x-b"), None);
    assert_eq!(pairs(&remove_named(&hs, "X-a")).len(), 0);
}

#[test]
fn text_helpers() {
    assert!(contains_text("abcdef", "cde"));
    assert!(!contains_text("abc", "abcd"));
    assert!(contains_text("abc", ""));
    assert!(starts_with_text("/rest/v1/x", "/rest/v1"));
    assert!(!starts_with_text("/rest", "/rest/v1"));
    assert!(eq_ignore_case("Content-Type", "content-type"));
    assert!(!eq_ignore_case("content-type", "content-typo"));
    assert!(eq_text("a", "a"));
    assert!(!eq_text("a", "b"));
}

#[test]
fn repeat_get_within_ttl_makes_one_backend_call() {
    let mut cache = new_response_cache();
    let mut backend = StubBackend::new(200, &[("content-type", "application/json")], b"[1,2]");
    let t0: u64 = 10_000;
    let first = handle(&mut cache, &mut backend, inbound("GET", "h", "/rest/v1/items", "", vec![]), t0);
    assert!(matches!(first, Outcome::Relayed(_)));
    let second = handle(&mut cache, &mut backend, inbound("GET", "h", "/rest/v1/items", "", vec![]), t0 + 30_000);
    assert_eq!(backend.calls, 1);
    match second {
        Outcome::Hit(Some(v)) => assert_eq!(v, serde_json::from_slice::<serde_json::Value>(b"[1,2]").unwrap()),
        _ => panic!("expected a cache hit"),
    }
}

#[test]
fn repeat_after_ttl_reaches_backend_again() {
    let mut cache = new_response_cache();
    let mut backend = StubBackend::new(200, &[], b"{}");
    let t0: u64 = 10_000;
    handle(&mut cache, &mut backend, inbound("GET", "h", "/rest/v1/items", "", vec![]), t0);
    handle(&mut cache, &mut backend, inbound("GET", "h", "/rest/v1/items", "", vec![]), t0 + 59_000);
    assert_eq!(backend.calls, 1);
    handle(&mut cache, &mut backend, inbound("GET", "h", "/rest/v1/items", "", vec![]), t0 + 61_000);
    assert_eq!(backend.calls, 2);
}

#[test]
fn no_cache_always_reaches_backend() {
    let mut cache = new_response_cache();
    let mut backend = StubBackend::new(200, &[], b"{\"a\":1}");
    let t0: u64 = 0;
    handle(&mut cache, &mut backend, inbound("GET", "h", "/rest/v1/items", "", vec![]), t0);
    assert_eq!(backend.calls, 1);
    for i in 0..3u64 {
        let req = inbound("GET", "h", "/rest/v1/items", "", vec![header("cache-control", "no-cache")]);
        let out = handle(&mut cache, &mut backend, req, t0 + i);
        assert!(matches!(out, Outcome::Relayed(_)));
    }
    assert_eq!(backend.calls, 4);
}

#[test]
fn different_credentials_do_not_share_entries() {
    let mut cache = new_response_cache();
    let mut backend = StubBackend::new(200, &[], b"1");
    handle(&mut cache, &mut backend, inbound("GET", "h", "/p", "", vec![header("authorization", "Bearer a")]), 0);
    handle(&mut cache, &mut backend, inbound("GET", "h", "/p", "", vec![header("authorization", "Bearer b")]), 1);
    assert_eq!(backend.calls, 2);
}

#[test]
fn gzip_encoding_never_reaches_client() {
    let mut cache = new_response_cache();
    let mut backend = StubBackend::new(200, &[("Content-Encoding", "gzip"), ("x-a", "b")], b"{}");
    match handle(&mut cache, &mut backend, inbound("GET", "h", "/p", "", vec![]), 0) {
        Outcome::Relayed(r) => {
            assert!(r.headers.iter().all(|h| !h.name.eq_ignore_ascii_case("content-encoding")));
            assert!(r.headers.iter().any(|h| h.name == "x-a"));
        },
        Outcome::Hit(_) => panic!("expected a backend call"),
    }
}

#[test]
fn text_plain_becomes_application_json() {
    let mut cache = new_response_cache();
    let mut backend = StubBackend::new(200, &[("Content-Type", "text/plain")], b"hello");
    match handle(&mut cache, &mut backend, inbound("GET", "h", "/p", "", vec![]), 0) {
        Outcome::Relayed(r) => {
            let ct: Vec<&Header> = r.headers.iter().filter(|h| h.name.eq_ignore_ascii_case("content-type")).collect();
            assert_eq!(ct.len(), 1);
            assert_eq!(ct[0].value, "application/json");
            assert_eq!(r.body, b"hello".to_vec());
        },
        Outcome::Hit(_) => panic!("expected a backend call"),
    }
}

#[test]
fn body_that_is_not_json_is_cached_as_null_and_relayed_raw() {
    let mut cache = new_response_cache();
    let mut backend = StubBackend::new(404, &[], b"not json");
    match handle(&mut cache, &mut backend, inbound("GET", "h", "/p", "", vec![]), 0) {
        Outcome::Relayed(r) => {
            assert_eq!(r.status, 404);
            assert_eq!(r.body, b"not json".to_vec());
        },
        Outcome::Hit(_) => panic!("expected a backend call"),
    }
    match handle(&mut cache, &mut backend, inbound("GET", "h", "/p", "", vec![]), 1) {
        Outcome::Hit(p) => assert!(p.is_none()),
        Outcome::Relayed(_) => panic!("expected a cache hit"),
    }
    assert_eq!(backend.calls, 1);
}

#[test]
fn failed_dispatch_is_a_bare_500() {
    let r = upstream_failure();
    assert_eq!(r.status, 500);
    assert!(r.body.is_empty());
    assert_eq!(pairs(&r.headers), vec![("server".to_string(), "XYLEX/0".to_string())]);
}

#[test]
fn end_to_end_books_scenario() {
    let mut cache = new_response_cache();
    let mut backend = StubBackend::new(200, &[("content-type", "application/json")], b"[{\"id\":1}]");
    let req = || inbound("GET", "api.example.com", "/rest/v1/books", "limit=10", vec![header("Authorization", "Bearer abc")]);
    let first = handle(&mut cache, &mut backend, req(), 1_000);
    assert_eq!(backend.calls, 1);
    let (method, url, headers) = backend.last_call.clone().unwrap();
    assert_eq!(method, Method::Get);
    assert_eq!(url, "https://db-suitsbooks-nl.xylex.cloud/books?limit=10");
    assert!(headers.contains(&("apikey".to_string(), "abc".to_string())));
    assert!(headers.contains(&("Authorization".to_string(), "Bearer abc".to_string())));
    assert!(!headers.iter().any(|(n, _)| n == "host"));
    let first_body = match first {
        Outcome::Relayed(r) => r.body,
        Outcome::Hit(_) => panic!("expected a backend call"),
    };
    let second = handle(&mut cache, &mut backend, req(), 2_000);
    assert_eq!(backend.calls, 1);
    match second {
        Outcome::Hit(Some(v)) => {
            assert_eq!(v, serde_json::from_slice::<serde_json::Value>(&first_body).unwrap());
        },
        _ => panic!("expected a cache hit"),
    }
}

#[test]
fn purge_drops_only_expired_entries() {
    let mut cache: TtlCache<u32> = TtlCache::new(1_000);
    cache.insert("a".to_string(), 1, 0);
    cache.insert("b".to_string(), 2, 500);
    cache.insert("c".to_string(), 3, 900);
    cache.purge_expired(1_200);
    assert_eq!(cache.len(), 2);
    assert_eq!(cache.get("a", 1_200), None);
    assert_eq!(cache.get("b", 1_200), Some(&2));
    assert_eq!(cache.get("c", 1_200), Some(&3));
    cache.purge_expired(5_000);
    assert_eq!(cache.len(), 0);
}

#[test]
fn target_url_strips_api_prefix_once() {
    assert_eq!(
        determine_target_url("localhost:4052", "/rest/v1/rest/v1/items"),
        "https://db-suitsbooks-nl.xylex.cloud/rest/v1/items"
    );
    assert_eq!(
        determine_target_url("db-dexter.xylex.cloud", "/rest/v1/x"),
        "https://athena.dexter.xylex.cloud/x"
    );
    assert_eq!(
        determine_target_url("other.host", "/items/rest/v1"),
        "https://db-suitsbooks-nl.xylex.cloud/items/rest/v1"
    );
}
