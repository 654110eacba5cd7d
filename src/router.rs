//! Host-based target resolution.

use vstd::prelude::*;
use vstd::string::*;
use crate::text::{has_prefix, has_substring, contains_text, starts_with_text};

verus! {

/// Origin that serves every host no rule claims.
pub const DEFAULT_ORIGIN: &'static str = "https://db-suitsbooks-nl.xylex.cloud";

/// Marker that identifies hosts of the dexter tenant.
pub const DEXTER_HOST: &'static str = "db-dexter.xylex.cloud";

/// Origin of the dexter tenant.
pub const DEXTER_ORIGIN: &'static str = "https://athena.dexter.xylex.cloud";

/// Path prefix of the inbound API that the backends do not expect.
pub const API_PREFIX: &'static str = "/rest/v1";

/// One routing rule: hosts that contain `matcher` go to `origin`.
pub struct RouteRule {
    pub matcher: String,
    pub origin: String,
}

/// An ordered list of routing rules, with a fallback origin.
pub struct RoutingTable {
    pub rules: Vec<RouteRule>,
    pub default_origin: String,
}

impl View for RouteRule {
    type V = (Seq<char>, Seq<char>);

    open spec fn view(&self) -> (Seq<char>, Seq<char>) {
        (self.matcher@, self.origin@)
    }
}

impl View for RoutingTable {
    type V = (Seq<(Seq<char>, Seq<char>)>, Seq<char>);

    open spec fn view(&self) -> (Seq<(Seq<char>, Seq<char>)>, Seq<char>) {
        (self.rules@.map_values(|r: RouteRule| r@), self.default_origin@)
    }
}

/// The origin chosen for `host`: that of the first rule whose matcher occurs in
/// `host`, else `default`.
pub open spec fn select_origin(rules: Seq<(Seq<char>, Seq<char>)>, default: Seq<char>, host: Seq<char>) -> Seq<char>
    decreases rules.len(),
{
    if rules.len() == 0 {
        default
    } else if has_substring(host, rules[0].0) {
        rules[0].1
    } else {
        select_origin(rules.drop_first(), default, host)
    }
}

/// The origin that the standard table picks for `host`.
pub open spec fn standard_origin(host: Seq<char>) -> Seq<char> {
    if has_substring(host, DEXTER_HOST@) {
        DEXTER_ORIGIN@
    } else {
        DEFAULT_ORIGIN@
    }
}

/// `path` with a leading API prefix removed, once.
pub open spec fn strip_api_prefix(path: Seq<char>) -> Seq<char> {
    if has_prefix(path, API_PREFIX@) {
        path.subrange(API_PREFIX@.len() as int, path.len() as int)
    } else {
        path
    }
}

/// `"?" + query` for a non-empty query, else nothing.
pub open spec fn query_suffix(query: Seq<char>) -> Seq<char> {
    if query.len() == 0 {
        Seq::empty()
    } else {
        seq!['?'] + query
    }
}

/// The backend URL for an inbound request.
pub open spec fn resolved_url(host: Seq<char>, path: Seq<char>, query: Seq<char>) -> Seq<char> {
    standard_origin(host) + strip_api_prefix(path) + query_suffix(query)
}

proof fn lemma_select_skip(rules: Seq<(Seq<char>, Seq<char>)>, default: Seq<char>, host: Seq<char>, i: int)
    requires
        0 <= i < rules.len(),
        !has_substring(host, rules[i].0),
    ensures
        select_origin(rules.subrange(i, rules.len() as int), default, host)
            == select_origin(rules.subrange(i + 1, rules.len() as int), default, host),
{
    let tail = rules.subrange(i, rules.len() as int);
    assert(tail.drop_first() =~= rules.subrange(i + 1, rules.len() as int));
}

impl RoutingTable {
    /// The table in service: dexter hosts first, everything else to the default origin.
    pub fn standard() -> (t: RoutingTable)
        ensures
            t@.0 == seq![(DEXTER_HOST@, DEXTER_ORIGIN@)],
            t@.1 == DEFAULT_ORIGIN@,
    {
        let rule = RouteRule { matcher: String::from_str(DEXTER_HOST), origin: String::from_str(DEXTER_ORIGIN) };
        let rules = vec![rule];
        let t = RoutingTable { rules, default_origin: String::from_str(DEFAULT_ORIGIN) };
        assert(t@.0 =~= seq![(DEXTER_HOST@, DEXTER_ORIGIN@)]);
        t
    }

    /// The origin for `host`, by the first matching rule.
    pub fn origin_for(&self, host: &str) -> (r: &String)
        ensures
            r@ == select_origin(self@.0, self@.1, host@),
    {
        let ghost rules = self@.0;
        let n = self.rules.len();
        let mut i: usize = 0;
        assert(rules.subrange(0, n as int) =~= rules);
        while i < n
            invariant
                n == self.rules@.len(),
                rules == self@.0,
                i <= n,
                select_origin(rules, self@.1, host@)
                    == select_origin(rules.subrange(i as int, n as int), self@.1, host@),
            decreases n - i,
        {
            let rule = &self.rules[i];
            if contains_text(host, rule.matcher.as_str()) {
                assert(rules.subrange(i as int, n as int)[0] == rule@);
                return &rule.origin;
            }
            proof {
                lemma_select_skip(rules, self@.1, host@, i as int);
            }
            i = i + 1;
        }
        assert(rules.subrange(n as int, n as int).len() == 0);
        &self.default_origin
    }
}

/// `path` with a leading API prefix removed, once.
pub fn strip_api_prefix_of(path: &str) -> (r: String)
    ensures
        r@ == strip_api_prefix(path@),
{
    if starts_with_text(path, API_PREFIX) {
        let k = API_PREFIX.unicode_len();
        let n = path.unicode_len();
        String::from_str(path.substring_char(k, n))
    } else {
        String::from_str(path)
    }
}

/// The backend URL for `path` on `host`: the host's origin followed by `path`
/// with a leading API prefix removed, once.
pub fn determine_target_url(host: &str, path: &str) -> (r: String)
    ensures
        r@ == standard_origin(host@) + strip_api_prefix(path@),
{
    let table = RoutingTable::standard();
    let origin = table.origin_for(host);
    proof {
        let rules = table@.0;
        assert(rules[0] == (DEXTER_HOST@, DEXTER_ORIGIN@));
        assert(rules.drop_first().len() == 0);
        assert(select_origin(rules.drop_first(), table@.1, host@) == DEFAULT_ORIGIN@);
        assert(origin@ == standard_origin(host@));
    }
    let stripped = strip_api_prefix_of(path);
    let mut url = origin.clone();
    url.append(stripped.as_str());
    url
}

/// The backend URL for an inbound request: origin by host, path without its
/// API prefix, and the query string kept verbatim after `?` when non-empty.
pub fn resolve_target(host: &str, path: &str, query: &str) -> (r: String)
    ensures
        r@ == resolved_url(host@, path@, query@),
{
    let mut url = determine_target_url(host, path);
    if query.unicode_len() > 0 {
        url.append("?");
        url.append(query);
        proof {
            reveal_strlit("?");
        }
        assert(url@ =~= resolved_url(host@, path@, query@));
    } else {
        assert(url@ =~= resolved_url(host@, path@, query@));
    }
    url
}

} // verus!
