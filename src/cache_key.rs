//! Cache keys derived from method, URL and bearer credential.

use vstd::prelude::*;
use vstd::string::*;

verus! {

/// What one character of the joined request triple becomes in a key.
pub open spec fn key_char(c: char) -> Seq<char> {
    if c == '*' {
        seq!['_', 'x', 'X', 'x', '_']
    } else if c == ' ' {
        seq!['_']
    } else if c == ':' {
        seq!['-']
    } else if c == '/' {
        seq!['_']
    } else {
        seq![c]
    }
}

/// `s` with every character replaced by its key form.
pub open spec fn escape_key(s: Seq<char>) -> Seq<char>
    decreases s.len(),
{
    if s.len() == 0 {
        Seq::empty()
    } else {
        escape_key(s.drop_last()) + key_char(s.last())
    }
}

/// The request triple joined as `method-url-credential`.
pub open spec fn joined_triple(method: Seq<char>, url: Seq<char>, credential: Seq<char>) -> Seq<char> {
    method + seq!['-'] + url + seq!['-'] + credential
}

/// The cache key of a request.
pub open spec fn cache_key(method: Seq<char>, url: Seq<char>, credential: Seq<char>) -> Seq<char> {
    escape_key(joined_triple(method, url, credential))
}

proof fn lemma_escape_step(s: Seq<char>, j: int)
    requires
        0 <= j < s.len(),
    ensures
        escape_key(s.subrange(0, j + 1)) == escape_key(s.subrange(0, j)) + key_char(s[j]),
{
    let p = s.subrange(0, j + 1);
    assert(p.drop_last() =~= s.subrange(0, j));
}

/// `s` with `*` spelled `_xXx_`, space and `/` spelled `_`, and `:` spelled `-`.
pub fn escape_key_text(s: &str) -> (r: String)
    ensures
        r@ == escape_key(s@),
{
    let n = s.unicode_len();
    let mut out = String::new();
    let mut i: usize = 0;
    assert(s@.subrange(0, 0).len() == 0);
    while i < n
        invariant
            n == s@.len(),
            i <= n,
            out@ == escape_key(s@.subrange(0, i as int)),
        decreases n - i,
    {
        let c = s.get_char(i);
        proof {
            lemma_escape_step(s@, i as int);
        }
        if c == '*' {
            proof {
                reveal_strlit("_xXx_");
            }
            assert("_xXx_"@ =~= key_char(c));
            out.append("_xXx_");
        } else if c == ' ' || c == '/' {
            proof {
                reveal_strlit("_");
            }
            assert("_"@ =~= key_char(c));
            out.append("_");
        } else if c == ':' {
            proof {
                reveal_strlit("-");
            }
            assert("-"@ =~= key_char(c));
            out.append("-");
        } else {
            let one = s.substring_char(i, i + 1);
            assert(one@ =~= seq![c]);
            out.append(one);
        }
        i = i + 1;
    }
    assert(s@.subrange(0, n as int) =~= s@);
    out
}

/// The cache key of a request: `method-url-credential` with the characters
/// that the store cannot hold substituted.
pub fn derive_cache_key(method: &str, full_url: &str, credential: &str) -> (r: String)
    ensures
        r@ == cache_key(method@, full_url@, credential@),
{
    let mut joined = String::from_str(method);
    joined.append("-");
    joined.append(full_url);
    joined.append("-");
    joined.append(credential);
    proof {
        reveal_strlit("-");
    }
    assert(joined@ =~= joined_triple(method@, full_url@, credential@));
    escape_key_text(joined.as_str())
}

/// A cache key depends on the method, the URL and the credential alone: equal
/// triples give equal keys.
pub proof fn cache_key_is_deterministic(
    m1: Seq<char>,
    u1: Seq<char>,
    c1: Seq<char>,
    m2: Seq<char>,
    u2: Seq<char>,
    c2: Seq<char>,
)
    requires
        m1 == m2,
        u1 == u2,
        c1 == c2,
    ensures
        cache_key(m1, u1, c1) == cache_key(m2, u2, c2),
{
}

} // verus!
