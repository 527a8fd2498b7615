//! Scopes: space-separated tokens, compared as sets of tokens.
use vstd::prelude::*;

verus! {

pub const SPACE: u8 = 32;

/// A non-empty run of bytes without a space.
pub open spec fn is_word(t: Seq<u8>) -> bool {
    t.len() > 0 && forall|k: int| 0 <= k < t.len() ==> t[k] != SPACE
}

/// `t` stands in `s` at position `i`, delimited by spaces or the ends of `s`.
pub open spec fn token_at(s: Seq<u8>, i: int, t: Seq<u8>) -> bool {
    &&& 0 <= i
    &&& i + t.len() <= s.len()
    &&& s.subrange(i, i + t.len()) == t
    &&& (i == 0 || s[i - 1] == SPACE)
    &&& (i + t.len() == s.len() || s[i + t.len()] == SPACE)
}

/// `t` is one of the tokens of scope `s`.
pub open spec fn has_token(s: Seq<u8>, t: Seq<u8>) -> bool {
    is_word(t) && exists|i: int| #[trigger] token_at(s, i, t)
}

/// Every token of `requested` is a token of `granted`.
pub open spec fn scope_within(requested: Seq<u8>, granted: Seq<u8>) -> bool {
    forall|t: Seq<u8>| #[trigger] has_token(requested, t) ==> has_token(granted, t)
}

/// Whether `s[start..end]` equals `g[i..i + (end - start)]`.
fn matches_at(g: &[u8], i: usize, s: &[u8], start: usize, end: usize) -> (r: bool)
    requires
        start <= end <= s@.len(),
        i + (end - start) <= g@.len(),
    ensures
        r == (g@.subrange(i as int, i + (end - start)) == s@.subrange(start as int, end as int)),
{
    let len = end - start;
    let mut k: usize = 0;
    while k < len
        invariant
            k <= len,
            len == end - start,
            start <= end <= s@.len(),
            i + len <= g.len(),
            forall|m: int| 0 <= m < k ==> g@.subrange(i as int, i + len)[m] == #[trigger] s@.subrange(start as int, end as int)[m],
        decreases len - k,
    {
        assert(i + k < g@.len());
        if g[i + k] != s[start + k] {
            assert(g@.subrange(i as int, i + len)[k as int] != s@.subrange(start as int, end as int)[k as int]);
            return false;
        }
        k = k + 1;
    }
    assert(g@.subrange(i as int, i + len) =~= s@.subrange(start as int, end as int));
    true
}

/// Whether the word `s[start..end]` is a token of `g`.
fn has_token_exec(g: &[u8], s: &[u8], start: usize, end: usize) -> (r: bool)
    requires
        start < end <= s@.len(),
        is_word(s@.subrange(start as int, end as int)),
    ensures
        r == has_token(g@, s@.subrange(start as int, end as int)),
{
    let ghost t = s@.subrange(start as int, end as int);
    let len = end - start;
    if len > g.len() {
        assert forall|i: int| !token_at(g@, i, t) by {}
        return false;
    }
    let mut i: usize = 0;
    while i <= g.len() - len
        invariant
            len == t.len(),
            len <= g@.len(),
            start < end <= s@.len(),
            t == s@.subrange(start as int, end as int),
            is_word(t),
            forall|j: int| 0 <= j < i ==> !#[trigger] token_at(g@, j, t),
        decreases g@.len() - len + 1 - i,
    {
        let before = i == 0 || g[i - 1] == SPACE;
        let after = i + len == g.len() || g[i + len] == SPACE;
        if before && after && matches_at(g, i, s, start, end) {
            assert(g@.subrange(i as int, i + len) == t);
            assert(token_at(g@, i as int, t));
            assert(is_word(t));
            return true;
        }
        i = i + 1;
    }
    assert forall|j: int| !#[trigger] token_at(g@, j, t) by {}
    false
}

/// Whether every token of `requested` is a token of `granted`.
pub fn scope_within_exec(requested: &[u8], granted: &[u8]) -> (r: bool)
    ensures
        r == scope_within(requested@, granted@),
{
    let ghost req = requested@;
    let n = requested.len();
    let mut i: usize = 0;
    while i < n
        invariant
            i <= n,
            n == req.len(),
            req == requested@,
            i == 0 || req[i - 1] == SPACE || i == n || req[i as int] == SPACE,
            forall|j: int, t: Seq<u8>|
                0 <= j < i && is_word(t) && #[trigger] token_at(req, j, t) ==> has_token(granted@, t),
        decreases n - i,
    {
        if requested[i] == SPACE {
            assert forall|j: int, t: Seq<u8>|
                0 <= j < i + 1 && is_word(t) && #[trigger] token_at(req, j, t) implies has_token(granted@, t) by {
                if j == i {
                    assert(t[0] == req.subrange(j, j + t.len())[0]);
                }
            }
            i = i + 1;
        } else {
            let start = i;
            while i < n && requested[i] != SPACE
                invariant
                    start < n,
                    start <= i <= n,
                    n == req.len(),
                    req == requested@,
                    forall|k: int| start <= k < i ==> req[k] != SPACE,
                decreases n - i,
            {
                i = i + 1;
            }
            let ghost w = req.subrange(start as int, i as int);
            assert(token_at(req, start as int, w));
            if !has_token_exec(granted, requested, start, i) {
                assert(has_token(req, w));
                return false;
            }
            assert forall|j: int, t: Seq<u8>|
                0 <= j < i && is_word(t) && #[trigger] token_at(req, j, t) implies has_token(granted@, t) by {
                if j > start {
                    assert(req[j - 1] != SPACE);
                } else if j == start {
                    let e = j + t.len();
                    if e < i {
                        assert(req[e] != SPACE);
                    } else if e > i {
                        assert(t[i - j] == req.subrange(j, e)[i - j]);
                    }
                    assert(t =~= w);
                }
            }
        }
    }
    assert forall|t: Seq<u8>| #[trigger] has_token(req, t) implies has_token(granted@, t) by {
        let j = choose|j: int| #[trigger] token_at(req, j, t);
        assert(token_at(req, j, t));
    }
    true
}

} // verus!
