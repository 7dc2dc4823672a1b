//! Branch pattern matching: a deliberately restricted glob subset.
//!
//! `*` alone matches everything; a pattern wrapped in `*...*` matches by
//! substring containment of the inner text; a leading `*` matches by suffix;
//! a trailing `*` matches by prefix; anything else matches by exact string
//! equality. No character classes, no escaping, no multiple wildcards.

use vstd::prelude::*;
use vstd::seq_lib::*;

verus! {

/// Whether `needle` occurs contiguously anywhere inside `hay`.
pub open spec fn has_substring(hay: Seq<char>, needle: Seq<char>) -> bool {
    exists|i: int|
        0 <= i <= hay.len() - needle.len() && #[trigger] hay.subrange(i, i + needle.len())
            == needle
}

/// The exact semantics of the restricted glob subset.
pub open spec fn spec_glob_match(p: Seq<char>, t: Seq<char>) -> bool {
    if p.len() == 1 && p[0] == '*' {
        true
    } else if p.len() >= 2 && p[0] == '*' && p[p.len() - 1] == '*' {
        has_substring(t, p.subrange(1, p.len() - 1))
    } else if p.len() >= 1 && p[0] == '*' {
        p.subrange(1, p.len() as int).is_suffix_of(t)
    } else if p.len() >= 1 && p[p.len() - 1] == '*' {
        p.subrange(0, p.len() - 1).is_prefix_of(t)
    } else {
        p == t
    }
}

/// Compares `len` characters of `p` starting at `p_from` with `len`
/// characters of `t` starting at `t_from`.
fn chars_eq_range(p: &str, t: &str, p_from: usize, t_from: usize, len: usize) -> (r: bool)
    requires
        p_from + len <= p@.len(),
        t_from + len <= t@.len(),
        p@.len() <= usize::MAX,
        t@.len() <= usize::MAX,
    ensures
        r == (p@.subrange(p_from as int, p_from + len) == t@.subrange(t_from as int, t_from + len)),
{
    let mut j: usize = 0;
    while j < len
        invariant
            j <= len,
            p_from + len <= p@.len(),
            t_from + len <= t@.len(),
            p@.len() <= usize::MAX,
            t@.len() <= usize::MAX,
            forall|k: int| 0 <= k < j ==> p@[p_from + k] == #[trigger] t@[t_from + k],
        decreases len - j,
    {
        if p.get_char(p_from + j) != t.get_char(t_from + j) {
            proof {
                let ps = p@.subrange(p_from as int, p_from + len);
                let ts = t@.subrange(t_from as int, t_from + len);
                assert(ps[j as int] != ts[j as int]);
            }
            return false;
        }
        j += 1;
    }
    proof {
        let ps = p@.subrange(p_from as int, p_from + len);
        let ts = t@.subrange(t_from as int, t_from + len);
        assert forall|q: int| 0 <= q < ps.len() implies ps[q] == ts[q] by {
            assert(p@[p_from + q] == t@[t_from + q]);
        }
        assert(ps =~= ts);
    }
    true
}

/// Compares two string slices character by character.
pub fn str_eq(a: &str, b: &str) -> (r: bool)
    ensures
        r == (a@ == b@),
{
    let al = a.unicode_len();
    let bl = b.unicode_len();
    if al != bl {
        return false;
    }
    let r = chars_eq_range(a, b, 0, 0, al);
    proof {
        assert(a@.subrange(0, al as int) =~= a@);
        assert(b@.subrange(0, bl as int) =~= b@);
    }
    r
}

/// Decides whether `text` matches the restricted glob `pattern`.
pub fn glob_match(pattern: &str, text: &str) -> (r: bool)
    ensures
        r == spec_glob_match(pattern@, text@),
{
    let pl = pattern.unicode_len();
    let tl = text.unicode_len();
    if pl == 1 && pattern.get_char(0) == '*' {
        return true;
    }
    let starts = pl >= 1 && pattern.get_char(0) == '*';
    let ends = pl >= 1 && pattern.get_char(pl - 1) == '*';
    if pl >= 2 && starts && ends {
        // Substring containment of the inner text.
        let n = pl - 2;
        if n > tl {
            return false;
        }
        let bound = tl - n;
        let mut i: usize = 0;
        loop
            invariant
                pl >= 2,
                n == pl - 2,
                n <= tl,
                bound == tl - n,
                pl == pattern@.len(),
                tl == text@.len(),
                pattern@[0] == '*',
                pattern@[pl - 1] == '*',
                i <= bound,
                forall|k: int|
                    0 <= k < i ==> #[trigger] text@.subrange(k, k + n) != pattern@.subrange(
                        1,
                        pl - 1,
                    ),
            decreases bound - i,
        {
            if chars_eq_range(pattern, text, 1, i, n) {
                proof {
                    let inner = pattern@.subrange(1, pl - 1);
                    assert(inner.len() == n);
                    assert(text@.subrange(i as int, i + inner.len()) == inner);
                }
                return true;
            }
            if i == bound {
                proof {
                    let inner = pattern@.subrange(1, pl - 1);
                    assert(inner.len() == n);
                    assert forall|w: int|
                        0 <= w <= text@.len() - inner.len() implies #[trigger] text@.subrange(
                        w,
                        w + inner.len(),
                    ) != inner by {
                        if w < i {
                            assert(text@.subrange(w, w + n) != inner);
                        } else {
                            assert(text@.subrange(i as int, i + n) != inner);
                        }
                    }
                }
                return false;
            }
            i += 1;
        }
    }
    if starts {
        // Suffix match against the text's tail.
        let n = pl - 1;
        if n > tl {
            return false;
        }
        let r = chars_eq_range(pattern, text, 1, tl - n, n);
        proof {
            let suf = pattern@.subrange(1, pl as int);
            assert(suf.len() == n);
            assert(text@.subrange(tl - n, tl as int) =~= text@.subrange(
                text@.len() - suf.len(),
                text@.len() as int,
            ));
        }
        return r;
    }
    if ends {
        // Prefix match against the text's head.
        let n = pl - 1;
        if n > tl {
            return false;
        }
        let r = chars_eq_range(pattern, text, 0, 0, n);
        proof {
            let pre = pattern@.subrange(0, pl - 1);
            assert(text@.subrange(0, n as int) =~= text@.subrange(0, pre.len() as int));
        }
        return r;
    }
    // Exact equality.
    if pl != tl {
        return false;
    }
    let r = chars_eq_range(pattern, text, 0, 0, pl);
    proof {
        assert(pattern@.subrange(0, pl as int) =~= pattern@);
        assert(text@.subrange(0, tl as int) =~= text@);
    }
    r
}

} // verus!
