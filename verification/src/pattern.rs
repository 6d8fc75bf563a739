//! Matcher for the small pattern language used by the rule tables.
//!
//! A pattern is matched against a whole name, never a substring.  The
//! language has exactly the constructs that the tables need:
//!
//! - a literal character matches itself;
//! - `.*` matches any run of characters (including an empty one);
//! - `\d+` matches a non-empty run of ASCII digits;
//! - `[abc]` matches one character out of the listed set;
//! - `(?:foo|bar)` matches one of the listed literal alternatives.
//!
//! A malformed pattern (an unclosed `[` or `(?:`) matches nothing.

use vstd::prelude::*;
use crate::text::is_digit;

verus! {

/// Index of the first occurrence of `c` in `p`, or -1 if there is none.
pub open spec fn find(p: Seq<char>, c: char) -> int
    decreases p.len(),
{
    if p.len() == 0 {
        -1
    } else if p[0] == c {
        0
    } else if find(p.skip(1), c) == -1 {
        -1
    } else {
        find(p.skip(1), c) + 1
    }
}

/// `find` returns the first occurrence: nothing before it is `c`, and if it
/// reports -1 there is no occurrence at all.
pub proof fn lemma_find(p: Seq<char>, c: char)
    ensures
        find(p, c) == -1 ==> forall|i: int| 0 <= i < p.len() ==> p[i] != c,
        find(p, c) != -1 ==> 0 <= find(p, c) < p.len() && p[find(p, c)] == c && (forall|i: int|
            0 <= i < find(p, c) ==> p[i] != c),
    decreases p.len(),
{
    if p.len() == 0 {
    } else if p[0] == c {
    } else {
        lemma_find(p.skip(1), c);
        let r = find(p.skip(1), c);
        if r == -1 {
            assert forall|i: int| 0 <= i < p.len() implies p[i] != c by {
                if i > 0 {
                    assert(p.skip(1)[i - 1] == p[i]);
                }
            }
        } else {
            assert(p.skip(1)[r] == p[r + 1]);
            assert forall|i: int| 0 <= i < r + 1 implies p[i] != c by {
                if i > 0 {
                    assert(p.skip(1)[i - 1] == p[i]);
                }
            }
        }
    }
}

/// Whole-string match of pattern `p` against `s`.
pub open spec fn pat_matches(p: Seq<char>, s: Seq<char>) -> bool
    decreases p.len(), 0nat,
    via pat_matches_dec
{
    if p.len() == 0 {
        s.len() == 0
    } else if p.len() >= 2 && p[0] == '.' && p[1] == '*' {
        exists|k: int| 0 <= k <= s.len() && pat_matches(p.skip(2), s.skip(k))
    } else if p.len() >= 3 && p[0] == '\\' && p[1] == 'd' && p[2] == '+' {
        exists|k: int|
            1 <= k <= s.len() && (forall|j: int| 0 <= j < k ==> is_digit(s[j])) && pat_matches(
                p.skip(3),
                s.skip(k),
            )
    } else if p[0] == '[' {
        let j = find(p.skip(1), ']');
        j >= 0 && s.len() > 0 && p.skip(1).take(j).contains(s[0]) && pat_matches(
            p.skip(j + 2),
            s.skip(1),
        )
    } else if p.len() >= 3 && p[0] == '(' && p[1] == '?' && p[2] == ':' {
        let j = find(p.skip(3), ')');
        j >= 0 && alts_match(p.skip(3).take(j), p.skip(3 + j + 1), s)
    } else {
        s.len() > 0 && s[0] == p[0] && pat_matches(p.skip(1), s.skip(1))
    }
}

/// Match of one of the `|`-separated literal alternatives in `body`,
/// followed by a match of the rest of the pattern, `rest`.
pub open spec fn alts_match(body: Seq<char>, rest: Seq<char>, s: Seq<char>) -> bool
    decreases rest.len() + body.len() + 1, body.len(),
    via alts_match_dec
{
    let i = find(body, '|');
    let alt = if i < 0 {
        body
    } else {
        body.take(i)
    };
    let this_ok = s.len() >= alt.len() && s.take(alt.len() as int) == alt && pat_matches(
        rest,
        s.skip(alt.len() as int),
    );
    if i < 0 {
        this_ok
    } else {
        this_ok || alts_match(body.skip(i + 1), rest, s)
    }
}

#[via_fn]
proof fn pat_matches_dec(p: Seq<char>, s: Seq<char>) {
    if p.len() > 0 && p[0] == '[' {
        lemma_find(p.skip(1), ']');
    }
    if p.len() >= 3 && p[0] == '(' && p[1] == '?' && p[2] == ':' {
        lemma_find(p.skip(3), ')');
    }
}

#[via_fn]
proof fn alts_match_dec(body: Seq<char>, rest: Seq<char>, s: Seq<char>) {
    lemma_find(body, '|');
}

/// First position of `c` in `p[start..end]`, reported against the spec-level
/// `find` on that subrange.
#[verifier::loop_isolation(false)]
fn find_in(p: &Vec<char>, start: usize, end: usize, c: char) -> (r: Option<usize>)
    requires
        start <= end <= p.len(),
    ensures
        match r {
            Some(i) => start <= i < end && find(p@.subrange(start as int, end as int), c) == i
                - start,
            None => find(p@.subrange(start as int, end as int), c) == -1,
        },
{
    let ghost sub = p@.subrange(start as int, end as int);
    proof {
        lemma_find(sub, c);
    }
    let mut i = start;
    while i < end
        invariant
            start <= i <= end,
            forall|m: int| start <= m < i ==> p@[m] != c,
        decreases end - i,
    {
        if p[i] == c {
            proof {
                assert(sub[i - start] == p@[i as int]);
                if find(sub, c) == -1 {
                    assert(false);
                } else {
                    let f = find(sub, c);
                    if f < i - start {
                        assert(sub[f] == p@[start + f]);
                        assert(false);
                    } else if f > i - start {
                        assert(false);
                    }
                }
            }
            return Some(i);
        }
        i = i + 1;
    }
    proof {
        if find(sub, c) != -1 {
            let f = find(sub, c);
            assert(sub[f] == p@[start + f]);
            assert(false);
        }
    }
    None
}

/// Character-wise equality of `p[a0..a1]` and the same-length slice of `s`
/// starting at `b0`.
#[verifier::loop_isolation(false)]
fn prefix_eq(p: &Vec<char>, a0: usize, a1: usize, s: &Vec<char>, b0: usize) -> (r: bool)
    requires
        a0 <= a1 <= p.len(),
        b0 + (a1 - a0) <= s.len(),
    ensures
        r == (s@.subrange(b0 as int, b0 + (a1 - a0)) == p@.subrange(a0 as int, a1 as int)),
{
    let ghost sl = s@.subrange(b0 as int, b0 + (a1 - a0) as int);
    let ghost pl = p@.subrange(a0 as int, a1 as int);
    let n = a1 - a0;
    let mut t: usize = 0;
    while t < n
        invariant
            t <= n,
            forall|m: int| 0 <= m < t ==> sl[m] == pl[m],
        decreases n - t,
    {
        if p[a0 + t] != s[b0 + t] {
            proof {
                assert(sl[t as int] == s@[b0 + t]);
                assert(pl[t as int] == p@[a0 + t]);
            }
            return false;
        }
        proof {
            assert(sl[t as int] == s@[b0 + t]);
            assert(pl[t as int] == p@[a0 + t]);
        }
        t = t + 1;
    }
    proof {
        assert(sl =~= pl);
    }
    true
}

/// Match of the pattern suffix `p[pi..]` against the name suffix `s[si..]`.
#[verifier::loop_isolation(false)]
pub fn pat_match_at(p: &Vec<char>, pi: usize, s: &Vec<char>, si: usize) -> (r: bool)
    requires
        pi <= p.len(),
        si <= s.len(),
    ensures
        r == pat_matches(p@.skip(pi as int), s@.skip(si as int)),
    decreases p@.len() - pi, 0int,
{
    let np = p.len();
    let ns = s.len();
    let ghost ps = p@.skip(pi as int);
    let ghost ss = s@.skip(si as int);
    if pi == np {
        return si == ns;
    }
    if np - pi >= 2 && p[pi] == '.' && p[pi + 1] == '*' {
        let mut k = si;
        while k < ns
            invariant
                si <= k <= ns,
                forall|m: int| si <= m < k ==> !pat_matches(p@.skip(pi + 2), s@.skip(m)),
            decreases ns - k,
        {
            if pat_match_at(p, pi + 2, s, k) {
                proof {
                    assert(ps.skip(2) =~= p@.skip(pi + 2));
                    assert(ss.skip(k - si) =~= s@.skip(k as int));
                    assert(pat_matches(ps.skip(2), ss.skip(k - si)));
                }
                return true;
            }
            k = k + 1;
        }
        if pat_match_at(p, pi + 2, s, ns) {
            proof {
                assert(ps.skip(2) =~= p@.skip(pi + 2));
                assert(ss.skip(ns - si) =~= s@.skip(ns as int));
                assert(pat_matches(ps.skip(2), ss.skip(ns - si)));
            }
            return true;
        }
        proof {
            assert forall|k2: int| 0 <= k2 <= ss.len() implies !pat_matches(
                ps.skip(2),
                ss.skip(k2),
            ) by {
                assert(ps.skip(2) =~= p@.skip(pi + 2));
                assert(ss.skip(k2) =~= s@.skip(si + k2));
            }
        }
        return false;
    }
    if np - pi >= 3 && p[pi] == '\\' && p[pi + 1] == 'd' && p[pi + 2] == '+' {
        if si == ns || !('0' <= s[si] && s[si] <= '9') {
            proof {
                if ss.len() > 0 {
                    assert(ss[0] == s@[si as int]);
                }
            }
            return false;
        }
        // length of the digit run that begins at si
        let mut l: usize = 1;
        while si + l < ns && '0' <= s[si + l] && s[si + l] <= '9'
            invariant
                1 <= l,
                si + l <= ns,
                forall|j: int| si <= j < si + l ==> is_digit(s@[j]),
            decreases ns - si - l,
        {
            l = l + 1;
        }
        let mut k: usize = 1;
        while k < l
            invariant
                1 <= k <= l,
                si + l <= ns,
                forall|j: int| si <= j < si + l ==> is_digit(s@[j]),
                si + l == ns || !is_digit(s@[si + l]),
                forall|m: int| si + 1 <= m < si + k ==> !pat_matches(p@.skip(pi + 3), s@.skip(m)),
            decreases l - k,
        {
            if pat_match_at(p, pi + 3, s, si + k) {
                proof {
                    assert(ps.skip(3) =~= p@.skip(pi + 3));
                    assert(ss.skip(k as int) =~= s@.skip(si + k));
                    assert(forall|j: int| 0 <= j < k ==> is_digit(ss[j]));
                    assert(1 <= k as int <= ss.len() && (forall|j: int|
                        0 <= j < k ==> is_digit(ss[j])) && pat_matches(
                        ps.skip(3),
                        ss.skip(k as int),
                    ));
                }
                return true;
            }
            k = k + 1;
        }
        if pat_match_at(p, pi + 3, s, si + l) {
            proof {
                assert(ps.skip(3) =~= p@.skip(pi + 3));
                assert(ss.skip(l as int) =~= s@.skip(si + l));
                assert(forall|j: int| 0 <= j < l ==> is_digit(ss[j]));
                assert(1 <= l as int <= ss.len() && (forall|j: int|
                    0 <= j < l ==> is_digit(ss[j])) && pat_matches(ps.skip(3), ss.skip(l as int)));
            }
            return true;
        }
        proof {
            assert forall|k2: int|
                1 <= k2 <= ss.len() && (forall|j: int|
                    0 <= j < k2 ==> is_digit(ss[j])) implies !pat_matches(
                ps.skip(3),
                ss.skip(k2),
            ) by {
                if k2 <= l {
                    assert(ps.skip(3) =~= p@.skip(pi + 3));
                    assert(ss.skip(k2) =~= s@.skip(si + k2));
                } else {
                    assert(is_digit(ss[l as int]));
                    assert(ss[l as int] == s@[si + l]);
                    assert(false);
                }
            }
        }
        return false;
    }
    if p[pi] == '[' {
        let jj = match find_in(p, pi + 1, np, ']') {
            None => {
                proof {
                    assert(ps.skip(1) =~= p@.subrange(pi + 1, np as int));
                }
                return false;
            },
            Some(jj) => jj,
        };
        proof {
            assert(ps.skip(1) =~= p@.subrange(pi + 1, np as int));
        }
        let ghost j = jj - pi - 1;
        let ghost cls = ps.skip(1).take(j);
        if si == ns {
            return false;
        }
        let c0 = s[si];
        let mut m = pi + 1;
        let mut found = false;
        while m < jj
            invariant
                pi + 1 <= m <= jj,
                found <==> exists|t: int| pi + 1 <= t < m && p@[t] == s@[si as int],
            decreases jj - m,
        {
            if p[m] == c0 {
                found = true;
            }
            m = m + 1;
        }
        if !found {
            proof {
                assert forall|t: int| 0 <= t < cls.len() implies cls[t] != ss[0] by {
                    assert(cls[t] == p@[pi + 1 + t]);
                }
                assert(!cls.contains(ss[0]));
            }
            return false;
        }
        let r = pat_match_at(p, jj + 1, s, si + 1);
        proof {
            let t = choose|t: int| pi + 1 <= t < jj && p@[t] == s@[si as int];
            assert(cls[t - pi - 1] == p@[t]);
            assert(cls.contains(ss[0]));
            assert(ps.skip(j + 2) =~= p@.skip(jj + 1));
            assert(ss.skip(1) =~= s@.skip(si + 1));
        }
        return r;
    }
    if np - pi >= 3 && p[pi] == '(' && p[pi + 1] == '?' && p[pi + 2] == ':' {
        let jj = match find_in(p, pi + 3, np, ')') {
            None => {
                proof {
                    assert(ps.skip(3) =~= p@.subrange(pi + 3, np as int));
                }
                return false;
            },
            Some(jj) => jj,
        };
        proof {
            assert(ps.skip(3) =~= p@.subrange(pi + 3, np as int));
        }
        let ghost j = jj - pi - 3;
        let r = alts_match_at(p, pi + 3, jj, jj + 1, s, si);
        proof {
            assert(ps.skip(3).take(j) =~= p@.subrange(pi + 3, jj as int));
            assert(ps.skip(3 + j + 1) =~= p@.skip(jj + 1));
        }
        return r;
    }
    if si == ns {
        return false;
    }
    if p[pi] != s[si] {
        proof {
            assert(ps[0] == p@[pi as int]);
            assert(ss[0] == s@[si as int]);
        }
        return false;
    }
    let r = pat_match_at(p, pi + 1, s, si + 1);
    proof {
        assert(ps.skip(1) =~= p@.skip(pi + 1));
        assert(ss.skip(1) =~= s@.skip(si + 1));
    }
    r
}

/// Match of one alternative out of `p[b0..b1]` (split on `|`), followed by a
/// match of the pattern suffix `p[r0..]`.
#[verifier::loop_isolation(false)]
fn alts_match_at(p: &Vec<char>, b0: usize, b1: usize, r0: usize, s: &Vec<char>, si: usize) -> (r:
    bool)
    requires
        b0 <= b1 <= p.len(),
        r0 <= p.len(),
        si <= s.len(),
    ensures
        r == alts_match(p@.subrange(b0 as int, b1 as int), p@.skip(r0 as int), s@.skip(si as int)),
    decreases p@.len() - r0 + (b1 - b0) + 1, b1 - b0,
{
    let ghost body = p@.subrange(b0 as int, b1 as int);
    let ghost rest = p@.skip(r0 as int);
    let ghost ss = s@.skip(si as int);
    let i_opt = find_in(p, b0, b1, '|');
    let e = match i_opt {
        Some(i) => i,
        None => b1,
    };
    let ghost alt = if find(body, '|') < 0 {
        body
    } else {
        body.take(find(body, '|'))
    };
    proof {
        assert(alt =~= p@.subrange(b0 as int, e as int));
    }
    let altlen = e - b0;
    let ns = s.len();
    let this_ok = if ns - si >= altlen {
        if prefix_eq(p, b0, e, s, si) {
            let r1 = pat_match_at(p, r0, s, si + altlen);
            proof {
                assert(ss.take(altlen as int) =~= s@.subrange(si as int, si + altlen));
                assert(ss.skip(altlen as int) =~= s@.skip(si + altlen));
            }
            r1
        } else {
            proof {
                assert(ss.take(altlen as int) =~= s@.subrange(si as int, si + altlen));
            }
            false
        }
    } else {
        false
    };
    match i_opt {
        None => this_ok,
        Some(i) => {
            if this_ok {
                true
            } else {
                let r2 = alts_match_at(p, i + 1, b1, r0, s, si);
                proof {
                    assert(body.skip(i - b0 + 1) =~= p@.subrange(i + 1, b1 as int));
                }
                r2
            }
        },
    }
}

/// Whole-string match of `p` against `s`.
pub fn pat_match(p: &Vec<char>, s: &Vec<char>) -> (r: bool)
    ensures
        r == pat_matches(p@, s@),
{
    let r = pat_match_at(p, 0, s, 0);
    proof {
        assert(p@.skip(0) =~= p@);
        assert(s@.skip(0) =~= s@);
    }
    r
}

} // verus!
