//! Counting and replacing occurrences of a pattern, with the semantics of
//! `str::find`-based counting, `str::replace` and `str::replacen`.
use vstd::prelude::*;
use crate::text::{chars_of, match_at, matches_at, push_chars, string_of};

verus! {

/// Number of non-overlapping occurrences of a nonempty `n` in `h` that a
/// left-to-right scan finds from position `i` on.
pub open spec fn count_from(h: Seq<char>, n: Seq<char>, i: int) -> nat
    decreases h.len() - i,
{
    if n.len() == 0 || i < 0 || i + n.len() > h.len() {
        0
    } else if match_at(h, n, i) {
        1 + count_from(h, n, i + n.len())
    } else {
        count_from(h, n, i + 1)
    }
}

/// Occurrences of `n` in `h` (0 for an empty `n`), as the edit tools count them.
pub open spec fn count_occ(h: Seq<char>, n: Seq<char>) -> nat {
    count_from(h, n, 0)
}

pub open spec fn dec_limit(l: Option<nat>) -> Option<nat> {
    match l {
        Some(k) => Some((k - 1) as nat),
        None => None,
    }
}

pub open spec fn limit_view(l: Option<usize>) -> Option<nat> {
    match l {
        Some(k) => Some(k as nat),
        None => None,
    }
}

/// Replacing, from position `i`, at most `limit` (all when `None`) of the
/// leftmost non-overlapping occurrences of a nonempty `n` by `r`.
pub open spec fn replace_from(
    h: Seq<char>,
    n: Seq<char>,
    r: Seq<char>,
    i: int,
    limit: Option<nat>,
) -> Seq<char>
    decreases h.len() - i,
{
    if i < 0 || i >= h.len() {
        seq![]
    } else if limit == Some(0nat) || n.len() == 0 || i + n.len() > h.len() {
        h.subrange(i, h.len() as int)
    } else if match_at(h, n, i) {
        r + replace_from(h, n, r, i + n.len(), dec_limit(limit))
    } else {
        seq![h[i]] + replace_from(h, n, r, i + 1, limit)
    }
}

/// Replacing the empty pattern: `r` goes before each character and at the end,
/// at most `limit` times.
pub open spec fn replace_empty(h: Seq<char>, r: Seq<char>, limit: Option<nat>) -> Seq<char>
    decreases h.len(),
{
    if limit == Some(0nat) {
        h
    } else if h.len() == 0 {
        r
    } else {
        r + seq![h[0]] + replace_empty(h.drop_first(), r, dec_limit(limit))
    }
}

/// `h.replace(n, r)` (limit `None`) and `h.replacen(n, r, k)` (limit `Some(k)`).
pub open spec fn replace_spec(h: Seq<char>, n: Seq<char>, r: Seq<char>, limit: Option<nat>) -> Seq<
    char,
> {
    if n.len() == 0 {
        replace_empty(h, r, limit)
    } else {
        replace_from(h, n, r, 0, limit)
    }
}

/// Counts the occurrences of `n` in `h`.
pub fn count_chars(h: &Vec<char>, n: &Vec<char>) -> (c: usize)
    ensures
        c == count_occ(h@, n@),
{
    if n.len() == 0 || n.len() > h.len() {
        return 0;
    }
    let mut i: usize = 0;
    let mut c: usize = 0;
    while i <= h.len() - n.len()
        invariant
            0 < n.len() <= h.len(),
            i <= h.len(),
            c <= i,
            c + count_from(h@, n@, i as int) == count_from(h@, n@, 0),
        decreases h.len() - i,
    {
        if matches_at(h, n, i) {
            c = c + 1;
            i = i + n.len();
        } else {
            i = i + 1;
        }
    }
    c
}

/// `haystack` occurrences of `needle` (0 for an empty needle).
pub fn count_occurrences(needle: &str, haystack: &str) -> (c: usize)
    ensures
        c == count_occ(haystack@, needle@),
{
    let h = chars_of(haystack);
    let n = chars_of(needle);
    count_chars(&h, &n)
}

proof fn lemma_replace_from_tail(h: Seq<char>, n: Seq<char>, r: Seq<char>, i: int, limit: Option<nat>)
    requires
        0 <= i < h.len(),
        limit == Some(0nat) || n.len() == 0 || i + n.len() > h.len(),
    ensures
        replace_from(h, n, r, i, limit) == h.subrange(i, h.len() as int),
{
}

/// Replaces in `h` the occurrences of `n` by `r`: all of them when `limit`
/// is `None`, else the first `limit`.
pub fn replace_chars(h: &Vec<char>, n: &Vec<char>, r: &Vec<char>, limit: Option<usize>) -> (out:
    Vec<char>)
    ensures
        out@ == replace_spec(h@, n@, r@, limit_view(limit)),
{
    let mut out: Vec<char> = Vec::new();
    let mut i: usize = 0;
    let mut lim = limit;
    if n.len() == 0 {
        assert(h@.skip(0) =~= h@);
        while i < h.len()
            invariant
                i <= h.len(),
                out@ + replace_empty(h@.skip(i as int), r@, limit_view(lim)) == replace_empty(
                    h@,
                    r@,
                    limit_view(limit),
                ),
            decreases h.len() - i,
        {
            let ghost rest = h@.skip(i as int);
            let ghost before = out@;
            if lim == Some(0usize) {
                let mut j = i;
                while j < h.len()
                    invariant
                        i <= j <= h.len(),
                        out@ == before + h@.subrange(i as int, j as int),
                    decreases h.len() - j,
                {
                    out.push(h[j]);
                    j = j + 1;
                    assert(h@.subrange(i as int, j as int) =~= h@.subrange(i as int, j - 1).push(
                        h@[j - 1],
                    ));
                }
                assert(h@.subrange(i as int, h.len() as int) =~= rest);
                assert(h@.skip(h.len() as int) =~= seq![]);
                i = h.len();
            } else {
                let ghost l0 = limit_view(lim);
                push_chars(&mut out, r);
                out.push(h[i]);
                assert(rest.drop_first() =~= h@.skip(i + 1));
                assert(out@ =~= before + (r@ + seq![rest[0]]));
                lim = match lim {
                    Some(k) => Some(k - 1),
                    None => None,
                };
                assert(limit_view(lim) == dec_limit(l0));
                i = i + 1;
                assert(replace_empty(rest, r@, l0) == r@ + seq![rest[0]] + replace_empty(
                    rest.drop_first(),
                    r@,
                    dec_limit(l0),
                ));
                assert(out@ + replace_empty(h@.skip(i as int), r@, limit_view(lim)) =~= before
                    + replace_empty(rest, r@, l0));
            }
        }
        assert(h@.skip(i as int) =~= seq![]);
        if lim != Some(0usize) {
            push_chars(&mut out, r);
        }
        return out;
    }
    assert(h@.subrange(0, h.len() as int) =~= h@);
    while i < h.len()
        invariant
            n.len() > 0,
            i <= h.len(),
            out@ + replace_from(h@, n@, r@, i as int, limit_view(lim)) == replace_from(
                h@,
                n@,
                r@,
                0,
                limit_view(limit),
            ),
        decreases h.len() - i,
    {
        let ghost before = out@;
        if lim == Some(0usize) || n.len() > h.len() - i {
            proof {
                lemma_replace_from_tail(h@, n@, r@, i as int, limit_view(lim));
            }
            let mut j = i;
            while j < h.len()
                invariant
                    i <= j <= h.len(),
                    out@ == before + h@.subrange(i as int, j as int),
                decreases h.len() - j,
            {
                out.push(h[j]);
                j = j + 1;
                assert(h@.subrange(i as int, j as int) =~= h@.subrange(i as int, j - 1).push(
                    h@[j - 1],
                ));
            }
            i = h.len();
        } else if matches_at(h, n, i) {
            push_chars(&mut out, r);
            assert(before + (r@ + replace_from(
                h@,
                n@,
                r@,
                i + n.len(),
                dec_limit(limit_view(lim)),
            )) =~= out@ + replace_from(h@, n@, r@, i + n.len(), dec_limit(limit_view(lim))));
            lim = match lim {
                Some(k) => Some(k - 1),
                None => None,
            };
            i = i + n.len();
        } else {
            out.push(h[i]);
            assert(before + (seq![h@[i as int]] + replace_from(
                h@,
                n@,
                r@,
                i + 1,
                limit_view(lim),
            )) =~= out@ + replace_from(h@, n@, r@, i + 1, limit_view(lim)));
            i = i + 1;
        }
    }
    assert(out@ =~= replace_from(h@, n@, r@, 0, limit_view(limit)));
    out
}

/// `content.replace(pat, to)`.
pub fn replace_all_str(content: &str, pat: &str, to: &str) -> (r: String)
    ensures
        r@ == replace_spec(content@, pat@, to@, None),
{
    let h = chars_of(content);
    let n = chars_of(pat);
    let t = chars_of(to);
    let v = replace_chars(&h, &n, &t, None);
    string_of(&v)
}

/// `content.replacen(pat, to, count)`.
pub fn replacen_str(content: &str, pat: &str, to: &str, count: usize) -> (r: String)
    ensures
        r@ == replace_spec(content@, pat@, to@, Some(count as nat)),
{
    let h = chars_of(content);
    let n = chars_of(pat);
    let t = chars_of(to);
    let v = replace_chars(&h, &n, &t, Some(count));
    string_of(&v)
}

} // verus!
