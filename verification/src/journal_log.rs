//! Append-only JSONL logs of requests (approvals, questions, input requests):
//! every change appends a full record, and the last record of an id is the
//! current state of that request.
use vstd::prelude::*;
use crate::text::{chars_lt, chars_of, lemma_lex_total, lemma_lex_trans, lex_lt, strs, vec_eq};

verus! {

/// No later record has the same id as record `i`.
pub open spec fn is_last(ids: Seq<Seq<char>>, i: int) -> bool {
    forall|j: int| i < j < ids.len() ==> ids[j] != ids[i]
}

/// Indices `< k` of the records that are the last of their id, ascending.
pub open spec fn kept_upto(ids: Seq<Seq<char>>, k: int) -> Seq<int>
    decreases k,
{
    if k <= 0 {
        seq![]
    } else if is_last(ids, k - 1) {
        kept_upto(ids, k - 1).push(k - 1)
    } else {
        kept_upto(ids, k - 1)
    }
}

/// Inserting index `x` after every leading index whose timestamp is not older.
pub open spec fn insert_by_ts(s: Seq<int>, x: int, ts: Seq<Seq<char>>) -> Seq<int>
    decreases s.len(),
{
    if s.len() == 0 {
        seq![x]
    } else if !lex_lt(ts[s[0]], ts[x]) {
        seq![s[0]] + insert_by_ts(s.drop_first(), x, ts)
    } else {
        seq![x] + s
    }
}

/// Stable sort of indices by descending timestamp.
pub open spec fn sort_by_ts_desc(s: Seq<int>, ts: Seq<Seq<char>>) -> Seq<int>
    decreases s.len(),
{
    if s.len() == 0 {
        s
    } else {
        insert_by_ts(sort_by_ts_desc(s.drop_last(), ts), s.last(), ts)
    }
}

/// The current records of a log with these ids and timestamps: the last
/// record of each id, newest first (by timestamp text).
pub open spec fn latest_order_spec(ids: Seq<Seq<char>>, ts: Seq<Seq<char>>) -> Seq<int> {
    sort_by_ts_desc(kept_upto(ids, ids.len() as int), ts)
}

pub open spec fn ts_insert_pos(s: Seq<int>, x: int, ts: Seq<Seq<char>>) -> nat
    decreases s.len(),
{
    if s.len() == 0 {
        0
    } else if !lex_lt(ts[s[0]], ts[x]) {
        1 + ts_insert_pos(s.drop_first(), x, ts)
    } else {
        0
    }
}

proof fn lemma_insert_by_ts(s: Seq<int>, x: int, ts: Seq<Seq<char>>)
    ensures
        ts_insert_pos(s, x, ts) <= s.len(),
        insert_by_ts(s, x, ts) == s.take(ts_insert_pos(s, x, ts) as int).push(x) + s.skip(
            ts_insert_pos(s, x, ts) as int,
        ),
    decreases s.len(),
{
    if s.len() > 0 && !lex_lt(ts[s[0]], ts[x]) {
        lemma_insert_by_ts(s.drop_first(), x, ts);
        let p: int = ts_insert_pos(s.drop_first(), x, ts) as int;
        assert(s.take(p + 1).push(x) + s.skip(p + 1) =~= seq![s[0]] + (s.drop_first().take(p).push(
            x,
        ) + s.drop_first().skip(p)));
    } else {
        assert(s.take(0).push(x) + s.skip(0) =~= seq![x] + s);
    }
}

/// The kept indices are exactly the last records of their ids.
proof fn lemma_kept_upto_contains(ids: Seq<Seq<char>>, k: int)
    ensures
        forall|x: int| #[trigger] kept_upto(ids, k).contains(x) <==> (0 <= x < k && is_last(ids, x)),
    decreases k,
{
    if k > 0 {
        lemma_kept_upto_contains(ids, k - 1);
        let prev = kept_upto(ids, k - 1);
        let cur = kept_upto(ids, k);
        assert forall|x: int| #[trigger] cur.contains(x) <==> (0 <= x < k && is_last(ids, x)) by {
            assert(prev.contains(x) <==> (0 <= x < k - 1 && is_last(ids, x)));
            if is_last(ids, k - 1) {
                assert(cur == prev.push(k - 1));
                if cur.contains(x) {
                    let j = choose|j: int| 0 <= j < cur.len() && #[trigger] cur[j] == x;
                    if j < prev.len() {
                        assert(prev[j] == x);
                    }
                }
                if prev.contains(x) {
                    let j = choose|j: int| 0 <= j < prev.len() && #[trigger] prev[j] == x;
                    assert(cur[j] == x);
                }
                if x == k - 1 {
                    assert(cur[prev.len() as int] == x);
                }
            } else {
                assert(cur == prev);
            }
        }
    } else {
        assert forall|x: int| #[trigger] kept_upto(ids, k).contains(x) <==> (0 <= x < k && is_last(ids, x)) by {
            assert(kept_upto(ids, k).len() == 0);
        }
    }
}

/// Inserting keeps every element and adds `x`.
proof fn lemma_insert_contains(s: Seq<int>, x: int, ts: Seq<Seq<char>>)
    ensures
        forall|y: int| insert_by_ts(s, x, ts).contains(y) <==> (y == x || s.contains(y)),
{
    lemma_insert_by_ts(s, x, ts);
    let p = ts_insert_pos(s, x, ts) as int;
    let r = insert_by_ts(s, x, ts);
    assert(r.len() == s.len() + 1);
    assert forall|y: int| r.contains(y) <==> (y == x || s.contains(y)) by {
        if r.contains(y) {
            let j = choose|j: int| 0 <= j < r.len() && #[trigger] r[j] == y;
            if j < p {
                assert(s[j] == y);
            } else if j > p {
                assert(s[j - 1] == y);
            }
        }
        if y == x {
            assert(r[p] == y);
        }
        if s.contains(y) {
            let j = choose|j: int| 0 <= j < s.len() && #[trigger] s[j] == y;
            if j < p {
                assert(r[j] == y);
            } else {
                assert(r[j + 1] == y);
            }
        }
    }
}

/// Sorting keeps exactly the same elements.
pub proof fn lemma_sort_contains(s: Seq<int>, ts: Seq<Seq<char>>)
    ensures
        forall|y: int| #[trigger] sort_by_ts_desc(s, ts).contains(y) <==> s.contains(y),
    decreases s.len(),
{
    if s.len() > 0 {
        let prev = sort_by_ts_desc(s.drop_last(), ts);
        lemma_sort_contains(s.drop_last(), ts);
        lemma_insert_contains(prev, s.last(), ts);
        assert(sort_by_ts_desc(s, ts) == insert_by_ts(prev, s.last(), ts));
        assert forall|y: int| #[trigger] sort_by_ts_desc(s, ts).contains(y) <==> s.contains(y) by {
            assert(prev.contains(y) <==> s.drop_last().contains(y));
            if s.contains(y) {
                let j = choose|j: int| 0 <= j < s.len() && #[trigger] s[j] == y;
                if j < s.len() - 1 {
                    assert(s.drop_last()[j] == y);
                }
            }
            if s.drop_last().contains(y) {
                let j = choose|j: int| 0 <= j < s.drop_last().len() && #[trigger] s.drop_last()[j] == y;
                assert(s[j] == y);
            }
            if y == s.last() {
                assert(s[s.len() - 1] == y);
            }
        }
    }
}

/// The indices of `s` are in non-increasing order of their timestamps.
pub open spec fn ts_desc(s: Seq<int>, ts: Seq<Seq<char>>) -> bool {
    forall|i: int, j: int| 0 <= i < j < s.len() ==> !lex_lt(#[trigger] ts[s[i]], #[trigger] ts[s[j]])
}

/// Inserting into a sequence ordered newest first keeps it so ordered.
proof fn lemma_insert_sorted(s: Seq<int>, x: int, ts: Seq<Seq<char>>)
    requires
        ts_desc(s, ts),
    ensures
        ts_desc(insert_by_ts(s, x, ts), ts),
    decreases s.len(),
{
    let r = insert_by_ts(s, x, ts);
    if s.len() == 0 {
    } else if !lex_lt(ts[s[0]], ts[x]) {
        let rest = s.drop_first();
        assert forall|i: int, j: int| 0 <= i < j < rest.len() implies !lex_lt(
            #[trigger] ts[rest[i]],
            #[trigger] ts[rest[j]],
        ) by {
            assert(rest[i] == s[i + 1] && rest[j] == s[j + 1]);
        }
        lemma_insert_sorted(rest, x, ts);
        lemma_insert_contains(rest, x, ts);
        let ins = insert_by_ts(rest, x, ts);
        assert(r == seq![s[0]] + ins);
        assert forall|i: int, j: int| 0 <= i < j < r.len() implies !lex_lt(#[trigger] ts[r[i]], #[trigger] ts[r[j]]) by {
            if i == 0 {
                let y = ins[j - 1];
                assert(ins.contains(y));
                if y != x {
                    assert(rest.contains(y));
                    let m = choose|m: int| 0 <= m < rest.len() && rest[m] == y;
                    assert(rest[m] == s[m + 1]);
                    assert(!lex_lt(ts[s[0]], ts[s[m + 1]]));
                }
            } else {
                assert(r[i] == ins[i - 1] && r[j] == ins[j - 1]);
            }
        }
    } else {
        assert(r == seq![x] + s);
        assert forall|i: int, j: int| 0 <= i < j < r.len() implies !lex_lt(#[trigger] ts[r[i]], #[trigger] ts[r[j]]) by {
            if i == 0 {
                let y = s[j - 1];
                lemma_lex_total(ts[s[0]], ts[x]);
                lemma_lex_total(ts[y], ts[x]);
                if j - 1 > 0 {
                    assert(!lex_lt(ts[s[0]], ts[s[j - 1]]));
                    lemma_lex_total(ts[s[0]], ts[y]);
                    if lex_lt(ts[y], ts[s[0]]) {
                        lemma_lex_trans(ts[y], ts[s[0]], ts[x]);
                    }
                }
            } else {
                assert(r[i] == s[i - 1] && r[j] == s[j - 1]);
            }
        }
    }
}

/// Sorting orders the indices newest first.
proof fn lemma_sort_sorted(s: Seq<int>, ts: Seq<Seq<char>>)
    ensures
        ts_desc(sort_by_ts_desc(s, ts), ts),
    decreases s.len(),
{
    if s.len() > 0 {
        lemma_sort_sorted(s.drop_last(), ts);
        lemma_insert_sorted(sort_by_ts_desc(s.drop_last(), ts), s.last(), ts);
    }
}

/// Law: the current records of a log are listed newest first: no listed
/// record has an older timestamp than one listed after it.
pub proof fn law_latest_newest_first(ids: Seq<Seq<char>>, ts: Seq<Seq<char>>)
    ensures
        ts_desc(latest_order_spec(ids, ts), ts),
{
    lemma_sort_sorted(kept_upto(ids, ids.len() as int), ts);
}

/// Law: sorting by timestamp lists indices newest first, and a prefix of
/// such a listing is so listed too.
pub proof fn law_sorted_prefix_newest_first(s: Seq<int>, ts: Seq<Seq<char>>, n: int)
    requires
        0 <= n <= s.len(),
    ensures
        ts_desc(sort_by_ts_desc(s, ts), ts),
        n <= sort_by_ts_desc(s, ts).len() ==> ts_desc(sort_by_ts_desc(s, ts).take(n), ts),
{
    lemma_sort_sorted(s, ts);
    let r = sort_by_ts_desc(s, ts);
    if n <= r.len() {
        assert forall|i: int, j: int| 0 <= i < j < r.take(n).len() implies !lex_lt(
            #[trigger] ts[r.take(n)[i]],
            #[trigger] ts[r.take(n)[j]],
        ) by {
            assert(r.take(n)[i] == r[i] && r.take(n)[j] == r[j]);
        }
    }
}

/// The current records are the last records of their ids.
pub proof fn lemma_latest_contains(ids: Seq<Seq<char>>, ts: Seq<Seq<char>>)
    ensures
        forall|i: int|
            #[trigger] latest_order_spec(ids, ts).contains(i) <==> (0 <= i < ids.len() && is_last(ids, i)),
{
    lemma_kept_upto_contains(ids, ids.len() as int);
    lemma_sort_contains(kept_upto(ids, ids.len() as int), ts);
}

/// Every id of the log has a last record.
pub proof fn lemma_last_of(ids: Seq<Seq<char>>, j: int)
    requires
        0 <= j < ids.len(),
    ensures
        exists|i: int| j <= i < ids.len() && ids[i] == ids[j] && is_last(ids, i),
    decreases ids.len() - j,
{
    if !is_last(ids, j) {
        let j2 = choose|j2: int| j < j2 < ids.len() && #[trigger] ids[j2] == ids[j];
        lemma_last_of(ids, j2);
    } else {
        assert(ids[j] == ids[j]);
    }
}

fn id_is_last(ids: &Vec<String>, i: usize) -> (r: bool)
    requires
        i < ids.len(),
    ensures
        r == is_last(strs(ids@), i as int),
{
    let a = chars_of(ids[i].as_str());
    let mut j = i + 1;
    while j < ids.len()
        invariant
            i < j <= ids.len(),
            a@ == ids@[i as int]@,
            forall|k: int| i < k < j ==> ids@[k]@ != ids@[i as int]@,
        decreases ids.len() - j,
    {
        let b = chars_of(ids[j].as_str());
        if vec_eq(&a, &b) {
            assert(strs(ids@)[j as int] == strs(ids@)[i as int]);
            return false;
        }
        j = j + 1;
    }
    true
}

/// The order in which the current records of a log are listed: for ids and
/// timestamps of the records in file order, the indices of the last record
/// of each id, by descending timestamp.
pub fn latest_order(ids: &Vec<String>, ts: &Vec<String>) -> (r: Vec<usize>)
    requires
        ids.len() == ts.len(),
    ensures
        r@.map_values(|i: usize| i as int) == latest_order_spec(strs(ids@), strs(ts@)),
        forall|k: int| 0 <= k < r@.len() ==> r@[k] < ids.len(),
{
    let ghost idv = strs(ids@);
    let ghost tsv = strs(ts@);
    let mut kept: Vec<usize> = Vec::new();
    let mut i: usize = 0;
    while i < ids.len()
        invariant
            i <= ids.len(),
            idv == strs(ids@),
            kept@.map_values(|x: usize| x as int) == kept_upto(idv, i as int),
            forall|k: int| 0 <= k < kept@.len() ==> kept@[k] < i,
        decreases ids.len() - i,
    {
        if id_is_last(ids, i) {
            let ghost before = kept@.map_values(|x: usize| x as int);
            kept.push(i);
            assert(kept@.map_values(|x: usize| x as int) =~= before.push(i as int));
        }
        i = i + 1;
    }
    sort_indices_by_ts_desc(&kept, ts)
}

/// Stable sort of indices by descending timestamp text.
pub fn sort_indices_by_ts_desc(kept: &Vec<usize>, ts: &Vec<String>) -> (sorted: Vec<usize>)
    requires
        forall|q: int| 0 <= q < kept@.len() ==> kept@[q] < ts.len(),
    ensures
        sorted@.map_values(|i: usize| i as int) == sort_by_ts_desc(
            kept@.map_values(|i: usize| i as int),
            strs(ts@),
        ),
        forall|k: int| 0 <= k < sorted@.len() ==> sorted@[k] < ts.len(),
{
    let ghost tsv = strs(ts@);
    let ghost ks = kept@.map_values(|x: usize| x as int);
    let mut sorted: Vec<usize> = Vec::new();
    let mut k: usize = 0;
    while k < kept.len()
        invariant
            k <= kept.len(),
            tsv == strs(ts@),
            ks == kept@.map_values(|x: usize| x as int),
            forall|q: int| 0 <= q < kept@.len() ==> kept@[q] < ts.len(),
            forall|q: int| 0 <= q < sorted@.len() ==> sorted@[q] < ts.len(),
            sorted@.map_values(|x: usize| x as int) == sort_by_ts_desc(ks.take(k as int), tsv),
        decreases kept.len() - k,
    {
        let x = kept[k];
        let ghost old_s = sorted@.map_values(|y: usize| y as int);
        assert(ks.take(k + 1).drop_last() =~= ks.take(k as int));
        assert(ks.take(k + 1).last() == x as int);
        proof {
            lemma_insert_by_ts(old_s, x as int, tsv);
        }
        let xt = chars_of(ts[x].as_str());
        let mut pos: usize = 0;
        assert(old_s.skip(0) =~= old_s);
        while pos < sorted.len() && !chars_lt(&chars_of(ts[sorted[pos]].as_str()), &xt)
            invariant
                pos <= sorted.len(),
                x < ts.len(),
                xt@ == tsv[x as int],
                tsv == strs(ts@),
                forall|q: int| 0 <= q < sorted@.len() ==> sorted@[q] < ts.len(),
                old_s == sorted@.map_values(|y: usize| y as int),
                ts_insert_pos(old_s, x as int, tsv) == pos + ts_insert_pos(old_s.skip(pos as int), x as int, tsv),
            decreases sorted.len() - pos,
        {
            assert(old_s.skip(pos as int).drop_first() =~= old_s.skip(pos + 1));
            assert(old_s.skip(pos as int)[0] == sorted@[pos as int] as int);
            pos = pos + 1;
        }
        proof {
            if pos < sorted.len() {
                assert(old_s.skip(pos as int)[0] == sorted@[pos as int] as int);
            }
        }
        sorted.insert(pos, x);
        assert(sorted@.map_values(|y: usize| y as int) =~= old_s.take(pos as int).push(x as int)
            + old_s.skip(pos as int));
        k = k + 1;
    }
    assert(ks.take(kept.len() as int) =~= ks);
    sorted
}

} // verus!
