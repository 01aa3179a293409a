//! Diagnostics for failed string matches: where a pattern occurs, and which
//! lines of a file look most like it.
use vstd::prelude::*;
use crate::error::MatchLocation;
use vstd::utf8::encode_utf8;
use crate::text::{
    chars_of, dec, dec_chars, lines_chars, lines_of, lower_text, match_at, matches_at, push_chars, string_of, to_lowercase, trim, trim_chars, trim_end, trim_end_chars, char_vecs,
    strs};

verus! {

// ─── Match locations ────────────────────────────────────────────────────────

/// Number of `\n` in `h[0..k]`.
pub open spec fn nl_count(h: Seq<char>, k: int) -> nat
    decreases k,
{
    if k <= 0 {
        0
    } else {
        nl_count(h, k - 1) + if h[k - 1] == '\n' { 1nat } else { 0nat }
    }
}

/// Index of the last `\n` in `h[0..i]`, or -1.
pub open spec fn last_nl_before(h: Seq<char>, i: int) -> int
    decreases i,
{
    if i <= 0 {
        -1
    } else if h[i - 1] == '\n' {
        i - 1
    } else {
        last_nl_before(h, i - 1)
    }
}

/// Index of the first `\n` at or after `i`, or `h.len()`.
pub open spec fn next_nl_from(h: Seq<char>, i: int) -> int
    decreases h.len() - i,
{
    if i < 0 || i >= h.len() {
        h.len() as int
    } else if h[i] == '\n' {
        i
    } else {
        next_nl_from(h, i + 1)
    }
}

/// At most the first `n` elements of `s`.
pub open spec fn take_upto<A>(s: Seq<A>, n: nat) -> Seq<A> {
    if s.len() <= n {
        s
    } else {
        s.take(n as int)
    }
}

/// The location reported for a match starting at `i` (not a newline): the
/// 1-based line number and the line's text from its start, at most 72 chars.
pub open spec fn location_at(h: Seq<char>, i: int) -> (nat, Seq<char>) {
    (
        1 + nl_count(h, i + 1),
        take_upto(h.subrange(last_nl_before(h, i) + 1, next_nl_from(h, i)), 72),
    )
}

/// Locations of all matches of `n` that start before position `k`.
pub open spec fn all_locations(h: Seq<char>, n: Seq<char>, k: int) -> Seq<(nat, Seq<char>)>
    decreases k,
{
    if k <= 0 {
        seq![]
    } else if match_at(h, n, k - 1) {
        all_locations(h, n, k - 1).push(location_at(h, k - 1))
    } else {
        all_locations(h, n, k - 1)
    }
}

/// The locations reported: those of the first ten matches.
pub open spec fn first_locations(h: Seq<char>, n: Seq<char>) -> Seq<(nat, Seq<char>)> {
    take_upto(all_locations(h, n, h.len() as int), 10)
}

/// Reporting the first ten matches never looks at a match that starts with
/// a newline (the report's line slice would be empty-reversed there).
pub open spec fn locations_safe(h: Seq<char>, n: Seq<char>) -> bool {
    forall|i: int|
        0 <= i < h.len() && match_at(h, n, i) && h[i] == '\n' ==> #[trigger] all_locations(
            h,
            n,
            i,
        ).len() >= 10
}

pub open spec fn loc_views(v: Seq<MatchLocation>) -> Seq<(nat, Seq<char>)> {
    v.map_values(|l: MatchLocation| (l.line as nat, l.context@))
}

proof fn lemma_all_locations_mono(h: Seq<char>, n: Seq<char>, a: int, b: int)
    requires
        a <= b,
    ensures
        all_locations(h, n, a).len() <= all_locations(h, n, b).len(),
        all_locations(h, n, b).take(all_locations(h, n, a).len() as int) == all_locations(h, n, a),
    decreases b - a,
{
    if a < b {
        lemma_all_locations_mono(h, n, a, b - 1);
        let la = all_locations(h, n, a);
        let lb1 = all_locations(h, n, b - 1);
        assert(all_locations(h, n, b).take(la.len() as int) =~= lb1.take(la.len() as int));
    } else {
        assert(all_locations(h, n, a).take(all_locations(h, n, a).len() as int) =~= all_locations(
            h,
            n,
            a,
        ));
    }
}

proof fn lemma_last_nl_step(h: Seq<char>, i: int)
    requires
        0 <= i < h.len(),
    ensures
        last_nl_before(h, i + 1) == if h[i] == '\n' { i } else { last_nl_before(h, i) },
        nl_count(h, i + 1) == nl_count(h, i) + if h[i] == '\n' { 1nat } else { 0nat },
{
}

proof fn lemma_nl_count_bound(h: Seq<char>, k: int)
    requires
        0 <= k <= h.len(),
    ensures
        nl_count(h, k) <= k,
        -1 <= last_nl_before(h, k) < k,
    decreases k,
{
    if k > 0 {
        lemma_nl_count_bound(h, k - 1);
    }
}

proof fn lemma_next_nl_bound(h: Seq<char>, i: int)
    requires
        0 <= i <= h.len(),
    ensures
        i <= next_nl_from(h, i) <= h.len(),
    decreases h.len() - i,
{
    if i < h.len() && h[i] != '\n' {
        lemma_next_nl_bound(h, i + 1);
    }
}

/// Whether the first ten matches of `needle` in `haystack` can all be
/// reported: none of them starts with a newline.
pub fn locations_reportable(needle: &str, haystack: &str) -> (r: bool)
    ensures
        r == locations_safe(haystack@, needle@),
{
    let h = chars_of(haystack);
    let n = chars_of(needle);
    let mut seen: usize = 0;
    let mut i: usize = 0;
    while i < h.len()
        invariant
            i <= h.len(),
            h@ == haystack@,
            n@ == needle@,
            seen == (if all_locations(h@, n@, i as int).len() < 10 {
                all_locations(h@, n@, i as int).len()
            } else {
                10
            }),
            forall|j: int|
                0 <= j < i && match_at(h@, n@, j) && h@[j] == '\n' ==> #[trigger] all_locations(
                    h@,
                    n@,
                    j,
                ).len() >= 10,
        decreases h.len() - i,
    {
        if matches_at(&h, &n, i) {
            if h[i] == '\n' && seen < 10 {
                return false;
            }
            if seen < 10 {
                seen = seen + 1;
            }
        }
        i = i + 1;
    }
    true
}

/// Finds where `needle` matches in `haystack` (at most ten places).
pub fn find_match_locations(needle: &str, haystack: &str) -> (locs: Vec<MatchLocation>)
    requires
        haystack@.len() < usize::MAX,
        locations_safe(haystack@, needle@),
    ensures
        loc_views(locs@) == first_locations(haystack@, needle@),
{
    let h = chars_of(haystack);
    let n = chars_of(needle);
    let mut locs: Vec<MatchLocation> = Vec::new();
    let mut line_no: usize = 1;
    let mut char_pos: usize = 0;
    let mut i: usize = 0;
    while i < h.len()
        invariant
            h@ == haystack@,
            n@ == needle@,
            h.len() < usize::MAX,
            locations_safe(h@, n@),
            i <= h.len(),
            line_no == 1 + nl_count(h@, i as int),
            char_pos == last_nl_before(h@, i as int) + 1,
            loc_views(locs@) == all_locations(h@, n@, i as int),
            locs.len() < 10,
        decreases h.len() - i,
    {
        proof {
            lemma_last_nl_step(h@, i as int);
            lemma_nl_count_bound(h@, i as int);
        }
        if h[i] == '\n' {
            line_no = line_no + 1;
            char_pos = i + 1;
        }
        if matches_at(&h, &n, i) {
            assert(h@[i as int] != '\n');
            let mut line_end = i;
            while line_end < h.len() && h[line_end] != '\n'
                invariant
                    i <= line_end <= h.len(),
                    next_nl_from(h@, i as int) == next_nl_from(h@, line_end as int),
                decreases h.len() - line_end,
            {
                line_end = line_end + 1;
            }
            let mut ctx: Vec<char> = Vec::new();
            let mut j = char_pos;
            while j < line_end && ctx.len() < 72
                invariant
                    char_pos <= j <= line_end <= h.len(),
                    ctx.len() <= 72,
                    ctx@ == h@.subrange(char_pos as int, j as int),
                decreases line_end - j,
            {
                ctx.push(h[j]);
                j = j + 1;
                assert(h@.subrange(char_pos as int, j as int) =~= h@.subrange(
                    char_pos as int,
                    j - 1,
                ).push(h@[j - 1]));
            }
            proof {
                let line = h@.subrange(char_pos as int, line_end as int);
                if line.len() <= 72 {
                    assert(ctx@ =~= line);
                } else {
                    assert(ctx@.len() == j - char_pos);
                    assert(line.len() == line_end - char_pos);
                    assert(ctx@.len() == 72);
                    assert(j == char_pos + 72);
                    assert(ctx@ =~= line.take(72));
                }
            }
            let ghost before = loc_views(locs@);
            locs.push(MatchLocation { line: line_no, context: string_of(&ctx) });
            assert(loc_views(locs@) =~= before.push(location_at(h@, i as int)));
            if locs.len() >= 10 {
                proof {
                    lemma_all_locations_mono(h@, n@, i + 1, h.len() as int);
                }
                assert(loc_views(locs@) =~= take_upto(all_locations(h@, n@, h.len() as int), 10));
                return locs;
            }
        }
        i = i + 1;
    }
    proof {
        assert(take_upto(all_locations(h@, n@, h.len() as int), 10) == all_locations(
            h@,
            n@,
            h.len() as int,
        ));
    }
    locs
}

// ─── Similar lines ──────────────────────────────────────────────────────────

/// Length of the common byte prefix.
pub open spec fn byte_prefix(a: Seq<u8>, b: Seq<u8>) -> nat
    decreases a.len(),
{
    if a.len() == 0 || b.len() == 0 || a[0] != b[0] {
        0
    } else {
        1 + byte_prefix(a.drop_first(), b.drop_first())
    }
}

/// Characters of `needle` (with repetitions) that occur somewhere in `line`.
pub open spec fn common_chars(needle: Seq<char>, line: Seq<char>) -> nat
    decreases needle.len(),
{
    if needle.len() == 0 {
        0
    } else {
        common_chars(needle.drop_last(), line) + if line.contains(needle.last()) {
            1nat
        } else {
            0nat
        }
    }
}

/// Similarity of a file line to the searched first line: twice the common
/// byte prefix of the trimmed texts plus the shared characters, ignoring case.
pub open spec fn similarity(first: Seq<char>, line: Seq<char>) -> nat {
    2 * byte_prefix(encode_utf8(trim(first)), encode_utf8(trim(line))) + common_chars(
        lower_text(trim(first)),
        lower_text(trim(line)),
    )
}

/// Candidate lines (score, 1-based number, text) among `lines`, in file order:
/// non-blank lines with a positive score.
pub open spec fn similar_candidates(first: Seq<char>, lines: Seq<Seq<char>>) -> Seq<
    (nat, nat, Seq<char>),
>
    decreases lines.len(),
{
    if lines.len() == 0 {
        seq![]
    } else {
        let prev = similar_candidates(first, lines.drop_last());
        let line = lines.last();
        let s = similarity(first, line);
        if trim(line).len() == 0 || s == 0 {
            prev
        } else {
            prev.push((s, lines.len() as nat, line))
        }
    }
}

/// Inserting `x` after every leading element whose score is at least its own.
pub open spec fn insert_by_score(s: Seq<(nat, nat, Seq<char>)>, x: (nat, nat, Seq<char>)) -> Seq<
    (nat, nat, Seq<char>),
>
    decreases s.len(),
{
    if s.len() == 0 {
        seq![x]
    } else if s[0].0 >= x.0 {
        seq![s[0]] + insert_by_score(s.drop_first(), x)
    } else {
        seq![x] + s
    }
}

/// Stable sort by descending score (`sort_by(|a, b| b.0.cmp(&a.0))`).
pub open spec fn sort_by_score(s: Seq<(nat, nat, Seq<char>)>) -> Seq<(nat, nat, Seq<char>)>
    decreases s.len(),
{
    if s.len() == 0 {
        s
    } else {
        insert_by_score(sort_by_score(s.drop_last()), s.last())
    }
}

/// The rendering `L{lineno}: {line.trim_end()}`.
pub open spec fn similar_line_text(c: (nat, nat, Seq<char>)) -> Seq<char> {
    seq!['L'] + dec(c.1) + seq![':', ' '] + trim_end(c.2)
}

/// The up to `n` lines of `content` most similar to `first`.
pub open spec fn similar_lines(first: Seq<char>, content: Seq<char>, n: nat) -> Seq<Seq<char>> {
    take_upto(sort_by_score(similar_candidates(first, lines_of(content))), n).map_values(
        |c: (nat, nat, Seq<char>)| similar_line_text(c),
    )
}

/// The first index whose score is below `x`'s, or the length.
pub open spec fn insert_pos(s: Seq<(nat, nat, Seq<char>)>, x: nat) -> nat
    decreases s.len(),
{
    if s.len() == 0 {
        0
    } else if s[0].0 >= x {
        1 + insert_pos(s.drop_first(), x)
    } else {
        0
    }
}

proof fn lemma_insert_by_score(s: Seq<(nat, nat, Seq<char>)>, x: (nat, nat, Seq<char>))
    ensures
        insert_pos(s, x.0) <= s.len(),
        insert_by_score(s, x) == s.take(insert_pos(s, x.0) as int).push(x) + s.skip(
            insert_pos(s, x.0) as int,
        ),
        forall|j: int| 0 <= j < insert_pos(s, x.0) ==> s[j].0 >= x.0,
        insert_pos(s, x.0) < s.len() ==> s[insert_pos(s, x.0) as int].0 < x.0,
    decreases s.len(),
{
    if s.len() > 0 && s[0].0 >= x.0 {
        lemma_insert_by_score(s.drop_first(), x);
        let p: int = insert_pos(s.drop_first(), x.0) as int;
        assert(s.take(p + 1 as int).push(x) + s.skip(p + 1 as int) =~= seq![s[0]] + (s.drop_first().take(
            p as int,
        ).push(x) + s.drop_first().skip(p as int)));
        assert forall|j: int| 0 <= j < insert_pos(s, x.0) implies s[j].0 >= x.0 by {
            if j > 0 {
                assert(s[j] == s.drop_first()[j - 1]);
            }
        }
    } else {
        assert(s.take(0).push(x) + s.skip(0) =~= seq![x] + s);
    }
}

pub open spec fn cand_views(v: Seq<(u128, usize, Vec<char>)>) -> Seq<(nat, nat, Seq<char>)> {
    v.map_values(|c: (u128, usize, Vec<char>)| (c.0 as nat, c.1 as nat, c.2@))
}

/// The common byte prefix of two byte slices.
fn common_prefix(a: &[u8], b: &[u8]) -> (k: usize)
    ensures
        k == byte_prefix(a@, b@),
{
    let mut k: usize = 0;
    assert(a@.skip(0) =~= a@);
    assert(b@.skip(0) =~= b@);
    while k < a.len() && k < b.len() && a[k] == b[k]
        invariant
            k <= a.len(),
            k <= b.len(),
            byte_prefix(a@, b@) == k + byte_prefix(a@.skip(k as int), b@.skip(k as int)),
        decreases a.len() - k,
    {
        assert(a@.skip(k as int).drop_first() =~= a@.skip(k + 1));
        assert(b@.skip(k as int).drop_first() =~= b@.skip(k + 1));
        k = k + 1;
    }
    k
}

/// `line.contains(c)`.
fn has_char(line: &Vec<char>, c: char) -> (r: bool)
    ensures
        r == line@.contains(c),
{
    let mut i: usize = 0;
    while i < line.len()
        invariant
            i <= line.len(),
            forall|j: int| 0 <= j < i ==> line@[j] != c,
        decreases line.len() - i,
    {
        if line[i] == c {
            return true;
        }
        i = i + 1;
    }
    false
}

/// Characters of `needle` found in `line`.
fn count_common(needle: &Vec<char>, line: &Vec<char>) -> (k: usize)
    ensures
        k == common_chars(needle@, line@),
{
    let mut k: usize = 0;
    let mut i: usize = 0;
    while i < needle.len()
        invariant
            i <= needle.len(),
            k <= i,
            k == common_chars(needle@.take(i as int), line@),
        decreases needle.len() - i,
    {
        assert(needle@.take(i + 1).drop_last() =~= needle@.take(i as int));
        if has_char(line, needle[i]) {
            k = k + 1;
        }
        i = i + 1;
    }
    assert(needle@.take(needle.len() as int) =~= needle@);
    k
}

/// The bytes of the text held in `v`.
fn utf8_bytes(v: &Vec<char>) -> (b: Vec<u8>)
    ensures
        b@ == encode_utf8(v@),
{
    let s = string_of(v);
    let bytes = s.as_str().as_bytes();
    let mut out: Vec<u8> = Vec::new();
    let mut i: usize = 0;
    while i < bytes.len()
        invariant
            i <= bytes.len(),
            out@ == bytes@.take(i as int),
        decreases bytes.len() - i,
    {
        out.push(bytes[i]);
        i = i + 1;
        assert(bytes@.take(i as int) =~= bytes@.take(i - 1).push(bytes@[i - 1]));
    }
    assert(bytes@.take(bytes.len() as int) =~= bytes@);
    out
}

/// Lowercase of the text held in `v`.
fn lower_chars(v: &Vec<char>) -> (r: Vec<char>)
    ensures
        r@ == lower_text(v@),
{
    let s = string_of(v);
    let l = to_lowercase(s.as_str());
    chars_of(l.as_str())
}

/// The `n` lines of `content` most similar to `first_line` (score = common
/// byte prefix * 2 + shared characters, ignoring case), best first, each
/// rendered as `L{lineno}: {text}`.
pub fn find_similar_lines(first_line: &str, content: &str, n: usize) -> (r: Vec<String>)
    ensures
        strs(r@) == similar_lines(first_line@, content@, n as nat),
{
    let f = chars_of(first_line);
    let ft = trim_chars(&f);
    let needle_bytes = utf8_bytes(&ft);
    let needle_lower = lower_chars(&ft);
    let c = chars_of(content);
    let lines = lines_chars(&c);
    let ghost ls = char_vecs(lines@);
    // Candidates in file order, then stably sorted by descending score.
    let mut sorted: Vec<(u128, usize, Vec<char>)> = Vec::new();
    let mut i: usize = 0;
    while i < lines.len()
        invariant
            i <= lines.len(),
            ls == char_vecs(lines@),
            ls == lines_of(c@),
            c@ == content@,
            ft@ == trim(first_line@),
            needle_bytes@ == encode_utf8(trim(first_line@)),
            needle_lower@ == lower_text(trim(first_line@)),
            cand_views(sorted@) == sort_by_score(similar_candidates(first_line@, ls.take(i as int))),
        decreases lines.len() - i,
    {
        let ghost prefix_lines = ls.take(i + 1);
        assert(prefix_lines.drop_last() =~= ls.take(i as int));
        assert(prefix_lines.last() == lines@[i as int]@);
        let line = &lines[i];
        let t = trim_chars(line);
        if t.len() > 0 {
            let lb = utf8_bytes(&t);
            let p = common_prefix(needle_bytes.as_slice(), lb.as_slice());
            let ll = lower_chars(&t);
            let cc = count_common(&needle_lower, &ll);
            let score: u128 = (p as u128) * 2 + (cc as u128);
            if score > 0 {
                let ghost x = (score as nat, (i + 1) as nat, line@);
                let ghost old_sorted = cand_views(sorted@);
                proof {
                    lemma_insert_by_score(old_sorted, x);
                }
                let mut pos: usize = 0;
                assert(old_sorted.skip(0) =~= old_sorted);
                while pos < sorted.len() && sorted[pos].0 >= score
                    invariant
                        pos <= sorted.len(),
                        x.0 == score as nat,
                        old_sorted == cand_views(sorted@),
                        insert_pos(old_sorted, x.0) == pos + insert_pos(old_sorted.skip(pos as int), x.0),
                    decreases sorted.len() - pos,
                {
                    assert(old_sorted.skip(pos as int).drop_first() =~= old_sorted.skip(pos + 1));
                    assert(old_sorted.skip(pos as int)[0] == old_sorted[pos as int]);
                    assert(old_sorted[pos as int].0 == sorted@[pos as int].0 as nat);
                    assert(old_sorted.skip(pos as int)[0].0 >= x.0);
                    assert(insert_pos(old_sorted.skip(pos as int), x.0) == 1 + insert_pos(old_sorted.skip(pos as int).drop_first(), x.0));
                    pos = pos + 1;
                }
                assert(old_sorted.skip(pos as int).len() == 0 || old_sorted.skip(pos as int)[0].0 < x.0);
                proof {
                    if pos < old_sorted.len() {
                        assert(old_sorted.skip(pos as int)[0] == old_sorted[pos as int]);
                        assert(old_sorted[pos as int].0 == sorted@[pos as int].0 as nat);
                    }
                }
                let lc = line.clone();
                sorted.insert(pos, (score, i + 1, lc));
                assert(cand_views(sorted@) =~= old_sorted.take(pos as int).push(x) + old_sorted.skip(pos as int));
                proof {
                    assert(similarity(first_line@, line@) == x.0);
                    assert(similar_candidates(first_line@, prefix_lines) == similar_candidates(first_line@, ls.take(i as int)).push(x));
                    let sc = similar_candidates(first_line@, prefix_lines);
                    assert(sc.drop_last() =~= similar_candidates(first_line@, ls.take(i as int)));
                }
            } else {
                assert(similarity(first_line@, line@) == 0);
            }
        } else {
            assert(trim(line@).len() == 0);
        }
        i = i + 1;
    }
    assert(ls.take(lines.len() as int) =~= ls);
    // Take the first n and render them.
    let mut out: Vec<String> = Vec::new();
    let ghost top = take_upto(cand_views(sorted@), n as nat);
    let mut k: usize = 0;
    while k < sorted.len() && k < n
        invariant
            k <= sorted.len(),
            k <= n,
            top == take_upto(cand_views(sorted@), n as nat),
            strs(out@) == top.take(k as int).map_values(
                |c: (nat, nat, Seq<char>)| similar_line_text(c),
            ),
        decreases sorted.len() - k,
    {
        let mut v: Vec<char> = Vec::new();
        v.push('L');
        let d = dec_chars(sorted[k].1);
        push_chars(&mut v, &d);
        v.push(':');
        v.push(' ');
        let te = trim_end_chars(&sorted[k].2);
        push_chars(&mut v, &te);
        let ghost before = strs(out@);
        let s = string_of(&v);
        out.push(s);
        assert(strs(out@) =~= before.push(s@));
        assert(v@ =~= similar_line_text(top[k as int]));
        assert(top.take(k + 1).map_values(|c: (nat, nat, Seq<char>)| similar_line_text(c))
            =~= top.take(k as int).map_values(|c: (nat, nat, Seq<char>)| similar_line_text(c)).push(
            similar_line_text(top[k as int]),
        ));
        k = k + 1;
    }
    assert(top.take(k as int) =~= top);
    out
}

} // verus!
