//! Compacting the journal: older events move to an archive file and only
//! the most recent ones stay, optionally with a note in the session.
use vstd::prelude::*;

use crate::git::{insert_sorted, sorted_set};
use crate::search::replace_spec;
use crate::text::{chars_of, contains, dec, dec_string, join, join_strings, lines_from, lines_of, lines_str, strip_cr, owned, push_str, str_contains, str_eq, string_of, strs, trim, trim_str};

verus! {

/// Parameters of `compact_journal`.
pub struct CompactJournalParams {
    /// Events to keep (default 200, at least 1).
    pub max_entries: Option<usize>,
    /// Also note the archived events in the session.
    pub summarize: bool,
}

/// Result of `compact_journal`.
pub struct CompactJournalResult {
    /// "already_compact" | "compacted"
    pub kind: String,
    pub total_before: usize,
    pub archived: usize,
    pub retained: usize,
    pub archive_file: Option<String>,
    pub summary_written: bool,
}

/// What compacting does to a journal.
pub struct CompactPlan {
    /// The events (nonblank lines) of the journal.
    pub total_before: usize,
    /// The oldest events, to append to the archive.
    pub archived: Vec<String>,
    /// The events kept, one per line with a final newline; `None` when
    /// nothing is archived.
    pub new_journal: Option<String>,
}

/// `max_entries.unwrap_or(200).max(1)`.
pub open spec fn keep_count(m: Option<usize>) -> nat {
    let n: nat = match m {
        Some(x) => x as nat,
        None => 200,
    };
    if n < 1 { 1 } else { n }
}

/// The nonblank lines.
pub open spec fn events_of(lines: Seq<Seq<char>>) -> Seq<Seq<char>>
    decreases lines.len(),
{
    if lines.len() == 0 {
        seq![]
    } else if trim(lines.last()).len() == 0 {
        events_of(lines.drop_last())
    } else {
        events_of(lines.drop_last()).push(lines.last())
    }
}

/// How a journal with `content` (`None` when it does not exist) is compacted.
pub fn compact_plan(params: &CompactJournalParams, content: Option<&str>) -> (p: CompactPlan)
    ensures
        ({
            let ev = match content {
                Some(c) => events_of(lines_of(c@)),
                None => Seq::<Seq<char>>::empty(),
            };
            let keep = keep_count(params.max_entries);
            &&& p.total_before == ev.len()
            &&& ev.len() <= keep ==> (p.archived@.len() == 0 && p.new_journal is None)
            &&& ev.len() > keep ==> {
                &&& strs(p.archived@) == ev.take(ev.len() - keep)
                &&& p.new_journal matches Some(j) && j@ == join(ev.skip(ev.len() - keep), "\n"@) + "\n"@
            }
        }),
{
    let keep: usize = match params.max_entries {
        Some(x) => if x < 1 { 1 } else { x },
        None => 200,
    };
    let lines = match content {
        Some(c) => lines_str(c),
        None => Vec::new(),
    };
    let ghost ls = strs(lines@);
    assert(content is None ==> ls =~= Seq::<Seq<char>>::empty());
    let mut events: Vec<String> = Vec::new();
    let mut i: usize = 0;
    while i < lines.len()
        invariant
            i <= lines.len(),
            ls == strs(lines@),
            strs(events@) == events_of(ls.take(i as int)),
            events.len() <= i,
        decreases lines.len() - i,
    {
        assert(ls.take(i + 1).drop_last() =~= ls.take(i as int));
        let t = trim_str(lines[i].as_str());
        if !t.as_str().is_empty() {
            let ghost before = strs(events@);
            events.push(lines[i].clone());
            assert(strs(events@) =~= before.push(ls[i as int]));
        }
        i = i + 1;
    }
    assert(ls.take(lines.len() as int) =~= ls);
    let total = events.len();
    if total <= keep {
        return CompactPlan { total_before: total, archived: Vec::new(), new_journal: None };
    }
    let split = total - keep;
    let ghost ev = strs(events@);
    let mut archived: Vec<String> = Vec::new();
    let mut kept: Vec<String> = Vec::new();
    let mut k: usize = 0;
    while k < total
        invariant
            k <= total == events.len(),
            split <= total,
            ev == strs(events@),
            strs(archived@) == ev.take(if k < split { k as int } else { split as int }),
            strs(kept@) == if k < split { Seq::<Seq<char>>::empty() } else { ev.subrange(split as int, k as int) },
        decreases total - k,
    {
        let ghost a0 = strs(archived@);
        let ghost k0 = strs(kept@);
        if k < split {
            archived.push(events[k].clone());
            assert(strs(archived@) =~= a0.push(ev[k as int]));
            assert(ev.take(k + 1) =~= ev.take(k as int).push(ev[k as int]));
        } else {
            kept.push(events[k].clone());
            assert(strs(kept@) =~= k0.push(ev[k as int]));
            assert(ev.subrange(split as int, k + 1) =~= ev.subrange(split as int, k as int).push(ev[k as int]));
        }
        k = k + 1;
    }
    assert(ev.subrange(split as int, total as int) =~= ev.skip(split as int));
    let mut j = chars_of(join_strings(&kept, "\n").as_str());
    push_str(&mut j, "\n");
    CompactPlan { total_before: total, archived, new_journal: Some(string_of(&j)) }
}

/// The result of compacting by `plan` into `archive_file`.
pub fn compact_journal_result(plan: &CompactPlan, archive_file: &str, summary_written: bool) -> (r: CompactJournalResult)
    requires
        plan.archived.len() <= plan.total_before,
    ensures
        plan.new_journal is None ==> (r.kind@ == "already_compact"@ && r.total_before == plan.total_before
            && r.archived == 0 && r.retained == plan.total_before && r.archive_file is None && !r.summary_written),
        plan.new_journal is Some ==> (r.kind@ == "compacted"@ && r.total_before == plan.total_before
            && r.archived == plan.archived.len() && r.retained == plan.total_before - plan.archived.len()
            && (r.archive_file matches Some(a) && a@ == archive_file@) && r.summary_written == summary_written),
{
    match &plan.new_journal {
        None => CompactJournalResult {
            kind: owned("already_compact"),
            total_before: plan.total_before,
            archived: 0,
            retained: plan.total_before,
            archive_file: None,
            summary_written: false,
        },
        Some(_) => CompactJournalResult {
            kind: owned("compacted"),
            total_before: plan.total_before,
            archived: plan.archived.len(),
            retained: plan.total_before - plan.archived.len(),
            archive_file: Some(owned(archive_file)),
            summary_written,
        },
    }
}

/// `journal.archive-{stamp}.jsonl`.
pub fn archive_name(stamp: &str) -> (r: String)
    ensures
        r@ == "journal.archive-"@ + stamp@ + ".jsonl"@,
{
    let mut v = chars_of("journal.archive-");
    push_str(&mut v, stamp);
    push_str(&mut v, ".jsonl");
    string_of(&v)
}

// ─── The session note ───────────────────────────────────────────────────────

/// How many of the events have this name.
pub open spec fn name_count(names: Seq<Seq<char>>, n: Seq<char>) -> nat
    decreases names.len(),
{
    if names.len() == 0 {
        0
    } else {
        name_count(names.drop_last(), n) + if names.last() == n { 1nat } else { 0nat }
    }
}

/// `name=count` for each distinct name, in sorted order, joined by ", ".
pub open spec fn count_text(keys: Seq<Seq<char>>, names: Seq<Seq<char>>) -> Seq<Seq<char>> {
    keys.map_values(|k: Seq<char>| k + "="@ + dec(name_count(names, k)))
}

/// The note line: how many events went to which archive, and the count of
/// each event name (names of the archived lines that are JSON; "unknown"
/// for those without a name).
pub fn summary_line(archived: usize, archive: &str, names: &Vec<String>) -> (r: String)
    ensures
        exists|keys: Seq<Seq<char>>| {
            &&& sorted_set(keys)
            &&& (forall|n: Seq<char>| keys.contains(n) <==> strs(names@).contains(n))
            &&& r@ == "  - compact_journal: archived "@ + dec(archived as nat) + " events into "@ + archive@ + " ("@
                + join(count_text(keys, strs(names@)), ", "@) + ")"@
        },
{
    let mut keys: Vec<String> = Vec::new();
    let mut i: usize = 0;
    while i < names.len()
        invariant
            i <= names.len(),
            sorted_set(strs(keys@)),
            forall|n: Seq<char>| strs(keys@).contains(n) <==> strs(names@).take(i as int).contains(n),
        decreases names.len() - i,
    {
        let ghost before = strs(keys@);
        let name = names[i].clone();
        assert(name@ == strs(names@)[i as int]);
        insert_sorted(&mut keys, name);
        assert forall|n: Seq<char>| strs(names@).take(i + 1).contains(n) <==> (strs(names@).take(i as int).contains(n) || n == names@[i as int]@) by {
            let t = strs(names@).take(i as int);
            let t1 = strs(names@).take(i + 1);
            if t1.contains(n) && n != names@[i as int]@ {
                let x = choose|x: int| 0 <= x < t1.len() && #[trigger] t1[x] == n;
                assert(t[x] == n);
            }
            if t.contains(n) {
                let x = choose|x: int| 0 <= x < t.len() && #[trigger] t[x] == n;
                assert(t1[x] == n);
            }
            if n == names@[i as int]@ {
                assert(t1[i as int] == n);
            }
        }
        assert forall|n: Seq<char>| strs(keys@).contains(n) <==> strs(names@).take(i + 1).contains(n) by {
            assert(strs(keys@).contains(n) <==> (before.contains(n) || n == strs(names@)[i as int]));
        }
        i = i + 1;
    }
    assert(strs(names@).take(names.len() as int) =~= strs(names@));
    let mut parts: Vec<String> = Vec::new();
    let mut k: usize = 0;
    while k < keys.len()
        invariant
            k <= keys.len(),
            strs(parts@) == count_text(strs(keys@).take(k as int), strs(names@)),
        decreases keys.len() - k,
    {
        let c = count_name(names, keys[k].as_str());
        let mut v = chars_of(keys[k].as_str());
        push_str(&mut v, "=");
        push_str(&mut v, dec_string(c).as_str());
        let ghost before = strs(parts@);
        parts.push(string_of(&v));
        assert(strs(parts@) =~= before.push(keys@[k as int]@ + "="@ + dec(name_count(strs(names@), keys@[k as int]@))));
        assert(strs(keys@).take(k + 1) =~= strs(keys@).take(k as int).push(keys@[k as int]@));
        assert(count_text(strs(keys@).take(k + 1), strs(names@)) =~= count_text(strs(keys@).take(k as int), strs(names@)).push(keys@[k as int]@ + "="@ + dec(name_count(strs(names@), keys@[k as int]@))));
        k = k + 1;
    }
    assert(strs(keys@).take(keys.len() as int) =~= strs(keys@));
    let mut v = chars_of("  - compact_journal: archived ");
    push_str(&mut v, dec_string(archived).as_str());
    push_str(&mut v, " events into ");
    push_str(&mut v, archive);
    push_str(&mut v, " (");
    push_str(&mut v, join_strings(&parts, ", ").as_str());
    push_str(&mut v, ")");
    string_of(&v)
}

fn count_name(names: &Vec<String>, n: &str) -> (c: usize)
    ensures
        c == name_count(strs(names@), n@),
{
    let mut c: usize = 0;
    let mut i: usize = 0;
    while i < names.len()
        invariant
            i <= names.len(),
            c == name_count(strs(names@).take(i as int), n@),
            c <= i,
        decreases names.len() - i,
    {
        assert(strs(names@).take(i + 1).drop_last() =~= strs(names@).take(i as int));
        if str_eq(names[i].as_str(), n) {
            c = c + 1;
        }
        i = i + 1;
    }
    assert(strs(names@).take(names.len() as int) =~= strs(names@));
    c
}

/// The session text with the note line added under its notes: after the
/// first `notes:`, or in a new `notes:` section at the end.
pub fn add_session_note(yaml: &str, line: &str) -> (r: String)
    ensures
        contains(yaml@, "notes:"@) ==> r@ == replace_spec(yaml@, "notes:"@, "notes:\n"@ + line@, Some(1nat)),
        !contains(yaml@, "notes:"@) ==> r@ == yaml@ + "\nnotes:\n"@ + line@ + "\n"@,
{
    if str_contains(yaml, "notes:") {
        let mut rep = chars_of("notes:\n");
        push_str(&mut rep, line);
        let rs = string_of(&rep);
        crate::search::replacen_str(yaml, "notes:", rs.as_str(), 1)
    } else {
        let mut v = chars_of(yaml);
        push_str(&mut v, "\nnotes:\n");
        push_str(&mut v, line);
        push_str(&mut v, "\n");
        string_of(&v)
    }
}

// ─── Nothing is lost ────────────────────────────────────────────────────────

/// No newline in `s`.
pub open spec fn one_line(s: Seq<char>) -> bool {
    forall|i: int| 0 <= i < s.len() ==> s[i] != '\n'
}

/// `s` ends with a carriage return.
pub open spec fn ends_with_cr(s: Seq<char>) -> bool {
    s.len() > 0 && s.last() == '\r'
}

proof fn lemma_join_first(parts: Seq<Seq<char>>, sep: Seq<char>)
    requires
        parts.len() >= 2,
    ensures
        join(parts, sep) =~= parts[0] + sep + join(parts.drop_first(), sep),
    decreases parts.len(),
{
    let dl = parts.drop_last();
    let df = parts.drop_first();
    assert(join(parts, sep) == join(dl, sep) + sep + parts.last());
    if parts.len() == 2 {
        assert(join(dl, sep) == dl[0]);
        assert(join(df, sep) == df[0]);
    } else {
        lemma_join_first(dl, sep);
        assert(dl.drop_first() =~= df.drop_last());
        assert(df.last() == parts.last());
        assert(join(df, sep) == join(df.drop_last(), sep) + sep + df.last());
    }
}

proof fn lemma_lines_from_line(cur: Seq<char>, p: Seq<char>, rest: Seq<char>)
    requires
        one_line(p),
    ensures
        lines_from(cur, p + seq!['\n'] + rest) == seq![strip_cr(cur + p)] + lines_from(seq![], rest),
    decreases p.len(),
{
    let all = p + seq!['\n'] + rest;
    if p.len() == 0 {
        assert(all =~= seq!['\n'] + rest);
        assert(all.drop_first() =~= rest);
        assert(cur + p =~= cur);
    } else {
        assert(all[0] == p[0]);
        assert(all.drop_first() =~= p.drop_first() + seq!['\n'] + rest);
        lemma_lines_from_line(cur.push(p[0]), p.drop_first(), rest);
        assert(cur.push(p[0]) + p.drop_first() =~= cur + p);
    }
}

proof fn lemma_lines_of_joined(parts: Seq<Seq<char>>)
    requires
        parts.len() >= 1,
        forall|i: int| 0 <= i < parts.len() ==> one_line(#[trigger] parts[i]) && !ends_with_cr(parts[i]),
    ensures
        lines_of(join(parts, "\n"@) + "\n"@) == parts,
    decreases parts.len(),
{
    reveal_strlit("\n");
    let p0 = parts[0];
    if parts.len() == 1 {
        assert(join(parts, "\n"@) + "\n"@ =~= p0 + seq!['\n'] + Seq::<char>::empty());
        lemma_lines_from_line(seq![], p0, Seq::<char>::empty());
        assert(Seq::<char>::empty() + p0 =~= p0);
        assert(parts =~= seq![p0]);
    } else {
        lemma_join_first(parts, "\n"@);
        let tail = parts.drop_first();
        assert forall|i: int| 0 <= i < tail.len() implies one_line(#[trigger] tail[i]) && !ends_with_cr(tail[i]) by {
            assert(tail[i] == parts[i + 1]);
        }
        lemma_lines_of_joined(tail);
        assert(join(parts, "\n"@) + "\n"@ =~= p0 + seq!['\n'] + (join(tail, "\n"@) + "\n"@));
        lemma_lines_from_line(seq![], p0, join(tail, "\n"@) + "\n"@);
        assert(Seq::<char>::empty() + p0 =~= p0);
        assert(parts =~= seq![p0] + tail);
    }
}

proof fn lemma_lines_one_line(cur: Seq<char>, rest: Seq<char>)
    requires
        one_line(cur),
    ensures
        forall|i: int| 0 <= i < lines_from(cur, rest).len() ==> one_line(#[trigger] lines_from(cur, rest)[i]),
    decreases rest.len(),
{
    let out = lines_from(cur, rest);
    if rest.len() == 0 {
        if cur.len() > 0 {
            assert(out == seq![cur]);
        }
    } else if rest[0] == '\n' {
        lemma_lines_one_line(seq![], rest.drop_first());
        let c = strip_cr(cur);
        assert(one_line(c)) by {
            if cur.len() > 0 && cur.last() == '\r' {
                assert forall|k: int| 0 <= k < c.len() implies c[k] != '\n' by {
                    assert(c[k] == cur[k]);
                }
            }
        }
        assert(out == seq![c] + lines_from(seq![], rest.drop_first()));
        assert forall|i: int| 0 <= i < out.len() implies one_line(#[trigger] out[i]) by {
            if i > 0 {
                assert(out[i] == lines_from(seq![], rest.drop_first())[i - 1]);
            } else {
                assert(out[0] == c);
            }
        }
    } else {
        assert(one_line(cur.push(rest[0]))) by {
            assert forall|k: int| 0 <= k < cur.push(rest[0]).len() implies cur.push(rest[0])[k] != '\n' by {
                if k < cur.len() {
                    assert(cur.push(rest[0])[k] == cur[k]);
                }
            }
        }
        lemma_lines_one_line(cur.push(rest[0]), rest.drop_first());
        assert(out == lines_from(cur.push(rest[0]), rest.drop_first()));
    }
}

proof fn lemma_events_are_lines(lines: Seq<Seq<char>>)
    ensures
        forall|i: int|
            0 <= i < events_of(lines).len() ==> trim(#[trigger] events_of(lines)[i]).len() > 0 && lines.contains(
                events_of(lines)[i],
            ),
    decreases lines.len(),
{
    if lines.len() > 0 {
        lemma_events_are_lines(lines.drop_last());
        let prev = events_of(lines.drop_last());
        let ev = events_of(lines);
        assert forall|i: int| 0 <= i < ev.len() implies trim(#[trigger] ev[i]).len() > 0 && lines.contains(ev[i]) by {
            if i < prev.len() {
                assert(ev[i] == prev[i]);
                let j = choose|j: int| 0 <= j < lines.drop_last().len() && lines.drop_last()[j] == prev[i];
                assert(lines[j] == ev[i]);
            } else {
                assert(ev[i] == lines.last());
                assert(lines[lines.len() - 1] == ev[i]);
            }
        }
    }
}

proof fn lemma_events_of_nonblank(parts: Seq<Seq<char>>)
    requires
        forall|i: int| 0 <= i < parts.len() ==> trim(#[trigger] parts[i]).len() > 0,
    ensures
        events_of(parts) == parts,
    decreases parts.len(),
{
    if parts.len() > 0 {
        assert(trim(parts[parts.len() - 1]).len() > 0);
        lemma_events_of_nonblank(parts.drop_last());
        assert(parts.drop_last().push(parts.last()) =~= parts);
    }
}

/// Law: compacting loses no event. When a journal with more than `keep`
/// events is compacted, the archived events followed by the events of the
/// new journal are the events of the old one, in order. (A kept event that
/// ends with a carriage return would lose it when its line is written
/// back, so such events are left out.)
pub proof fn law_compaction_keeps_every_event(content: Seq<char>, keep: nat)
    requires
        1 <= keep < events_of(lines_of(content)).len(),
        forall|i: int|
            events_of(lines_of(content)).len() - keep <= i < events_of(lines_of(content)).len() ==> !ends_with_cr(
                #[trigger] events_of(lines_of(content))[i],
            ),
    ensures
        ({
            let ev = events_of(lines_of(content));
            let split = ev.len() - keep;
            ev.take(split) + events_of(lines_of(join(ev.skip(split), "\n"@) + "\n"@)) == ev
        }),
{
    let ev = events_of(lines_of(content));
    let split = ev.len() - keep;
    let kept = ev.skip(split);
    lemma_events_are_lines(lines_of(content));
    lemma_lines_one_line(seq![], content);
    assert forall|i: int| 0 <= i < kept.len() implies one_line(#[trigger] kept[i]) && !ends_with_cr(kept[i])
        && trim(kept[i]).len() > 0 by {
        assert(kept[i] == ev[i + split]);
        assert(lines_of(content).contains(ev[i + split]));
        let j = choose|j: int| 0 <= j < lines_of(content).len() && lines_of(content)[j] == ev[i + split];
        assert(one_line(lines_of(content)[j]));
    }
    lemma_lines_of_joined(kept);
    lemma_events_of_nonblank(kept);
    assert(ev.take(split) + kept =~= ev);
}

} // verus!
