//! Session hooks: recovering from a crash at session start, and the
//! decisions that the write and node hooks take.
use vstd::prelude::*;
use crate::text::{chars_of, owned, push_str, str_eq, string_of, strs};

verus! {

/// Parameters of `sy_pretool_bash`.
pub struct PreToolBashParams {
    pub command: String,
}

/// Parameters of `sy_pretool_write`.
pub struct PreToolWriteParams {
    pub path: String,
}

/// Parameters of `sy_posttool_write`.
pub struct PostToolWriteParams {
    pub path: String,
    pub tool: Option<String>,
    pub lines_changed: Option<u32>,
}

/// Parameters of `sy_stop`.
pub struct StopParams {
    pub reason: Option<String>,
}

/// Parameters of `sy_create_checkpoint`.
pub struct CreateCheckpointParams {
    pub label: String,
    pub files: Option<Vec<String>>,
}

/// Parameters of `sy_advance_node`.
pub struct AdvanceNodeParams {
    pub node_id: String,
    pub name: Option<String>,
    pub status: Option<String>,
    pub state: Option<String>,
    pub tdd_required: Option<bool>,
    pub target: Option<Vec<String>>,
}

/// Parameters of `sy_session_start`.
pub struct SessionStartParams {
    /// Skip replaying the journal for crash recovery.
    pub skip_recovery: Option<bool>,
}

// ─── Crash recovery ─────────────────────────────────────────────────────────

/// A journal event that closes a tool request.
pub open spec fn closes_request(event: Seq<char>) -> bool {
    event == "tool_completed"@ || event == "tool_failed"@ || event == "aborted"@
}

/// The trace ids of the tool requests still open after the events
/// (event name, trace id), in the order they were opened.
pub open spec fn open_requests(events: Seq<(Seq<char>, Seq<char>)>) -> Seq<Seq<char>>
    decreases events.len(),
{
    if events.len() == 0 {
        seq![]
    } else {
        let prev = open_requests(events.drop_last());
        let (e, t) = events.last();
        if e == "tool_request"@ {
            if t.len() > 0 {
                prev.push(t)
            } else {
                prev
            }
        } else if closes_request(e) {
            without(prev, t)
        } else {
            prev
        }
    }
}

/// `s` without the entries equal to `t`.
pub open spec fn without(s: Seq<Seq<char>>, t: Seq<char>) -> Seq<Seq<char>>
    decreases s.len(),
{
    if s.len() == 0 {
        seq![]
    } else if s.last() == t {
        without(s.drop_last(), t)
    } else {
        without(s.drop_last(), t).push(s.last())
    }
}

pub open spec fn event_views(v: Seq<(String, String)>) -> Seq<(Seq<char>, Seq<char>)> {
    v.map_values(|p: (String, String)| (p.0@, p.1@))
}

/// Without the entries equal to `t`.
fn remove_all(v: &Vec<String>, t: &str) -> (r: Vec<String>)
    ensures
        strs(r@) == without(strs(v@), t@),
{
    let mut r: Vec<String> = Vec::new();
    let mut i: usize = 0;
    while i < v.len()
        invariant
            i <= v.len(),
            strs(r@) == without(strs(v@).take(i as int), t@),
        decreases v.len() - i,
    {
        assert(strs(v@).take(i + 1).drop_last() =~= strs(v@).take(i as int));
        let ghost before = strs(r@);
        if !str_eq(v[i].as_str(), t) {
            r.push(v[i].clone());
            assert(strs(r@) =~= before.push(v@[i as int]@));
        }
        i = i + 1;
    }
    assert(strs(v@).take(v.len() as int) =~= strs(v@));
    r
}

/// The orphaned requests of a journal: the trace ids of tool requests that
/// no completion, failure or abort closed. The journal is given as the
/// (event, trace id) of each event, empty when absent.
pub fn orphan_traces(events: &Vec<(String, String)>) -> (r: Vec<String>)
    ensures
        strs(r@) == open_requests(event_views(events@)),
{
    let mut pending: Vec<String> = Vec::new();
    let mut i: usize = 0;
    while i < events.len()
        invariant
            i <= events.len(),
            strs(pending@) == open_requests(event_views(events@).take(i as int)),
        decreases events.len() - i,
    {
        assert(event_views(events@).take(i + 1).drop_last() =~= event_views(events@).take(i as int));
        assert(event_views(events@).take(i + 1).last() == (events@[i as int].0@, events@[i as int].1@));
        let (e, t) = (&events[i].0, &events[i].1);
        let ghost prev = open_requests(event_views(events@).take(i as int));
        let ghost cur = event_views(events@).take(i + 1);
        assert(open_requests(cur) == {
            let (ee, tt) = cur.last();
            if ee == "tool_request"@ {
                if tt.len() > 0 { prev.push(tt) } else { prev }
            } else if closes_request(ee) {
                without(prev, tt)
            } else {
                prev
            }
        });
        if str_eq(e.as_str(), "tool_request") {
            if !t.as_str().is_empty() {
                let ghost before = strs(pending@);
                pending.push(t.clone());
                assert(strs(pending@) =~= before.push(t@));
            }
        } else if str_eq(e.as_str(), "tool_completed") || str_eq(e.as_str(), "tool_failed") || str_eq(
            e.as_str(),
            "aborted",
        ) {
            pending = remove_all(&pending, t.as_str());
        }
        i = i + 1;
    }
    assert(event_views(events@).take(events.len() as int) =~= event_views(events@));
    pending
}

/// "recovered" when orphans were found, else "clean".
pub fn recovery_status(orphans: usize) -> (r: &'static str)
    ensures
        r@ == (if orphans > 0 { "recovered"@ } else { "clean"@ }),
{
    if orphans > 0 {
        "recovered"
    } else {
        "clean"
    }
}

/// The TDD state to resume from: a verified or pending step as it is, and
/// "idle" for anything else.
pub open spec fn resume_state(tdd: Seq<char>) -> Seq<char> {
    if tdd == "red_verified"@ || tdd == "green_verified"@ || tdd == "red_pending"@ || tdd == "green_pending"@
        || tdd == "refactor_pending"@ {
        tdd
    } else {
        "idle"@
    }
}

/// The safe point to resume the node's TDD state machine from.
pub fn resume_tdd_state(tdd_state: Option<&str>) -> (r: String)
    ensures
        r@ == resume_state(match tdd_state {
            Some(s) => s@,
            None => ""@,
        }),
{
    proof {
        reveal_strlit("");
        reveal_strlit("red_verified");
    }
    let t = match tdd_state {
        Some(s) => s,
        None => "",
    };
    if str_eq(t, "red_verified") || str_eq(t, "green_verified") || str_eq(t, "red_pending") || str_eq(
        t,
        "green_pending",
    ) || str_eq(t, "refactor_pending") {
        owned(t)
    } else {
        owned("idle")
    }
}

// ─── Write and node hooks ───────────────────────────────────────────────────

/// Journal lines beyond which a recorded write compacts the journal.
pub const AUTO_FLUSH_THRESHOLD: usize = 150;

/// Events the automatic compaction keeps.
pub const AUTO_FLUSH_RETAIN: usize = 100;

/// Whether a journal of `lines` lines is compacted after a write.
pub fn should_auto_compact(lines: usize) -> (r: bool)
    ensures
        r == (lines > AUTO_FLUSH_THRESHOLD),
{
    lines > AUTO_FLUSH_THRESHOLD
}

/// The message of a recorded write.
pub fn write_recorded_message(path: &str, auto_compacted: bool) -> (r: String)
    ensures
        r@ == "Write recorded: "@ + path@ + (if auto_compacted { " (auto_compacted: journal flushed)"@ } else { ""@ }),
{
    proof {
        reveal_strlit("");
    }
    let mut v = chars_of("Write recorded: ");
    push_str(&mut v, path);
    if auto_compacted {
        push_str(&mut v, " (auto_compacted: journal flushed)");
    }
    string_of(&v)
}

/// The TDD state a node starts in: red pending when TDD is required.
pub fn initial_tdd_state(tdd_required: Option<bool>) -> (r: Option<String>)
    ensures
        tdd_required == Some(true) ==> (r matches Some(s) && s@ == "red_pending"@),
        tdd_required != Some(true) ==> r is None,
{
    if tdd_required == Some(true) {
        Some(owned("red_pending"))
    } else {
        None
    }
}

/// The status a node starts in: the requested one, or "active".
pub fn initial_node_status(status: &Option<String>) -> (r: String)
    ensures
        r@ == match status {
            Some(s) => s@,
            None => "active"@,
        },
{
    match status {
        Some(s) => s.clone(),
        None => owned("active"),
    }
}

/// The memory entries shown at session start: the five updated last (by
/// their `updated` text, newest first; ties in the order given).
pub fn boot_memory_order(updated: &Vec<String>) -> (r: Vec<usize>)
    ensures
        ({
            let o = crate::journal_log::sort_by_ts_desc(crate::interaction_files::indices(updated@.len()), strs(updated@));
            r@.map_values(|i: usize| i as int) == (if o.len() > 5 { o.take(5) } else { o })
        }),
{
    let mut kept: Vec<usize> = Vec::new();
    let mut j: usize = 0;
    while j < updated.len()
        invariant
            j <= updated.len(),
            kept@.map_values(|x: usize| x as int) == crate::interaction_files::indices(updated@.len()).take(j as int),
            forall|q: int| 0 <= q < kept@.len() ==> kept@[q] < j,
        decreases updated.len() - j,
    {
        let ghost k0 = kept@.map_values(|x: usize| x as int);
        kept.push(j);
        assert(kept@.map_values(|x: usize| x as int) =~= k0.push(j as int));
        assert(crate::interaction_files::indices(updated@.len()).take(j + 1) =~= crate::interaction_files::indices(
            updated@.len(),
        ).take(j as int).push(j as int));
        j = j + 1;
    }
    assert(crate::interaction_files::indices(updated@.len()).take(updated.len() as int)
        =~= crate::interaction_files::indices(updated@.len()));
    let mut sorted = crate::journal_log::sort_indices_by_ts_desc(&kept, updated);
    if sorted.len() > 5 {
        let ghost before = sorted@;
        sorted.truncate(5);
        assert(sorted@.map_values(|i: usize| i as int) =~= before.map_values(|i: usize| i as int).take(5));
    }
    sorted
}

} // verus!
