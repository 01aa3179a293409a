//! Progress of a workflow session: node counts from the task graph, files
//! written and event counts from the journal, and a one-line summary.
use vstd::prelude::*;
use crate::error::ToolError;
use crate::json::{as_str, get, get_member, jview, jviews, lemma_jviews_len, str_of, Json, JsonV};
use crate::text::{chars_of, dec, dec_string, opt_clone, owned, push_str, str_eq, string_of, strs};

verus! {

/// Parameters of `progress_report`.
pub struct ProgressReportParams {
    pub phase: Option<String>,
    /// Also announce the summary in a toast.
    pub notify: bool,
}

/// A node of the task graph, with the id and name of the phase it is
/// listed under (both `None` for a node of the graph's own `nodes`).
pub struct NodeProgress {
    pub id: Option<String>,
    pub name: Option<String>,
    pub status: Option<String>,
    pub phase_id: Option<String>,
    pub phase_name: Option<String>,
}

/// Result of `progress_report`.
pub struct ProgressReportResult {
    /// "success" | "no_session"
    pub kind: String,
    pub phase: Option<String>,
    pub phase_status: Option<String>,
    pub nodes_total: usize,
    pub nodes_completed: usize,
    pub nodes_pending: usize,
    pub files_written: Vec<String>,
    /// Number of journal events of each name, in order of first occurrence.
    pub event_counts: Vec<(String, usize)>,
    pub active_node: Option<String>,
    pub summary: String,
}

/// What a progress report reads from the session.
pub struct SessionSnapshot {
    pub run_id: Option<String>,
    pub phase_id: Option<String>,
    pub phase_name: Option<String>,
    pub phase_status: Option<String>,
    pub node_id: Option<String>,
    pub node_name: Option<String>,
    pub node_status: Option<String>,
}

/// The fields of a journal line that a progress report reads: its run id
/// (empty when absent), its event name (empty when absent) and, for a
/// write, the path in its payload.
pub struct JournalLine {
    pub run_id: String,
    pub event: String,
    pub payload_path: Option<String>,
}

// ─── Nodes ──────────────────────────────────────────────────────────────────

/// A node counts as completed when done or skipped.
pub open spec fn node_done(n: NodeProgress) -> bool {
    n.status matches Some(s) && (s@ == "completed"@ || s@ == "done"@ || s@ == "skipped"@)
}

pub open spec fn done_count(nodes: Seq<NodeProgress>) -> nat
    decreases nodes.len(),
{
    if nodes.len() == 0 {
        0
    } else {
        done_count(nodes.drop_last()) + if node_done(nodes.last()) { 1nat } else { 0nat }
    }
}

proof fn lemma_done_count_le(nodes: Seq<NodeProgress>)
    ensures
        done_count(nodes) <= nodes.len(),
    decreases nodes.len(),
{
    if nodes.len() > 0 {
        lemma_done_count_le(nodes.drop_last());
    }
}

/// Total, completed and pending nodes.
pub fn node_stats(nodes: &Vec<NodeProgress>) -> (r: (usize, usize, usize))
    ensures
        r.0 == nodes.len(),
        r.1 == done_count(nodes@),
        r.2 == nodes.len() - done_count(nodes@),
{
    let mut done: usize = 0;
    let mut i: usize = 0;
    while i < nodes.len()
        invariant
            i <= nodes.len(),
            done == done_count(nodes@.take(i as int)),
            done <= i,
        decreases nodes.len() - i,
    {
        assert(nodes@.take(i + 1).drop_last() =~= nodes@.take(i as int));
        let is_done = match &nodes[i].status {
            Some(s) => str_eq(s.as_str(), "completed") || str_eq(s.as_str(), "done") || str_eq(
                s.as_str(),
                "skipped",
            ),
            None => false,
        };
        if is_done {
            done = done + 1;
        }
        i = i + 1;
    }
    assert(nodes@.take(nodes.len() as int) =~= nodes@);
    (nodes.len(), done, nodes.len() - done)
}

// ─── Nodes of a phase ───────────────────────────────────────────────────────

/// The node belongs to the report of `phase`: no phase is asked for, the
/// node is listed under no phase, or its phase has that id or name.
pub open spec fn in_phase(n: NodeProgress, phase: Option<String>) -> bool {
    match phase {
        None => true,
        Some(p) => {
            ||| (n.phase_id is None && n.phase_name is None)
            ||| (n.phase_id matches Some(x) && x@ == p@)
            ||| (n.phase_name matches Some(x) && x@ == p@)
        },
    }
}

/// The nodes of the report of `phase`, in order.
pub open spec fn phase_selected(nodes: Seq<NodeProgress>, phase: Option<String>) -> Seq<NodeProgress>
    decreases nodes.len(),
{
    if nodes.len() == 0 {
        seq![]
    } else if in_phase(nodes.last(), phase) {
        phase_selected(nodes.drop_last(), phase).push(nodes.last())
    } else {
        phase_selected(nodes.drop_last(), phase)
    }
}

proof fn lemma_selected_len(nodes: Seq<NodeProgress>, phase: Option<String>)
    ensures
        phase_selected(nodes, phase).len() <= nodes.len(),
        done_count(phase_selected(nodes, phase)) <= phase_selected(nodes, phase).len(),
    decreases nodes.len(),
{
    lemma_done_count_le(phase_selected(nodes, phase));
    if nodes.len() > 0 {
        lemma_selected_len(nodes.drop_last(), phase);
    }
}

fn opt_is(o: &Option<String>, p: &str) -> (r: bool)
    ensures
        r == (o matches Some(x) && x@ == p@),
{
    match o {
        Some(x) => str_eq(x.as_str(), p),
        None => false,
    }
}

/// Total, completed and pending nodes of the report of `phase`.
pub fn phase_node_stats(nodes: &Vec<NodeProgress>, phase: &Option<String>) -> (r: (usize, usize, usize))
    ensures
        r.0 == phase_selected(nodes@, *phase).len(),
        r.1 == done_count(phase_selected(nodes@, *phase)),
        r.2 == phase_selected(nodes@, *phase).len() - done_count(phase_selected(nodes@, *phase)),
        r.0 <= nodes.len(),
{
    let mut total: usize = 0;
    let mut done: usize = 0;
    let mut i: usize = 0;
    while i < nodes.len()
        invariant
            i <= nodes.len(),
            total == phase_selected(nodes@.take(i as int), *phase).len(),
            done == done_count(phase_selected(nodes@.take(i as int), *phase)),
            done <= total <= i,
        decreases nodes.len() - i,
    {
        assert(nodes@.take(i + 1).drop_last() =~= nodes@.take(i as int));
        assert(nodes@.take(i + 1).last() == nodes@[i as int]);
        let n = &nodes[i];
        let keep = match phase {
            None => true,
            Some(p) => (n.phase_id.is_none() && n.phase_name.is_none()) || opt_is(&n.phase_id, p.as_str())
                || opt_is(&n.phase_name, p.as_str()),
        };
        if keep {
            let is_done = match &n.status {
                Some(s) => str_eq(s.as_str(), "completed") || str_eq(s.as_str(), "done") || str_eq(
                    s.as_str(),
                    "skipped",
                ),
                None => false,
            };
            proof {
                let prev = phase_selected(nodes@.take(i as int), *phase);
                assert(prev.push(nodes@[i as int]).drop_last() =~= prev);
            }
            total = total + 1;
            if is_done {
                done = done + 1;
            }
        }
        i = i + 1;
    }
    assert(nodes@.take(nodes.len() as int) =~= nodes@);
    (total, done, total - done)
}

// ─── Nodes of a task graph ──────────────────────────────────────────────────

/// What a node of the task graph holds: id, name, status, and the id and
/// name of its phase.
pub type NodeV = (Option<Seq<char>>, Option<Seq<char>>, Option<Seq<char>>, Option<Seq<char>>, Option<Seq<char>>);

pub open spec fn opt_view(o: Option<String>) -> Option<Seq<char>> {
    match o {
        Some(s) => Some(s@),
        None => None,
    }
}

pub open spec fn node_view(n: NodeProgress) -> NodeV {
    (opt_view(n.id), opt_view(n.name), opt_view(n.status), opt_view(n.phase_id), opt_view(n.phase_name))
}

/// The node a task-graph entry describes, under the phase given.
pub open spec fn node_v(v: JsonV, pid: Option<Seq<char>>, pname: Option<Seq<char>>) -> NodeV {
    (as_str(get(v, "id"@)), as_str(get(v, "name"@)), as_str(get(v, "status"@)), pid, pname)
}

/// The nodes of a list of entries, under the phase given.
pub open spec fn nodes_of(arr: Seq<JsonV>, pid: Option<Seq<char>>, pname: Option<Seq<char>>) -> Seq<NodeV>
    decreases arr.len(),
{
    if arr.len() == 0 {
        seq![]
    } else {
        nodes_of(arr.drop_last(), pid, pname).push(node_v(arr.last(), pid, pname))
    }
}

/// The elements of an array value.
pub open spec fn array_of(v: Option<JsonV>) -> Option<Seq<JsonV>> {
    match v {
        Some(JsonV::Array(a)) => Some(a),
        _ => None,
    }
}

/// The nodes listed under each phase, phase by phase.
pub open spec fn phase_nodes(phases: Seq<JsonV>) -> Seq<NodeV>
    decreases phases.len(),
{
    if phases.len() == 0 {
        seq![]
    } else {
        let p = phases.last();
        phase_nodes(phases.drop_last()) + match array_of(get(p, "nodes"@)) {
            Some(a) => nodes_of(a, as_str(get(p, "id"@)), as_str(get(p, "name"@))),
            None => seq![],
        }
    }
}

/// The nodes of a task graph: those of its own `nodes`, then those of each
/// entry of `phases`.
pub open spec fn task_nodes(doc: JsonV) -> Seq<NodeV> {
    (match array_of(get(doc, "nodes"@)) {
        Some(a) => nodes_of(a, None, None),
        None => seq![],
    }) + (match array_of(get(doc, "phases"@)) {
        Some(ps) => phase_nodes(ps),
        None => seq![],
    })
}

fn owned_opt(s: Option<&str>) -> (r: Option<String>)
    ensures
        match s {
            Some(x) => r matches Some(y) && y@ == x@,
            None => r is None,
        },
{
    match s {
        Some(x) => Some(owned(x)),
        None => None,
    }
}

/// Appends the nodes of the entries `arr`, under the phase given.
pub fn collect_nodes(
    arr: &Vec<Json>,
    phase_id: &Option<String>,
    phase_name: &Option<String>,
    out: &mut Vec<NodeProgress>,
)
    ensures
        final(out)@.map_values(|n: NodeProgress| node_view(n)) == old(out)@.map_values(|n: NodeProgress| node_view(n))
            + nodes_of(jviews(arr@), opt_view(*phase_id), opt_view(*phase_name)),
{
    let ghost base = out@.map_values(|n: NodeProgress| node_view(n));
    let ghost pid = opt_view(*phase_id);
    let ghost pname = opt_view(*phase_name);
    proof {
        lemma_jviews_len(arr@);
    }
    let mut i: usize = 0;
    while i < arr.len()
        invariant
            i <= arr.len(),
            pid == opt_view(*phase_id),
            pname == opt_view(*phase_name),
            jviews(arr@).len() == arr@.len(),
            forall|k: int| 0 <= k < arr@.len() ==> #[trigger] jviews(arr@)[k] == jview(arr@[k]),
            out@.map_values(|n: NodeProgress| node_view(n)) == base + nodes_of(jviews(arr@).take(i as int), pid, pname),
        decreases arr.len() - i,
    {
        let v = &arr[i];
        let n = NodeProgress {
            id: owned_opt(str_of(get_member(v, "id"))),
            name: owned_opt(str_of(get_member(v, "name"))),
            status: owned_opt(str_of(get_member(v, "status"))),
            phase_id: opt_clone(phase_id),
            phase_name: opt_clone(phase_name),
        };
        let ghost before = out@.map_values(|n: NodeProgress| node_view(n));
        proof {
            assert(node_view(n) == node_v(jview(*v), pid, pname));
        }
        out.push(n);
        proof {
            let t = jviews(arr@).take(i + 1);
            assert(t.drop_last() =~= jviews(arr@).take(i as int));
            assert(t.last() == jview(arr@[i as int]));
            assert(out@.map_values(|n: NodeProgress| node_view(n)) =~= before.push(node_view(n)));
        }
        i = i + 1;
    }
    assert(jviews(arr@).take(arr.len() as int) =~= jviews(arr@));
}

fn array_member<'a>(v: &'a Json, k: &str) -> (r: Option<&'a Vec<Json>>)
    ensures
        match r {
            Some(a) => array_of(get(jview(*v), k@)) == Some(jviews(a@)),
            None => array_of(get(jview(*v), k@)) is None,
        },
{
    match get_member(v, k) {
        Some(Json::Array(a)) => Some(a),
        _ => None,
    }
}

/// The nodes of a task graph (read into the library's JSON values): those
/// of its own `nodes`, then those listed under each entry of `phases`.
pub fn collect_task_nodes(doc: &Json) -> (r: Vec<NodeProgress>)
    ensures
        r@.map_values(|n: NodeProgress| node_view(n)) == task_nodes(jview(*doc)),
{
    let mut out: Vec<NodeProgress> = Vec::new();
    assert(out@.map_values(|n: NodeProgress| node_view(n)) =~= Seq::<NodeV>::empty());
    match array_member(doc, "nodes") {
        Some(a) => collect_nodes(a, &None, &None, &mut out),
        None => {},
    }
    let ghost root = out@.map_values(|n: NodeProgress| node_view(n));
    match array_member(doc, "phases") {
        Some(ps) => {
            proof {
                lemma_jviews_len(ps@);
            }
            let mut i: usize = 0;
            while i < ps.len()
                invariant
                    i <= ps.len(),
                    jviews(ps@).len() == ps@.len(),
                    forall|k: int| 0 <= k < ps@.len() ==> #[trigger] jviews(ps@)[k] == jview(ps@[k]),
                    out@.map_values(|n: NodeProgress| node_view(n)) == root + phase_nodes(jviews(ps@).take(i as int)),
                decreases ps.len() - i,
            {
                let p = &ps[i];
                let ghost before = out@.map_values(|n: NodeProgress| node_view(n));
                let pid = owned_opt(str_of(get_member(p, "id")));
                let pname = owned_opt(str_of(get_member(p, "name")));
                match array_member(p, "nodes") {
                    Some(a) => collect_nodes(a, &pid, &pname, &mut out),
                    None => {},
                }
                proof {
                    let t = jviews(ps@).take(i + 1);
                    assert(t.drop_last() =~= jviews(ps@).take(i as int));
                    assert(t.last() == jview(ps@[i as int]));
                    assert(opt_view(pid) == as_str(get(jview(*p), "id"@)));
                    assert(opt_view(pname) == as_str(get(jview(*p), "name"@)));
                    assert(out@.map_values(|n: NodeProgress| node_view(n)) =~= root + phase_nodes(t));
                }
                i = i + 1;
            }
            assert(jviews(ps@).take(ps.len() as int) =~= jviews(ps@));
        },
        None => {
            assert(root + Seq::<NodeV>::empty() =~= root);
        },
    }
    out
}

// ─── Journal ────────────────────────────────────────────────────────────────

/// The line belongs to the run: no run id is asked for, the line has none,
/// or it is the same.
pub open spec fn in_run(l: JournalLine, run_id: Option<String>) -> bool {
    match run_id {
        Some(rid) => l.run_id@.len() == 0 || l.run_id@ == rid@,
        None => true,
    }
}

/// The lines of the run.
pub open spec fn run_lines(lines: Seq<JournalLine>, run_id: Option<String>) -> Seq<JournalLine>
    decreases lines.len(),
{
    if lines.len() == 0 {
        seq![]
    } else if in_run(lines.last(), run_id) {
        run_lines(lines.drop_last(), run_id).push(lines.last())
    } else {
        run_lines(lines.drop_last(), run_id)
    }
}

/// How many lines have this event name.
pub open spec fn event_count(lines: Seq<JournalLine>, name: Seq<char>) -> nat
    decreases lines.len(),
{
    if lines.len() == 0 {
        0
    } else {
        event_count(lines.drop_last(), name) + if lines.last().event@ == name { 1nat } else { 0nat }
    }
}

/// The paths of the recorded writes, each once, in order of first record.
pub open spec fn written_files(lines: Seq<JournalLine>) -> Seq<Seq<char>>
    decreases lines.len(),
{
    if lines.len() == 0 {
        seq![]
    } else {
        let prev = written_files(lines.drop_last());
        let l = lines.last();
        match l.payload_path {
            Some(p) => if l.event@ == "write_recorded"@ && !prev.contains(p@) {
                prev.push(p@)
            } else {
                prev
            },
            None => prev,
        }
    }
}

/// `name` has an entry in the counts.
pub open spec fn has_count(counts: Seq<(String, usize)>, name: Seq<char>) -> bool {
    exists|i: int| 0 <= i < counts.len() && (#[trigger] counts[i]).0@ == name
}

/// The event counts: each name of the lines once, with its count.
pub open spec fn counts_ok(counts: Seq<(String, usize)>, lines: Seq<JournalLine>) -> bool {
    &&& forall|i: int, j: int| 0 <= i < j < counts.len() ==> #[trigger] counts[i].0@ != #[trigger] counts[j].0@
    &&& forall|i: int| 0 <= i < counts.len() ==> (#[trigger] counts[i]).1 == event_count(lines, counts[i].0@)
    &&& forall|i: int| 0 <= i < counts.len() ==> event_count(lines, (#[trigger] counts[i]).0@) > 0
    &&& forall|k: int| 0 <= k < lines.len() ==> has_count(counts, (#[trigger] lines[k]).event@)
}

fn find_count(counts: &Vec<(String, usize)>, name: &str) -> (r: Option<usize>)
    ensures
        r matches Some(i) ==> i < counts.len() && counts@[i as int].0@ == name@,
        r is None ==> forall|i: int| 0 <= i < counts.len() ==> (#[trigger] counts@[i]).0@ != name@,
{
    let mut i: usize = 0;
    while i < counts.len()
        invariant
            i <= counts.len(),
            forall|k: int| 0 <= k < i ==> (#[trigger] counts@[k]).0@ != name@,
        decreases counts.len() - i,
    {
        if str_eq(counts[i].0.as_str(), name) {
            return Some(i);
        }
        i = i + 1;
    }
    None
}

fn contains_str(v: &Vec<String>, s: &str) -> (r: bool)
    ensures
        r == strs(v@).contains(s@),
{
    let mut i: usize = 0;
    while i < v.len()
        invariant
            i <= v.len(),
            forall|k: int| 0 <= k < i ==> v@[k]@ != s@,
        decreases v.len() - i,
    {
        if str_eq(v[i].as_str(), s) {
            assert(strs(v@)[i as int] == s@);
            return true;
        }
        i = i + 1;
    }
    assert forall|k: int| 0 <= k < strs(v@).len() implies strs(v@)[k] != s@ by {
        assert(strs(v@)[k] == v@[k]@);
    }
    false
}

/// The files written and the event counts of the journal lines of the run.
pub fn scan_journal(lines: &Vec<JournalLine>, run_id: &Option<String>) -> (r: (Vec<String>, Vec<(String, usize)>))
    ensures
        strs(r.0@) == written_files(run_lines(lines@, *run_id)),
        counts_ok(r.1@, run_lines(lines@, *run_id)),
{
    let mut files: Vec<String> = Vec::new();
    let mut counts: Vec<(String, usize)> = Vec::new();
    let mut i: usize = 0;
    while i < lines.len()
        invariant
            i <= lines.len(),
            strs(files@) == written_files(run_lines(lines@.take(i as int), *run_id)),
            counts_ok(counts@, run_lines(lines@.take(i as int), *run_id)),
            run_lines(lines@.take(i as int), *run_id).len() <= i,
        decreases lines.len() - i,
    {
        let l = &lines[i];
        let ghost pre = run_lines(lines@.take(i as int), *run_id);
        assert(lines@.take(i + 1).drop_last() =~= lines@.take(i as int));
        assert(lines@.take(i + 1).last() == *l);
        let keep = match run_id {
            Some(rid) => l.run_id.as_str().is_empty() || str_eq(l.run_id.as_str(), rid.as_str()),
            None => true,
        };
        if keep {
            let ghost post = pre.push(*l);
            assert(run_lines(lines@.take(i + 1), *run_id) == post);
            assert(post.drop_last() =~= pre);
            proof {
                assert forall|name: Seq<char>| #[trigger] event_count(post, name) == event_count(pre, name)
                    + if l.event@ == name { 1nat } else { 0nat } by {}
            }
            match find_count(&counts, l.event.as_str()) {
                Some(k) => {
                    let ghost before = counts@;
                    let c = counts[k].1;
                    proof {
                        lemma_count_le(pre, l.event@);
                    }
                    let name = counts[k].0.clone();
                    counts.set(k, (name, c + 1));
                    assert forall|a: int, b: int| 0 <= a < b < counts@.len() implies #[trigger] counts@[a].0@
                        != #[trigger] counts@[b].0@ by {
                        assert(before[a].0@ != before[b].0@);
                    }
                    assert forall|a: int| 0 <= a < counts@.len() implies (#[trigger] counts@[a]).1 == event_count(
                        post,
                        counts@[a].0@,
                    ) by {
                        if a != k {
                            assert(before[a] == counts@[a]);
                            assert(before[a].0@ != before[k as int].0@);
                        }
                    }
                    assert forall|a: int| 0 <= a < counts@.len() implies event_count(post, (#[trigger] counts@[a]).0@) > 0 by {
                        assert(before[a].0@ == counts@[a].0@);
                    }
                    assert forall|q: int| 0 <= q < post.len() implies has_count(counts@, (#[trigger] post[q]).event@) by {
                        if q < pre.len() {
                            assert(post[q] == pre[q]);
                            assert(has_count(before, pre[q].event@));
                            let a = choose|a: int| 0 <= a < before.len() && (#[trigger] before[a]).0@ == pre[q].event@;
                            assert(counts@[a].0@ == before[a].0@);
                        } else {
                            assert(counts@[k as int].0@ == l.event@);
                        }
                    }
                },
                None => {
                    let ghost before = counts@;
                    proof {
                        assert(event_count(pre, l.event@) == 0) by {
                            lemma_count_zero(pre, l.event@, before);
                        }
                    }
                    counts.push((l.event.clone(), 1));
                    assert forall|a: int, b: int| 0 <= a < b < counts@.len() implies #[trigger] counts@[a].0@
                        != #[trigger] counts@[b].0@ by {
                        if b < before.len() {
                            assert(before[a].0@ != before[b].0@);
                        } else {
                            assert(counts@[a] == before[a]);
                        }
                    }
                    assert forall|a: int| 0 <= a < counts@.len() implies (#[trigger] counts@[a]).1 == event_count(
                        post,
                        counts@[a].0@,
                    ) by {
                        if a < before.len() {
                            assert(counts@[a] == before[a]);
                        }
                    }
                    assert forall|a: int| 0 <= a < counts@.len() implies event_count(post, (#[trigger] counts@[a]).0@) > 0 by {
                        if a < before.len() {
                            assert(counts@[a] == before[a]);
                        }
                    }
                    assert forall|q: int| 0 <= q < post.len() implies has_count(counts@, (#[trigger] post[q]).event@) by {
                        if q < pre.len() {
                            assert(post[q] == pre[q]);
                            assert(has_count(before, pre[q].event@));
                            let a = choose|a: int| 0 <= a < before.len() && (#[trigger] before[a]).0@ == pre[q].event@;
                            assert(counts@[a] == before[a]);
                        } else {
                            assert(counts@[before.len() as int].0@ == l.event@);
                        }
                    }
                },
            }
            if str_eq(l.event.as_str(), "write_recorded") {
                match &l.payload_path {
                    Some(p) => {
                        if !contains_str(&files, p.as_str()) {
                            let ghost fb = strs(files@);
                            files.push(p.clone());
                            assert(strs(files@) =~= fb.push(p@));
                        }
                    },
                    None => {},
                }
            }
        } else {
            assert(run_lines(lines@.take(i + 1), *run_id) == pre);
        }
        i = i + 1;
    }
    assert(lines@.take(lines.len() as int) =~= lines@);
    (files, counts)
}

proof fn lemma_count_le(lines: Seq<JournalLine>, name: Seq<char>)
    ensures
        event_count(lines, name) <= lines.len(),
    decreases lines.len(),
{
    if lines.len() > 0 {
        lemma_count_le(lines.drop_last(), name);
    }
}

proof fn lemma_count_zero(lines: Seq<JournalLine>, name: Seq<char>, counts: Seq<(String, usize)>)
    requires
        forall|k: int| 0 <= k < lines.len() ==> has_count(counts, (#[trigger] lines[k]).event@),
        forall|i: int| 0 <= i < counts.len() ==> (#[trigger] counts[i]).0@ != name,
    ensures
        event_count(lines, name) == 0,
    decreases lines.len(),
{
    if lines.len() > 0 {
        assert forall|k: int| 0 <= k < lines.drop_last().len() implies has_count(counts, (#[trigger] lines.drop_last()[k]).event@) by {
            assert(lines.drop_last()[k] == lines[k]);
        }
        lemma_count_zero(lines.drop_last(), name, counts);
        let k = lines.len() - 1;
        assert(has_count(counts, lines[k].event@));
        let i = choose|i: int| 0 <= i < counts.len() && (#[trigger] counts[i]).0@ == lines[k].event@;
    }
}

// ─── Summary ────────────────────────────────────────────────────────────────

/// "name (status)" of the active node, by name or else id.
pub open spec fn active_label(name: Option<String>, id: Option<String>, status: Option<String>) -> Option<Seq<char>> {
    let n = match name {
        Some(x) => Some(x),
        None => id,
    };
    match n {
        Some(x) => Some(x@ + " ("@ + match status {
            Some(s) => s@,
            None => "unknown"@,
        } + ")"@),
        None => None,
    }
}

/// The active node label of a session.
pub fn active_node_label(session: &SessionSnapshot) -> (r: Option<String>)
    ensures
        match active_label(session.node_name, session.node_id, session.node_status) {
            Some(x) => r matches Some(s) && s@ == x,
            None => r is None,
        },
{
    let n = match &session.node_name {
        Some(x) => Some(x),
        None => match &session.node_id {
            Some(y) => Some(y),
            None => None,
        },
    };
    match n {
        Some(x) => {
            let mut v = chars_of(x.as_str());
            push_str(&mut v, " (");
            match &session.node_status {
                Some(s) => push_str(&mut v, s.as_str()),
                None => push_str(&mut v, "unknown"),
            }
            push_str(&mut v, ")");
            Some(string_of(&v))
        },
        None => None,
    }
}

/// Percentage of completed nodes, rounded down; 0 without nodes.
pub open spec fn percent(done: nat, total: nat) -> nat {
    if total > 0 {
        (done * 100) / total
    } else {
        0
    }
}

/// The one-line summary of a report.
pub open spec fn summary_text(phase: Seq<char>, done: nat, total: nat, active: Seq<char>, files: nat) -> Seq<char> {
    "Phase '"@ + phase + "' — "@ + dec(done) + "/"@ + dec(total) + " nodes completed ("@ + dec(
        percent(done, total),
    ) + "%). Active: "@ + active + ". Files written: "@ + dec(files) + "."@
}

/// The phase a report is about: the requested one, or the session's id, or its name.
pub open spec fn report_phase(p: ProgressReportParams, s: SessionSnapshot) -> Option<String> {
    match p.phase {
        Some(x) => Some(x),
        None => match s.phase_id {
            Some(x) => Some(x),
            None => s.phase_name,
        },
    }
}

/// The report of a session whose task graph has `nodes` and whose journal
/// has `lines`: the nodes counted are those of the phase reported (the one
/// asked for, else the session's); `None` when there is no session.
pub fn run_progress_report(
    params: &ProgressReportParams,
    session: Option<&SessionSnapshot>,
    nodes: &Vec<NodeProgress>,
    lines: &Vec<JournalLine>,
) -> (r: Result<ProgressReportResult, ToolError>)
    requires
        nodes.len() * 100 <= usize::MAX,
    ensures
        session is None ==> (r matches Ok(res) && res.kind@ == "no_session"@ && res.phase is None
            && res.phase_status is None && res.nodes_total == 0 && res.nodes_completed == 0
            && res.nodes_pending == 0 && res.files_written.len() == 0 && res.event_counts.len() == 0
            && res.active_node is None && res.summary@ == "No active session."@),
        session matches Some(s) ==> (r matches Ok(res) && {
            let run = run_lines(lines@, s.run_id);
            let active = active_label(s.node_name, s.node_id, s.node_status);
            let phase = report_phase(*params, *s);
            &&& res.kind@ == "success"@
            &&& res.phase == phase
            &&& res.phase_status == s.phase_status
            &&& res.nodes_total == phase_selected(nodes@, phase).len()
            &&& res.nodes_completed == done_count(phase_selected(nodes@, phase))
            &&& res.nodes_pending == phase_selected(nodes@, phase).len() - done_count(phase_selected(nodes@, phase))
            &&& strs(res.files_written@) == written_files(run)
            &&& counts_ok(res.event_counts@, run)
            &&& (match active {
                Some(a) => res.active_node matches Some(x) && x@ == a,
                None => res.active_node is None,
            })
            &&& res.summary@ == summary_text(
                match phase {
                    Some(x) => x@,
                    None => "unknown"@,
                },
                done_count(phase_selected(nodes@, phase)),
                phase_selected(nodes@, phase).len(),
                match active {
                    Some(a) => a,
                    None => "none"@,
                },
                written_files(run).len(),
            )
        }),
{
    let s = match session {
        None => {
            return Ok(ProgressReportResult {
                kind: owned("no_session"),
                phase: None,
                phase_status: None,
                nodes_total: 0,
                nodes_completed: 0,
                nodes_pending: 0,
                files_written: Vec::new(),
                event_counts: Vec::new(),
                active_node: None,
                summary: owned("No active session."),
            });
        },
        Some(s) => s,
    };
    let phase = match &params.phase {
        Some(x) => Some(x.clone()),
        None => match &s.phase_id {
            Some(x) => Some(x.clone()),
            None => opt_clone(&s.phase_name),
        },
    };
    let (total, done, pending) = phase_node_stats(nodes, &phase);
    let (files, counts) = scan_journal(lines, &s.run_id);
    let active = active_node_label(s);
    let pct: usize = if total > 0 {
        proof {
            lemma_selected_len(nodes@, phase);
            assert(done * 100 <= total * 100) by (nonlinear_arith)
                requires
                    done <= total,
            ;
        }
        done * 100 / total
    } else {
        0
    };
    let mut v = chars_of("Phase '");
    match &phase {
        Some(x) => push_str(&mut v, x.as_str()),
        None => push_str(&mut v, "unknown"),
    }
    push_str(&mut v, "' — ");
    push_str(&mut v, dec_string(done).as_str());
    push_str(&mut v, "/");
    push_str(&mut v, dec_string(total).as_str());
    push_str(&mut v, " nodes completed (");
    push_str(&mut v, dec_string(pct).as_str());
    push_str(&mut v, "%). Active: ");
    match &active {
        Some(a) => push_str(&mut v, a.as_str()),
        None => push_str(&mut v, "none"),
    }
    push_str(&mut v, ". Files written: ");
    push_str(&mut v, dec_string(files.len()).as_str());
    push_str(&mut v, ".");
    proof {
        assert(strs(files@).len() == files@.len());
    }
    Ok(ProgressReportResult {
        kind: owned("success"),
        phase,
        phase_status: opt_clone(&s.phase_status),
        nodes_total: total,
        nodes_completed: done,
        nodes_pending: pending,
        files_written: files,
        event_counts: counts,
        active_node: active,
        summary: string_of(&v),
    })
}

} // verus!
