//! Write checkpoints: listing the snapshots taken before writes, and the
//! diff of a file against the snapshot a label picks.
use vstd::prelude::*;
use crate::error::ToolError;
use crate::git::DiffResult;
use crate::text::{chars_of, contains, dec, dec_string, idec, i64_string, join, owned, push_str, str_contains, string_of,
    strs, join_strings};

verus! {

/// A snapshot taken before a write (newest first when listed).
pub struct SnapshotInfo {
    pub file_path: String,
    pub tool_name: String,
    pub captured_at_ms: i64,
}

/// Parameters of `checkpoint_list` (none).
pub struct CheckpointListParams {}

/// One snapshot as listed.
pub struct CheckpointEntry {
    pub file_path: String,
    pub tool_name: String,
    /// RFC 3339 time, or the milliseconds where they name no time.
    pub captured_at: String,
}

/// Result of `checkpoint_list`.
pub struct CheckpointListResult {
    /// "success" | "empty"
    pub kind: String,
    pub total: usize,
    pub checkpoints: Vec<CheckpointEntry>,
}

/// The RFC 3339 rendering of a time given in milliseconds since the epoch,
/// where chrono can represent it.
pub uninterp spec fn rfc3339_of_millis(ms: i64) -> Option<Seq<char>>;

/// `DateTime::from_timestamp_millis(ms)` rendered by `to_rfc3339`; `None`
/// where the milliseconds are out of chrono's range. The text itself is
/// named, not stated.
#[verifier::external_body]
fn rfc3339_from_millis(ms: i64) -> (r: Option<String>)
    ensures
        match r {
            Some(s) => rfc3339_of_millis(ms) == Some(s@),
            None => rfc3339_of_millis(ms) is None,
        },
{
    match chrono::DateTime::from_timestamp_millis(ms) {
        Some(dt) => Some(dt.to_rfc3339()),
        None => None,
    }
}

/// How a snapshot's time is listed.
pub open spec fn captured_text(ms: i64) -> Seq<char> {
    match rfc3339_of_millis(ms) {
        Some(s) => s,
        None => idec(ms as int),
    }
}

pub open spec fn entry_ok(e: CheckpointEntry, s: SnapshotInfo) -> bool {
    &&& e.file_path@ == s.file_path@
    &&& e.tool_name@ == s.tool_name@
    &&& e.captured_at@ == captured_text(s.captured_at_ms)
}

/// `checkpoint_list` over the snapshots of the store: one entry each, in
/// their order.
pub fn run_checkpoint_list(params: CheckpointListParams, snapshots: &Vec<SnapshotInfo>) -> (r: Result<
    CheckpointListResult,
    ToolError,
>)
    ensures
        r matches Ok(res) && {
            &&& res.kind@ == (if snapshots@.len() == 0 { "empty"@ } else { "success"@ })
            &&& res.total == snapshots@.len()
            &&& res.checkpoints@.len() == snapshots@.len()
            &&& forall|i: int| 0 <= i < snapshots@.len() ==> entry_ok(#[trigger] res.checkpoints@[i], snapshots@[i])
        },
{
    let mut out: Vec<CheckpointEntry> = Vec::new();
    let mut i: usize = 0;
    while i < snapshots.len()
        invariant
            i <= snapshots.len(),
            out@.len() == i,
            forall|j: int| 0 <= j < i ==> entry_ok(#[trigger] out@[j], snapshots@[j]),
        decreases snapshots.len() - i,
    {
        let s = &snapshots[i];
        let captured_at = match rfc3339_from_millis(s.captured_at_ms) {
            Some(t) => t,
            None => i64_string(s.captured_at_ms),
        };
        out.push(
            CheckpointEntry { file_path: s.file_path.clone(), tool_name: s.tool_name.clone(), captured_at },
        );
        i = i + 1;
    }
    let total = snapshots.len();
    proof {
        reveal_strlit("empty");
        reveal_strlit("success");
    }
    Ok(
        CheckpointListResult {
            kind: if total == 0 { owned("empty") } else { owned("success") },
            total,
            checkpoints: out,
        },
    )
}

/// Parameters of `diff_since_checkpoint`.
pub struct DiffSinceCheckpointParams {
    /// Picks the first snapshot whose tool name contains it.
    pub label: Option<String>,
    /// Only files whose relative path contains one of these.
    pub paths: Option<Vec<String>>,
}

/// The change of one file since its snapshot.
pub struct FileDiff {
    pub path: String,
    pub added: u32,
    pub removed: u32,
    pub hunks: Vec<String>,
}

/// Result of `diff_since_checkpoint`.
pub struct DiffSinceCheckpointResult {
    /// "ok" | "NO_CHECKPOINT"
    pub status: String,
    pub checkpoint_label: Option<String>,
    pub files: Vec<FileDiff>,
    pub total_files: usize,
    pub total_added: u32,
    pub total_removed: u32,
}

/// The kind of a line of a diff hunk.
#[derive(Clone, Copy, PartialEq, Eq, Structural)]
pub enum DiffLineKind {
    Add,
    Del,
    Ctx,
}

/// A line of a diff hunk.
pub struct DiffLine {
    pub kind: DiffLineKind,
    pub content: String,
}

/// The first snapshot whose tool name contains `label`, from `i` on.
pub open spec fn first_labelled(snaps: Seq<SnapshotInfo>, label: Seq<char>, i: int) -> Option<int>
    decreases snaps.len() - i,
{
    if i < 0 || i >= snaps.len() {
        None
    } else if contains(snaps[i].tool_name@, label) {
        Some(i)
    } else {
        first_labelled(snaps, label, i + 1)
    }
}

/// The snapshot a diff is taken against: the first whose tool name holds the
/// label, else the newest (the first listed).
pub open spec fn target_snapshot(snaps: Seq<SnapshotInfo>, label: Option<Seq<char>>) -> Option<int> {
    if snaps.len() == 0 {
        None
    } else {
        match label {
            Some(l) => match first_labelled(snaps, l, 0) {
                Some(i) => Some(i),
                None => Some(0),
            },
            None => Some(0),
        }
    }
}

/// The index of the snapshot `target_snapshot` picks.
pub fn select_snapshot(snapshots: &Vec<SnapshotInfo>, label: &Option<String>) -> (r: Option<usize>)
    ensures
        r matches Some(i) ==> i < snapshots@.len(),
        match r {
            Some(i) => target_snapshot(snapshots@, opt_chars(*label)) == Some(i as int),
            None => target_snapshot(snapshots@, opt_chars(*label)) is None,
        },
{
    if snapshots.len() == 0 {
        return None;
    }
    match label {
        Some(l) => {
            let mut i: usize = 0;
            while i < snapshots.len()
                invariant
                    i <= snapshots.len(),
                    first_labelled(snapshots@, l@, 0) == first_labelled(snapshots@, l@, i as int),
                    *label == Some(*l),
                decreases snapshots.len() - i,
            {
                if str_contains(snapshots[i].tool_name.as_str(), l.as_str()) {
                    assert(first_labelled(snapshots@, l@, i as int) == Some(i as int));
                    return Some(i);
                }
                i = i + 1;
            }
            Some(0)
        },
        None => Some(0),
    }
}

pub open spec fn opt_chars(o: Option<String>) -> Option<Seq<char>> {
    match o {
        Some(s) => Some(s@),
        None => None,
    }
}

pub open spec fn opt_strings(o: Option<Vec<String>>) -> Option<Seq<String>> {
    match o {
        Some(v) => Some(v@),
        None => None,
    }
}

/// The label of a snapshot: "tool @ milliseconds".
pub open spec fn label_of(s: SnapshotInfo) -> Seq<char> {
    s.tool_name@ + " @ "@ + idec(s.captured_at_ms as int)
}

pub fn checkpoint_label(s: &SnapshotInfo) -> (r: String)
    ensures
        r@ == label_of(*s),
{
    let mut v = chars_of(s.tool_name.as_str());
    push_str(&mut v, " @ ");
    let ms = i64_string(s.captured_at_ms);
    push_str(&mut v, ms.as_str());
    string_of(&v)
}

/// Whether a file passes the path filter: there is none, or one of its
/// entries occurs in the file's relative path.
pub open spec fn passes_filter(rel: Seq<char>, paths: Option<Seq<String>>) -> bool {
    match paths {
        None => true,
        Some(ps) => some_entry_in(rel, ps),
    }
}

/// One of `ps` occurs in `rel`.
pub open spec fn some_entry_in(rel: Seq<char>, ps: Seq<String>) -> bool {
    exists|i: int| 0 <= i < ps.len() && contains(rel, #[trigger] ps[i]@)
}

pub fn path_passes_filter(rel: &str, paths: &Option<Vec<String>>) -> (r: bool)
    ensures
        r == passes_filter(rel@, opt_strings(*paths)),
{
    match paths {
        None => true,
        Some(ps) => {
            let mut i: usize = 0;
            while i < ps.len()
                invariant
                    i <= ps.len(),
                    forall|j: int| #![trigger ps@[j]] 0 <= j < i ==> !contains(rel@, ps@[j]@),
                    *paths == Some(*ps),
                decreases ps.len() - i,
            {
                if str_contains(rel, ps[i].as_str()) {
                    assert(contains(rel@, ps@[i as int]@));
                    assert(opt_strings(*paths) == Some(ps@));
                    assert(some_entry_in(rel@, ps@));
                    return true;
                }
                i = i + 1;
            }
            false
        },
    }
}

/// `p` with each backslash turned into a slash.
pub open spec fn forward_slashes(p: Seq<char>) -> Seq<char> {
    p.map_values(|c: char| if c == '\\' { '/' } else { c })
}

pub fn to_forward_slashes(p: &str) -> (r: String)
    ensures
        r@ == forward_slashes(p@),
{
    let c = chars_of(p);
    let mut v: Vec<char> = Vec::new();
    let mut i: usize = 0;
    while i < c.len()
        invariant
            i <= c.len(),
            v@ == forward_slashes(c@.take(i as int)),
        decreases c.len() - i,
    {
        v.push(if c[i] == '\\' { '/' } else { c[i] });
        i = i + 1;
        assert(v@ =~= forward_slashes(c@.take(i as int)));
    }
    assert(c@.take(c.len() as int) =~= c@);
    string_of(&v)
}

pub open spec fn line_prefix(k: DiffLineKind) -> Seq<char> {
    match k {
        DiffLineKind::Add => "+"@,
        DiffLineKind::Del => "-"@,
        DiffLineKind::Ctx => " "@,
    }
}

/// A hunk as text: each line with its "+", "-" or " " before it, run together.
pub open spec fn hunk_text(lines: Seq<DiffLine>) -> Seq<char>
    decreases lines.len(),
{
    if lines.len() == 0 {
        seq![]
    } else {
        hunk_text(lines.drop_last()) + line_prefix(lines.last().kind) + lines.last().content@
    }
}

pub fn render_hunk(lines: &Vec<DiffLine>) -> (r: String)
    ensures
        r@ == hunk_text(lines@),
{
    let mut v: Vec<char> = Vec::new();
    let mut i: usize = 0;
    proof {
        reveal_strlit("+");
        reveal_strlit("-");
        reveal_strlit(" ");
    }
    while i < lines.len()
        invariant
            i <= lines.len(),
            v@ == hunk_text(lines@.take(i as int)),
        decreases lines.len() - i,
    {
        let l = &lines[i];
        assert(lines@.take(i + 1).drop_last() =~= lines@.take(i as int));
        match l.kind {
            DiffLineKind::Add => push_str(&mut v, "+"),
            DiffLineKind::Del => push_str(&mut v, "-"),
            DiffLineKind::Ctx => push_str(&mut v, " "),
        }
        push_str(&mut v, l.content.as_str());
        i = i + 1;
    }
    assert(lines@.take(lines.len() as int) =~= lines@);
    string_of(&v)
}

/// The answer when there is no snapshot to compare with.
pub fn no_checkpoint_result() -> (r: DiffSinceCheckpointResult)
    ensures
        r.status@ == "NO_CHECKPOINT"@,
        r.checkpoint_label is None,
        r.files@.len() == 0,
        r.total_files == 0,
        r.total_added == 0,
        r.total_removed == 0,
{
    proof {
        reveal_strlit("NO_CHECKPOINT");
    }
    DiffSinceCheckpointResult {
        status: owned("NO_CHECKPOINT"),
        checkpoint_label: None,
        files: Vec::new(),
        total_files: 0,
        total_added: 0,
        total_removed: 0,
    }
}

/// The answer when the snapshot's file is left out by the path filter.
pub fn filtered_out_result(label: String) -> (r: DiffSinceCheckpointResult)
    ensures
        r.status@ == "ok"@,
        r.checkpoint_label matches Some(l) && l@ == label@,
        r.files@.len() == 0,
        r.total_files == 0,
        r.total_added == 0,
        r.total_removed == 0,
{
    proof {
        reveal_strlit("ok");
    }
    DiffSinceCheckpointResult {
        status: owned("ok"),
        checkpoint_label: Some(label),
        files: Vec::new(),
        total_files: 0,
        total_added: 0,
        total_removed: 0,
    }
}

/// The answer for a file whose diff against the snapshot is known: the
/// counts (as `u32`), and the file listed only where something changed.
pub fn diff_result(label: String, rel_path: String, diff: &DiffResult) -> (r: DiffSinceCheckpointResult)
    ensures
        ({
            let added = diff.summary.total_added as u32;
            let removed = diff.summary.total_removed as u32;
            &&& r.status@ == "ok"@
            &&& r.checkpoint_label matches Some(l) && l@ == label@
            &&& r.total_added == added
            &&& r.total_removed == removed
            &&& (added > 0 || removed > 0) ==> {
                &&& r.files@.len() == 1
                &&& r.files@[0].path@ == rel_path@
                &&& r.files@[0].added == added
                &&& r.files@[0].removed == removed
                &&& r.files@[0].hunks@.len() == diff.hunks@.len()
                &&& forall|i: int|
                    0 <= i < diff.hunks@.len() ==> #[trigger] r.files@[0].hunks@[i]@ == hunk_text(diff.hunks@[i].lines@)
            }
            &&& !(added > 0 || removed > 0) ==> r.files@.len() == 0
            &&& r.total_files == r.files@.len()
        }),
{
    #[verifier::truncate]
    let a = diff.summary.total_added as u32;
    #[verifier::truncate]
    let d = diff.summary.total_removed as u32;
    let mut texts: Vec<String> = Vec::new();
    let mut i: usize = 0;
    while i < diff.hunks.len()
        invariant
            i <= diff.hunks.len(),
            texts@.len() == i,
            forall|j: int| 0 <= j < i ==> #[trigger] texts@[j]@ == hunk_text(diff.hunks@[j].lines@),
        decreases diff.hunks.len() - i,
    {
        texts.push(render_hunk(&diff.hunks[i].lines));
        i = i + 1;
    }
    let mut files: Vec<FileDiff> = Vec::new();
    if a > 0 || d > 0 {
        files.push(FileDiff { path: rel_path, added: a, removed: d, hunks: texts });
    }
    let total_files = files.len();
    proof {
        reveal_strlit("ok");
    }
    DiffSinceCheckpointResult {
        status: owned("ok"),
        checkpoint_label: Some(label),
        files,
        total_files,
        total_added: a,
        total_removed: d,
    }
}

// ─── Rewind ─────────────────────────────────────────────────────────────────

/// The line listing one restored file.
pub open spec fn rewound_line(p: Seq<char>) -> Seq<char> {
    "  - "@ + p
}

/// The answer of `rewind` for the files it restored, newest first.
pub open spec fn rewind_text(paths: Seq<Seq<char>>) -> Seq<char> {
    if paths.len() == 0 {
        "No checkpoints to rewind."@
    } else {
        "Rewound "@ + dec(paths.len()) + " file(s):\n"@ + join(paths.map_values(|p: Seq<char>| rewound_line(p)), "\n"@)
    }
}

/// The answer of `rewind`: how many files were restored, and which.
pub fn rewind_message(paths: &Vec<String>) -> (r: String)
    ensures
        r@ == rewind_text(strs(paths@)),
{
    if paths.len() == 0 {
        return owned("No checkpoints to rewind.");
    }
    let mut lines: Vec<String> = Vec::new();
    let mut i: usize = 0;
    while i < paths.len()
        invariant
            i <= paths.len(),
            strs(lines@) == strs(paths@).take(i as int).map_values(|p: Seq<char>| rewound_line(p)),
        decreases paths.len() - i,
    {
        let mut l = chars_of("  - ");
        push_str(&mut l, paths[i].as_str());
        let line = string_of(&l);
        let ghost before = strs(lines@);
        lines.push(line);
        proof {
            assert(strs(paths@).take(i as int + 1) =~= strs(paths@).take(i as int).push(paths@[i as int]@));
            assert(strs(lines@) =~= before.push(rewound_line(paths@[i as int]@)));
            assert(strs(lines@) =~= strs(paths@).take(i as int + 1).map_values(|p: Seq<char>| rewound_line(p)));
        }
        i = i + 1;
    }
    assert(strs(paths@).take(paths.len() as int) =~= strs(paths@));
    let mut h = chars_of("Rewound ");
    let d = dec_string(paths.len());
    push_str(&mut h, d.as_str());
    push_str(&mut h, " file(s):\n");
    let body = join_strings(&lines, "\n");
    push_str(&mut h, body.as_str());
    string_of(&h)
}

} // verus!
