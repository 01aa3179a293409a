//! Cross-file batch editing: every edit of every file is validated in memory
//! before anything is written, so one failing edit leaves all files unchanged.
use vstd::prelude::*;
use crate::edit::{MatchFallback, apply_edit_in_memory, edit_matches, edited, is_multiple_error, is_not_found_error, match_reportable, match_safe, multiple_hint, replaced_text};
use crate::error::{EditPreview, ToolError};
use crate::locate::nl_count;
use crate::search::count_occ;
use crate::text::{chars_of, dec, dec_string, i64_string, idec, owned, push_str, str_eq, string_of, strs};

verus! {

/// Most files one call may edit.
pub const MAX_FILES: usize = 20;

// ─── Parameters and results ─────────────────────────────────────────────────

/// The edits of one file.
pub struct FileEditSet {
    pub file_path: String,
    pub edits: Vec<FileEditItem>,
}

/// One edit; an empty `old_string` replaces the whole content.
pub struct FileEditItem {
    pub old_string: String,
    pub new_string: String,
    pub replace_all: Option<bool>,
}

/// Parameters of the `multi_file_edit` tool.
pub struct MultiFileEditParams {
    pub edits: Vec<FileEditSet>,
    pub verify_syntax: Option<bool>,
}

/// Result of the `multi_file_edit` tool.
pub struct MultiFileEditResult {
    pub status: String,
    pub files_modified: usize,
    pub results: Vec<FileEditOutcome>,
    pub checkpoint_id: String,
}

/// What happened to one file.
pub struct FileEditOutcome {
    pub file_path: String,
    pub edits_applied: usize,
    pub syntax_valid: Option<bool>,
    pub lines_changed: i64,
}

// ─── Specification ──────────────────────────────────────────────────────────

/// `replace_all.unwrap_or(false)`.
pub open spec fn item_replace_all(e: FileEditItem) -> bool {
    e.replace_all == Some(true)
}

/// The content after applying `items` in order, item `k` with the retries
/// `fbs[k]`, or `None` when one of them does not match the content it sees.
pub open spec fn file_applied(content: Seq<char>, items: Seq<FileEditItem>, fbs: Seq<MatchFallback>) -> Option<
    Seq<char>,
>
    decreases items.len(),
{
    if items.len() == 0 {
        Some(content)
    } else {
        match file_applied(content, items.drop_last(), fbs) {
            Some(w) => {
                let e = items.last();
                let fb = fbs[items.len() - 1];
                if e.old_string@.len() == 0 {
                    Some(e.new_string@)
                } else if edit_matches(w, e.old_string@, item_replace_all(e), fb) {
                    Some(
                        edited(
                            w,
                            replaced_text(w, e.old_string@, item_replace_all(e), fb),
                            e.new_string@,
                            item_replace_all(e),
                        ),
                    )
                } else {
                    None
                }
            },
            None => None,
        }
    }
}

/// Every edit that is reached can report its failure without overflow.
pub open spec fn file_safe(content: Seq<char>, items: Seq<FileEditItem>, fbs: Seq<MatchFallback>) -> bool {
    forall|k: int|
        0 <= k < items.len() ==> ((#[trigger] file_applied(content, items.take(k), fbs)) matches Some(w)
            ==> (items[k].old_string@.len() > 0 ==> match_safe(
            w,
            items[k].old_string@,
            item_replace_all(items[k]),
        )))
}

/// The error of a single edit that does not match.
pub open spec fn is_match_error(e: ToolError, old: Seq<char>, content: Seq<char>, hints: Seq<Seq<char>>) -> bool {
    let c = count_occ(content, old);
    if c == 0 {
        is_not_found_error(e, old, content, hints)
    } else {
        is_multiple_error(e, old, content, c, multiple_hint(c))
    }
}

/// Hint of a failed validation.
pub open spec fn validation_hint(path: Seq<char>, idx: nat) -> Seq<char> {
    "Validation failed for "@ + path + " edit #"@ + dec(idx) + ": No files were modified."@
}

/// Change in the number of newlines.
pub open spec fn lines_delta(before: Seq<char>, after: Seq<char>) -> int {
    nl_count(after, after.len() as int) - nl_count(before, before.len() as int)
}

// ─── Validation ─────────────────────────────────────────────────────────────

/// Checks the number of file sets: at least one and at most `MAX_FILES`.
pub fn check_edit_sets(params: &MultiFileEditParams) -> (r: Result<(), ToolError>)
    ensures
        r is Ok <==> 1 <= params.edits.len() <= MAX_FILES,
        params.edits.len() == 0 ==> (r matches Err(ToolError::MissingParameter { missing, hint })
            && missing@ == "edits"@ && hint@ == "Provide at least one FileEditSet."@),
        params.edits.len() > MAX_FILES ==> (r matches Err(ToolError::MissingParameter { missing, hint })
            && missing@ == "edits"@ && hint@ == "Maximum 20 files per call, got "@ + dec(
            params.edits.len() as nat,
        ) + "."@),
{
    let n = params.edits.len();
    if n == 0 {
        return Err(ToolError::MissingParameter {
            missing: owned("edits"),
            hint: owned("Provide at least one FileEditSet."),
        });
    }
    if n > MAX_FILES {
        let mut h = chars_of("Maximum 20 files per call, got ");
        let d = dec_string(n);
        push_str(&mut h, d.as_str());
        push_str(&mut h, ".");
        return Err(ToolError::MissingParameter { missing: owned("edits"), hint: string_of(&h) });
    }
    Ok(())
}

/// Applies the edits of one file in order, in memory: the new content, or
/// the failure of the first edit that does not match, wrapped with its index.
pub fn apply_file_edits(file_path: &str, content: &str, edits: &Vec<FileEditItem>, fallbacks: &Vec<MatchFallback>) -> (r: Result<
    String,
    ToolError,
>)
    requires
        fallbacks.len() == edits.len(),
        file_safe(content@, edits@, fallbacks@),
    ensures
        r is Ok <==> file_applied(content@, edits@, fallbacks@) is Some,
        r matches Ok(w) ==> file_applied(content@, edits@, fallbacks@) == Some(w@),
        r matches Err(e) ==> exists|k: int|
            {
                &&& 0 <= k < edits.len()
                &&& (#[trigger] file_applied(content@, edits@.take(k), fallbacks@)) matches Some(w)
                &&& edits@[k].old_string@.len() > 0
                &&& !edit_matches(w, edits@[k].old_string@, item_replace_all(edits@[k]), fallbacks@[k])
                &&& e matches ToolError::EditFailed {
                    edit_index,
                    edit_preview,
                    cause,
                    file_state,
                    hint,
                }
                &&& edit_index == k
                &&& edit_preview.old_string@ == edits@[k].old_string@
                &&& edit_preview.new_string@ == edits@[k].new_string@
                &&& file_state@ == "unchanged (validation phase)"@
                &&& hint@ == validation_hint(file_path@, k as nat)
                &&& is_match_error(*cause, edits@[k].old_string@, w, strs(fallbacks@[k].unicode_hints@))
            },
{
    let mut current = owned(content);
    let mut idx: usize = 0;
    assert(edits@.take(0) =~= Seq::<FileEditItem>::empty());
    while idx < edits.len()
        invariant
            idx <= edits.len(),
            fallbacks.len() == edits.len(),
            file_safe(content@, edits@, fallbacks@),
            file_applied(content@, edits@.take(idx as int), fallbacks@) == Some(current@),
        decreases edits.len() - idx,
    {
        let item = &edits[idx];
        assert(edits@.take(idx + 1).drop_last() =~= edits@.take(idx as int));
        assert(edits@.take(idx + 1).last() == edits@[idx as int]);
        let replace_all = match item.replace_all {
            Some(b) => b,
            None => false,
        };
        if item.old_string.as_str().is_empty() {
            current = owned(item.new_string.as_str());
        } else {
            match apply_edit_in_memory(
                item.old_string.as_str(),
                item.new_string.as_str(),
                replace_all,
                current.as_str(),
                &fallbacks[idx],
            ) {
                Ok(a) => {
                    current = a.new_content;
                },
                Err(cause) => {
                    let mut h = chars_of("Validation failed for ");
                    push_str(&mut h, file_path);
                    push_str(&mut h, " edit #");
                    let d = dec_string(idx);
                    push_str(&mut h, d.as_str());
                    push_str(&mut h, ": No files were modified.");
                    let e = ToolError::EditFailed {
                        edit_index: idx,
                        edit_preview: EditPreview {
                            old_string: item.old_string.clone(),
                            new_string: item.new_string.clone(),
                        },
                        cause: Box::new(cause),
                        file_state: owned("unchanged (validation phase)"),
                        hint: string_of(&h),
                    };
                    proof {
                        lemma_file_applied_none(content@, edits@, fallbacks@, idx as int + 1);
                    }
                    return Err(e);
                },
            }
        }
        idx = idx + 1;
    }
    assert(edits@.take(edits.len() as int) =~= edits@);
    Ok(current)
}

/// Whether every edit of one file that is reached can report its failure
/// (see `file_safe`): the condition under which its edits are applied.
pub fn file_edits_reportable(content: &str, edits: &Vec<FileEditItem>, fallbacks: &Vec<MatchFallback>) -> (r: bool)
    requires
        fallbacks.len() == edits.len(),
    ensures
        r == file_safe(content@, edits@, fallbacks@),
{
    let mut current = owned(content);
    let mut idx: usize = 0;
    assert(edits@.take(0) =~= Seq::<FileEditItem>::empty());
    while idx < edits.len()
        invariant
            idx <= edits.len(),
            fallbacks.len() == edits.len(),
            file_applied(content@, edits@.take(idx as int), fallbacks@) == Some(current@),
            forall|k: int|
                0 <= k < idx ==> ((#[trigger] file_applied(content@, edits@.take(k), fallbacks@)) matches Some(w) ==> (
                edits@[k].old_string@.len() > 0 ==> match_safe(
                    w,
                    edits@[k].old_string@,
                    item_replace_all(edits@[k]),
                ))),
        decreases edits.len() - idx,
    {
        let item = &edits[idx];
        assert(edits@.take(idx + 1).drop_last() =~= edits@.take(idx as int));
        assert(edits@.take(idx + 1).last() == edits@[idx as int]);
        let replace_all = match item.replace_all {
            Some(b) => b,
            None => false,
        };
        if item.old_string.as_str().is_empty() {
            current = owned(item.new_string.as_str());
        } else {
            if !match_reportable(current.as_str(), item.old_string.as_str(), replace_all) {
                return false;
            }
            match apply_edit_in_memory(
                item.old_string.as_str(),
                item.new_string.as_str(),
                replace_all,
                current.as_str(),
                &fallbacks[idx],
            ) {
                Err(_) => {
                    proof {
                        let i = idx as int;
                        assert forall|k: int| i < k <= edits.len() implies #[trigger] file_applied(
                            content@,
                            edits@.take(k),
                            fallbacks@,
                        ) is None by {
                            assert(edits@.take(k).take(i + 1) =~= edits@.take(i + 1));
                            lemma_file_applied_none(content@, edits@.take(k), fallbacks@, i + 1);
                        }
                    }
                    return true;
                },
                Ok(a) => {
                    current = a.new_content;
                },
            }
        }
        idx = idx + 1;
    }
    true
}

/// Once an edit fails, the edits of the whole file fail.
proof fn lemma_file_applied_none(content: Seq<char>, items: Seq<FileEditItem>, fbs: Seq<MatchFallback>, k: int)
    requires
        0 <= k <= items.len(),
        file_applied(content, items.take(k), fbs) is None,
    ensures
        file_applied(content, items, fbs) is None,
    decreases items.len() - k,
{
    if k < items.len() {
        assert(items.take(k + 1).drop_last() =~= items.take(k));
        lemma_file_applied_none(content, items, fbs, k + 1);
    } else {
        assert(items.take(k) =~= items);
    }
}

// ─── The plan of a call ─────────────────────────────────────────────────────

/// The edits of the `j`-th file set.
pub open spec fn items_of(params: MultiFileEditParams, j: int) -> Seq<FileEditItem> {
    params.edits@[j].edits@
}

/// The `j`-th file was read and all its edits apply.
pub open spec fn file_passes(params: MultiFileEditParams, reads: Seq<Result<String, ToolError>>, fbs: Seq<Vec<MatchFallback>>, j: int) -> bool {
    reads[j] matches Ok(c) && file_applied(c@, items_of(params, j), fbs[j]@) is Some
}

/// The files before the `k`-th were read and all their edits apply.
pub open spec fn passes_upto(params: MultiFileEditParams, reads: Seq<Result<String, ToolError>>, fbs: Seq<Vec<MatchFallback>>, k: int) -> bool {
    forall|j: int| 0 <= j < k ==> #[trigger] file_passes(params, reads, fbs, j)
}

/// Validation reaches the `k`-th file and one of its edits could not report
/// its failure.
pub open spec fn unsafe_at(params: MultiFileEditParams, reads: Seq<Result<String, ToolError>>, fbs: Seq<Vec<MatchFallback>>, k: int) -> bool {
    passes_upto(params, reads, fbs, k) && (reads[k] matches Ok(c) && !file_safe(c@, items_of(params, k), fbs[k]@))
}

/// `e` is how the edits `items` of `file_path` fail on `content`.
pub open spec fn is_file_edit_failure(
    file_path: Seq<char>,
    content: Seq<char>,
    items: Seq<FileEditItem>,
    fbs: Seq<MatchFallback>,
    e: ToolError,
) -> bool {
    exists|k: int|
        {
            &&& 0 <= k < items.len()
            &&& (#[trigger] file_applied(content, items.take(k), fbs)) matches Some(w)
            &&& items[k].old_string@.len() > 0
            &&& !edit_matches(w, items[k].old_string@, item_replace_all(items[k]), fbs[k])
            &&& e matches ToolError::EditFailed { edit_index, edit_preview, cause, file_state, hint }
            &&& edit_index == k
            &&& edit_preview.old_string@ == items[k].old_string@
            &&& edit_preview.new_string@ == items[k].new_string@
            &&& file_state@ == "unchanged (validation phase)"@
            &&& hint@ == validation_hint(file_path, k as nat)
            &&& is_match_error(*cause, items[k].old_string@, w, strs(fbs[k].unicode_hints@))
        }
}

/// The `k`-th file is where validation stops with `e`: it could not be
/// read, or one of its edits does not apply.
pub open spec fn failed_at(
    params: MultiFileEditParams,
    reads: Seq<Result<String, ToolError>>,
    fbs: Seq<Vec<MatchFallback>>,
    k: int,
    e: ToolError,
) -> bool {
    match reads[k] {
        Err(e2) => e == e2,
        Ok(c) => {
            &&& file_safe(c@, items_of(params, k), fbs[k]@)
            &&& file_applied(c@, items_of(params, k), fbs[k]@) is None
            &&& is_file_edit_failure(params.edits@[k].file_path@, c@, items_of(params, k), fbs[k]@, e)
        },
    }
}

/// Validates every file of a call before anything is written: `reads`
/// holds, in the order of the file sets, each file's content or why it
/// could not be had. The new content of every file when all of them pass;
/// else the failure of the first file that does not; `None` where an edit
/// that is reached could not report its failure.
pub fn plan_multi_file_edit(
    params: &MultiFileEditParams,
    reads: Vec<Result<String, ToolError>>,
    fallbacks: &Vec<Vec<MatchFallback>>,
) -> (r: Option<Result<Vec<String>, ToolError>>)
    requires
        reads.len() == params.edits.len(),
        fallbacks.len() == params.edits.len(),
        forall|j: int| 0 <= j < fallbacks.len() ==> (#[trigger] fallbacks@[j]).len() == params.edits@[j].edits.len(),
    ensures
        r is None <==> exists|k: int| 0 <= k < reads.len() && #[trigger] unsafe_at(*params, reads@, fallbacks@, k),
        (r matches Some(Ok(_))) <==> (passes_upto(*params, reads@, fallbacks@, reads.len() as int) && !exists|k: int|
            0 <= k < reads.len() && #[trigger] unsafe_at(*params, reads@, fallbacks@, k)),
        r matches Some(Ok(ws)) ==> ws.len() == reads.len() && forall|j: int|
            0 <= j < ws.len() ==> ((#[trigger] reads@[j]) matches Ok(c) && file_applied(
                c@,
                items_of(*params, j),
                fallbacks@[j]@,
            ) == Some(ws@[j]@)),
        r matches Some(Err(e)) ==> exists|k: int|
            0 <= k < reads.len() && passes_upto(*params, reads@, fallbacks@, k) && #[trigger] failed_at(
                *params,
                reads@,
                fallbacks@,
                k,
                e,
            ),
{
    let ghost all = reads@;
    let mut rest = reads;
    let mut planned: Vec<String> = Vec::new();
    let mut i: usize = 0;
    let n = params.edits.len();
    while i < n
        invariant
            n == params.edits.len() == all.len(),
            all == reads@,
            i <= n,
            rest@ == all.skip(i as int),
            planned.len() == i,
            fallbacks.len() == n,
            forall|j: int| 0 <= j < fallbacks.len() ==> (#[trigger] fallbacks@[j]).len() == params.edits@[j].edits.len(),
            passes_upto(*params, all, fallbacks@, i as int),
            forall|j: int| 0 <= j < i ==> !(#[trigger] unsafe_at(*params, all, fallbacks@, j)),
            forall|j: int|
                0 <= j < i ==> ((#[trigger] all[j]) matches Ok(c) && file_applied(c@, items_of(*params, j), fallbacks@[j]@)
                    == Some(planned@[j]@)),
        decreases n - i,
    {
        assert(rest@[0] == all[i as int]);
        let read = rest.remove(0);
        assert(rest@ =~= all.skip(i as int + 1));
        let set = &params.edits[i];
        match read {
            Err(e) => {
                assert(failed_at(*params, all, fallbacks@, i as int, e));
                proof {
                    assert(!file_passes(*params, all, fallbacks@, i as int));
                    assert forall|k: int| 0 <= k < n implies !#[trigger] unsafe_at(*params, all, fallbacks@, k) by {
                        if k > i {
                            assert(!file_passes(*params, all, fallbacks@, i as int));
                            assert(!passes_upto(*params, all, fallbacks@, k));
                        }
                    }
                    assert(!passes_upto(*params, all, fallbacks@, n as int));
                }
                return Some(Err(e));
            },
            Ok(content) => {
                if !file_edits_reportable(content.as_str(), &set.edits, &fallbacks[i]) {
                    assert(unsafe_at(*params, all, fallbacks@, i as int));
                    return None;
                }
                match apply_file_edits(set.file_path.as_str(), content.as_str(), &set.edits, &fallbacks[i]) {
                    Err(e) => {
                        assert(failed_at(*params, all, fallbacks@, i as int, e));
                        proof {
                            assert(!file_passes(*params, all, fallbacks@, i as int));
                            assert forall|k: int| 0 <= k < n implies !#[trigger] unsafe_at(*params, all, fallbacks@, k) by {
                                if k > i {
                                    assert(!file_passes(*params, all, fallbacks@, i as int));
                                    assert(!passes_upto(*params, all, fallbacks@, k));
                                }
                            }
                            assert(!passes_upto(*params, all, fallbacks@, n as int));
                        }
                        return Some(Err(e));
                    },
                    Ok(w) => {
                        planned.push(w);
                        assert(file_passes(*params, all, fallbacks@, i as int));
                        assert(!unsafe_at(*params, all, fallbacks@, i as int));
                    },
                }
            },
        }
        i = i + 1;
    }
    Some(Ok(planned))
}

/// The checkpoint id of a call made at `ms` milliseconds since the epoch.
pub fn multi_file_edit_checkpoint_id(ms: i64) -> (r: String)
    ensures
        r@ == "multi_file_edit_"@ + idec(ms as int),
{
    let mut v = chars_of("multi_file_edit_");
    let d = i64_string(ms);
    push_str(&mut v, d.as_str());
    string_of(&v)
}

// ─── Outcomes ───────────────────────────────────────────────────────────────

/// Number of `\n` in `s`.
pub fn count_newlines(s: &str) -> (n: usize)
    ensures
        n == nl_count(s@, s@.len() as int),
{
    let c = chars_of(s);
    let mut n: usize = 0;
    let mut i: usize = 0;
    while i < c.len()
        invariant
            i <= c.len(),
            c@ == s@,
            n == nl_count(s@, i as int),
            n <= i,
        decreases c.len() - i,
    {
        if c[i] == '\n' {
            n = n + 1;
        }
        i = i + 1;
    }
    n
}

/// Newlines added (or removed, negative) by rewriting `before` as `after`.
pub fn lines_changed(before: &str, after: &str) -> (d: i64)
    requires
        before@.len() <= i64::MAX,
        after@.len() <= i64::MAX,
    ensures
        d == lines_delta(before@, after@),
{
    let a = count_newlines(after);
    let b = count_newlines(before);
    proof {
        lemma_nl_count_le(after@, after@.len() as int);
        lemma_nl_count_le(before@, before@.len() as int);
    }
    (a as i64) - (b as i64)
}

proof fn lemma_nl_count_le(h: Seq<char>, k: int)
    requires
        0 <= k <= h.len(),
    ensures
        nl_count(h, k) <= k,
    decreases k,
{
    if k > 0 {
        lemma_nl_count_le(h, k - 1);
    }
}

/// Number of edits of the first set for `path`, 0 when there is none.
pub fn edits_applied_for(params: &MultiFileEditParams, path: &str) -> (n: usize)
    ensures
        (exists|i: int| 0 <= i < params.edits.len() && #[trigger] params.edits@[i].file_path@ == path@)
            ==> exists|i: int|
            {
                &&& 0 <= i < params.edits.len()
                &&& #[trigger] params.edits@[i].file_path@ == path@
                &&& forall|j: int| 0 <= j < i ==> params.edits@[j].file_path@ != path@
                &&& n == params.edits@[i].edits.len()
            },
        (forall|i: int| 0 <= i < params.edits.len() ==> #[trigger] params.edits@[i].file_path@
            != path@) ==> n == 0,
{
    let mut i: usize = 0;
    while i < params.edits.len()
        invariant
            i <= params.edits.len(),
            forall|j: int| 0 <= j < i ==> params.edits@[j].file_path@ != path@,
        decreases params.edits.len() - i,
    {
        if str_eq(params.edits[i].file_path.as_str(), path) {
            return params.edits[i].edits.len();
        }
        i = i + 1;
    }
    0
}

/// The outcome of writing `after` over `before` at `file_path`.
pub fn file_edit_outcome(
    params: &MultiFileEditParams,
    file_path: &str,
    before: &str,
    after: &str,
    syntax_valid: Option<bool>,
) -> (o: FileEditOutcome)
    requires
        before@.len() <= i64::MAX,
        after@.len() <= i64::MAX,
    ensures
        o.file_path@ == file_path@,
        o.syntax_valid == syntax_valid,
        o.lines_changed == lines_delta(before@, after@),
        (forall|i: int| 0 <= i < params.edits.len() ==> #[trigger] params.edits@[i].file_path@
            != file_path@) ==> o.edits_applied == 0,
        (exists|i: int| 0 <= i < params.edits.len() && #[trigger] params.edits@[i].file_path@
            == file_path@) ==> exists|i: int|
            {
                &&& 0 <= i < params.edits.len()
                &&& #[trigger] params.edits@[i].file_path@ == file_path@
                &&& forall|j: int| 0 <= j < i ==> params.edits@[j].file_path@ != file_path@
                &&& o.edits_applied == params.edits@[i].edits.len()
            },
{
    FileEditOutcome {
        file_path: owned(file_path),
        edits_applied: edits_applied_for(params, file_path),
        syntax_valid,
        lines_changed: lines_changed(before, after),
    }
}

/// The result of a call whose files were all written.
pub fn multi_file_edit_result(results: Vec<FileEditOutcome>, checkpoint_id: String) -> (r:
    MultiFileEditResult)
    ensures
        r.status@ == "ok"@,
        r.files_modified == results.len(),
        r.results@ == results@,
        r.checkpoint_id == checkpoint_id,
{
    let n = results.len();
    MultiFileEditResult { status: owned("ok"), files_modified: n, results, checkpoint_id }
}

} // verus!
