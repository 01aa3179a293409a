//! File outlines, edit previews and renames: what is decided once the file
//! has been read or looked up.
use vstd::prelude::*;
use crate::edit::{EditApplyResult, MatchFallback, apply_edit_in_memory, edit_matches, is_multiple_error, is_not_found_error, match_kind_of, match_safe, edited, multiple_hint, normalized_ok, replaced_text};
use crate::git::DiffResult;
use crate::error::ToolError;
use crate::search::count_occ;
use crate::symbols::OverviewSymbol;
use crate::text::{chars_of, idec, i64_string, lines_of, lines_str, owned, push_str, string_of, strs};

verus! {

/// Parameters of `file_outline`.
pub struct FileOutlineParams {
    pub path: String,
    /// 0 = top level, 1 = with methods (default), 2 = everything.
    pub depth: Option<u8>,
}

/// Result of `file_outline`.
pub struct FileOutlineResult {
    pub kind: String,
    pub path: String,
    pub language: String,
    pub total_lines: usize,
    pub token_estimate: usize,
    pub symbols: Vec<OverviewSymbol>,
}

/// The depth an outline is taken to: the one asked (default 1), at most 2.
pub fn outline_depth(depth: Option<u8>) -> (d: u8)
    ensures
        d == (match depth {
            Some(v) => if v < 2 { v } else { 2u8 },
            None => 1u8,
        }),
{
    match depth {
        Some(v) => if v < 2 { v } else { 2 },
        None => 1,
    }
}

/// `file_outline` once the file was read (`None` where it does not exist):
/// its line count and the symbols found to the depth asked.
pub fn run_file_outline(
    params: FileOutlineParams,
    content: Option<&str>,
    language: String,
    symbols: Vec<OverviewSymbol>,
    token_estimate: usize,
) -> (r: Result<FileOutlineResult, ToolError>)
    ensures
        content is None <==> r is Err,
        r matches Err(e) ==> (e matches ToolError::FileNotFound { file_path, hint } && file_path@ == params.path@),
        r matches Ok(o) ==> ({
            &&& o.kind@ == "success"@
            &&& o.path@ == params.path@
            &&& o.language@ == language@
            &&& content matches Some(c) && o.total_lines == lines_of(c@).len()
            &&& o.token_estimate == token_estimate
            &&& o.symbols@ == symbols@
        }),
{
    let c = match content {
        Some(c) => c,
        None => {
            return Err(
                ToolError::FileNotFound { file_path: params.path.clone(), hint: owned("File does not exist.") },
            );
        },
    };
    let total_lines = lines_str(c).len();
    proof {
        reveal_strlit("success");
    }
    Ok(
        FileOutlineResult {
            kind: owned("success"),
            path: params.path,
            language,
            total_lines,
            token_estimate,
            symbols,
        },
    )
}

/// Parameters of `preview_edit`.
pub struct PreviewEditParams {
    pub file_path: String,
    pub old_string: String,
    pub new_string: String,
    pub replace_all: Option<bool>,
}

/// Result of `preview_edit`.
pub struct PreviewEditResult {
    pub kind: String,
    pub would_apply: bool,
    pub replacements: usize,
    pub match_kind: String,
    pub syntax_valid_after: bool,
    /// The diff from the file's content to the edited text.
    pub diff: DiffResult,
}

/// The edit a preview shows, applied in memory to the file's content
/// (`None` where the file does not exist) with the retries `fallback`;
/// nothing is written.
pub fn run_preview_edit(params: &PreviewEditParams, content: Option<&str>, fallback: &MatchFallback) -> (r: Result<
    EditApplyResult,
    ToolError,
>)
    requires
        content matches Some(c) ==> match_safe(c@, params.old_string@, params.replace_all == Some(true)),
    ensures
        content is None ==> (r matches Err(e) && (e matches ToolError::FileNotFound { file_path, hint }
            && file_path@ == params.file_path@)),
        content matches Some(c) ==> ({
            let ra = params.replace_all == Some(true);
            let n = count_occ(c@, params.old_string@);
            let m = replaced_text(c@, params.old_string@, ra, *fallback);
            &&& r is Ok <==> edit_matches(c@, params.old_string@, ra, *fallback)
            &&& r matches Ok(a) ==> a.new_content@ == edited(c@, m, params.new_string@, ra)
                && a.replacements == (if ra { count_occ(c@, m) } else { 1 }) && a.match_kind@ == match_kind_of(
                c@,
                params.old_string@,
            )
            &&& (n >= 2 && !ra) ==> (r matches Err(e) && is_multiple_error(
                e,
                params.old_string@,
                c@,
                n,
                multiple_hint(n),
            ))
            &&& (n == 0 && !normalized_ok(c@, *fallback, ra)) ==> (r matches Err(e) && is_not_found_error(
                e,
                params.old_string@,
                c@,
                strs(fallback.unicode_hints@),
            ))
        }),
{
    let c = match content {
        Some(c) => c,
        None => {
            return Err(
                ToolError::FileNotFound { file_path: params.file_path.clone(), hint: owned("File does not exist.") },
            );
        },
    };
    let ra = match params.replace_all {
        Some(b) => b,
        None => false,
    };
    apply_edit_in_memory(params.old_string.as_str(), params.new_string.as_str(), ra, c, fallback)
}

/// The preview once the edited text was diffed against the file's content
/// and checked for syntax.
pub fn preview_edit_result(applied: &EditApplyResult, diff: DiffResult, syntax_valid: bool) -> (r: PreviewEditResult)
    ensures
        r.kind@ == "success"@,
        r.would_apply == (applied.replacements > 0),
        r.replacements == applied.replacements,
        r.match_kind@ == applied.match_kind@,
        r.syntax_valid_after == syntax_valid,
        r.diff == diff,
{
    proof {
        reveal_strlit("success");
    }
    PreviewEditResult {
        kind: owned("success"),
        would_apply: applied.replacements > 0,
        replacements: applied.replacements,
        match_kind: applied.match_kind.clone(),
        syntax_valid_after: syntax_valid,
        diff,
    }
}

/// Parameters of `file_rename`.
pub struct FileRenameParams {
    pub old_path: String,
    pub new_path: String,
}

/// Result of `file_rename`.
pub struct FileRenameResult {
    pub kind: String,
    pub old_path: String,
    pub new_path: String,
    /// The time of the checkpoint, in milliseconds.
    pub checkpoint_id: String,
}

/// A rename needs an existing source and a free destination.
pub fn check_rename(params: &FileRenameParams, source_exists: bool, destination_exists: bool) -> (r: Result<
    (),
    ToolError,
>)
    ensures
        r is Ok <==> source_exists && !destination_exists,
        !source_exists ==> (r matches Err(e) && (e matches ToolError::FileNotFound { file_path, hint } && file_path@
            == params.old_path@)),
        source_exists && destination_exists ==> (r matches Err(e) && (e matches ToolError::IoError { message }
            && message@ == "Destination already exists: "@ + params.new_path@)),
{
    if !source_exists {
        return Err(
            ToolError::FileNotFound { file_path: params.old_path.clone(), hint: owned("Source file does not exist.") },
        );
    }
    if destination_exists {
        let mut m = chars_of("Destination already exists: ");
        push_str(&mut m, params.new_path.as_str());
        return Err(ToolError::IoError { message: string_of(&m) });
    }
    Ok(())
}

/// The answer once the file was renamed after a checkpoint taken at
/// `captured_at_ms`.
pub fn file_rename_result(params: FileRenameParams, captured_at_ms: i64) -> (r: FileRenameResult)
    ensures
        r.kind@ == "success"@,
        r.old_path@ == params.old_path@,
        r.new_path@ == params.new_path@,
        r.checkpoint_id@ == idec(captured_at_ms as int),
{
    proof {
        reveal_strlit("success");
    }
    FileRenameResult {
        kind: owned("success"),
        old_path: params.old_path,
        new_path: params.new_path,
        checkpoint_id: i64_string(captured_at_ms),
    }
}

} // verus!
