//! String-replacement edits: matching an `old_string` in file content and
//! applying one edit or an ordered batch of edits in memory.
use vstd::prelude::*;
use crate::backup::{BackupRecord, BackupTrigger};
use crate::error::{EditPreview, ToolError};
use crate::locate::{find_match_locations, find_similar_lines, first_locations, loc_views, locations_reportable, locations_safe, similar_lines, take_upto};
use crate::search::{count_occ, count_occurrences, replace_all_str, replace_spec, replacen_str};
use crate::text::{chars_of, dec, dec_string, join, join_strings, lines_of, lower_text, owned, push_str, str_eq, string_of, strings_clone, strs, take_chars, to_lowercase};

verus! {

// ─── Parameters and results ─────────────────────────────────────────────────

/// Parameters of the `edit` tool.
pub struct EditParams {
    pub file_path: String,
    pub old_string: String,
    pub new_string: String,
    /// Replace every occurrence.
    pub replace_all: bool,
    /// Skip the check that the file is unchanged since it was read.
    pub force: bool,
}

/// Result of the `edit` tool.
pub struct EditResult {
    pub kind: String,
    pub file_path: String,
    pub replacements: usize,
    pub match_kind: String,
    pub backup_path: Option<String>,
    pub backup_note: Option<String>,
}

/// Parameters of the `multi_edit` tool.
pub struct MultiEditParams {
    pub file_path: String,
    pub edits: Vec<SingleEdit>,
}

/// One edit of a `multi_edit` batch.
pub struct SingleEdit {
    pub old_string: String,
    pub new_string: String,
    pub replace_all: bool,
    pub expected_replacements: Option<usize>,
}

/// Result of the `multi_edit` tool.
pub struct MultiEditResult {
    pub kind: String,
    pub file_path: String,
    pub edits_applied: usize,
    pub backup_path: Option<String>,
}

/// What the retries found for an `old_string` that occurs nowhere in the
/// content: the `old_string` with tabs and spaces normalized the way the
/// content indents, when there is such a text, and hints about look-alike
/// Unicode characters.
pub struct MatchFallback {
    pub normalized: Option<String>,
    pub unicode_hints: Vec<String>,
}

/// An edit applied to content in memory.
pub struct EditApplyResult {
    pub new_content: String,
    pub replacements: usize,
    pub match_kind: String,
}

// ─── Specification ──────────────────────────────────────────────────────────

/// The line searched for similar lines: the first line of `old`, or `old`.
pub open spec fn first_line_of(old: Seq<char>) -> Seq<char> {
    if lines_of(old).len() > 0 {
        lines_of(old)[0]
    } else {
        old
    }
}

/// Hint of a not-found match, listing the nearest lines when there are any.
pub open spec fn not_found_hint(similar: Seq<Seq<char>>) -> Seq<char> {
    "Read the file again and copy old_string verbatim from the output. Pay attention to tab characters (shown as \\t in Read output)."@
        + if similar.len() == 0 {
        seq![]
    } else {
        "\nNearest lines in file:\n  "@ + join(similar, "\n  "@)
    }
}

/// Hint of an ambiguous match.
pub open spec fn multiple_hint(count: nat) -> Seq<char> {
    "Add surrounding context to old_string to uniquify, or set replace_all=true to replace all "@
        + dec(count) + "."@
}

/// Hint of a match count that differs from the expected one.
pub open spec fn expected_hint(expected: nat, count: nat) -> Seq<char> {
    "expected_replacements="@ + dec(expected) + " but found "@ + dec(count) + " matches."@
}

/// `e` is the error of a match that found nothing, suggesting `hints`.
pub open spec fn is_not_found_error(e: ToolError, old: Seq<char>, content: Seq<char>, hints: Seq<Seq<char>>) -> bool {
    e matches ToolError::StringNotFound { file_path, old_string_preview, suggestions, hint }
        && file_path@ == "[file]"@ && old_string_preview@ == take_upto(old, 80)
        && strs(suggestions@) == hints && hint@ == not_found_hint(
        similar_lines(first_line_of(old), content, 3),
    )
}

/// `e` reports `count` ambiguous matches with hint `h`.
pub open spec fn is_multiple_error(
    e: ToolError,
    old: Seq<char>,
    content: Seq<char>,
    count: nat,
    h: Seq<char>,
) -> bool {
    e matches ToolError::MultipleMatches { count: c, locations, hint } && c == count && loc_views(
        locations@,
    ) == first_locations(content, old) && hint@ == h
}

/// The single-edit match succeeds: one occurrence, or some with `replace_all`.
pub open spec fn match_ok(count: nat, replace_all: bool) -> bool {
    count == 1 || (replace_all && count >= 1)
}

/// The normalized text of `fb` matches where `old` did not.
pub open spec fn normalized_ok(content: Seq<char>, fb: MatchFallback, replace_all: bool) -> bool {
    fb.normalized matches Some(n) && match_ok(count_occ(content, n@), replace_all)
}

/// An edit matches: `old` itself, or, when `old` occurs nowhere, the
/// normalized text.
pub open spec fn edit_matches(content: Seq<char>, old: Seq<char>, replace_all: bool, fb: MatchFallback) -> bool {
    match_ok(count_occ(content, old), replace_all) || (count_occ(content, old) == 0 && normalized_ok(
        content,
        fb,
        replace_all,
    ))
}

/// The text a matching edit replaces.
pub open spec fn replaced_text(content: Seq<char>, old: Seq<char>, replace_all: bool, fb: MatchFallback) -> Seq<
    char,
> {
    if count_occ(content, old) == 0 && normalized_ok(content, fb, replace_all) {
        fb.normalized.unwrap()@
    } else {
        old
    }
}

/// How a matching edit matched.
pub open spec fn match_kind_of(content: Seq<char>, old: Seq<char>) -> Seq<char> {
    if count_occ(content, old) == 0 {
        "tab_normalized"@
    } else {
        "exact"@
    }
}

/// A batch edit matches: with an expected count exactly, else as a single
/// edit, normalized text included.
pub open spec fn multi_edit_matches(
    content: Seq<char>,
    old: Seq<char>,
    replace_all: bool,
    expected: Option<usize>,
    fb: MatchFallback,
) -> bool {
    match expected {
        Some(x) => count_occ(content, old) == x,
        None => edit_matches(content, old, replace_all, fb),
    }
}

/// Reporting locations is needed only for an ambiguous single match.
pub open spec fn match_safe(content: Seq<char>, old: Seq<char>, replace_all: bool) -> bool {
    content.len() < usize::MAX && (count_occ(content, old) >= 2 && !replace_all ==> locations_safe(
        content,
        old,
    ))
}

/// Reporting locations for a multi-edit match is safe.
pub open spec fn multi_match_safe(
    content: Seq<char>,
    old: Seq<char>,
    replace_all: bool,
    expected: Option<usize>,
) -> bool {
    match expected {
        Some(x) => content.len() < usize::MAX && (count_occ(content, old) != x ==> locations_safe(
            content,
            old,
        )),
        None => match_safe(content, old, replace_all),
    }
}

/// The content after replacing `old` by `new`: all occurrences when
/// `replace_all` or when there are several, else the first one.
pub open spec fn edited(
    content: Seq<char>,
    old: Seq<char>,
    new: Seq<char>,
    replace_all: bool,
) -> Seq<char> {
    let c = count_occ(content, old);
    replace_spec(content, old, new, if replace_all || c > 1 { None } else { Some(1nat) })
}

/// The error `match_string_for_multi` reports for an edit that does not match.
pub open spec fn is_multi_match_error(
    e: ToolError,
    old: Seq<char>,
    content: Seq<char>,
    replace_all: bool,
    expected: Option<usize>,
    hints: Seq<Seq<char>>,
) -> bool {
    let c = count_occ(content, old);
    match expected {
        Some(x) => is_multiple_error(e, old, content, c, expected_hint(x as nat, c)),
        None => if c == 0 {
            is_not_found_error(e, old, content, hints)
        } else {
            is_multiple_error(e, old, content, c, multiple_hint(c))
        },
    }
}

// ─── Single match ───────────────────────────────────────────────────────────

/// Matches `old_string` in `content`: returns the matched text, the match
/// kind and the number of occurrences, or why it does not match.  An
/// `old_string` that occurs nowhere is retried with the normalized text of
/// `fallback`; when that fails too, the error suggests its Unicode hints.
pub fn match_string(old_string: &str, content: &str, replace_all: bool, fallback: &MatchFallback) -> (r: Result<
    (String, &'static str, usize),
    ToolError,
>)
    requires
        match_safe(content@, old_string@, replace_all),
    ensures
        ({
            let c = count_occ(content@, old_string@);
            &&& r is Ok <==> edit_matches(content@, old_string@, replace_all, *fallback)
            &&& r matches Ok((m, k, n)) ==> {
                &&& m@ == replaced_text(content@, old_string@, replace_all, *fallback)
                &&& k@ == match_kind_of(content@, old_string@)
                &&& n == count_occ(content@, m@)
            }
            &&& (c >= 2 && !replace_all) ==> (r matches Err(e) && is_multiple_error(
                e,
                old_string@,
                content@,
                c,
                multiple_hint(c),
            ))
            &&& (c == 0 && !normalized_ok(content@, *fallback, replace_all)) ==> (r matches Err(e)
                && is_not_found_error(e, old_string@, content@, strs(fallback.unicode_hints@)))
        }),
{
    let count = count_occurrences(old_string, content);
    if count == 1 || (replace_all && count >= 1) {
        proof {
            reveal_strlit("exact");
        }
        return Ok((owned(old_string), "exact", count));
    }
    if count >= 2 && !replace_all {
        let locations = find_match_locations(old_string, content);
        let mut h = chars_of(
            "Add surrounding context to old_string to uniquify, or set replace_all=true to replace all ",
        );
        let d = dec_string(count);
        push_str(&mut h, d.as_str());
        push_str(&mut h, ".");
        return Err(ToolError::MultipleMatches { count, locations, hint: string_of(&h) });
    }
    if let Some(normalized) = &fallback.normalized {
        let norm_count = count_occurrences(normalized.as_str(), content);
        if norm_count == 1 || (replace_all && norm_count >= 1) {
            proof {
                reveal_strlit("tab_normalized");
            }
            return Ok((normalized.clone(), "tab_normalized", norm_count));
        }
    }
    Err(not_found_error(old_string, content, &fallback.unicode_hints))
}

/// The not-found error for `old_string`, with the nearest lines of `content`
/// and the Unicode `hints` as suggestions.
fn not_found_error(old_string: &str, content: &str, hints: &Vec<String>) -> (e: ToolError)
    ensures
        is_not_found_error(e, old_string@, content@, strs(hints@)),
{
    let lines = crate::text::lines_str(old_string);
    let first_line = if lines.len() > 0 {
        owned(lines[0].as_str())
    } else {
        owned(old_string)
    };
    let similar = find_similar_lines(first_line.as_str(), content, 3);
    let mut h = chars_of(
        "Read the file again and copy old_string verbatim from the output. Pay attention to tab characters (shown as \\t in Read output).",
    );
    let ghost base = h@;
    if similar.len() > 0 {
        push_str(&mut h, "\nNearest lines in file:\n  ");
        let j = join_strings(&similar, "\n  ");
        push_str(&mut h, j.as_str());
    }
    assert(h@ =~= not_found_hint(strs(similar@)));
    ToolError::StringNotFound {
        file_path: owned("[file]"),
        old_string_preview: take_chars(old_string, 80),
        suggestions: strings_clone(hints),
        hint: string_of(&h),
    }
}

/// Matches `old_string` for one edit of a batch: with `expected` the count
/// must equal it, otherwise as `match_string`.
pub fn match_string_for_multi(
    old_string: &str,
    content: &str,
    replace_all: bool,
    expected: Option<usize>,
    fallback: &MatchFallback,
) -> (r: Result<(String, &'static str, usize), ToolError>)
    requires
        multi_match_safe(content@, old_string@, replace_all, expected),
    ensures
        ({
            let c = count_occ(content@, old_string@);
            &&& r is Ok <==> multi_edit_matches(content@, old_string@, replace_all, expected, *fallback)
            &&& r matches Ok((m, k, n)) ==> {
                &&& m@ == (if expected is Some { old_string@ } else { replaced_text(
                    content@,
                    old_string@,
                    replace_all,
                    *fallback,
                ) })
                &&& k@ == (if expected is Some { "exact"@ } else { match_kind_of(content@, old_string@) })
                &&& n == count_occ(content@, m@)
            }
            &&& r matches Err(e) ==> is_multi_match_error(
                e,
                old_string@,
                content@,
                replace_all,
                expected,
                strs(fallback.unicode_hints@),
            )
        }),
{
    let count = count_occurrences(old_string, content);
    match expected {
        Some(exp) => {
            if count == exp {
                proof {
                    reveal_strlit("exact");
                }
                Ok((owned(old_string), "exact", count))
            } else {
                let locations = find_match_locations(old_string, content);
                let mut h = chars_of("expected_replacements=");
                let d1 = dec_string(exp);
                push_str(&mut h, d1.as_str());
                push_str(&mut h, " but found ");
                let d2 = dec_string(count);
                push_str(&mut h, d2.as_str());
                push_str(&mut h, " matches.");
                Err(ToolError::MultipleMatches { count, locations, hint: string_of(&h) })
            }
        },
        None => match_string(old_string, content, replace_all, fallback),
    }
}

// ─── Applying edits ─────────────────────────────────────────────────────────

/// Applies one edit to `content` in memory: the edit matches once (or, with
/// `replace_all`, at least once), by itself or by the normalized text of
/// `fallback`, and every replaced occurrence is counted.
pub fn apply_edit_in_memory(
    old_string: &str,
    new_string: &str,
    replace_all: bool,
    content: &str,
    fallback: &MatchFallback,
) -> (r: Result<EditApplyResult, ToolError>)
    requires
        match_safe(content@, old_string@, replace_all),
    ensures
        ({
            let c = count_occ(content@, old_string@);
            let m = replaced_text(content@, old_string@, replace_all, *fallback);
            &&& r is Ok <==> edit_matches(content@, old_string@, replace_all, *fallback)
            &&& r matches Ok(a) ==> {
                &&& a.new_content@ == edited(content@, m, new_string@, replace_all)
                &&& a.replacements == (if replace_all { count_occ(content@, m) } else { 1 })
                &&& a.match_kind@ == match_kind_of(content@, old_string@)
            }
            &&& (c >= 2 && !replace_all) ==> (r matches Err(e) && is_multiple_error(
                e,
                old_string@,
                content@,
                c,
                multiple_hint(c),
            ))
            &&& (c == 0 && !normalized_ok(content@, *fallback, replace_all)) ==> (r matches Err(e)
                && is_not_found_error(e, old_string@, content@, strs(fallback.unicode_hints@)))
        }),
{
    let (matched_old, match_kind, count) = match match_string(old_string, content, replace_all, fallback) {
        Ok(t) => t,
        Err(e) => return Err(e),
    };
    let new_content = if replace_all || count > 1 {
        replace_all_str(content, matched_old.as_str(), new_string)
    } else {
        replacen_str(content, matched_old.as_str(), new_string, 1)
    };
    let replacements = if replace_all {
        count
    } else {
        1
    };
    Ok(EditApplyResult { new_content, replacements, match_kind: owned(match_kind) })
}

// ─── Flags given as text ────────────────────────────────────────────────────

/// The value of a flag written as a lowercase word.
pub open spec fn bool_word(s: Seq<char>) -> Option<bool> {
    if s == "true"@ || s == "1"@ || s == "yes"@ {
        Some(true)
    } else if s == "false"@ || s == "0"@ || s == "no"@ {
        Some(false)
    } else {
        None
    }
}

/// A flag that a client sent as text: "true", "1" or "yes", "false", "0" or
/// "no", in any case; else the message of the rejected parameter.
pub fn bool_from_text(s: &str) -> (r: Result<bool, String>)
    ensures
        bool_word(lower_text(s@)) matches Some(b) ==> (r matches Ok(v) && v == b),
        bool_word(lower_text(s@)) is None ==> (r matches Err(m) && m@ == "invalid bool string: "@ + lower_text(
            s@,
        )),
{
    let l = to_lowercase(s);
    let t = l.as_str();
    if str_eq(t, "true") || str_eq(t, "1") || str_eq(t, "yes") {
        Ok(true)
    } else if str_eq(t, "false") || str_eq(t, "0") || str_eq(t, "no") {
        Ok(false)
    } else {
        let mut m = chars_of("invalid bool string: ");
        push_str(&mut m, t);
        Err(string_of(&m))
    }
}

// ─── Around an edit ─────────────────────────────────────────────────────────

/// An edit must change something.
pub fn check_edit_change(old_string: &str, new_string: &str) -> (r: Result<(), ToolError>)
    ensures
        r is Ok <==> old_string@ != new_string@,
        old_string@ == new_string@ ==> (r matches Err(ToolError::NoChanges { hint, unicode_note })
            && hint@ == "old_string and new_string are identical (byte-level). No edit performed."@
            && (unicode_note matches Some(n) && n@ == "If you intended to change quote styles (e.g. ' → \u{2019}), verify the Unicode code points."@)),
{
    if crate::text::str_eq(old_string, new_string) {
        return Err(ToolError::NoChanges {
            hint: owned("old_string and new_string are identical (byte-level). No edit performed."),
            unicode_note: Some(owned("If you intended to change quote styles (e.g. ' → \u{2019}), verify the Unicode code points.")),
        });
    }
    Ok(())
}

/// The file is as it was read: its hash is the raw or the normalized hash
/// taken when it was read.
pub fn check_unmodified(
    file_path: &str,
    current_hash: &str,
    raw_hash: &str,
    norm_hash: &str,
    read_at: &str,
) -> (r: Result<(), ToolError>)
    ensures
        r is Ok <==> (current_hash@ == raw_hash@ || current_hash@ == norm_hash@),
        r matches Err(e) ==> (e matches ToolError::FileModified { file_path: f, read_at: at, hint, tip }
            && f@ == file_path@ && at@ == read_at@
            && hint@ == "File was modified externally after Read. Call Read again."@
            && tip@ == "If a formatter (Prettier/rustfmt) is running, use force=true to skip this check."@),
{
    if !crate::text::str_eq(current_hash, raw_hash) && !crate::text::str_eq(current_hash, norm_hash) {
        return Err(ToolError::FileModified {
            file_path: owned(file_path),
            read_at: owned(read_at),
            hint: owned("File was modified externally after Read. Call Read again."),
            tip: owned("If a formatter (Prettier/rustfmt) is running, use force=true to skip this check."),
        });
    }
    Ok(())
}

/// What the read cache holds for a file: the hash of its bytes and of its
/// text with normalized line endings when it was read, and when that was.
pub struct ReadEntry {
    pub raw_hash: String,
    pub norm_hash: String,
    pub read_at: String,
}

/// The checks an edit passes before its file is matched, in order: it must
/// change something, the file must exist, and unless forced the file must
/// have been read (`cached`) and be unchanged since (`current_hash` is the
/// hash of its bytes now, consulted only then).
pub fn run_edit_checks(params: &EditParams, exists: bool, cached: Option<&ReadEntry>, current_hash: &str) -> (r:
    Result<(), ToolError>)
    ensures
        r is Ok <==> (params.old_string@ != params.new_string@ && exists && (params.force || (cached matches Some(
            c,
        ) && (current_hash@ == c.raw_hash@ || current_hash@ == c.norm_hash@)))),
        params.old_string@ == params.new_string@ ==> (r matches Err(ToolError::NoChanges { hint, unicode_note })
            && hint@ == "old_string and new_string are identical (byte-level). No edit performed."@
            && (unicode_note matches Some(n) && n@ == "If you intended to change quote styles (e.g. ' → \u{2019}), verify the Unicode code points."@)),
        params.old_string@ != params.new_string@ && !exists ==> (r matches Err(
            ToolError::FileNotFound { file_path, hint },
        ) && file_path@ == params.file_path@ && hint@ == "File does not exist. Use Write to create it."@),
        params.old_string@ != params.new_string@ && exists && !params.force && cached is None ==> (r matches Err(
            ToolError::FileNotRead { file_path, hint },
        ) && file_path@ == params.file_path@ && hint@ == "Call Read before Edit to ensure old_string matches exactly."@),
        cached matches Some(c) ==> (params.old_string@ != params.new_string@ && exists && !params.force && !(
        current_hash@ == c.raw_hash@ || current_hash@ == c.norm_hash@) ==> (r matches Err(
            ToolError::FileModified { file_path, read_at, hint, tip },
        ) && file_path@ == params.file_path@ && read_at@ == c.read_at@
            && hint@ == "File was modified externally after Read. Call Read again."@
            && tip@ == "If a formatter (Prettier/rustfmt) is running, use force=true to skip this check."@)),
{
    check_edit_change(params.old_string.as_str(), params.new_string.as_str())?;
    if !exists {
        return Err(ToolError::FileNotFound {
            file_path: params.file_path.clone(),
            hint: owned("File does not exist. Use Write to create it."),
        });
    }
    if !params.force {
        match cached {
            None => {
                return Err(ToolError::FileNotRead {
                    file_path: params.file_path.clone(),
                    hint: owned("Call Read before Edit to ensure old_string matches exactly."),
                });
            },
            Some(c) => {
                check_unmodified(
                    params.file_path.as_str(),
                    current_hash,
                    c.raw_hash.as_str(),
                    c.norm_hash.as_str(),
                    c.read_at.as_str(),
                )?;
            },
        }
    }
    Ok(())
}

/// The checks a batch edit passes before its file is matched, in order: the
/// file must exist and must have been read (`cached`) and be unchanged since
/// (`current_hash` is the hash of its bytes now).
pub fn run_multi_edit_checks(params: &MultiEditParams, exists: bool, cached: Option<&ReadEntry>, current_hash: &str) -> (r:
    Result<(), ToolError>)
    ensures
        r is Ok <==> (exists && (cached matches Some(c) && (current_hash@ == c.raw_hash@ || current_hash@
            == c.norm_hash@))),
        !exists ==> (r matches Err(ToolError::FileNotFound { file_path, hint }) && file_path@ == params.file_path@
            && hint@ == "File does not exist."@),
        exists && cached is None ==> (r matches Err(ToolError::FileNotRead { file_path, hint }) && file_path@
            == params.file_path@ && hint@ == "Call Read before MultiEdit."@),
        cached matches Some(c) ==> (exists && !(current_hash@ == c.raw_hash@ || current_hash@ == c.norm_hash@) ==> (
        r matches Err(ToolError::FileModified { file_path, read_at, hint, tip }) && file_path@ == params.file_path@
            && read_at@ == c.read_at@ && hint@ == "File was modified externally. Call Read again."@
            && tip@ == "Use force=true on individual Edits if a formatter is running."@)),
{
    if !exists {
        return Err(ToolError::FileNotFound { file_path: params.file_path.clone(), hint: owned("File does not exist.") });
    }
    match cached {
        None => Err(ToolError::FileNotRead {
            file_path: params.file_path.clone(),
            hint: owned("Call Read before MultiEdit."),
        }),
        Some(c) => {
            if !str_eq(current_hash, c.raw_hash.as_str()) && !str_eq(current_hash, c.norm_hash.as_str()) {
                return Err(ToolError::FileModified {
                    file_path: params.file_path.clone(),
                    read_at: c.read_at.clone(),
                    hint: owned("File was modified externally. Call Read again."),
                    tip: owned("Use force=true on individual Edits if a formatter is running."),
                });
            }
            Ok(())
        },
    }
}

/// The backup policy that applies to an edit: the first edit of a file, or
/// a later one.
pub fn edit_backup_trigger(edit_count: usize) -> (t: BackupTrigger)
    ensures
        t == (if edit_count == 0 { BackupTrigger::FirstEdit } else { BackupTrigger::AllWrites }),
{
    if edit_count == 0 {
        BackupTrigger::FirstEdit
    } else {
        BackupTrigger::AllWrites
    }
}

/// Where the backup went, or a note that one already existed.
pub fn format_backup_info(record: Option<&BackupRecord>) -> (r: (Option<String>, Option<String>))
    ensures
        record matches Some(b) ==> (r.0 matches Some(p) && p@ == b.backup_path@) && r.1 is None,
        record is None ==> r.0 is None && (r.1 matches Some(n) && n@ == "Backup already exists from this session."@),
{
    match record {
        Some(b) => (Some(b.backup_path.clone()), None),
        None => (None, Some(owned("Backup already exists from this session."))),
    }
}

/// The result of an edit that was written.
pub fn edit_result(file_path: &str, applied: EditApplyResult, backup: (Option<String>, Option<String>)) -> (r:
    EditResult)
    ensures
        r.kind@ == "success"@,
        r.file_path@ == file_path@,
        r.replacements == applied.replacements,
        r.match_kind == applied.match_kind,
        r.backup_path == backup.0,
        r.backup_note == backup.1,
{
    EditResult {
        kind: owned("success"),
        file_path: owned(file_path),
        replacements: applied.replacements,
        match_kind: applied.match_kind,
        backup_path: backup.0,
        backup_note: backup.1,
    }
}

/// The text a batch edit replaces in `w`.
pub open spec fn batch_text(w: Seq<char>, e: SingleEdit, fb: MatchFallback) -> Seq<char> {
    if e.expected_replacements is Some {
        e.old_string@
    } else {
        replaced_text(w, e.old_string@, e.replace_all, fb)
    }
}

/// The content after applying `edits` in order, each seeing the result of
/// the previous ones, edit `k` with the retries `fbs[k]`; `None` when one of
/// them does not match.
pub open spec fn multi_applied(content: Seq<char>, edits: Seq<SingleEdit>, fbs: Seq<MatchFallback>) -> Option<
    Seq<char>,
>
    decreases edits.len(),
{
    if edits.len() == 0 {
        Some(content)
    } else {
        match multi_applied(content, edits.drop_last(), fbs) {
            Some(w) => {
                let e = edits.last();
                let fb = fbs[edits.len() - 1];
                if multi_edit_matches(w, e.old_string@, e.replace_all, e.expected_replacements, fb) {
                    Some(edited(w, batch_text(w, e, fb), e.new_string@, e.replace_all))
                } else {
                    None
                }
            },
            None => None,
        }
    }
}

/// Every edit of the batch that is reached can report its failure safely.
pub open spec fn multi_safe(content: Seq<char>, edits: Seq<SingleEdit>, fbs: Seq<MatchFallback>) -> bool {
    forall|k: int|
        0 <= k < edits.len() ==> ((#[trigger] multi_applied(content, edits.take(k), fbs)) matches Some(w)
            ==> multi_match_safe(
            w,
            edits[k].old_string@,
            edits[k].replace_all,
            edits[k].expected_replacements,
        ))
}

/// The message of a failing batch edit.
pub open spec fn edit_failed_hint(idx: nat) -> Seq<char> {
    "Fix edit["@ + dec(idx) + "] and retry the entire MultiEdit."@
}

/// Applies a batch of edits in memory, all or nothing: the new content and
/// the number of edits, or the error of the first edit that does not match.
/// `fallbacks[k]` holds the retries of edit `k`, found against the content
/// the edits before it leave.
pub fn apply_multi_edit_in_memory(edits: &Vec<SingleEdit>, content: &str, fallbacks: &Vec<MatchFallback>) -> (r:
    Result<(String, usize), ToolError>)
    requires
        fallbacks.len() == edits.len(),
        multi_safe(content@, edits@, fallbacks@),
    ensures
        r is Ok <==> multi_applied(content@, edits@, fallbacks@) is Some,
        r matches Ok((w, n)) ==> multi_applied(content@, edits@, fallbacks@) == Some(w@) && n == edits.len(),
        r matches Err(e) ==> exists|k: int|
            {
                &&& 0 <= k < edits.len()
                &&& (#[trigger] multi_applied(content@, edits@.take(k), fallbacks@)) matches Some(w)
                &&& !multi_edit_matches(
                    w,
                    edits@[k].old_string@,
                    edits@[k].replace_all,
                    edits@[k].expected_replacements,
                    fallbacks@[k],
                )
                &&& e matches ToolError::EditFailed {
                    edit_index,
                    edit_preview,
                    cause,
                    file_state,
                    hint,
                }
                &&& edit_index == k
                &&& edit_preview.old_string@ == take_upto(edits@[k].old_string@, 80)
                &&& edit_preview.new_string@ == take_upto(edits@[k].new_string@, 80)
                &&& file_state@ == "unchanged"@
                &&& hint@ == edit_failed_hint(k as nat)
                &&& is_multi_match_error(
                    *cause,
                    edits@[k].old_string@,
                    w,
                    edits@[k].replace_all,
                    edits@[k].expected_replacements,
                    strs(fallbacks@[k].unicode_hints@),
                )
            },
{
    let mut working = owned(content);
    let mut idx: usize = 0;
    assert(edits@.take(0) =~= Seq::<SingleEdit>::empty());
    while idx < edits.len()
        invariant
            idx <= edits.len(),
            fallbacks.len() == edits.len(),
            multi_safe(content@, edits@, fallbacks@),
            multi_applied(content@, edits@.take(idx as int), fallbacks@) == Some(working@),
        decreases edits.len() - idx,
    {
        let edit = &edits[idx];
        assert(edits@.take(idx + 1).drop_last() =~= edits@.take(idx as int));
        assert(edits@.take(idx + 1).last() == edits@[idx as int]);
        let m = match_string_for_multi(
            edit.old_string.as_str(),
            working.as_str(),
            edit.replace_all,
            edit.expected_replacements,
            &fallbacks[idx],
        );
        match m {
            Err(cause) => {
                let mut h = chars_of("Fix edit[");
                let d = dec_string(idx);
                push_str(&mut h, d.as_str());
                push_str(&mut h, "] and retry the entire MultiEdit.");
                let e = ToolError::EditFailed {
                    edit_index: idx,
                    edit_preview: EditPreview {
                        old_string: take_chars(edit.old_string.as_str(), 80),
                        new_string: take_chars(edit.new_string.as_str(), 80),
                    },
                    cause: Box::new(cause),
                    file_state: owned("unchanged"),
                    hint: string_of(&h),
                };
                proof {
                    lemma_multi_applied_none(content@, edits@, fallbacks@, idx as int + 1);
                    assert(edits@.take(edits.len() as int) =~= edits@);
                }
                return Err(e);
            },
            Ok((matched, _kind, count)) => {
                working = if edit.replace_all || count > 1 {
                    replace_all_str(working.as_str(), matched.as_str(), edit.new_string.as_str())
                } else {
                    replacen_str(working.as_str(), matched.as_str(), edit.new_string.as_str(), 1)
                };
            },
        }
        idx = idx + 1;
    }
    assert(edits@.take(edits.len() as int) =~= edits@);
    Ok((working, edits.len()))
}

/// Whether matching `old_string` in `content` stays within what a failed
/// match can report (see `match_safe`).
pub fn match_reportable(content: &str, old_string: &str, replace_all: bool) -> (r: bool)
    ensures
        r == match_safe(content@, old_string@, replace_all),
{
    if chars_of(content).len() == usize::MAX {
        return false;
    }
    let c = count_occurrences(old_string, content);
    if c >= 2 && !replace_all {
        locations_reportable(old_string, content)
    } else {
        true
    }
}

/// Whether a batch match of `old_string` in `content` stays within what a
/// failed match can report (see `multi_match_safe`).
pub fn multi_match_reportable(content: &str, old_string: &str, replace_all: bool, expected: Option<usize>) -> (r:
    bool)
    ensures
        r == multi_match_safe(content@, old_string@, replace_all, expected),
{
    match expected {
        Some(x) => {
            if chars_of(content).len() == usize::MAX {
                return false;
            }
            if count_occurrences(old_string, content) != x {
                locations_reportable(old_string, content)
            } else {
                true
            }
        },
        None => match_reportable(content, old_string, replace_all),
    }
}

/// Whether every edit of the batch that is reached can report its failure
/// (see `multi_safe`): the condition under which the batch is applied.
pub fn multi_edit_reportable(edits: &Vec<SingleEdit>, content: &str, fallbacks: &Vec<MatchFallback>) -> (r: bool)
    requires
        fallbacks.len() == edits.len(),
    ensures
        r == multi_safe(content@, edits@, fallbacks@),
{
    let mut working = owned(content);
    let mut idx: usize = 0;
    assert(edits@.take(0) =~= Seq::<SingleEdit>::empty());
    while idx < edits.len()
        invariant
            idx <= edits.len(),
            fallbacks.len() == edits.len(),
            multi_applied(content@, edits@.take(idx as int), fallbacks@) == Some(working@),
            forall|k: int|
                0 <= k < idx ==> ((#[trigger] multi_applied(content@, edits@.take(k), fallbacks@)) matches Some(
                    w,
                ) ==> multi_match_safe(
                    w,
                    edits@[k].old_string@,
                    edits@[k].replace_all,
                    edits@[k].expected_replacements,
                )),
        decreases edits.len() - idx,
    {
        let edit = &edits[idx];
        assert(edits@.take(idx + 1).drop_last() =~= edits@.take(idx as int));
        assert(edits@.take(idx + 1).last() == edits@[idx as int]);
        if !multi_match_reportable(
            working.as_str(),
            edit.old_string.as_str(),
            edit.replace_all,
            edit.expected_replacements,
        ) {
            return false;
        }
        match match_string_for_multi(
            edit.old_string.as_str(),
            working.as_str(),
            edit.replace_all,
            edit.expected_replacements,
            &fallbacks[idx],
        ) {
            Err(_) => {
                proof {
                    let i = idx as int;
                    assert forall|k: int| i < k <= edits.len() implies #[trigger] multi_applied(
                        content@,
                        edits@.take(k),
                        fallbacks@,
                    ) is None by {
                        assert(edits@.take(k).take(i + 1) =~= edits@.take(i + 1));
                        lemma_multi_applied_none(content@, edits@.take(k), fallbacks@, i + 1);
                    }
                }
                return true;
            },
            Ok((matched, _kind, count)) => {
                working = if edit.replace_all || count > 1 {
                    replace_all_str(working.as_str(), matched.as_str(), edit.new_string.as_str())
                } else {
                    replacen_str(working.as_str(), matched.as_str(), edit.new_string.as_str(), 1)
                };
            },
        }
        idx = idx + 1;
    }
    true
}

/// Without `replace_all` an edit matches only a unique text: `old` when it
/// occurs exactly once, or, when `old` occurs nowhere, a normalized text
/// that occurs exactly once.  With `replace_all` it needs one occurrence or
/// more.
pub proof fn law_edit_match_counts(content: Seq<char>, old: Seq<char>, replace_all: bool, fb: MatchFallback)
    requires
        edit_matches(content, old, replace_all, fb),
    ensures
        count_occ(content, old) > 0 ==> (if replace_all { count_occ(content, old) >= 1 } else { count_occ(
            content,
            old,
        ) == 1 }),
        count_occ(content, old) == 0 ==> (fb.normalized matches Some(n) && (if replace_all { count_occ(
            content,
            n@,
        ) >= 1 } else { count_occ(content, n@) == 1 })),
{
}

/// An expected count is exact: when a batch applies, every edit of it with
/// `expected_replacements == Some(x)` found exactly `x` occurrences of its
/// `old_string` in the content the edits before it left.  So a batch in
/// which such an edit sees any other count fails as a whole.
pub proof fn law_expected_count_is_exact(content: Seq<char>, edits: Seq<SingleEdit>, fbs: Seq<MatchFallback>, k: int)
    requires
        fbs.len() == edits.len(),
        multi_applied(content, edits, fbs) is Some,
        0 <= k < edits.len(),
        edits[k].expected_replacements is Some,
    ensures
        multi_applied(content, edits.take(k), fbs) is Some,
        count_occ(multi_applied(content, edits.take(k), fbs).unwrap(), edits[k].old_string@)
            == edits[k].expected_replacements.unwrap(),
{
    if multi_applied(content, edits.take(k + 1), fbs) is None {
        lemma_multi_applied_none(content, edits, fbs, k + 1);
    }
    let t = edits.take(k + 1);
    assert(t.drop_last() =~= edits.take(k));
    assert(t.last() == edits[k]);
}

/// Once an edit fails, the whole batch fails.
proof fn lemma_multi_applied_none(content: Seq<char>, edits: Seq<SingleEdit>, fbs: Seq<MatchFallback>, k: int)
    requires
        0 <= k <= edits.len(),
        multi_applied(content, edits.take(k), fbs) is None,
    ensures
        multi_applied(content, edits, fbs) is None,
    decreases edits.len() - k,
{
    if k < edits.len() {
        assert(edits.take(k + 1).drop_last() =~= edits.take(k));
        lemma_multi_applied_none(content, edits, fbs, k + 1);
    } else {
        assert(edits.take(k) =~= edits);
    }
}

} // verus!
