//! Notifications, error reports and opening files in an editor: what is
//! checked before, and what is answered after.
use vstd::prelude::*;
use crate::error::ToolError;
use vstd::utf8::{encode_utf8, is_char_boundary};
use crate::text::{lemma_encode_concat, chars_of, dec, dec_chars, owned, push_chars, push_str, str_eq, string_of, trim, trim_chars};

verus! {

/// Result of `sy_notify`.
pub struct SyNotifyResult {
    /// "sent" | "fallback" | "error"
    pub kind: String,
    pub message: String,
    pub level: String,
    pub notified: bool,
    pub method: String,
}

/// A notification needs a message that is not blank.
pub fn check_notify_message(message: &str) -> (r: Result<(), ToolError>)
    ensures
        r is Ok <==> trim(message@).len() > 0,
        r matches Err(e) ==> (e matches ToolError::MissingParameter { missing, hint } && missing@ == "message"@),
{
    let t = trim_chars(&chars_of(message));
    if t.len() == 0 {
        proof {
            reveal_strlit("message");
        }
        return Err(
            ToolError::MissingParameter {
                missing: owned("message"),
                hint: owned("Provide a non-empty notification message."),
            },
        );
    }
    Ok(())
}

/// The title of a notification (default "seeyue-mcp").
pub fn notify_title(title: &Option<String>) -> (r: String)
    ensures
        r@ == match title {
            Some(t) => t@,
            None => "seeyue-mcp"@,
        },
{
    match title {
        Some(t) => t.clone(),
        None => {
            proof {
                reveal_strlit("seeyue-mcp");
            }
            owned("seeyue-mcp")
        },
    }
}

/// The answer once the toast was tried: "error" where it was not shown,
/// "fallback" where the fallback method showed it, "sent" otherwise.
pub fn notify_result(message: String, level: String, notified: bool, method: &str) -> (r: SyNotifyResult)
    ensures
        r.kind@ == (if !notified {
            "error"@
        } else if method@ == "fallback"@ {
            "fallback"@
        } else {
            "sent"@
        }),
        r.message@ == message@,
        r.level@ == level@,
        r.notified == notified,
        r.method@ == method@,
{
    proof {
        reveal_strlit("error");
        reveal_strlit("fallback");
        reveal_strlit("sent");
    }
    let kind = if !notified {
        owned("error")
    } else if str_eq(method, "fallback") {
        owned("fallback")
    } else {
        owned("sent")
    };
    SyNotifyResult { kind, message, level, notified, method: owned(method) }
}

/// Parameters of `sy_on_error`.
pub struct OnErrorParams {
    pub tool: String,
    pub error: String,
    /// "io" | "syntax" | "lsp" | "policy" | "timeout" | "unknown"
    pub error_kind: Option<String>,
    pub path: Option<String>,
    pub notify: Option<bool>,
    pub node_id: Option<String>,
    pub run_id: Option<String>,
}

/// Result of `sy_on_error`.
pub struct OnErrorResult {
    pub kind: String,
    pub tool: String,
    pub error_kind: String,
    pub recorded: bool,
    pub notified: bool,
    pub suggestions: Vec<String>,
}

/// An error report needs the failing tool's name; its kind defaults to
/// "unknown".
pub fn on_error_kind(params: &OnErrorParams) -> (r: Result<String, ToolError>)
    ensures
        trim(params.tool@).len() == 0 <==> r is Err,
        r matches Err(e) ==> (e matches ToolError::MissingParameter { missing, hint } && missing@ == "tool"@),
        r matches Ok(k) ==> k@ == match params.error_kind {
            Some(s) => s@,
            None => "unknown"@,
        },
{
    let t = trim_chars(&chars_of(params.tool.as_str()));
    if t.len() == 0 {
        proof {
            reveal_strlit("tool");
        }
        return Err(
            ToolError::MissingParameter { missing: owned("tool"), hint: owned("Provide the tool name that failed.") },
        );
    }
    match &params.error_kind {
        Some(k) => Ok(k.clone()),
        None => {
            proof {
                reveal_strlit("unknown");
            }
            Ok(owned("unknown"))
        },
    }
}

/// The recovery advice for an error kind: two lines each; for an unknown
/// kind the first names the tool.
pub open spec fn suggestions_for(kind: Seq<char>, tool: Seq<char>) -> Seq<Seq<char>> {
    if kind == "io"@ {
        seq![
            "Check that the file path is relative to workspace root (forward slashes)."@,
            "Use read_file first to verify the file exists."@,
        ]
    } else if kind == "syntax"@ {
        seq![
            "Run verify_syntax to locate the syntax error."@,
            "Use preview_edit to review the proposed change before applying it."@,
        ]
    } else if kind == "lsp"@ {
        seq![
            "LSP server may not be running. Check env var AGENT_EDITOR_LSP_CMD."@,
            "Fall back to search_workspace for symbol lookup."@,
        ]
    } else if kind == "policy"@ {
        seq![
            "The operation was blocked by policy. Use sy_approval_request to request override."@,
            "Review workflow://session for active blockers."@,
        ]
    } else if kind == "timeout"@ {
        seq![
            "Increase timeout_secs parameter if operation is expected to be slow."@,
            "Check for blocking processes with process_list."@,
        ]
    } else {
        seq![
            "Review the full error message from "@ + tool + " and retry."@,
            "Consult workflow://journal for recent events context."@,
        ]
    }
}

fn pair(a: &str, b: &str) -> (r: Vec<String>)
    ensures
        r@.len() == 2,
        r@[0]@ == a@,
        r@[1]@ == b@,
{
    let mut v: Vec<String> = Vec::new();
    v.push(owned(a));
    v.push(owned(b));
    v
}

/// The advice for `kind`, as `suggestions_for` says.
pub fn build_suggestions(kind: &str, tool: &str) -> (r: Vec<String>)
    ensures
        r@.len() == suggestions_for(kind@, tool@).len(),
        forall|i: int| 0 <= i < r@.len() ==> #[trigger] r@[i]@ == suggestions_for(kind@, tool@)[i],
{
    if str_eq(kind, "io") {
        pair(
            "Check that the file path is relative to workspace root (forward slashes).",
            "Use read_file first to verify the file exists.",
        )
    } else if str_eq(kind, "syntax") {
        pair(
            "Run verify_syntax to locate the syntax error.",
            "Use preview_edit to review the proposed change before applying it.",
        )
    } else if str_eq(kind, "lsp") {
        pair(
            "LSP server may not be running. Check env var AGENT_EDITOR_LSP_CMD.",
            "Fall back to search_workspace for symbol lookup.",
        )
    } else if str_eq(kind, "policy") {
        pair(
            "The operation was blocked by policy. Use sy_approval_request to request override.",
            "Review workflow://session for active blockers.",
        )
    } else if str_eq(kind, "timeout") {
        pair(
            "Increase timeout_secs parameter if operation is expected to be slow.",
            "Check for blocking processes with process_list.",
        )
    } else {
        let mut first = chars_of("Review the full error message from ");
        push_str(&mut first, tool);
        push_str(&mut first, " and retry.");
        let f = string_of(&first);
        pair(f.as_str(), "Consult workflow://journal for recent events context.")
    }
}

/// The answer of `sy_on_error` once the report was journaled (or not) and
/// the toast shown (or not).
pub fn on_error_result(tool: String, error_kind: String, recorded: bool, notified: bool) -> (r: OnErrorResult)
    ensures
        r.kind@ == "recorded"@,
        r.tool@ == tool@,
        r.error_kind@ == error_kind@,
        r.recorded == recorded,
        r.notified == notified,
        r.suggestions@.len() == suggestions_for(error_kind@, tool@).len(),
        forall|i: int| 0 <= i < r.suggestions@.len() ==> #[trigger] r.suggestions@[i]@ == suggestions_for(error_kind@, tool@)[i],
{
    let suggestions = build_suggestions(error_kind.as_str(), tool.as_str());
    proof {
        reveal_strlit("recorded");
    }
    OnErrorResult { kind: owned("recorded"), tool, error_kind, recorded, notified, suggestions }
}

/// The toast text of an error report: the tool, ": " and the first 120
/// bytes of the error (all of it when shorter).
pub fn error_toast_body(tool: &str, error: &str) -> (r: String)
    requires
        encode_utf8(error@).len() <= usize::MAX,
        encode_utf8(error@).len() > 120 ==> is_char_boundary(encode_utf8(error@), 120),
    ensures
        encode_utf8(r@) == encode_utf8(tool@ + ": "@) + (if encode_utf8(error@).len() > 120 {
            encode_utf8(error@).take(120)
        } else {
            encode_utf8(error@)
        }),
{
    let n = error.len();
    let cut: usize = if n < 120 { n } else { 120 };
    proof {
        vstd::utf8::encode_utf8_valid_utf8(error@);
        vstd::utf8::is_char_boundary_start_end_of_seq(encode_utf8(error@));
    }
    let (head, _) = error.split_at(cut);
    let mut v = chars_of(tool);
    push_str(&mut v, ": ");
    let ghost pre = v@;
    push_str(&mut v, head);
    proof {
        lemma_encode_concat(pre, head@);
        vstd::utf8::encode_utf8_decode_utf8(head@);
        assert(encode_utf8(error@).subrange(0, cut as int) =~= (if encode_utf8(error@).len() > 120 {
            encode_utf8(error@).take(120)
        } else {
            encode_utf8(error@)
        }));
    }
    string_of(&v)
}

/// Parameters of `open_in_editor`.
pub struct OpenInEditorParams {
    pub path: String,
    pub line: Option<usize>,
    pub column: Option<usize>,
    /// "vscode" | "cursor" | "auto" (default; Cursor first).
    pub editor: Option<String>,
}

/// Result of `open_in_editor`.
pub struct OpenInEditorResult {
    /// "opened" | "not_found"
    pub kind: String,
    pub path: String,
    pub line: Option<usize>,
    pub editor: String,
    pub command: String,
}

/// A path to open is needed.
pub fn check_editor_path(path: &str) -> (r: Result<(), ToolError>)
    ensures
        r is Ok <==> trim(path@).len() > 0,
        r matches Err(e) ==> (e matches ToolError::MissingParameter { missing, hint } && missing@ == "path"@),
{
    let t = trim_chars(&chars_of(path));
    if t.len() == 0 {
        proof {
            reveal_strlit("path");
        }
        return Err(
            ToolError::MissingParameter {
                missing: owned("path"),
                hint: owned("Provide a file path relative to workspace root."),
            },
        );
    }
    Ok(())
}

/// The answer for a file that does not exist.
pub fn editor_not_found(params: &OpenInEditorParams) -> (r: OpenInEditorResult)
    ensures
        r.kind@ == "not_found"@,
        r.path@ == params.path@,
        r.line == params.line,
        r.editor@ == "none"@,
        r.command@ == Seq::<char>::empty(),
{
    proof {
        reveal_strlit("not_found");
        reveal_strlit("none");
        reveal_strlit("");
    }
    OpenInEditorResult {
        kind: owned("not_found"),
        path: params.path.clone(),
        line: params.line,
        editor: owned("none"),
        command: owned(""),
    }
}

/// The `--goto` argument: "path:line:column" (column 1 by default) where a
/// line is given, else the path.
pub open spec fn goto_text(abs: Seq<char>, line: Option<usize>, column: Option<usize>) -> Seq<char> {
    match line {
        Some(l) => abs + ":"@ + dec(l as nat) + ":"@ + dec(
            match column {
                Some(c) => c as nat,
                None => 1,
            },
        ),
        None => abs,
    }
}

pub fn goto_arg(abs: &str, line: Option<usize>, column: Option<usize>) -> (r: String)
    ensures
        r@ == goto_text(abs@, line, column),
{
    match line {
        Some(l) => {
            let mut v = chars_of(abs);
            push_str(&mut v, ":");
            push_chars(&mut v, &dec_chars(l));
            push_str(&mut v, ":");
            let c: usize = match column {
                Some(c) => c,
                None => 1,
            };
            push_chars(&mut v, &dec_chars(c));
            string_of(&v)
        },
        None => owned(abs),
    }
}

/// The editor chosen: the one asked for, or for "auto" Cursor where it is
/// installed, else VS Code where it is, else none. Each is its command and
/// its name.
pub open spec fn editor_choice(pref: Seq<char>, cursor_found: bool, code_found: bool) -> Option<(Seq<char>, Seq<char>)> {
    if pref == "cursor"@ {
        Some(("cursor"@, "Cursor"@))
    } else if pref == "vscode"@ {
        Some(("code"@, "VS Code"@))
    } else if cursor_found {
        Some(("cursor"@, "Cursor"@))
    } else if code_found {
        Some(("code"@, "VS Code"@))
    } else {
        None
    }
}

/// The editor to launch, as `editor_choice` says; an error where "auto"
/// finds neither.
pub fn resolve_editor(pref: &str, cursor_found: bool, code_found: bool) -> (r: Result<(String, String), ToolError>)
    ensures
        match r {
            Ok((cmd, label)) => editor_choice(pref@, cursor_found, code_found) == Some((cmd@, label@)),
            Err(e) => editor_choice(pref@, cursor_found, code_found) is None && e is IoError,
        },
{
    proof {
        reveal_strlit("cursor");
        reveal_strlit("Cursor");
        reveal_strlit("code");
        reveal_strlit("VS Code");
    }
    if str_eq(pref, "cursor") {
        Ok((owned("cursor"), owned("Cursor")))
    } else if str_eq(pref, "vscode") {
        Ok((owned("code"), owned("VS Code")))
    } else if cursor_found {
        Ok((owned("cursor"), owned("Cursor")))
    } else if code_found {
        Ok((owned("code"), owned("VS Code")))
    } else {
        Err(ToolError::IoError { message: owned("Neither 'cursor' nor 'code' found in PATH.") })
    }
}

/// The answer once the editor was launched: the command shown as
/// "cmd --goto arg".
pub fn editor_opened(params: &OpenInEditorParams, cmd: &str, label: String, goto: &str) -> (r: OpenInEditorResult)
    ensures
        r.kind@ == "opened"@,
        r.path@ == params.path@,
        r.line == params.line,
        r.editor@ == label@,
        r.command@ == cmd@ + " --goto "@ + goto@,
{
    let mut c = chars_of(cmd);
    push_str(&mut c, " --goto ");
    push_str(&mut c, goto);
    proof {
        reveal_strlit("opened");
    }
    OpenInEditorResult {
        kind: owned("opened"),
        path: params.path.clone(),
        line: params.line,
        editor: label,
        command: string_of(&c),
    }
}

} // verus!
