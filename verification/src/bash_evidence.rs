//! Evidence of shell commands: whether a test run shows a failing (red) or
//! passing (green) state, and the stored tails of its output.
use vstd::prelude::*;
use vstd::utf8::{encode_utf8, is_char_boundary};
use crate::error::ToolError;
use crate::text::{chars_of, contains, lemma_encode_concat, lower_text, owned, push_str, str_contains, str_eq, string_of, to_lowercase, trim, trim_str};

verus! {

/// Parameters of `sy_posttool_bash`.
pub struct PosttoolBashParams {
    pub command: String,
    pub exit_code: i32,
    pub stdout: Option<String>,
    pub stderr: Option<String>,
    pub node_id: Option<String>,
    pub run_id: Option<String>,
    pub phase: Option<String>,
}

/// Result of `sy_posttool_bash`.
pub struct PosttoolBashResult {
    pub kind: String,
    pub command: String,
    pub exit_code: i32,
    /// build | test | lint | typecheck | security | other
    pub phase: String,
    pub key_signal: Option<String>,
    /// "red" | "green"
    pub tdd_evidence: Option<String>,
    pub recorded: bool,
}

/// A command is required.
pub fn check_command(params: &PosttoolBashParams) -> (r: Result<(), ToolError>)
    ensures
        r is Ok <==> trim(params.command@).len() > 0,
        trim(params.command@).len() == 0 ==> (r matches Err(ToolError::MissingParameter { missing, hint })
            && missing@ == "command"@ && hint@ == "Provide the command that was executed."@),
{
    let t = trim_str(params.command.as_str());
    if t.as_str().is_empty() {
        return Err(ToolError::MissingParameter {
            missing: owned("command"),
            hint: owned("Provide the command that was executed."),
        });
    }
    Ok(())
}

/// The TDD evidence of a test run: green when it passed and says so, red
/// when it failed and says so (in either output, ignoring case).
pub open spec fn tdd_evidence(stdout: Seq<char>, stderr: Seq<char>, exit_code: i32, phase: Seq<char>) -> Option<Seq<char>> {
    let c = lower_text(stdout + " "@ + stderr);
    if phase != "test"@ {
        None
    } else if exit_code == 0 && (contains(c, "test result: ok"@) || contains(c, "passed"@)) {
        Some("green"@)
    } else if exit_code != 0 && (contains(c, "failed"@) || contains(c, "error"@)) {
        Some("red"@)
    } else {
        None
    }
}

/// `detect_tdd_evidence`.
pub fn detect_tdd_evidence(stdout: &str, stderr: &str, exit_code: i32, phase: &str) -> (r: Option<&'static str>)
    ensures
        match tdd_evidence(stdout@, stderr@, exit_code, phase@) {
            Some(e) => r matches Some(x) && x@ == e,
            None => r is None,
        },
{
    if !str_eq(phase, "test") {
        return None;
    }
    let mut v = chars_of(stdout);
    push_str(&mut v, " ");
    push_str(&mut v, stderr);
    let joined = string_of(&v);
    let c = to_lowercase(joined.as_str());
    if exit_code == 0 && (str_contains(c.as_str(), "test result: ok") || str_contains(c.as_str(), "passed")) {
        Some("green")
    } else if exit_code != 0 && (str_contains(c.as_str(), "failed") || str_contains(c.as_str(), "error")) {
        Some("red")
    } else {
        None
    }
}

/// Keeps the last `max_bytes` bytes of `s` behind a marker, or all of it
/// when it is short enough.
pub fn truncate_tail(s: &str, max_bytes: usize) -> (r: String)
    requires
        encode_utf8(s@).len() <= usize::MAX,
        encode_utf8(s@).len() > max_bytes ==> is_char_boundary(encode_utf8(s@), encode_utf8(s@).len() - max_bytes),
    ensures
        encode_utf8(s@).len() <= max_bytes ==> r@ == s@,
        encode_utf8(s@).len() > max_bytes ==> encode_utf8(r@) == encode_utf8("[...truncated]\n"@) + encode_utf8(s@).subrange(
            encode_utf8(s@).len() - max_bytes,
            encode_utf8(s@).len() as int,
        ),
{
    let n = s.len();
    if n <= max_bytes {
        return owned(s);
    }
    let start = n - max_bytes;
    let (_, tail) = s.split_at(start);
    let mut v = chars_of("[...truncated]\n");
    push_str(&mut v, tail);
    proof {
        lemma_encode_concat("[...truncated]\n"@, tail@);
    }
    string_of(&v)
}

/// The answer to `sy_posttool_bash` once the evidence is recorded.
pub fn posttool_bash_result(
    params: &PosttoolBashParams,
    phase: &str,
    key_signal: String,
    tdd: Option<&str>,
    recorded: bool,
) -> (r: PosttoolBashResult)
    ensures
        r.kind@ == "recorded"@,
        r.command == params.command,
        r.exit_code == params.exit_code,
        r.phase@ == phase@,
        r.key_signal == Some(key_signal),
        match tdd {
            Some(t) => r.tdd_evidence matches Some(x) && x@ == t@,
            None => r.tdd_evidence is None,
        },
        r.recorded == recorded,
{
    PosttoolBashResult {
        kind: owned("recorded"),
        command: params.command.clone(),
        exit_code: params.exit_code,
        phase: owned(phase),
        key_signal: Some(key_signal),
        tdd_evidence: match tdd {
            Some(t) => Some(owned(t)),
            None => None,
        },
        recorded,
    }
}

} // verus!
