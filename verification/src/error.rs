//! Error values returned by the tools.
use vstd::prelude::*;

verus! {

/// One place where an `old_string` matched.
pub struct MatchLocation {
    /// 1-based line number of the match.
    pub line: usize,
    /// The text of that line from its start, at most 72 characters.
    pub context: String,
}

/// Shortened view of a failing edit.
pub struct EditPreview {
    pub old_string: String,
    pub new_string: String,
}

/// Failures of the tools.
pub enum ToolError {
    MissingParameter { missing: String, hint: String },
    IoError { message: String },
    FileNotFound { file_path: String, hint: String },
    FileNotRead { file_path: String, hint: String },
    NoChanges { hint: String, unicode_note: Option<String> },
    PathEscape { file_path: String, hint: String },
    InvalidRegex { pattern: String, message: String, hint: String },
    UnsupportedLanguage { language: String, hint: String },
    GitError { message: String, hint: String },
    SyntaxError { language: String, errors: Vec<String>, hint: String },
    FileModified { file_path: String, read_at: String, hint: String, tip: String },
    MkdirFailed { path: String, hint: String },
    LspError { message: String, hint: String },
    LspTimeout { language: String, hint: String },
    MultipleMatches { count: usize, locations: Vec<MatchLocation>, hint: String },
    StringNotFound {
        file_path: String,
        old_string_preview: String,
        suggestions: Vec<String>,
        hint: String,
    },
    EditFailed {
        edit_index: usize,
        edit_preview: EditPreview,
        cause: Box<ToolError>,
        file_state: String,
        hint: String,
    },
}

/// Errors in the request itself (a missing parameter, a path leaving the
/// workspace, a bad pattern): the protocol reports them as invalid
/// parameters; every other error is a failed tool call.
pub open spec fn protocol_error(e: ToolError) -> bool {
    e is MissingParameter || e is PathEscape || e is InvalidRegex
}

pub fn is_protocol_error(e: &ToolError) -> (r: bool)
    ensures
        r == protocol_error(*e),
{
    match e {
        ToolError::MissingParameter { .. } => true,
        ToolError::PathEscape { .. } => true,
        ToolError::InvalidRegex { .. } => true,
        _ => false,
    }
}

} // verus!
