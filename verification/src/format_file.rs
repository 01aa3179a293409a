//! Formatting a file with the formatter of its language.
use vstd::prelude::*;
use crate::error::ToolError;
use crate::text::{chars_of, owned, push_str, str_eq, string_of, strs};

verus! {

/// Parameters of `format_file`.
pub struct FormatFileParams {
    pub path: String,
    pub check_only: Option<bool>,
}

/// Result of `format_file`.
pub struct FormatFileResult {
    pub kind: String,
    pub path: String,
    pub formatter: String,
    /// "formatted" | "already_formatted" | "needs_formatting" | "UNSUPPORTED" | "FORMATTER_NOT_FOUND"
    pub status: String,
    pub check_only: bool,
    pub duration_ms: u64,
}

/// The formatters the tool knows.
#[derive(PartialEq, Eq, Structural, Clone, Copy)]
pub enum Formatter {
    Rustfmt,
    Black,
    Prettier,
    Gofmt,
}

pub open spec fn formatter_name(f: Formatter) -> Seq<char> {
    match f {
        Formatter::Rustfmt => "rustfmt"@,
        Formatter::Black => "black"@,
        Formatter::Prettier => "prettier"@,
        Formatter::Gofmt => "gofmt"@,
    }
}

pub open spec fn formatter_for(language: Seq<char>) -> Option<Formatter> {
    if language == "rust"@ {
        Some(Formatter::Rustfmt)
    } else if language == "python"@ {
        Some(Formatter::Black)
    } else if language == "javascript"@ || language == "typescript"@ || language == "tsx"@ || language
        == "jsx"@ {
        Some(Formatter::Prettier)
    } else if language == "go"@ {
        Some(Formatter::Gofmt)
    } else {
        None
    }
}

impl Formatter {
    /// The program name.
    pub fn name(self) -> (r: &'static str)
        ensures
            r@ == formatter_name(self),
    {
        match self {
            Formatter::Rustfmt => "rustfmt",
            Formatter::Black => "black",
            Formatter::Prettier => "prettier",
            Formatter::Gofmt => "gofmt",
        }
    }

    /// The formatter of a language, if any.
    pub fn detect(language: &str) -> (r: Option<Self>)
        ensures
            r == formatter_for(language@),
    {
        if str_eq(language, "rust") {
            Some(Formatter::Rustfmt)
        } else if str_eq(language, "python") {
            Some(Formatter::Black)
        } else if str_eq(language, "javascript") || str_eq(language, "typescript") || str_eq(
            language,
            "tsx",
        ) || str_eq(language, "jsx") {
            Some(Formatter::Prettier)
        } else if str_eq(language, "go") {
            Some(Formatter::Gofmt)
        } else {
            None
        }
    }
}

/// The arguments of a formatter run on `path`.
pub open spec fn formatter_args(f: Formatter, path: Seq<char>, check_only: bool) -> Seq<Seq<char>> {
    match f {
        Formatter::Rustfmt | Formatter::Black => if check_only {
            seq![path, "--check"@]
        } else {
            seq![path]
        },
        Formatter::Prettier => if check_only {
            seq!["--check"@, path]
        } else {
            seq!["--write"@, path]
        },
        Formatter::Gofmt => if check_only {
            seq!["-l"@, path]
        } else {
            seq!["-w"@, path]
        },
    }
}

/// The program and arguments that format (or check) `path`.
pub fn formatter_command(f: Formatter, path: &str, check_only: bool) -> (r: (String, Vec<String>))
    ensures
        r.0@ == formatter_name(f),
        strs(r.1@) == formatter_args(f, path@, check_only),
{
    let mut args: Vec<String> = Vec::new();
    match f {
        Formatter::Rustfmt | Formatter::Black => {
            args.push(owned(path));
            if check_only {
                args.push(owned("--check"));
            }
        },
        Formatter::Prettier => {
            args.push(if check_only { owned("--check") } else { owned("--write") });
            args.push(owned(path));
        },
        Formatter::Gofmt => {
            args.push(if check_only { owned("-l") } else { owned("-w") });
            args.push(owned(path));
        },
    }
    assert(strs(args@) =~= formatter_args(f, path@, check_only));
    (owned(f.name()), args)
}

/// `check_only.unwrap_or(false)`.
pub open spec fn check_only_of(p: FormatFileParams) -> bool {
    p.check_only == Some(true)
}

/// The result for a language without a formatter.
pub fn unsupported_result(params: &FormatFileParams) -> (r: FormatFileResult)
    ensures
        r.kind@ == "success"@,
        r.path == params.path,
        r.formatter@ == "none"@,
        r.status@ == "UNSUPPORTED"@,
        r.check_only == check_only_of(*params),
        r.duration_ms == 0,
{
    FormatFileResult {
        kind: owned("success"),
        path: params.path.clone(),
        formatter: owned("none"),
        status: owned("UNSUPPORTED"),
        check_only: params.check_only == Some(true),
        duration_ms: 0,
    }
}

/// The result when the formatter is not installed.
pub fn not_found_result(params: &FormatFileParams, f: Formatter) -> (r: FormatFileResult)
    ensures
        r.kind@ == "success"@,
        r.path == params.path,
        r.formatter@ == formatter_name(f),
        r.status@ == "FORMATTER_NOT_FOUND"@,
        r.check_only == check_only_of(*params),
        r.duration_ms == 0,
{
    FormatFileResult {
        kind: owned("success"),
        path: params.path.clone(),
        formatter: owned(f.name()),
        status: owned("FORMATTER_NOT_FOUND"),
        check_only: params.check_only == Some(true),
        duration_ms: 0,
    }
}

/// The result of a formatter run that exited with `success` after
/// `duration_ms`: a check reports whether the file needs formatting; a
/// formatting run that failed is an error with the formatter's error output.
pub fn run_format_file(
    params: &FormatFileParams,
    f: Formatter,
    success: bool,
    stderr: &str,
    duration_ms: u64,
) -> (r: Result<FormatFileResult, ToolError>)
    ensures
        !check_only_of(*params) && !success ==> (r matches Err(ToolError::IoError { message })
            && message@ == formatter_name(f) + " failed: "@ + stderr@),
        check_only_of(*params) || success ==> (r matches Ok(res) && {
            &&& res.kind@ == "success"@
            &&& res.path == params.path
            &&& res.formatter@ == formatter_name(f)
            &&& res.check_only == check_only_of(*params)
            &&& res.duration_ms == duration_ms
            &&& res.status@ == if check_only_of(*params) {
                if success { "already_formatted"@ } else { "needs_formatting"@ }
            } else {
                "formatted"@
            }
        }),
{
    let check_only = params.check_only == Some(true);
    let status = if check_only {
        if success { owned("already_formatted") } else { owned("needs_formatting") }
    } else if success {
        owned("formatted")
    } else {
        let mut m = chars_of(f.name());
        push_str(&mut m, " failed: ");
        push_str(&mut m, stderr);
        return Err(ToolError::IoError { message: string_of(&m) });
    };
    Ok(FormatFileResult {
        kind: owned("success"),
        path: params.path.clone(),
        formatter: owned(f.name()),
        status,
        check_only,
        duration_ms,
    })
}

} // verus!
