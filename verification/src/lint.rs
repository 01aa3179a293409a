//! Linting a file: choosing the linter, its command line, and reading its
//! JSON diagnostics (given here as the fields each linter reports).
use vstd::prelude::*;
use crate::error::ToolError;
use crate::text::{lower_text, owned, str_eq, strs, to_lowercase};

verus! {

/// Most diagnostics listed.
pub const MAX_RESULTS: usize = 50;

/// Parameters of `lint_file`.
pub struct LintFileParams {
    pub path: String,
    pub linter: Option<String>,
    pub fix: Option<bool>,
}

/// One finding.
pub struct Diagnostic {
    /// "error" | "warning" | "info"
    pub severity: String,
    pub rule: String,
    pub message: String,
    pub line: Option<u32>,
    pub column: Option<u32>,
}

/// Result of `lint_file`.
pub struct LintFileResult {
    pub linter: String,
    pub path: String,
    pub diagnostics: Vec<Diagnostic>,
    pub total_issues: usize,
    pub truncated: bool,
    pub fixed: Option<u32>,
    pub duration_ms: u64,
}

/// The supported linters.
#[derive(PartialEq, Eq, Structural, Clone, Copy)]
pub enum Linter {
    Clippy,
    Eslint,
    Ruff,
}

pub open spec fn linter_label(l: Linter) -> Seq<char> {
    match l {
        Linter::Clippy => "cargo clippy"@,
        Linter::Eslint => "eslint"@,
        Linter::Ruff => "ruff"@,
    }
}

impl Linter {
    /// The name shown for the linter.
    pub fn label(&self) -> (r: &'static str)
        ensures
            r@ == linter_label(*self),
    {
        match self {
            Linter::Clippy => "cargo clippy",
            Linter::Eslint => "eslint",
            Linter::Ruff => "ruff",
        }
    }
}

/// The linter a hint names.
pub open spec fn linter_named(h: Seq<char>) -> Option<Linter> {
    if h == "clippy"@ || h == "rust"@ || h == "cargo"@ {
        Some(Linter::Clippy)
    } else if h == "eslint"@ || h == "js"@ || h == "ts"@ {
        Some(Linter::Eslint)
    } else if h == "ruff"@ || h == "python"@ {
        Some(Linter::Ruff)
    } else {
        None
    }
}

/// The linter of a file extension.
pub open spec fn linter_for_ext(ext: Seq<char>) -> Option<Linter> {
    if ext == "rs"@ {
        Some(Linter::Clippy)
    } else if ext == "ts"@ || ext == "tsx"@ || ext == "js"@ || ext == "jsx"@ || ext == "mjs"@ || ext == "cjs"@ {
        Some(Linter::Eslint)
    } else if ext == "py"@ {
        Some(Linter::Ruff)
    } else {
        None
    }
}

/// Chooses the linter: by the hint (ignoring case), else by the extension
/// of the file, else by the project files of the workspace (`Cargo.toml`,
/// then `package.json`).
pub fn detect_linter(hint: &Option<String>, ext: &str, has_cargo_toml: bool, has_package_json: bool) -> (r: Result<
    Linter,
    ToolError,
>)
    ensures
        hint matches Some(h) ==> match linter_named(lower_text(h@)) {
            Some(l) => r == Ok::<Linter, ToolError>(l),
            None => r matches Err(ToolError::UnsupportedLanguage { language, hint: m }) && language@ == lower_text(h@)
                && m@ == "Supported linters: clippy, eslint, ruff"@,
        },
        hint is None ==> match linter_for_ext(ext@) {
            Some(l) => r == Ok::<Linter, ToolError>(l),
            None => if has_cargo_toml {
                r == Ok::<Linter, ToolError>(Linter::Clippy)
            } else if has_package_json {
                r == Ok::<Linter, ToolError>(Linter::Eslint)
            } else {
                r matches Err(ToolError::UnsupportedLanguage { language, hint: m }) && language@ == ext@
                    && m@ == "Cannot detect linter. Use linter param: clippy|eslint|ruff"@
            },
        },
{
    match hint {
        Some(h) => {
            let l = to_lowercase(h.as_str());
            let s = l.as_str();
            if str_eq(s, "clippy") || str_eq(s, "rust") || str_eq(s, "cargo") {
                Ok(Linter::Clippy)
            } else if str_eq(s, "eslint") || str_eq(s, "js") || str_eq(s, "ts") {
                Ok(Linter::Eslint)
            } else if str_eq(s, "ruff") || str_eq(s, "python") {
                Ok(Linter::Ruff)
            } else {
                Err(ToolError::UnsupportedLanguage {
                    language: owned(s),
                    hint: owned("Supported linters: clippy, eslint, ruff"),
                })
            }
        },
        None => {
            if str_eq(ext, "rs") {
                Ok(Linter::Clippy)
            } else if str_eq(ext, "ts") || str_eq(ext, "tsx") || str_eq(ext, "js") || str_eq(ext, "jsx") || str_eq(
                ext,
                "mjs",
            ) || str_eq(ext, "cjs") {
                Ok(Linter::Eslint)
            } else if str_eq(ext, "py") {
                Ok(Linter::Ruff)
            } else if has_cargo_toml {
                Ok(Linter::Clippy)
            } else if has_package_json {
                Ok(Linter::Eslint)
            } else {
                Err(ToolError::UnsupportedLanguage {
                    language: owned(ext),
                    hint: owned("Cannot detect linter. Use linter param: clippy|eslint|ruff"),
                })
            }
        },
    }
}

/// The command line of a linter run (program first).
pub open spec fn linter_argv(l: Linter, path: Seq<char>, fix: bool) -> Seq<Seq<char>> {
    match l {
        Linter::Clippy => seq!["cargo"@, "clippy"@, "--message-format"@, "json"@, "--quiet"@] + if fix {
            seq!["--fix"@, "--allow-dirty"@]
        } else {
            Seq::<Seq<char>>::empty()
        },
        Linter::Eslint => seq!["npx"@, "eslint"@, "--format"@, "json"@, path] + if fix {
            seq!["--fix"@]
        } else {
            Seq::<Seq<char>>::empty()
        },
        Linter::Ruff => seq!["ruff"@, "check"@, "--output-format"@, "json"@, path] + if fix {
            seq!["--fix"@]
        } else {
            Seq::<Seq<char>>::empty()
        },
    }
}

/// The command line that lints `abs_path` (fixing what it can with `fix`).
pub fn linter_command(l: Linter, abs_path: &str, fix: bool) -> (r: Vec<String>)
    ensures
        strs(r@) == linter_argv(l, abs_path@, fix),
{
    let mut a: Vec<String> = Vec::new();
    match l {
        Linter::Clippy => {
            a.push(owned("cargo"));
            a.push(owned("clippy"));
            a.push(owned("--message-format"));
            a.push(owned("json"));
            a.push(owned("--quiet"));
            if fix {
                a.push(owned("--fix"));
                a.push(owned("--allow-dirty"));
            }
        },
        Linter::Eslint => {
            a.push(owned("npx"));
            a.push(owned("eslint"));
            a.push(owned("--format"));
            a.push(owned("json"));
            a.push(owned(abs_path));
            if fix {
                a.push(owned("--fix"));
            }
        },
        Linter::Ruff => {
            a.push(owned("ruff"));
            a.push(owned("check"));
            a.push(owned("--output-format"));
            a.push(owned("json"));
            a.push(owned(abs_path));
            if fix {
                a.push(owned("--fix"));
            }
        },
    }
    assert(strs(a@) =~= linter_argv(l, abs_path@, fix));
    a
}

// ─── Reading the diagnostics ────────────────────────────────────────────────

/// A JSON line of `cargo clippy --message-format json`.
pub struct ClippyLine {
    pub reason: Option<String>,
    pub level: Option<String>,
    pub message: Option<String>,
    pub code: Option<String>,
    /// Line and column of the first span.
    pub line_start: Option<u64>,
    pub column_start: Option<u64>,
}

/// A message of an ESLint file report.
pub struct EslintMessage {
    pub severity: Option<u64>,
    pub rule_id: Option<String>,
    pub message: Option<String>,
    pub line: Option<u64>,
    pub column: Option<u64>,
}

/// The report of one file by ESLint.
pub struct EslintFile {
    pub fixable_error_count: Option<u64>,
    pub fixable_warning_count: Option<u64>,
    pub messages: Vec<EslintMessage>,
}

/// An item of `ruff check --output-format json`.
pub struct RuffItem {
    pub code: Option<String>,
    pub message: Option<String>,
    pub row: Option<u64>,
    pub column: Option<u64>,
}

pub open spec fn text_or(o: Option<String>, d: Seq<char>) -> Seq<char> {
    match o {
        Some(s) => s@,
        None => d,
    }
}

pub open spec fn low32(o: Option<u64>) -> Option<u32> {
    match o {
        Some(v) => Some(v as u32),
        None => None,
    }
}

pub open spec fn diag_view(d: Diagnostic) -> (Seq<char>, Seq<char>, Seq<char>, Option<u32>, Option<u32>) {
    (d.severity@, d.rule@, d.message@, d.line, d.column)
}

fn text_or_default(o: &Option<String>, d: &str) -> (r: String)
    ensures
        r@ == text_or(*o, d@),
{
    match o {
        Some(s) => s.clone(),
        None => owned(d),
    }
}

fn low32_of(o: Option<u64>) -> (r: Option<u32>)
    ensures
        r == low32(o),
{
    match o {
        Some(v) => Some(v as u32),
        None => None,
    }
}

/// The diagnostics of the compiler messages among clippy's lines.
pub open spec fn clippy_diags(lines: Seq<ClippyLine>) -> Seq<(Seq<char>, Seq<char>, Seq<char>, Option<u32>, Option<u32>)>
    decreases lines.len(),
{
    if lines.len() == 0 {
        seq![]
    } else {
        let prev = clippy_diags(lines.drop_last());
        let l = lines.last();
        if l.reason matches Some(r) && r@ == "compiler-message"@ {
            prev.push((text_or(l.level, "warning"@), text_or(l.code, ""@), text_or(l.message, ""@), low32(l.line_start), low32(l.column_start)))
        } else {
            prev
        }
    }
}

/// `parse_clippy` on the JSON lines of clippy's output.
pub fn parse_clippy(lines: &Vec<ClippyLine>) -> (r: (Vec<Diagnostic>, Option<u32>))
    ensures
        r.0@.map_values(|d: Diagnostic| diag_view(d)) == clippy_diags(lines@),
        r.1 is None,
{
    let mut out: Vec<Diagnostic> = Vec::new();
    let mut i: usize = 0;
    proof {
        reveal_strlit("");
    }
    while i < lines.len()
        invariant
            i <= lines.len(),
            out@.map_values(|d: Diagnostic| diag_view(d)) == clippy_diags(lines@.take(i as int)),
        decreases lines.len() - i,
    {
        assert(lines@.take(i + 1).drop_last() =~= lines@.take(i as int));
        let l = &lines[i];
        let is_msg = match &l.reason {
            Some(r) => str_eq(r.as_str(), "compiler-message"),
            None => false,
        };
        if is_msg {
            let ghost before = out@.map_values(|d: Diagnostic| diag_view(d));
            let d = Diagnostic {
                severity: text_or_default(&l.level, "warning"),
                rule: text_or_default(&l.code, ""),
                message: text_or_default(&l.message, ""),
                line: low32_of(l.line_start),
                column: low32_of(l.column_start),
            };
            out.push(d);
            assert(out@.map_values(|d: Diagnostic| diag_view(d)) =~= before.push(diag_view(d)));
        }
        i = i + 1;
    }
    assert(lines@.take(lines.len() as int) =~= lines@);
    (out, None)
}

pub open spec fn severity_name(s: Option<u64>) -> Seq<char> {
    if s == Some(2u64) {
        "error"@
    } else if s == Some(1u64) {
        "warning"@
    } else {
        "info"@
    }
}

pub open spec fn eslint_msg_diags(ms: Seq<EslintMessage>) -> Seq<(Seq<char>, Seq<char>, Seq<char>, Option<u32>, Option<u32>)> {
    ms.map_values(|m: EslintMessage| (severity_name(m.severity), text_or(m.rule_id, ""@), text_or(m.message, ""@), low32(m.line), low32(m.column)))
}

/// The diagnostics of ESLint's file reports, file by file.
pub open spec fn eslint_diags(files: Seq<EslintFile>) -> Seq<(Seq<char>, Seq<char>, Seq<char>, Option<u32>, Option<u32>)>
    decreases files.len(),
{
    if files.len() == 0 {
        seq![]
    } else {
        eslint_diags(files.drop_last()) + eslint_msg_diags(files.last().messages@)
    }
}

pub open spec fn count_of(o: Option<u64>) -> nat {
    match o {
        Some(v) => (v as u32) as nat,
        None => 0,
    }
}

/// The fixable problems of the reports (each count taken as a `u32`).
pub open spec fn fixable_total(files: Seq<EslintFile>) -> nat
    decreases files.len(),
{
    if files.len() == 0 {
        0
    } else {
        fixable_total(files.drop_last()) + count_of(files.last().fixable_error_count) + count_of(files.last().fixable_warning_count)
    }
}

proof fn lemma_fixable_mono(files: Seq<EslintFile>, k: int)
    requires
        0 <= k <= files.len(),
    ensures
        fixable_total(files.take(k)) <= fixable_total(files),
    decreases files.len() - k,
{
    if k < files.len() {
        lemma_fixable_mono(files, k + 1);
        assert(files.take(k + 1).drop_last() =~= files.take(k));
    } else {
        assert(files.take(k) =~= files);
    }
}

/// `parse_eslint` on ESLint's file reports: the diagnostics, and with `fix`
/// the number of fixable problems.
pub fn parse_eslint(files: &Vec<EslintFile>, fix: bool) -> (r: (Vec<Diagnostic>, Option<u32>))
    requires
        fix ==> fixable_total(files@) <= u32::MAX,
    ensures
        r.0@.map_values(|d: Diagnostic| diag_view(d)) == eslint_diags(files@),
        fix ==> r.1 == Some(fixable_total(files@) as u32),
        !fix ==> r.1 is None,
{
    let mut out: Vec<Diagnostic> = Vec::new();
    let mut fixed: u32 = 0;
    let mut i: usize = 0;
    proof {
        reveal_strlit("");
    }
    while i < files.len()
        invariant
            i <= files.len(),
            fix ==> fixable_total(files@) <= u32::MAX,
            out@.map_values(|d: Diagnostic| diag_view(d)) == eslint_diags(files@.take(i as int)),
            fix ==> fixed == fixable_total(files@.take(i as int)),
        decreases files.len() - i,
    {
        assert(files@.take(i + 1).drop_last() =~= files@.take(i as int));
        let f = &files[i];
        if fix {
            proof {
                lemma_fixable_mono(files@, i + 1);
            }
            let e: u32 = match f.fixable_error_count {
                Some(v) => v as u32,
                None => 0,
            };
            let w: u32 = match f.fixable_warning_count {
                Some(v) => v as u32,
                None => 0,
            };
            fixed = fixed + e;
            fixed = fixed + w;
        }
        let ghost base = out@.map_values(|d: Diagnostic| diag_view(d));
        let mut k: usize = 0;
        while k < f.messages.len()
            invariant
                k <= f.messages.len(),
                out@.map_values(|d: Diagnostic| diag_view(d)) == base + eslint_msg_diags(f.messages@.take(k as int)),
            decreases f.messages.len() - k,
        {
            let m = &f.messages[k];
            let sev = if m.severity == Some(2u64) {
                owned("error")
            } else if m.severity == Some(1u64) {
                owned("warning")
            } else {
                owned("info")
            };
            let d = Diagnostic {
                severity: sev,
                rule: text_or_default(&m.rule_id, ""),
                message: text_or_default(&m.message, ""),
                line: low32_of(m.line),
                column: low32_of(m.column),
            };
            let ghost before = out@.map_values(|d: Diagnostic| diag_view(d));
            out.push(d);
            assert(out@.map_values(|d: Diagnostic| diag_view(d)) =~= before.push(diag_view(d)));
            assert(f.messages@.take(k + 1) =~= f.messages@.take(k as int).push(f.messages@[k as int]));
            assert(eslint_msg_diags(f.messages@.take(k + 1)) =~= eslint_msg_diags(f.messages@.take(k as int)).push(diag_view(d)));
            k = k + 1;
        }
        assert(f.messages@.take(f.messages.len() as int) =~= f.messages@);
        i = i + 1;
    }
    assert(files@.take(files.len() as int) =~= files@);
    (out, if fix { Some(fixed) } else { None })
}

pub open spec fn ruff_diags(items: Seq<RuffItem>) -> Seq<(Seq<char>, Seq<char>, Seq<char>, Option<u32>, Option<u32>)> {
    items.map_values(|it: RuffItem| ("warning"@, text_or(it.code, ""@), text_or(it.message, ""@), low32(it.row), low32(it.column)))
}

/// `parse_ruff` on ruff's items.
pub fn parse_ruff(items: &Vec<RuffItem>) -> (r: (Vec<Diagnostic>, Option<u32>))
    ensures
        r.0@.map_values(|d: Diagnostic| diag_view(d)) == ruff_diags(items@),
        r.1 is None,
{
    let mut out: Vec<Diagnostic> = Vec::new();
    let mut i: usize = 0;
    proof {
        reveal_strlit("");
    }
    while i < items.len()
        invariant
            i <= items.len(),
            out@.map_values(|d: Diagnostic| diag_view(d)) == ruff_diags(items@.take(i as int)),
        decreases items.len() - i,
    {
        let it = &items[i];
        let d = Diagnostic {
            severity: owned("warning"),
            rule: text_or_default(&it.code, ""),
            message: text_or_default(&it.message, ""),
            line: low32_of(it.row),
            column: low32_of(it.column),
        };
        let ghost before = out@.map_values(|d: Diagnostic| diag_view(d));
        out.push(d);
        assert(out@.map_values(|d: Diagnostic| diag_view(d)) =~= before.push(diag_view(d)));
        assert(items@.take(i + 1) =~= items@.take(i as int).push(items@[i as int]));
        assert(ruff_diags(items@.take(i + 1)) =~= ruff_diags(items@.take(i as int)).push(diag_view(d)));
        i = i + 1;
    }
    assert(items@.take(items.len() as int) =~= items@);
    (out, None)
}

/// The result of a run: at most `MAX_RESULTS` diagnostics, with the total.
pub fn lint_file_result(l: Linter, path: &str, diags: Vec<Diagnostic>, fixed: Option<u32>, duration_ms: u64) -> (r:
    LintFileResult)
    ensures
        r.linter@ == linter_label(l),
        r.path@ == path@,
        r.total_issues == diags.len(),
        r.truncated == (diags.len() > MAX_RESULTS),
        r.diagnostics@ == (if diags.len() > MAX_RESULTS { diags@.take(MAX_RESULTS as int) } else { diags@ }),
        r.fixed == fixed,
        r.duration_ms == duration_ms,
{
    let total = diags.len();
    let mut ds = diags;
    if total > MAX_RESULTS {
        ds.truncate(MAX_RESULTS);
    }
    LintFileResult {
        linter: owned(l.label()),
        path: owned(path),
        diagnostics: ds,
        total_issues: total,
        truncated: total > MAX_RESULTS,
        fixed,
        duration_ms,
    }
}

} // verus!
