//! Finding files by glob pattern.
use vstd::prelude::*;
use crate::error::ToolError;
use crate::text::{dec, dec_chars_u64, owned, push_str, string_of, trim, trim_str};

verus! {

#[verifier::external_type_specification]
#[verifier::external_body]
pub struct ExGlob(globset::Glob);

#[verifier::external_type_specification]
#[verifier::external_body]
pub struct ExGlobSet(globset::GlobSet);

/// The glob `p` builds, with a backslash escaping the next character when
/// `escape` holds (`GlobBuilder::backslash_escape`, other options at their
/// defaults).
pub uninterp spec fn glob_parses(p: Seq<char>, escape: bool) -> bool;

/// The message of the error that building the glob `p` returns.
pub uninterp spec fn glob_parse_error(p: Seq<char>, escape: bool) -> Seq<char>;

/// `GlobSetBuilder::build` succeeds for the set of that one glob.
pub uninterp spec fn globset_builds(p: Seq<char>, escape: bool) -> bool;

/// The message of the error that building the set of that glob returns.
pub uninterp spec fn globset_build_error(p: Seq<char>, escape: bool) -> Seq<char>;

/// `GlobSet::is_match`: the set of that one glob matches `path`, a path
/// that holds no backslash (on such a path globset's own separator
/// normalization changes nothing on any platform).
pub uninterp spec fn glob_matches(p: Seq<char>, escape: bool, path: Seq<char>) -> bool;

/// A parsed glob, its pattern and whether a backslash escapes in it.
pub struct ParsedGlob {
    glob: globset::Glob,
    source: String,
    escape: bool,
}

/// A glob set of one glob, its pattern and whether a backslash escapes in it.
pub struct GlobMatcher {
    set: globset::GlobSet,
    source: String,
    escape: bool,
}

impl ParsedGlob {
    pub closed spec fn source(&self) -> Seq<char> {
        self.source@
    }

    pub closed spec fn escape(&self) -> bool {
        self.escape
    }

    /// `GlobBuilder::new(p).backslash_escape(escape).build()`; the error
    /// becomes its message.
    #[verifier::external_body]
    fn parse(p: &str, escape: bool) -> (r: Result<ParsedGlob, String>)
        ensures
            r is Ok <==> glob_parses(p@, escape),
            r matches Ok(g) ==> g.source() == p@ && g.escape() == escape,
            r matches Err(e) ==> e@ == glob_parse_error(p@, escape),
    {
        match globset::GlobBuilder::new(p).backslash_escape(escape).build() {
            Ok(glob) => Ok(ParsedGlob { glob, source: p.to_string(), escape }),
            Err(e) => Err(e.to_string()),
        }
    }

    /// `GlobSetBuilder::build` of a set holding this glob.
    #[verifier::external_body]
    fn into_matcher(self) -> (r: Result<GlobMatcher, String>)
        ensures
            r is Ok <==> globset_builds(self.source(), self.escape()),
            r matches Ok(m) ==> m.source() == self.source() && m.escape() == self.escape(),
            r matches Err(e) ==> e@ == globset_build_error(self.source(), self.escape()),
    {
        let mut builder = globset::GlobSetBuilder::new();
        builder.add(self.glob);
        match builder.build() {
            Ok(set) => Ok(GlobMatcher { set, source: self.source, escape: self.escape }),
            Err(e) => Err(e.to_string()),
        }
    }
}

impl GlobMatcher {
    pub closed spec fn source(&self) -> Seq<char> {
        self.source@
    }

    pub closed spec fn escape(&self) -> bool {
        self.escape
    }

    /// `GlobSet::is_match` on a relative path. Where the path holds a
    /// backslash the answer depends on the platform (a separator on
    /// Windows, an ordinary character elsewhere), and nothing is said of it.
    #[verifier::external_body]
    fn set_matches(&self, path: &str) -> (r: bool)
        ensures
            !path@.contains('\\') ==> r == glob_matches(self.source(), self.escape(), path@),
    {
        self.set.is_match(path)
    }

    /// Whether the relative path matches the pattern.
    pub fn matches(&self, path: &str) -> (r: bool)
        ensures
            !path@.contains('\\') ==> r == glob_matches(self.source(), self.escape(), path@),
    {
        self.set_matches(path)
    }
}

/// Parameters of `find_files`.
pub struct FindFilesParams {
    pub pattern: String,
    pub respect_gitignore: Option<bool>,
    pub show_hidden: Option<bool>,
    pub limit: Option<usize>,
}

/// One file found.
pub struct FileMatch {
    pub path: String,
    pub size_bytes: u64,
    pub modified_ago: String,
}

/// Result of `find_files`.
pub struct FindFilesResult {
    /// "success" | "empty"
    pub kind: String,
    pub pattern: String,
    pub total: usize,
    pub truncated: bool,
    pub files: Vec<FileMatch>,
}

/// `limit.unwrap_or(200).min(1000)`.
pub open spec fn find_limit(l: Option<usize>) -> nat {
    let n: nat = match l {
        Some(x) => x as nat,
        None => 200,
    };
    if n < 1000 { n } else { 1000 }
}

/// The matcher, the limit and the walk options (respect ignore files, show
/// hidden files) of a search, or why the pattern is refused. `escape` is
/// whether a backslash escapes in a glob, which `Glob::new` decides by the
/// platform (it does where a backslash is not a path separator).
pub fn find_files_setup(params: &FindFilesParams, escape: bool) -> (r: Result<(GlobMatcher, usize, bool, bool), ToolError>)
    ensures
        trim(params.pattern@).len() == 0 ==> (r matches Err(ToolError::MissingParameter { missing, hint })
            && missing@ == "pattern"@ && hint@ == "Provide a glob pattern e.g. \"src/**/*.rs\"."@),
        trim(params.pattern@).len() > 0 && !glob_parses(params.pattern@, escape) ==> (r matches Err(ToolError::InvalidRegex { pattern, message, hint })
            && pattern == params.pattern && message@ == glob_parse_error(params.pattern@, escape)
            && hint@ == "Use standard glob syntax: *, **, ?, [abc]."@),
        trim(params.pattern@).len() > 0 && glob_parses(params.pattern@, escape) && !globset_builds(params.pattern@, escape) ==> (r matches Err(ToolError::InvalidRegex { pattern, message, hint })
            && pattern == params.pattern && message@ == globset_build_error(params.pattern@, escape)
            && hint@ == "Invalid glob pattern."@),
        trim(params.pattern@).len() > 0 && glob_parses(params.pattern@, escape) && globset_builds(params.pattern@, escape) ==> (r matches Ok((m, limit, ignore, hidden))
            && m.source() == params.pattern@ && m.escape() == escape && limit == find_limit(params.limit)
            && ignore == (params.respect_gitignore != Some(false)) && hidden == (params.show_hidden == Some(true))),
{
    let t = trim_str(params.pattern.as_str());
    if t.as_str().is_empty() {
        return Err(ToolError::MissingParameter {
            missing: owned("pattern"),
            hint: owned("Provide a glob pattern e.g. \"src/**/*.rs\"."),
        });
    }
    let limit: usize = match params.limit {
        Some(x) => if x < 1000 { x } else { 1000 },
        None => 200,
    };
    let use_ignore = params.respect_gitignore != Some(false);
    let hidden = params.show_hidden == Some(true);
    let parsed = match ParsedGlob::parse(params.pattern.as_str(), escape) {
        Ok(g) => g,
        Err(m) => {
            return Err(ToolError::InvalidRegex {
                pattern: params.pattern.clone(),
                message: m,
                hint: owned("Use standard glob syntax: *, **, ?, [abc]."),
            });
        },
    };
    match parsed.into_matcher() {
        Ok(m) => Ok((m, limit, use_ignore, hidden)),
        Err(e) => Err(ToolError::InvalidRegex {
            pattern: params.pattern.clone(),
            message: e,
            hint: owned("Invalid glob pattern."),
        }),
    }
}

/// How long ago, in the largest unit that fits: seconds, minutes, hours,
/// days or weeks (rounded down).
pub open spec fn ago_text(secs: nat) -> Seq<char> {
    if secs < 60 {
        dec(secs) + "s"@
    } else if secs < 3600 {
        dec(secs / 60) + "m"@
    } else if secs < 86400 {
        dec(secs / 3600) + "h"@
    } else if secs < 604800 {
        dec(secs / 86400) + "d"@
    } else {
        dec(secs / 604800) + "w"@
    }
}

/// `format_modified_ago` for an age in seconds.
pub fn format_modified_ago(secs: u64) -> (r: String)
    ensures
        r@ == ago_text(secs as nat),
{
    let (n, unit) = if secs < 60 {
        (secs, "s")
    } else if secs < 3600 {
        (secs / 60, "m")
    } else if secs < 86400 {
        (secs / 3600, "h")
    } else if secs < 604800 {
        (secs / 86400, "d")
    } else {
        (secs / 604800, "w")
    };
    let mut v = dec_chars_u64(n);
    push_str(&mut v, unit);
    string_of(&v)
}

/// Files found so far.
pub struct FindScan {
    pub files: Vec<FileMatch>,
    pub truncated: bool,
}

/// Adds a matching file, or notes that the limit was reached (the walk then
/// stops); the age is "?" when unknown.
pub fn add_match(scan: &mut FindScan, rel: &str, size_bytes: u64, age_secs: Option<u64>, limit: usize) -> (added: bool)
    ensures
        added == (old(scan).files.len() < limit),
        added ==> final(scan).files@.len() == old(scan).files@.len() + 1 && final(scan).files@.drop_last() == old(scan).files@
            && final(scan).files@.last().path@ == rel@ && final(scan).files@.last().size_bytes == size_bytes
            && final(scan).files@.last().modified_ago@ == match age_secs {
                Some(s) => ago_text(s as nat),
                None => "?"@,
            } && final(scan).truncated == old(scan).truncated,
        !added ==> final(scan).files@ == old(scan).files@ && final(scan).truncated,
{
    if scan.files.len() >= limit {
        scan.truncated = true;
        return false;
    }
    let ago = match age_secs {
        Some(s) => format_modified_ago(s),
        None => owned("?"),
    };
    let ghost before = scan.files@;
    scan.files.push(FileMatch { path: owned(rel), size_bytes, modified_ago: ago });
    assert(scan.files@.drop_last() =~= before);
    true
}

/// The result of a search.
pub fn find_files_result(pattern: String, scan: FindScan) -> (r: FindFilesResult)
    ensures
        r.kind@ == (if scan.files.len() == 0 { "empty"@ } else { "success"@ }),
        r.pattern == pattern,
        r.total == scan.files.len(),
        r.truncated == scan.truncated,
        r.files@ == scan.files@,
{
    let total = scan.files.len();
    let kind = if total == 0 { owned("empty") } else { owned("success") };
    FindFilesResult { kind, pattern, total, truncated: scan.truncated, files: scan.files }
}

} // verus!
