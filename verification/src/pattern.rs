//! Regular expressions, compiled once and matched against text.
use vstd::prelude::*;
use crate::text::strs;

verus! {

#[verifier::external_type_specification]
#[verifier::external_body]
pub struct ExRegex(regex::Regex);

/// A character that `regex::escape` escapes.
pub open spec fn is_meta(c: char) -> bool {
    c == '\\' || c == '.' || c == '+' || c == '*' || c == '?' || c == '(' || c == ')' || c == '|' || c
        == '[' || c == ']' || c == '{' || c == '}' || c == '^' || c == '$' || c == '#' || c == '&' || c
        == '-' || c == '~'
}

/// The text with a backslash before each meta character.
pub open spec fn escaped(s: Seq<char>) -> Seq<char>
    decreases s.len(),
{
    if s.len() == 0 {
        seq![]
    } else {
        escaped(s.drop_last()) + if is_meta(s.last()) {
            seq!['\\', s.last()]
        } else {
            seq![s.last()]
        }
    }
}

/// `Regex::new(p)` succeeds: `p` is a valid pattern within the size limits.
pub uninterp spec fn regex_compiles(p: Seq<char>) -> bool;

/// The message of the error `Regex::new(p)` returns.
pub uninterp spec fn regex_error_text(p: Seq<char>) -> Seq<char>;

/// `Regex::is_match`: the pattern `p` matches somewhere in `hay`.
pub uninterp spec fn regex_finds(p: Seq<char>, hay: Seq<char>) -> bool;

/// `Regex::captures_iter`: for each successive non-overlapping match of `p`
/// in `hay`, the text of capture group 1 (empty when it took no part).
pub uninterp spec fn regex_group1(p: Seq<char>, hay: Seq<char>) -> Seq<Seq<char>>;

/// A compiled regular expression and the pattern it was compiled from.
pub struct Pattern {
    re: regex::Regex,
    source: String,
}

impl Pattern {
    pub closed spec fn source(&self) -> Seq<char> {
        self.source@
    }

    /// Compiles `p` with `regex::Regex::new`; the error becomes its message.
    #[verifier::external_body]
    pub(crate) fn new(p: &str) -> (r: Result<Pattern, String>)
        ensures
            r is Ok <==> regex_compiles(p@),
            r matches Ok(x) ==> x.source() == p@,
            r matches Err(e) ==> e@ == regex_error_text(p@),
    {
        match regex::Regex::new(p) {
            Ok(re) => Ok(Pattern { re, source: p.to_string() }),
            Err(e) => Err(e.to_string()),
        }
    }

    /// `Regex::is_match`.
    #[verifier::external_body]
    pub(crate) fn is_match(&self, hay: &str) -> (r: bool)
        ensures
            r == regex_finds(self.source(), hay@),
    {
        self.re.is_match(hay)
    }

    /// The group-1 texts of `Regex::captures_iter`.
    #[verifier::external_body]
    pub(crate) fn group1_all(&self, hay: &str) -> (r: Vec<String>)
        ensures
            strs(r@) == regex_group1(self.source(), hay@),
    {
        self.re.captures_iter(hay).map(|c| c.get(1).map_or(String::new(), |m| m.as_str().to_string())).collect()
    }
}

/// `regex::escape`: a backslash before each meta character.
#[verifier::external_body]
pub(crate) fn escape(s: &str) -> (r: String)
    ensures
        r@ == escaped(s@),
{
    regex::escape(s)
}

} // verus!
