//! Going to a symbol's definition: the identifier under the cursor, the
//! places a language server or a text search names, and their preview lines.
use vstd::prelude::*;
use crate::text::{chars_of, lines_of, lines_str, owned, str_eq, string_of, trim, trim_end, trim_chars,
    trim_end_chars, char_from_ascii};

verus! {

/// Parameters of `find_definition` (1-based position).
pub struct FindDefinitionParams {
    pub path: String,
    pub line: usize,
    pub column: usize,
}

/// One place where the symbol is defined.
pub struct DefinitionLocation {
    pub path: String,
    pub line: usize,
    pub column: usize,
    pub preview: String,
    /// "lsp" | "grep"
    pub source: Option<String>,
}

/// Result of `find_definition`.
pub struct FindDefinitionResult {
    pub kind: String,
    pub symbol: String,
    pub definitions: Vec<DefinitionLocation>,
}

/// Bytes that belong to an identifier.
pub open spec fn ident_byte(b: u8) -> bool {
    (0x30 <= b <= 0x39) || (0x41 <= b <= 0x5a) || (0x61 <= b <= 0x7a) || b == 0x5f
}

/// Where the run of identifier bytes that ends just before `i` starts.
pub open spec fn run_start(bs: Seq<u8>, i: int) -> int
    decreases i,
{
    if i > 0 && i <= bs.len() && ident_byte(bs[i - 1]) {
        run_start(bs, i - 1)
    } else {
        i
    }
}

/// Where the run of identifier bytes that starts at `i` ends.
pub open spec fn run_end(bs: Seq<u8>, i: int) -> int
    decreases bs.len() - i,
{
    if 0 <= i < bs.len() && ident_byte(bs[i]) {
        run_end(bs, i + 1)
    } else {
        i
    }
}

/// The index the cursor at `column` (1-based) stands on, clamped to the line.
pub open spec fn cursor_index(len: int, column: int) -> int {
    let c = if column >= 1 { column - 1 } else { 0 };
    if c < len - 1 { c } else { len - 1 }
}

/// The identifier under (or just before) the cursor on line `line` of a
/// text whose lines are `ls`, as bytes.
pub open spec fn symbol_bytes_at(ls: Seq<Seq<char>>, line: int, column: int) -> Option<Seq<u8>> {
    let k = if line >= 1 { line - 1 } else { 0 };
    if k >= ls.len() {
        None
    } else {
        let bs = vstd::utf8::encode_utf8(ls[k]);
        if bs.len() == 0 {
            None
        } else {
            let idx0 = cursor_index(bs.len() as int, column);
            let idx = if ident_byte(bs[idx0]) {
                idx0
            } else if idx0 > 0 && ident_byte(bs[idx0 - 1]) {
                idx0 - 1
            } else {
                -1
            };
            if idx < 0 {
                None
            } else {
                Some(bs.subrange(run_start(bs, idx), run_end(bs, idx + 1)))
            }
        }
    }
}

/// The identifier under the cursor, as text.
pub open spec fn symbol_at(content: Seq<char>, line: int, column: int) -> Option<Seq<char>> {
    match symbol_bytes_at(lines_of(content), line, column) {
        Some(bs) => Some(bs.map_values(|b: u8| b as char)),
        None => None,
    }
}

fn is_ident_byte(b: u8) -> (r: bool)
    ensures
        r == ident_byte(b),
{
    (0x30 <= b && b <= 0x39) || (0x41 <= b && b <= 0x5a) || (0x61 <= b && b <= 0x7a) || b == 0x5f
}

/// The identifier at `line`, `column` (1-based) of `content`, or `None` when
/// the cursor is on no identifier.
pub fn extract_symbol_at(content: &str, line: usize, column: usize) -> (r: Option<String>)
    ensures
        match r {
            Some(s) => symbol_at(content@, line as int, column as int) == Some(s@),
            None => symbol_at(content@, line as int, column as int) is None,
        },
{
    let ls = lines_str(content);
    let k: usize = if line >= 1 { line - 1 } else { 0 };
    if k >= ls.len() {
        return None;
    }
    let bytes = ls[k].as_str().as_bytes();
    let ghost bs = vstd::utf8::encode_utf8(lines_of(content@)[k as int]);
    assert(bytes@ == bs);
    if bytes.len() == 0 {
        return None;
    }
    let c: usize = if column >= 1 { column - 1 } else { 0 };
    let mut idx: usize = if c < bytes.len() - 1 { c } else { bytes.len() - 1 };
    if !is_ident_byte(bytes[idx]) {
        if idx > 0 && is_ident_byte(bytes[idx - 1]) {
            idx = idx - 1;
        } else {
            return None;
        }
    }
    let mut start = idx;
    while start > 0 && is_ident_byte(bytes[start - 1])
        invariant
            start <= idx < bytes@.len(),
            bytes@ == bs,
            run_start(bs, start as int) == run_start(bs, idx as int),
            forall|j: int| start <= j <= idx ==> #[trigger] ident_byte(bs[j]),
        decreases start,
    {
        start = start - 1;
    }
    let mut end = idx + 1;
    while end < bytes.len() && is_ident_byte(bytes[end])
        invariant
            idx < end <= bytes@.len(),
            bytes@ == bs,
            run_end(bs, end as int) == run_end(bs, idx + 1),
            forall|j: int| idx <= j < end ==> #[trigger] ident_byte(bs[j]),
        decreases bytes.len() - end,
    {
        end = end + 1;
    }
    let mut v: Vec<char> = Vec::new();
    let mut j = start;
    while j < end
        invariant
            start <= j <= end <= bytes@.len(),
            bytes@ == bs,
            forall|m: int| start <= m < end ==> #[trigger] ident_byte(bs[m]),
            v@ == bs.subrange(start as int, j as int).map_values(|b: u8| b as char),
        decreases end - j,
    {
        let b = bytes[j];
        assert(ident_byte(bs[j as int]));
        let ch = char_from_ascii(b as u32);
        v.push(ch);
        j = j + 1;
        assert(v@ =~= bs.subrange(start as int, j as int).map_values(|b: u8| b as char));
    }
    Some(string_of(&v))
}

/// The file extension searched for a language's definitions.
pub open spec fn language_ext(language: Seq<char>) -> Option<Seq<char>> {
    if language == "rust"@ {
        Some("rs"@)
    } else if language == "python"@ {
        Some("py"@)
    } else if language == "typescript"@ {
        Some("ts"@)
    } else if language == "tsx"@ {
        Some("tsx"@)
    } else if language == "javascript"@ {
        Some("js"@)
    } else if language == "jsx"@ {
        Some("jsx"@)
    } else if language == "go"@ {
        Some("go"@)
    } else {
        None
    }
}

/// The extension for `language`, where one is known.
pub fn extension_for_language(language: &str) -> (r: Option<String>)
    ensures
        match r {
            Some(e) => language_ext(language@) == Some(e@),
            None => language_ext(language@) is None,
        },
{
    proof {
        reveal_strlit("rs");
        reveal_strlit("py");
        reveal_strlit("ts");
        reveal_strlit("tsx");
        reveal_strlit("js");
        reveal_strlit("jsx");
        reveal_strlit("go");
    }
    if str_eq(language, "rust") {
        Some(owned("rs"))
    } else if str_eq(language, "python") {
        Some(owned("py"))
    } else if str_eq(language, "typescript") {
        Some(owned("ts"))
    } else if str_eq(language, "tsx") {
        Some(owned("tsx"))
    } else if str_eq(language, "javascript") {
        Some(owned("js"))
    } else if str_eq(language, "jsx") {
        Some(owned("jsx"))
    } else if str_eq(language, "go") {
        Some(owned("go"))
    } else {
        None
    }
}

/// The search a definition falls back to: the symbol as a literal pattern,
/// limited to the language's files where their extension is known; none for
/// a blank symbol.
pub fn grep_fallback_query(symbol: &str, language: &str) -> (r: Option<(String, Option<String>)>)
    ensures
        trim(symbol@).len() == 0 ==> r is None,
        trim(symbol@).len() > 0 ==> (r matches Some(q) && q.0@ == symbol@ && match language_ext(language@) {
            Some(e) => q.1 matches Some(g) && g@ == "**/*."@ + e,
            None => q.1 is None,
        }),
{
    let sc = chars_of(symbol);
    let t = trim_chars(&sc);
    if t.len() == 0 {
        return None;
    }
    let glob = match extension_for_language(language) {
        Some(e) => {
            let mut g = chars_of("**/*.");
            let ec = chars_of(e.as_str());
            let mut i: usize = 0;
            let ghost g0 = g@;
            while i < ec.len()
                invariant
                    i <= ec.len(),
                    g@ == g0 + ec@.take(i as int),
                decreases ec.len() - i,
            {
                g.push(ec[i]);
                i = i + 1;
                assert(g@ =~= g0 + ec@.take(i as int));
            }
            assert(ec@.take(ec.len() as int) =~= ec@);
            Some(string_of(&g))
        },
        None => None,
    };
    Some((owned(symbol), glob))
}

/// Line `line` (1-based; 0 counts as 1) of `content` without its trailing
/// white space, or "" beyond the end.
pub open spec fn preview_of(content: Seq<char>, line: int) -> Seq<char> {
    let k = if line >= 1 { line - 1 } else { 0 };
    if k < lines_of(content).len() {
        trim_end(lines_of(content)[k])
    } else {
        Seq::<char>::empty()
    }
}

/// The preview of line `line` of `content`.
pub fn preview_line(content: &str, line: usize) -> (r: String)
    ensures
        r@ == preview_of(content@, line as int),
{
    let ls = lines_str(content);
    let k: usize = if line >= 1 { line - 1 } else { 0 };
    if k < ls.len() {
        let c = chars_of(ls[k].as_str());
        string_of(&trim_end_chars(&c))
    } else {
        proof {
            reveal_strlit("");
        }
        owned("")
    }
}

/// A definition a language server named; its preview comes from the file's
/// content, or is empty where the file could not be read.
pub fn lsp_definition(path: String, line: usize, column: usize, content: Option<&str>) -> (r: DefinitionLocation)
    ensures
        r.path@ == path@,
        r.line == line,
        r.column == column,
        r.preview@ == match content {
            Some(c) => preview_of(c@, line as int),
            None => Seq::<char>::empty(),
        },
        r.source matches Some(s) && s@ == "lsp"@,
{
    let preview = match content {
        Some(c) => preview_line(c, line),
        None => {
            proof {
                reveal_strlit("");
            }
            owned("")
        },
    };
    proof {
        reveal_strlit("lsp");
    }
    DefinitionLocation { path, line, column, preview, source: Some(owned("lsp")) }
}

/// A definition found by the text search, previewed by the matching line.
pub fn grep_definition(path: String, line: usize, column: usize, content: String) -> (r: DefinitionLocation)
    ensures
        r.path@ == path@,
        r.line == line,
        r.column == column,
        r.preview@ == content@,
        r.source matches Some(s) && s@ == "grep"@,
{
    proof {
        reveal_strlit("grep");
    }
    DefinitionLocation { path, line, column, preview: content, source: Some(owned("grep")) }
}

/// `find_definition`'s answer: the symbol under the cursor ("" when there is
/// none) and the definitions found.
pub fn find_definition_result(content: &str, params: &FindDefinitionParams, definitions: Vec<DefinitionLocation>) -> (r:
    FindDefinitionResult)
    ensures
        r.kind@ == "success"@,
        r.symbol@ == match symbol_at(content@, params.line as int, params.column as int) {
            Some(s) => s,
            None => Seq::<char>::empty(),
        },
        r.definitions@ == definitions@,
{
    let symbol = match extract_symbol_at(content, params.line, params.column) {
        Some(s) => s,
        None => {
            proof {
                reveal_strlit("");
            }
            owned("")
        },
    };
    proof {
        reveal_strlit("success");
    }
    FindDefinitionResult { kind: owned("success"), symbol, definitions }
}

/// Whether the language server's answer is used: it is when it came back
/// with at least one place; otherwise the text search is.
pub fn use_lsp_definitions(found: Option<usize>) -> (r: bool)
    ensures
        r == (found matches Some(n) && n > 0),
{
    match found {
        Some(n) => n > 0,
        None => false,
    }
}

} // verus!
