//! Finding symbols by name or name path in the symbol trees of files, and
//! cutting a file's symbol tree down to a depth.
use vstd::prelude::*;
use crate::symbols::{OverviewSymbol, GetSymbolsOverviewResult};
use crate::text::{chars_of, contains, join, lines_of, lines_str, owned, push_str, str_contains,
    str_eq, string_of, strs, join_strings, starts_with};

verus! {

/// Parameters of `find_symbol`.
pub struct FindSymbolParams {
    /// Name or name path ("UserSession/validate") to look for.
    pub name_path_pattern: String,
    /// Only this file; `None` = every source file of the workspace.
    pub relative_path: Option<String>,
    /// Match by substring rather than by equality (default false).
    pub substring_matching: Option<bool>,
    /// Attach each match's source lines (default false).
    pub include_body: Option<bool>,
    /// Depth of the symbol trees searched (default 1).
    pub depth: Option<u8>,
}

/// One symbol found.
pub struct SymbolMatch {
    pub name: String,
    pub name_path: String,
    pub kind: String,
    pub start_line: usize,
    pub end_line: usize,
    pub file: String,
    pub source: String,
    pub body: Option<String>,
}

/// Result of `find_symbol`.
pub struct FindSymbolResult {
    pub kind: String,
    pub matches: Vec<SymbolMatch>,
}

/// A file whose symbol tree was obtained, with its content where the
/// bodies are wanted and it could be read.
pub struct ScannedFile {
    pub file: String,
    pub overview: GetSymbolsOverviewResult,
    pub content: Option<String>,
}

/// A symbol as a language server or the syntax tree reports it, before it is
/// cut down to a depth.
pub struct SourceSymbol {
    pub name: String,
    pub kind: String,
    pub start_line: usize,
    pub end_line: usize,
    pub children: Vec<SourceSymbol>,
}

pub type MatchView = (Seq<char>, Seq<char>, Seq<char>, usize, usize, Seq<char>, Seq<char>, Option<Seq<char>>);

pub open spec fn opt_view(o: Option<String>) -> Option<Seq<char>> {
    match o {
        Some(s) => Some(s@),
        None => None,
    }
}

pub open spec fn match_view(m: SymbolMatch) -> MatchView {
    (m.name@, m.name_path@, m.kind@, m.start_line, m.end_line, m.file@, m.source@, opt_view(m.body))
}

/// The name path of a symbol below `parent`.
pub open spec fn name_path_of(parent: Option<Seq<char>>, name: Seq<char>) -> Seq<char> {
    match parent {
        Some(p) => p + "/"@ + name,
        None => name,
    }
}

/// Whether a symbol is a hit: by substring of its name path or name, or by
/// equality with one of them.
pub open spec fn symbol_hit(name: Seq<char>, np: Seq<char>, pattern: Seq<char>, substring: bool) -> bool {
    if substring {
        contains(np, pattern) || contains(name, pattern)
    } else {
        name == pattern || np == pattern
    }
}

/// The lines of `content` numbered (from 1) `start` to `end`, joined by "\n".
pub open spec fn lines_between(content: Seq<char>, start: int, end: int) -> Seq<char> {
    let ls = lines_of(content);
    let lo = if start >= 1 { start - 1 } else { 0 };
    let hi = if end < ls.len() { end } else { ls.len() as int };
    if lo < hi {
        join(ls.subrange(lo, hi), "\n"@)
    } else {
        Seq::<char>::empty()
    }
}

/// What the search records of the symbols `syms` (below `parent`): each
/// symbol in order, a hit before the symbols below it.
pub open spec fn matches_in(
    syms: Seq<OverviewSymbol>,
    pattern: Seq<char>,
    substring: bool,
    include_body: bool,
    file: Seq<char>,
    source: Seq<char>,
    content: Option<Seq<char>>,
    parent: Option<Seq<char>>,
) -> Seq<MatchView>
    decreases syms,
{
    if syms.len() == 0 {
        seq![]
    } else {
        let s = syms.last();
        let np = name_path_of(parent, s.name@);
        let body = if include_body {
            match content {
                Some(c) => Some(lines_between(c, s.start_line as int, s.end_line as int)),
                None => None,
            }
        } else {
            None
        };
        let own: Seq<MatchView> = if symbol_hit(s.name@, np, pattern, substring) {
            seq![(s.name@, np, s.kind@, s.start_line, s.end_line, file, source, body)]
        } else {
            seq![]
        };
        proof {
            assert(decreases_to!(syms => syms[syms.len() - 1]));
            assert(decreases_to!(s => s.children));
            assert(decreases_to!(s.children => s.children@));
        }
        matches_in(syms.drop_last(), pattern, substring, include_body, file, source, content, parent) + own
            + matches_in(s.children@, pattern, substring, include_body, file, source, content, Some(np))
    }
}

/// Lines `start..=end` (numbered from 1) of `content`, joined by "\n".
pub fn extract_lines(content: &str, start_line: usize, end_line: usize) -> (r: String)
    ensures
        r@ == lines_between(content@, start_line as int, end_line as int),
{
    let ls = lines_str(content);
    let lo: usize = if start_line >= 1 { start_line - 1 } else { 0 };
    let hi: usize = if end_line < ls.len() { end_line } else { ls.len() };
    let mut sel: Vec<String> = Vec::new();
    if lo < hi {
        let mut i = lo;
        while i < hi
            invariant
                lo <= i <= hi,
                hi <= ls.len(),
                strs(sel@) == strs(ls@).subrange(lo as int, i as int),
            decreases hi - i,
        {
            let s = ls[i].clone();
            let ghost before = strs(sel@);
            sel.push(s);
            assert(strs(sel@) =~= before.push(ls@[i as int]@));
            i = i + 1;
            assert(strs(ls@).subrange(lo as int, i as int) =~= strs(ls@).subrange(lo as int, i - 1).push(
                ls@[i - 1]@,
            ));
        }
        join_strings(&sel, "\n")
    } else {
        proof {
            reveal_strlit("");
        }
        owned("")
    }
}

/// The name path of `name` below `parent`.
pub fn join_name_path(parent: Option<&str>, name: &str) -> (r: String)
    ensures
        r@ == name_path_of(
            match parent {
                Some(p) => Some(p@),
                None => None,
            },
            name@,
        ),
{
    match parent {
        Some(p) => {
            let mut v = chars_of(p);
            push_str(&mut v, "/");
            push_str(&mut v, name);
            string_of(&v)
        },
        None => owned(name),
    }
}

/// Appends to `out` the matches among `symbols` and the symbols below them.
#[verifier::rlimit(40)]
pub fn collect_matches(
    symbols: &Vec<OverviewSymbol>,
    pattern: &str,
    substring: bool,
    include_body: bool,
    file: &str,
    source: &str,
    content: Option<&str>,
    parent_path: Option<&str>,
    out: &mut Vec<SymbolMatch>,
)
    ensures
        final(out)@.map_values(|m: SymbolMatch| match_view(m)) == old(out)@.map_values(
            |m: SymbolMatch| match_view(m),
        ) + matches_in(
            symbols@,
            pattern@,
            substring,
            include_body,
            file@,
            source@,
            match content {
                Some(c) => Some(c@),
                None => None,
            },
            match parent_path {
                Some(p) => Some(p@),
                None => None,
            },
        ),
    decreases symbols@,
{
    let ghost cv = match content {
        Some(c) => Some(c@),
        None => None::<Seq<char>>,
    };
    let ghost pv = match parent_path {
        Some(p) => Some(p@),
        None => None::<Seq<char>>,
    };
    let ghost base = out@.map_values(|m: SymbolMatch| match_view(m));
    let mut i: usize = 0;
    while i < symbols.len()
        invariant
            i <= symbols.len(),
            cv == match content {
                Some(c) => Some(c@),
                None => None::<Seq<char>>,
            },
            pv == match parent_path {
                Some(p) => Some(p@),
                None => None::<Seq<char>>,
            },
            out@.map_values(|m: SymbolMatch| match_view(m)) == base + matches_in(
                symbols@.take(i as int),
                pattern@,
                substring,
                include_body,
                file@,
                source@,
                cv,
                pv,
            ),
        decreases symbols.len() - i,
    {
        let sym = &symbols[i];
        let ghost pre = symbols@.take(i + 1);
        assert(pre.drop_last() =~= symbols@.take(i as int));
        assert(pre.last() == symbols@[i as int]);
        let np = join_name_path(parent_path, sym.name.as_str());
        let hit = if substring {
            str_contains(np.as_str(), pattern) || str_contains(sym.name.as_str(), pattern)
        } else {
            str_eq(sym.name.as_str(), pattern) || str_eq(np.as_str(), pattern)
        };
        let ghost mid = out@.map_values(|m: SymbolMatch| match_view(m));
        if hit {
            let body = if include_body {
                match content {
                    Some(c) => Some(extract_lines(c, sym.start_line, sym.end_line)),
                    None => None,
                }
            } else {
                None
            };
            let m = SymbolMatch {
                name: sym.name.clone(),
                name_path: np.clone(),
                kind: sym.kind.clone(),
                start_line: sym.start_line,
                end_line: sym.end_line,
                file: owned(file),
                source: owned(source),
                body,
            };
            out.push(m);
            assert(out@.map_values(|m: SymbolMatch| match_view(m)) =~= mid.push(match_view(m)));
        }
        let ghost mid2 = out@.map_values(|m: SymbolMatch| match_view(m));
        proof {
            assert(decreases_to!(symbols@ => symbols@[i as int]));
            assert(decreases_to!(symbols@[i as int] => symbols@[i as int].children));
            assert(decreases_to!(symbols@[i as int].children => symbols@[i as int].children@));
        }
        collect_matches(&sym.children, pattern, substring, include_body, file, source, content, Some(np.as_str()), out);
        proof {
            let own: Seq<MatchView> = if symbol_hit(sym.name@, np@, pattern@, substring) {
                seq![(sym.name@, np@, sym.kind@, sym.start_line, sym.end_line, file@, source@,
                    if include_body {
                        match cv {
                            Some(c) => Some(lines_between(c, sym.start_line as int, sym.end_line as int)),
                            None => None,
                        }
                    } else {
                        None
                    })]
            } else {
                seq![]
            };
            assert(mid2 =~= mid + own);
            assert(matches_in(pre, pattern@, substring, include_body, file@, source@, cv, pv) =~= matches_in(
                symbols@.take(i as int),
                pattern@,
                substring,
                include_body,
                file@,
                source@,
                cv,
                pv,
            ) + own + matches_in(sym.children@, pattern@, substring, include_body, file@, source@, cv, Some(np@)));
        }
        i = i + 1;
    }
    assert(symbols@.take(symbols.len() as int) =~= symbols@);
}

/// The matches of `find_symbol` over every file scanned, file after file.
pub open spec fn all_matches(files: Seq<ScannedFile>, pattern: Seq<char>, substring: bool, include_body: bool) -> Seq<
    MatchView,
>
    decreases files.len(),
{
    if files.len() == 0 {
        seq![]
    } else {
        let f = files.last();
        all_matches(files.drop_last(), pattern, substring, include_body) + matches_in(
            f.overview.symbols@,
            pattern,
            substring,
            include_body,
            f.file@,
            f.overview.source@,
            if include_body { opt_view(f.content) } else { None },
            None,
        )
    }
}

/// The depth of the symbol trees `find_symbol` searches (default 1).
pub fn find_symbol_depth(params: &FindSymbolParams) -> (d: u8)
    ensures
        d == match params.depth {
            Some(v) => v,
            None => 1u8,
        },
{
    match params.depth {
        Some(v) => v,
        None => 1,
    }
}

/// `find_symbol` over the symbol trees of the files scanned: every symbol
/// (children included) whose name or name path matches the pattern.
pub fn run_find_symbol(params: &FindSymbolParams, files: &Vec<ScannedFile>) -> (r: FindSymbolResult)
    ensures
        r.kind@ == "success"@,
        r.matches@.map_values(|m: SymbolMatch| match_view(m)) == all_matches(
            files@,
            params.name_path_pattern@,
            params.substring_matching == Some(true),
            params.include_body == Some(true),
        ),
{
    let substring = match params.substring_matching {
        Some(b) => b,
        None => false,
    };
    let include_body = match params.include_body {
        Some(b) => b,
        None => false,
    };
    let pattern = params.name_path_pattern.as_str();
    let mut matches: Vec<SymbolMatch> = Vec::new();
    let mut i: usize = 0;
    while i < files.len()
        invariant
            i <= files.len(),
            substring == (params.substring_matching == Some(true)),
            include_body == (params.include_body == Some(true)),
            pattern@ == params.name_path_pattern@,
            matches@.map_values(|m: SymbolMatch| match_view(m)) == all_matches(
                files@.take(i as int),
                pattern@,
                substring,
                include_body,
            ),
        decreases files.len() - i,
    {
        let f = &files[i];
        assert(files@.take(i + 1).drop_last() =~= files@.take(i as int));
        let content: Option<&str> = if include_body {
            match &f.content {
                Some(c) => Some(c.as_str()),
                None => None,
            }
        } else {
            None
        };
        collect_matches(
            &f.overview.symbols,
            pattern,
            substring,
            include_body,
            f.file.as_str(),
            f.overview.source.as_str(),
            content,
            None,
            &mut matches,
        );
        i = i + 1;
    }
    assert(files@.take(files.len() as int) =~= files@);
    proof {
        reveal_strlit("success");
    }
    FindSymbolResult { kind: owned("success"), matches }
}

/// Directories the source walk leaves out: hidden ones, `target` and
/// `node_modules`.
pub fn skip_source_dir(name: &str) -> (r: bool)
    ensures
        r == (starts_with(name@, "."@) || name@ == "target"@ || name@ == "node_modules"@),
{
    crate::text::str_starts_with(name, ".") || str_eq(name, "target") || str_eq(name, "node_modules")
}

/// Extensions of the files `find_symbol` searches.
pub open spec fn symbol_source_ext(ext: Seq<char>) -> bool {
    ext == "rs"@ || ext == "py"@ || ext == "ts"@ || ext == "tsx"@ || ext == "js"@ || ext == "go"@ || ext
        == "java"@ || ext == "c"@ || ext == "cpp"@ || ext == "cs"@
}

/// Whether a file with extension `ext` is searched.
pub fn is_symbol_source_ext(ext: &str) -> (r: bool)
    ensures
        r == symbol_source_ext(ext@),
{
    str_eq(ext, "rs") || str_eq(ext, "py") || str_eq(ext, "ts") || str_eq(ext, "tsx") || str_eq(ext, "js")
        || str_eq(ext, "go") || str_eq(ext, "java") || str_eq(ext, "c") || str_eq(ext, "cpp") || str_eq(
        ext,
        "cs",
    )
}

/// A symbol cut down to `max_depth`: its children are kept (cut in turn)
/// while `current_depth < max_depth`.
pub open spec fn trimmed_ok(o: OverviewSymbol, s: SourceSymbol, max_depth: u8, current_depth: int) -> bool
    decreases s,
{
    &&& o.name@ == s.name@
    &&& o.kind@ == s.kind@
    &&& o.start_line == s.start_line
    &&& o.end_line == s.end_line
    &&& if current_depth < max_depth {
        &&& o.children@.len() == s.children@.len()
        &&& forall|k: int|
            0 <= k < s.children@.len() ==> trimmed_ok(
                #[trigger] o.children@[k],
                s.children@[k],
                max_depth,
                current_depth + 1,
            )
    } else {
        o.children@.len() == 0
    }
}

/// `sym` as an overview symbol, its tree cut below `max_depth`.
pub fn symbol_to_overview(sym: &SourceSymbol, max_depth: u8, current_depth: u8) -> (o: OverviewSymbol)
    ensures
        trimmed_ok(o, *sym, max_depth, current_depth as int),
    decreases sym,
{
    let mut children: Vec<OverviewSymbol> = Vec::new();
    if current_depth < max_depth {
        let mut k: usize = 0;
        while k < sym.children.len()
            invariant
                k <= sym.children.len(),
                current_depth < max_depth,
                children@.len() == k,
                forall|j: int|
                    0 <= j < k ==> trimmed_ok(
                        #[trigger] children@[j],
                        sym.children@[j],
                        max_depth,
                        current_depth + 1,
                    ),
            decreases sym.children.len() - k,
        {
            proof {
                assert(decreases_to!(*sym => sym.children));
                assert(decreases_to!(sym.children => sym.children@));
                assert(decreases_to!(sym.children@ => sym.children@[k as int]));
            }
            let c = symbol_to_overview(&sym.children[k], max_depth, current_depth + 1);
            children.push(c);
            k = k + 1;
        }
    }
    OverviewSymbol {
        name: sym.name.clone(),
        kind: sym.kind.clone(),
        start_line: sym.start_line,
        end_line: sym.end_line,
        children,
    }
}

/// Whether a language server's answer is used: it is when it came back and
/// holds at least one symbol; otherwise the syntax tree is used.
pub fn use_lsp_symbols(lsp: &Option<Vec<SourceSymbol>>) -> (r: bool)
    ensures
        r == (lsp matches Some(v) && v@.len() > 0),
{
    match lsp {
        Some(v) => v.len() > 0,
        None => false,
    }
}

/// `get_symbols_overview` from the symbols of one source (`from_lsp` tells
/// which): each cut to the depth asked (default 0, top level only).
pub fn symbols_overview(from_lsp: bool, syms: &Vec<SourceSymbol>, depth: Option<u8>) -> (r: GetSymbolsOverviewResult)
    ensures
        r.kind@ == "success"@,
        r.source@ == (if from_lsp { "lsp"@ } else { "syntax"@ }),
        r.symbols@.len() == syms@.len(),
        forall|k: int|
            0 <= k < syms@.len() ==> trimmed_ok(
                #[trigger] r.symbols@[k],
                syms@[k],
                match depth {
                    Some(d) => d,
                    None => 0u8,
                },
                0,
            ),
{
    let d: u8 = match depth {
        Some(v) => v,
        None => 0,
    };
    let mut out: Vec<OverviewSymbol> = Vec::new();
    let mut k: usize = 0;
    while k < syms.len()
        invariant
            k <= syms.len(),
            d == match depth {
                Some(v) => v,
                None => 0u8,
            },
            out@.len() == k,
            forall|j: int| 0 <= j < k ==> trimmed_ok(#[trigger] out@[j], syms@[j], d, 0),
        decreases syms.len() - k,
    {
        let o = symbol_to_overview(&syms[k], d, 0);
        out.push(o);
        k = k + 1;
    }
    proof {
        reveal_strlit("success");
        reveal_strlit("lsp");
        reveal_strlit("syntax");
    }
    GetSymbolsOverviewResult {
        kind: owned("success"),
        source: if from_lsp { owned("lsp") } else { owned("syntax") },
        symbols: out,
    }
}

} // verus!
