//! Symbol trees of source files and the references between symbols.
use vstd::prelude::*;
use crate::text::{chars_of, lines_of, lines_str, owned, push_str, string_of, trim, trim_str};

verus! {

/// Parameters of `get_symbols_overview`.
pub struct GetSymbolsOverviewParams {
    pub relative_path: String,
    /// 0 = top level only, 1 = with children.
    pub depth: Option<u8>,
}

/// A symbol with the lines it spans (1-based, inclusive) and its children.
pub struct OverviewSymbol {
    pub name: String,
    pub kind: String,
    pub start_line: usize,
    pub end_line: usize,
    pub children: Vec<OverviewSymbol>,
}

/// Result of `get_symbols_overview`.
pub struct GetSymbolsOverviewResult {
    pub kind: String,
    /// "lsp" | "syntax"
    pub source: String,
    pub symbols: Vec<OverviewSymbol>,
}

/// Parameters of `find_referencing_symbols`.
pub struct FindReferencingSymbolsParams {
    /// Path of the target symbol, e.g. "UserSession/validate".
    pub name_path: String,
    pub relative_path: String,
}

/// One place that refers to the target symbol.
pub struct ReferenceEntry {
    /// The enclosing symbol, or "<file>".
    pub name_path: String,
    pub relative_path: String,
    pub line: usize,
    pub snippet: String,
}

/// Result of `find_referencing_symbols`.
pub struct FindReferencingSymbolsResult {
    pub kind: String,
    pub references: Vec<ReferenceEntry>,
}

/// The name path of the innermost symbol around `line`: among the symbols
/// spanning it the last one wins, and within it the search goes on in its
/// children; names are joined by `/` below `parent`.
pub open spec fn enclosing(syms: Seq<OverviewSymbol>, line: int, parent: Option<Seq<char>>) -> Option<Seq<char>>
    decreases syms,
{
    if syms.len() == 0 {
        None
    } else {
        let s = syms.last();
        if s.start_line <= line && line <= s.end_line {
            let np = match parent {
                Some(p) => p + "/"@ + s.name@,
                None => s.name@,
            };
            proof {
                assert(decreases_to!(syms => syms[syms.len() - 1]));
                assert(decreases_to!(s => s.children));
                assert(decreases_to!(s.children => s.children@));
            }
            match enclosing(s.children@, line, Some(np)) {
                Some(c) => Some(c),
                None => Some(np),
            }
        } else {
            enclosing(syms.drop_last(), line, parent)
        }
    }
}

/// Finds the innermost symbol enclosing `line` (1-based); its name path, or
/// `None` when no symbol spans the line.
pub fn find_enclosing_symbol(symbols: &Vec<OverviewSymbol>, line: usize, parent_np: Option<&str>) -> (r:
    Option<String>)
    ensures
        match enclosing(symbols@, line as int, match parent_np {
            Some(p) => Some(p@),
            None => None,
        }) {
            Some(x) => r matches Some(s) && s@ == x,
            None => r is None,
        },
    decreases symbols@,
{
    let ghost par = match parent_np {
        Some(p) => Some(p@),
        None => None::<Seq<char>>,
    };
    let mut k: usize = symbols.len();
    assert(symbols@.take(k as int) =~= symbols@);
    while k > 0
        invariant
            k <= symbols.len(),
            par == match parent_np {
                Some(p) => Some(p@),
                None => None::<Seq<char>>,
            },
            enclosing(symbols@, line as int, par) == enclosing(symbols@.take(k as int), line as int, par),
        decreases k,
    {
        let ghost pre = symbols@.take(k as int);
        assert(pre.last() == symbols@[k - 1]);
        assert(pre.drop_last() =~= symbols@.take(k - 1));
        let sym = &symbols[k - 1];
        if sym.start_line <= line && line <= sym.end_line {
            let np = match parent_np {
                Some(p) => {
                    let mut v = chars_of(p);
                    push_str(&mut v, "/");
                    push_str(&mut v, sym.name.as_str());
                    string_of(&v)
                },
                None => sym.name.clone(),
            };
            proof {
                assert(decreases_to!(symbols@ => symbols@[k - 1]));
                assert(decreases_to!(symbols@[k - 1] => symbols@[k - 1].children));
                assert(decreases_to!(symbols@[k - 1].children => symbols@[k - 1].children@));
            }
            let child = find_enclosing_symbol(&sym.children, line, Some(np.as_str()));
            return match child {
                Some(c) => Some(c),
                None => Some(np),
            };
        }
        k = k - 1;
    }
    assert(symbols@.take(0) =~= Seq::<OverviewSymbol>::empty());
    None
}

/// The index of the 1-based `line`; line 0 reads as the first line.
pub open spec fn line_index(line: usize) -> int {
    if line >= 1 {
        line - 1
    } else {
        0
    }
}

/// A reference at `line` of a file whose symbols and content are known:
/// the enclosing symbol (or "<file>") and the trimmed text of the line.
pub fn reference_entry(symbols: &Vec<OverviewSymbol>, rel: &str, line: usize, content: Option<&str>) -> (r:
    ReferenceEntry)
    ensures
        r.name_path@ == match enclosing(symbols@, line as int, None) {
            Some(x) => x,
            None => "<file>"@,
        },
        r.relative_path@ == rel@,
        r.line == line,
        r.snippet@ == match content {
            Some(c) => if line_index(line) < lines_of(c@).len() {
                trim(lines_of(c@)[line_index(line)])
            } else {
                Seq::<char>::empty()
            },
            None => Seq::<char>::empty(),
        },
{
    let name_path = match find_enclosing_symbol(symbols, line, None) {
        Some(n) => n,
        None => owned("<file>"),
    };
    let snippet = match content {
        Some(c) => {
            let ls = lines_str(c);
            let k = if line >= 1 {
                line - 1
            } else {
                0
            };
            if k < ls.len() {
                assert(ls@[k as int]@ == lines_of(c@)[k as int]);
                trim_str(ls[k].as_str())
            } else {
                proof {
                    reveal_strlit("");
                }
                owned("")
            }
        },
        None => {
            proof {
                reveal_strlit("");
            }
            owned("")
        },
    };
    ReferenceEntry { name_path, relative_path: owned(rel), line, snippet }
}

} // verus!
