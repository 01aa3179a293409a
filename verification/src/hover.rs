//! What a language server's hover answer says: its text, the type it names
//! and the range it covers.
use vstd::prelude::*;
use crate::json::{Json, JsonV, jview, jviews, lemma_jviews_len, get, as_str, get_member, str_of};
use crate::git::{first_match_from, find_first};
use crate::text::{chars_of, join, join_strings, lines_of, lines_str, owned, string_of, strs, trim, trim_chars};

verus! {

/// Parameters of `get_hover_info` (1-based position).
pub struct GetHoverInfoParams {
    pub path: String,
    pub line: usize,
    pub column: usize,
}

/// The range a hover applies to (1-based).
pub struct HoverRange {
    pub start_line: usize,
    pub start_col: usize,
    pub end_line: usize,
    pub end_col: usize,
}

/// Result of `get_hover_info`.
pub struct HoverInfoResult {
    /// "success" | "no_info"
    pub kind: String,
    pub path: String,
    pub line: usize,
    pub column: usize,
    pub contents: Option<String>,
    pub type_hint: Option<String>,
    pub range: Option<HoverRange>,
    /// "lsp" | "none"
    pub source: String,
}

/// The text of one item of a hover's contents: a string, or the "value" of
/// an object.
pub open spec fn item_text(v: JsonV) -> Option<Seq<char>> {
    match v {
        JsonV::Str(s) => Some(s),
        _ => as_str(get(v, "value"@)),
    }
}

pub open spec fn item_texts(items: Seq<JsonV>) -> Seq<Seq<char>>
    decreases items.len(),
{
    if items.len() == 0 {
        seq![]
    } else {
        let r = item_texts(items.drop_last());
        match item_text(items.last()) {
            Some(t) => r.push(t),
            None => r,
        }
    }
}

/// The markdown text of a hover answer: its "contents" as a string, as the
/// "value" of an object, or the texts of an array joined by blank lines.
pub open spec fn hover_text(val: JsonV) -> Option<Seq<char>> {
    match get(val, "contents"@) {
        Some(JsonV::Str(s)) => Some(s),
        Some(JsonV::Object(es)) => as_str(get(JsonV::Object(es), "value"@)),
        Some(JsonV::Array(items)) => if item_texts(items).len() > 0 {
            Some(join(item_texts(items), "\n\n"@))
        } else {
            None
        },
        _ => None,
    }
}

/// The hover text of `val`, as `hover_text` says.
pub fn extract_hover_text(val: &Json) -> (r: Option<String>)
    ensures
        match r {
            Some(s) => hover_text(jview(*val)) == Some(s@),
            None => hover_text(jview(*val)) is None,
        },
{
    let contents = match get_member(val, "contents") {
        Some(c) => c,
        None => return None,
    };
    match contents {
        Json::Str(s) => Some(s.clone()),
        Json::Object(_) => match str_of(get_member(contents, "value")) {
            Some(v) => Some(owned(v)),
            None => None,
        },
        Json::Array(arr) => {
            let ghost w = jviews(arr@);
            proof {
                lemma_jviews_len(arr@);
            }
            let mut parts: Vec<String> = Vec::new();
            let mut i: usize = 0;
            while i < arr.len()
                invariant
                    i <= arr.len(),
                    w == jviews(arr@),
                    w.len() == arr@.len(),
                    forall|j: int| 0 <= j < arr@.len() ==> #[trigger] w[j] == jview(arr@[j]),
                    strs(parts@) == item_texts(w.take(i as int)),
                decreases arr.len() - i,
            {
                let item = &arr[i];
                let t: Option<String> = match item {
                    Json::Str(s) => Some(s.clone()),
                    _ => match str_of(get_member(item, "value")) {
                        Some(v) => Some(owned(v)),
                        None => None,
                    },
                };
                proof {
                    assert(w.take(i + 1).drop_last() =~= w.take(i as int));
                    assert(w.take(i + 1).last() == jview(arr@[i as int]));
                }
                match t {
                    Some(s) => {
                        let ghost before = strs(parts@);
                        parts.push(s);
                        assert(strs(parts@) =~= before.push(parts@[parts@.len() - 1]@));
                    },
                    None => {},
                }
                i = i + 1;
            }
            assert(w.take(arr.len() as int) =~= w);
            if parts.len() > 0 {
                Some(join_strings(&parts, "\n\n"))
            } else {
                None
            }
        },
        _ => None,
    }
}

/// The first line of `ls` that is not blank.
pub open spec fn first_nonblank(ls: Seq<Seq<char>>) -> Option<Seq<char>>
    decreases ls.len(),
{
    if ls.len() == 0 {
        None
    } else if trim(ls[0]).len() > 0 {
        Some(ls[0])
    } else {
        first_nonblank(ls.subrange(1, ls.len() as int))
    }
}

/// The trimmed body of the first fenced code block, when it has one and it
/// is not blank.
pub open spec fn fenced_snippet(t: Seq<char>) -> Option<Seq<char>> {
    let start = first_match_from(t, "```"@, 0);
    if start < 0 {
        None
    } else {
        let after = t.skip(start + 3);
        let nl = first_match_from(after, "\n"@, 0);
        if nl < 0 {
            None
        } else {
            let rest = after.skip(nl + 1);
            let end = first_match_from(rest, "```"@, 0);
            if end < 0 || trim(rest.take(end)).len() == 0 {
                None
            } else {
                Some(trim(rest.take(end)))
            }
        }
    }
}

/// The type a hover names: the first fenced code block's body, else the
/// first line that is not blank.
pub open spec fn type_hint(t: Seq<char>) -> Option<Seq<char>> {
    match fenced_snippet(t) {
        Some(s) => Some(s),
        None => first_nonblank(lines_of(t)),
    }
}

fn skip_vec(v: &Vec<char>, k: usize) -> (r: Vec<char>)
    requires
        k <= v.len(),
    ensures
        r@ == v@.skip(k as int),
{
    let mut r: Vec<char> = Vec::new();
    let mut i = k;
    while i < v.len()
        invariant
            k <= i <= v.len(),
            r@ == v@.subrange(k as int, i as int),
        decreases v.len() - i,
    {
        r.push(v[i]);
        i = i + 1;
        assert(r@ =~= v@.subrange(k as int, i as int));
    }
    r
}

/// The fenced snippet of a hover text, as `fenced_snippet` says.
fn fenced_part(text: &str) -> (r: Option<String>)
    ensures
        match r {
            Some(s) => fenced_snippet(text@) == Some(s@),
            None => fenced_snippet(text@) is None,
        },
{
    let t = chars_of(text);
    let fence = chars_of("```");
    let nlc = chars_of("\n");
    proof {
        reveal_strlit("```");
        reveal_strlit("\n");
    }
    match find_first(&t, &fence) {
        Some(start) => {
            let after = skip_vec(&t, start + 3);
            match find_first(&after, &nlc) {
                Some(nl) => {
                    let rest = skip_vec(&after, nl + 1);
                    match find_first(&rest, &fence) {
                        Some(end) => {
                            let body = crate::git::take_vec(&rest, end);
                            let snip = trim_chars(&body);
                            if snip.len() > 0 {
                                Some(string_of(&snip))
                            } else {
                                None
                            }
                        },
                        None => None,
                    }
                },
                None => None,
            }
        },
        None => None,
    }
}

/// The type hint of a hover text, as `type_hint` says.
pub fn extract_type_hint(text: &str) -> (r: Option<String>)
    ensures
        match r {
            Some(s) => type_hint(text@) == Some(s@),
            None => type_hint(text@) is None,
        },
{
    match fenced_part(text) {
        Some(s) => return Some(s),
        None => {},
    }
    let ls = lines_str(text);
    assert(lines_of(text@).subrange(0, ls@.len() as int) =~= lines_of(text@));
    let mut i: usize = 0;
    while i < ls.len()
        invariant
            i <= ls.len(),
            strs(ls@) == lines_of(text@),
            fenced_snippet(text@) is None,
            first_nonblank(lines_of(text@)) == first_nonblank(lines_of(text@).subrange(i as int, ls@.len() as int)),
        decreases ls.len() - i,
    {
        let ghost rest = lines_of(text@).subrange(i as int, ls@.len() as int);
        assert(rest[0] == ls@[i as int]@);
        let lc = chars_of(ls[i].as_str());
        let tr = trim_chars(&lc);
        if tr.len() > 0 {
            return Some(ls[i].clone());
        }
        assert(rest.subrange(1, rest.len() as int) =~= lines_of(text@).subrange(i + 1, ls@.len() as int));
        i = i + 1;
    }
    None
}

/// An LSP position (0-based) made 1-based; the one value that cannot be
/// raised wraps to 0.
pub open spec fn lsp_pos(n: u64) -> usize {
    if (n as usize) < usize::MAX {
        ((n as usize) + 1) as usize
    } else {
        0
    }
}

pub open spec fn num_u64(o: Option<JsonV>) -> Option<u64> {
    match o {
        Some(JsonV::Number(u, _, _)) => u,
        _ => None,
    }
}

/// The range of a hover answer: `range.start` and `range.end`, each with
/// `line` and `character`, made 1-based.
pub open spec fn hover_range(val: JsonV) -> Option<(usize, usize, usize, usize)> {
    match get(val, "range"@) {
        Some(r) => match (get(r, "start"@), get(r, "end"@)) {
            (Some(s), Some(e)) => match (
                num_u64(get(s, "line"@)),
                num_u64(get(s, "character"@)),
                num_u64(get(e, "line"@)),
                num_u64(get(e, "character"@)),
            ) {
                (Some(a), Some(b), Some(c), Some(d)) => Some((lsp_pos(a), lsp_pos(b), lsp_pos(c), lsp_pos(d))),
                _ => None,
            },
            _ => None,
        },
        None => None,
    }
}

fn pos_of(n: u64) -> (r: usize)
    ensures
        r == lsp_pos(n),
{
    let u = n as usize;
    if u < usize::MAX {
        u + 1
    } else {
        0
    }
}

fn u64_member(v: &Json, k: &str) -> (r: Option<u64>)
    ensures
        r == num_u64(get(jview(*v), k@)),
{
    match get_member(v, k) {
        Some(Json::Number(n)) => n.as_u64,
        _ => None,
    }
}

/// The range of a hover answer, as `hover_range` says.
pub fn extract_range(val: &Json) -> (r: Option<HoverRange>)
    ensures
        match r {
            Some(h) => hover_range(jview(*val)) == Some((h.start_line, h.start_col, h.end_line, h.end_col)),
            None => hover_range(jview(*val)) is None,
        },
{
    let range = match get_member(val, "range") {
        Some(x) => x,
        None => return None,
    };
    let start = match get_member(range, "start") {
        Some(x) => x,
        None => return None,
    };
    let end = match get_member(range, "end") {
        Some(x) => x,
        None => return None,
    };
    let a = match u64_member(start, "line") {
        Some(x) => x,
        None => return None,
    };
    let b = match u64_member(start, "character") {
        Some(x) => x,
        None => return None,
    };
    let c = match u64_member(end, "line") {
        Some(x) => x,
        None => return None,
    };
    let d = match u64_member(end, "character") {
        Some(x) => x,
        None => return None,
    };
    Some(HoverRange { start_line: pos_of(a), start_col: pos_of(b), end_line: pos_of(c), end_col: pos_of(d) })
}

/// `get_hover_info` once the language server has answered (`Some`) or not.
pub fn run_get_hover_info(params: GetHoverInfoParams, hover: Option<&Json>) -> (r: HoverInfoResult)
    ensures
        r.path@ == params.path@,
        r.line == params.line,
        r.column == params.column,
        match hover {
            Some(v) => {
                &&& r.kind@ == "success"@
                &&& r.source@ == "lsp"@
                &&& match r.contents {
                    Some(c) => hover_text(jview(*v)) == Some(c@),
                    None => hover_text(jview(*v)) is None,
                }
                &&& match r.type_hint {
                    Some(t) => r.contents matches Some(c) && type_hint(c@) == Some(t@),
                    None => r.contents matches Some(c) ==> type_hint(c@) is None,
                }
                &&& match r.range {
                    Some(h) => hover_range(jview(*v)) == Some((h.start_line, h.start_col, h.end_line, h.end_col)),
                    None => hover_range(jview(*v)) is None,
                }
            },
            None => {
                &&& r.kind@ == "no_info"@
                &&& r.source@ == "none"@
                &&& r.contents is None
                &&& r.type_hint is None
                &&& r.range is None
            },
        },
{
    match hover {
        Some(val) => {
            let contents = extract_hover_text(val);
            let type_hint = match &contents {
                Some(c) => extract_type_hint(c.as_str()),
                None => None,
            };
            let range = extract_range(val);
            proof {
                reveal_strlit("success");
                reveal_strlit("lsp");
            }
            HoverInfoResult {
                kind: owned("success"),
                path: params.path,
                line: params.line,
                column: params.column,
                contents,
                type_hint,
                range,
                source: owned("lsp"),
            }
        },
        None => {
            proof {
                reveal_strlit("no_info");
                reveal_strlit("none");
            }
            HoverInfoResult {
                kind: owned("no_info"),
                path: params.path,
                line: params.line,
                column: params.column,
                contents: None,
                type_hint: None,
                range: None,
                source: owned("none"),
            }
        },
    }
}

} // verus!
