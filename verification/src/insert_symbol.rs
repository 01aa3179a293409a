//! Inserting text just before or just after a symbol of a file.
use vstd::prelude::*;
use crate::error::ToolError;
use crate::find_symbol::{FindSymbolParams, ScannedFile, SymbolMatch, run_find_symbol, all_matches, match_view};
use crate::text::{chars_of, ends_with, join, join_strings, lines_of, lines_str, owned, push_str, str_ends_with,
    string_of, strs};

verus! {

/// Parameters of `insert_after_symbol` and `insert_before_symbol`.
pub struct InsertSymbolParams {
    pub name_path: String,
    pub relative_path: String,
    pub content: String,
}

/// Result of an insertion: the line (1-based) the new text starts after.
pub struct InsertSymbolResult {
    pub kind: String,
    pub insert_line: usize,
}

/// Where the text goes.
#[derive(Clone, Copy, PartialEq, Eq, Structural)]
pub enum InsertPosition {
    After,
    Before,
}

/// The number of lines kept before the new text: the symbol's last line when
/// inserting after it, the lines before its first line when inserting
/// before it.
pub open spec fn insert_after_line(start: usize, end: usize, pos: InsertPosition) -> nat {
    match pos {
        InsertPosition::After => end as nat,
        InsertPosition::Before => if start >= 1 { (start - 1) as nat } else { 0 },
    }
}

/// The file's lines with the new lines put after the first `k`, joined by
/// "\n", with a final "\n" where the file had one.
pub open spec fn inserted_text(content: Seq<char>, added: Seq<char>, k: nat) -> Seq<char> {
    let ls = lines_of(content);
    let head = if k < ls.len() { ls.take(k as int) } else { ls };
    let tail = if k < ls.len() { ls.skip(k as int) } else { seq![] };
    let body = join(head + lines_of(added) + tail, "\n"@);
    if ends_with(content, "\n"@) {
        body + "\n"@
    } else {
        body
    }
}

fn push_all(out: &mut Vec<String>, from: &Vec<String>, lo: usize, hi: usize)
    requires
        lo <= hi <= from.len(),
    ensures
        strs(final(out)@) == strs(old(out)@) + strs(from@).subrange(lo as int, hi as int),
{
    let mut i = lo;
    let ghost base = strs(out@);
    while i < hi
        invariant
            lo <= i <= hi <= from.len(),
            strs(out@) == base + strs(from@).subrange(lo as int, i as int),
        decreases hi - i,
    {
        let ghost before = strs(out@);
        out.push(from[i].clone());
        assert(strs(out@) =~= before.push(from@[i as int]@));
        i = i + 1;
        assert(strs(out@) =~= base + strs(from@).subrange(lo as int, i as int));
    }
}

/// `content` with `added` inserted after its first `k` lines.
pub fn insert_lines(content: &str, added: &str, k: usize) -> (r: String)
    ensures
        r@ == inserted_text(content@, added@, k as nat),
{
    let ls = lines_str(content);
    let news = lines_str(added);
    let cut: usize = if k < ls.len() { k } else { ls.len() };
    let mut out: Vec<String> = Vec::new();
    push_all(&mut out, &ls, 0, cut);
    push_all(&mut out, &news, 0, news.len());
    if k < ls.len() {
        push_all(&mut out, &ls, k, ls.len());
    }
    proof {
        let l = lines_of(content@);
        assert(strs(ls@).subrange(0, cut as int) =~= (if k < l.len() { l.take(k as int) } else { l }));
        assert(strs(news@).subrange(0, news@.len() as int) =~= lines_of(added@));
        if k < l.len() {
            assert(strs(ls@).subrange(k as int, ls@.len() as int) =~= l.skip(k as int));
        }
        assert(strs(out@) =~= (if k < l.len() { l.take(k as int) } else { l }) + lines_of(added@) + (if k < l.len() {
            l.skip(k as int)
        } else {
            seq![]
        }));
    }
    let body = join_strings(&out, "\n");
    if str_ends_with(content, "\n") {
        let mut v = chars_of(body.as_str());
        push_str(&mut v, "\n");
        string_of(&v)
    } else {
        body
    }
}

/// The search `insert_*_symbol` makes in the file: the name path exactly,
/// two levels deep, without bodies.
pub fn insert_search_params(params: &InsertSymbolParams) -> (r: FindSymbolParams)
    ensures
        r.name_path_pattern@ == params.name_path@,
        r.relative_path matches Some(p) && p@ == params.relative_path@,
        r.substring_matching == Some(false),
        r.include_body == Some(false),
        r.depth == Some(2u8),
{
    FindSymbolParams {
        name_path_pattern: params.name_path.clone(),
        relative_path: Some(params.relative_path.clone()),
        substring_matching: Some(false),
        include_body: Some(false),
        depth: Some(2),
    }
}

/// The line after which the text starts, made 1-based; the one line number
/// that cannot be raised wraps to 0.
pub open spec fn next_line(k: nat) -> nat {
    if k < usize::MAX {
        k + 1
    } else {
        0
    }
}

/// An insertion once the file's symbol tree and content are known: the new
/// content and the result, or an error where no symbol matches.
pub fn insert_at_symbol(params: &InsertSymbolParams, pos: InsertPosition, file: ScannedFile, content: &str) -> (r:
    Result<(String, InsertSymbolResult), ToolError>)
    ensures
        ({
            let ms = all_matches(seq![file], params.name_path@, false, false);
            let k = insert_after_line(ms[0].3, ms[0].4, pos);
            match r {
                Ok((text, res)) => ms.len() > 0 && res.kind@ == "success"@ && res.insert_line == next_line(k)
                    && text@ == inserted_text(content@, params.content@, k),
                Err(e) => ms.len() == 0 && (e matches ToolError::FileNotFound { file_path, hint } && file_path@
                    == params.name_path@),
            }
        }),
{
    let sp = insert_search_params(params);
    let ghost f0 = file;
    let mut files: Vec<ScannedFile> = Vec::new();
    files.push(file);
    assert(files@ =~= seq![f0]);
    let found = run_find_symbol(&sp, &files);
    if found.matches.len() == 0 {
        let mut hint = chars_of("Symbol '");
        push_str(&mut hint, params.name_path.as_str());
        push_str(&mut hint, "' not found in '");
        push_str(&mut hint, params.relative_path.as_str());
        push_str(&mut hint, "'");
        return Err(ToolError::FileNotFound { file_path: params.name_path.clone(), hint: string_of(&hint) });
    }
    let t = &found.matches[0];
    assert(match_view(*t) == found.matches@.map_values(|m: SymbolMatch| match_view(m))[0]);
    let after: usize = match pos {
        InsertPosition::After => t.end_line,
        InsertPosition::Before => if t.start_line >= 1 { t.start_line - 1 } else { 0 },
    };
    let text = insert_lines(content, params.content.as_str(), after);
    let line: usize = if after < usize::MAX { after + 1 } else { 0 };
    proof {
        reveal_strlit("success");
    }
    Ok((text, InsertSymbolResult { kind: owned("success"), insert_line: line }))
}

} // verus!
