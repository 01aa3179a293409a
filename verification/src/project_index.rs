//! The project symbol index: the symbols of each source file with the
//! modification time they were read at.
use vstd::prelude::*;
use crate::find_symbol::{join_name_path, name_path_of};
use crate::symbols::OverviewSymbol;
use crate::text::{chars_of, contains, dec, ends_with, push_str, str_contains, str_ends_with, str_eq, string_of};

verus! {

/// One symbol of a file.
pub struct IndexEntry {
    /// Names from the outermost symbol down, joined by `/`.
    pub name_path: String,
    pub kind: String,
    pub line: usize,
}

impl Clone for IndexEntry {
    fn clone(&self) -> (r: Self)
        ensures
            r == *self,
    {
        IndexEntry { name_path: self.name_path.clone(), kind: self.kind.clone(), line: self.line }
    }
}

/// The symbols of one file.
pub struct FileEntry {
    pub mtime: u64,
    pub symbols: Vec<IndexEntry>,
}

/// The index of a workspace.
pub struct ProjectIndex {
    pub generated_at: String,
    pub workspace_root: String,
    /// Relative path of each file, each path once.
    pub files: Vec<(String, FileEntry)>,
}

/// Each relative path occurs once.
pub open spec fn files_ok(files: Seq<(String, FileEntry)>) -> bool {
    forall|i: int, j: int| 0 <= i < j < files.len() ==> #[trigger] files[i].0@ != #[trigger] files[j].0@
}

/// The symbol matches the pattern: containing it, or (exactly) equal to it
/// or ending with `/pattern`.
pub open spec fn symbol_matches(np: Seq<char>, pattern: Seq<char>, substring: bool) -> bool {
    if substring {
        contains(np, pattern)
    } else {
        np == pattern || ends_with(np, "/"@ + pattern)
    }
}

pub open spec fn matching_symbols(syms: Seq<IndexEntry>, pattern: Seq<char>, substring: bool) -> Seq<IndexEntry>
    decreases syms.len(),
{
    if syms.len() == 0 {
        seq![]
    } else {
        let prev = matching_symbols(syms.drop_last(), pattern, substring);
        if symbol_matches(syms.last().name_path@, pattern, substring) {
            prev.push(syms.last())
        } else {
            prev
        }
    }
}

/// The matching symbols of all files, file by file.
pub open spec fn query_spec(files: Seq<(String, FileEntry)>, pattern: Seq<char>, substring: bool) -> Seq<IndexEntry>
    decreases files.len(),
{
    if files.len() == 0 {
        seq![]
    } else {
        query_spec(files.drop_last(), pattern, substring) + matching_symbols(
            files.last().1.symbols@,
            pattern,
            substring,
        )
    }
}

/// `{secs}Z`, the time stamp of an index.
pub fn index_timestamp(secs: u64) -> (r: String)
    ensures
        r@ == dec(secs as nat) + "Z"@,
{
    let mut v = crate::text::dec_chars_u64(secs);
    push_str(&mut v, "Z");
    string_of(&v)
}

/// The extensions of the files that are indexed.
pub open spec fn source_ext(ext: Seq<char>) -> bool {
    ext == "rs"@ || ext == "py"@ || ext == "ts"@ || ext == "tsx"@ || ext == "js"@ || ext == "go"@ || ext
        == "java"@ || ext == "c"@ || ext == "cpp"@ || ext == "cs"@
}

/// Whether a file with this extension is indexed.
pub fn is_source_ext(ext: &str) -> (r: bool)
    ensures
        r == source_ext(ext@),
{
    str_eq(ext, "rs") || str_eq(ext, "py") || str_eq(ext, "ts") || str_eq(ext, "tsx") || str_eq(ext, "js")
        || str_eq(ext, "go") || str_eq(ext, "java") || str_eq(ext, "c") || str_eq(ext, "cpp") || str_eq(
        ext,
        "cs",
    )
}

/// The index view of an entry.
pub open spec fn entry_view(e: IndexEntry) -> (Seq<char>, Seq<char>, usize) {
    (e.name_path@, e.kind@, e.line)
}

/// The entries of a symbol tree below `parent`, each symbol followed by the
/// entries of its children.
pub open spec fn flat_entries(syms: Seq<OverviewSymbol>, parent: Option<Seq<char>>) -> Seq<
    (Seq<char>, Seq<char>, usize),
>
    decreases syms,
{
    if syms.len() == 0 {
        seq![]
    } else {
        let s = syms.last();
        let np = name_path_of(parent, s.name@);
        proof {
            assert(decreases_to!(syms => syms[syms.len() - 1]));
            assert(decreases_to!(s => s.children));
            assert(decreases_to!(s.children => s.children@));
        }
        flat_entries(syms.drop_last(), parent) + seq![(np, s.kind@, s.start_line)] + flat_entries(
            s.children@,
            Some(np),
        )
    }
}

fn collect_entries(syms: &Vec<OverviewSymbol>, parent: Option<&str>, out: &mut Vec<IndexEntry>)
    ensures
        final(out)@.map_values(|e: IndexEntry| entry_view(e)) == old(out)@.map_values(|e: IndexEntry| entry_view(e))
            + flat_entries(
            syms@,
            match parent {
                Some(p) => Some(p@),
                None => None,
            },
        ),
    decreases syms@,
{
    let ghost pv = match parent {
        Some(p) => Some(p@),
        None => None::<Seq<char>>,
    };
    let ghost base = out@.map_values(|e: IndexEntry| entry_view(e));
    let mut i: usize = 0;
    while i < syms.len()
        invariant
            i <= syms.len(),
            pv == match parent {
                Some(p) => Some(p@),
                None => None::<Seq<char>>,
            },
            out@.map_values(|e: IndexEntry| entry_view(e)) == base + flat_entries(syms@.take(i as int), pv),
        decreases syms.len() - i,
    {
        let sym = &syms[i];
        let ghost pre = syms@.take(i + 1);
        assert(pre.drop_last() =~= syms@.take(i as int));
        assert(pre.last() == syms@[i as int]);
        let np = join_name_path(parent, sym.name.as_str());
        let ghost mid = out@.map_values(|e: IndexEntry| entry_view(e));
        let e = IndexEntry { name_path: np.clone(), kind: sym.kind.clone(), line: sym.start_line };
        out.push(e);
        assert(out@.map_values(|e: IndexEntry| entry_view(e)) =~= mid.push((np@, sym.kind@, sym.start_line)));
        let ghost mid2 = out@.map_values(|e: IndexEntry| entry_view(e));
        proof {
            assert(decreases_to!(syms@ => syms@[i as int]));
            assert(decreases_to!(syms@[i as int] => syms@[i as int].children));
            assert(decreases_to!(syms@[i as int].children => syms@[i as int].children@));
        }
        collect_entries(&sym.children, Some(np.as_str()), out);
        proof {
            assert(flat_entries(pre, pv) =~= flat_entries(syms@.take(i as int), pv) + seq![
                (np@, sym.kind@, sym.start_line),
            ] + flat_entries(sym.children@, Some(np@)));
            assert(out@.map_values(|e: IndexEntry| entry_view(e)) =~= base + flat_entries(pre, pv));
        }
        i = i + 1;
    }
    assert(syms@.take(syms.len() as int) =~= syms@);
}

/// The index entries of a file's symbol tree: every symbol, with its name
/// path below `parent`, followed by those of its children.
pub fn flatten_symbols(syms: &Vec<OverviewSymbol>, parent: Option<&str>) -> (r: Vec<IndexEntry>)
    ensures
        r@.map_values(|e: IndexEntry| entry_view(e)) == flat_entries(
            syms@,
            match parent {
                Some(p) => Some(p@),
                None => None,
            },
        ),
{
    let mut out: Vec<IndexEntry> = Vec::new();
    assert(out@.map_values(|e: IndexEntry| entry_view(e)) =~= Seq::<(Seq<char>, Seq<char>, usize)>::empty());
    collect_entries(syms, parent, &mut out);
    out
}

impl ProjectIndex {
    /// An index of the files read from a workspace.
    pub fn build(generated_at: String, workspace_root: String, files: Vec<(String, FileEntry)>) -> (r: Self)
        requires
            files_ok(files@),
        ensures
            r.generated_at == generated_at,
            r.workspace_root == workspace_root,
            r.files@ == files@,
            files_ok(r.files@),
    {
        ProjectIndex { generated_at, workspace_root, files }
    }

    /// The symbols whose name path matches `pattern`, file by file.
    pub fn query(&self, pattern: &str, substring: bool) -> (r: Vec<IndexEntry>)
        ensures
            r@ == query_spec(self.files@, pattern@, substring),
    {
        let mut slash = chars_of("/");
        push_str(&mut slash, pattern);
        let suffix = string_of(&slash);
        let mut out: Vec<IndexEntry> = Vec::new();
        let mut i: usize = 0;
        while i < self.files.len()
            invariant
                i <= self.files.len(),
                suffix@ == "/"@ + pattern@,
                out@ == query_spec(self.files@.take(i as int), pattern@, substring),
            decreases self.files.len() - i,
        {
            let syms = &self.files[i].1.symbols;
            let ghost base = out@;
            assert(self.files@.take(i + 1).drop_last() =~= self.files@.take(i as int));
            let mut k: usize = 0;
            while k < syms.len()
                invariant
                    k <= syms.len(),
                    suffix@ == "/"@ + pattern@,
                    out@ == base + matching_symbols(syms@.take(k as int), pattern@, substring),
                decreases syms.len() - k,
            {
                let s = &syms[k];
                assert(syms@.take(k + 1).drop_last() =~= syms@.take(k as int));
                let m = if substring {
                    str_contains(s.name_path.as_str(), pattern)
                } else {
                    str_eq(s.name_path.as_str(), pattern) || str_ends_with(s.name_path.as_str(), suffix.as_str())
                };
                if m {
                    out.push(s.clone());
                }
                k = k + 1;
                assert(out@ =~= base + matching_symbols(syms@.take(k as int), pattern@, substring));
            }
            assert(syms@.take(syms.len() as int) =~= syms@);
            i = i + 1;
        }
        assert(self.files@.take(self.files.len() as int) =~= self.files@);
        out
    }
}

/// The files of `current` (path and modification time) whose symbols must
/// be read again: not in the index, or indexed at another time.
pub open spec fn stale(files: Seq<(String, FileEntry)>, path: Seq<char>, mtime: u64) -> bool {
    !(exists|i: int| 0 <= i < files.len() && #[trigger] files[i].0@ == path && files[i].1.mtime == mtime)
}

/// A file of `current` that is stale.
pub open spec fn stale_entry(files: Seq<(String, FileEntry)>, current: Seq<(String, u64)>, p: Seq<char>) -> bool {
    exists|j: int| 0 <= j < current.len() && #[trigger] current[j].0@ == p && stale(files, p, current[j].1)
}

/// Whether the index holds `path` at `mtime`.
fn indexed_at(index: &ProjectIndex, path: &str, mtime: u64) -> (r: bool)
    ensures
        r == !stale(index.files@, path@, mtime),
{
    let mut i: usize = 0;
    while i < index.files.len()
        invariant
            i <= index.files.len(),
            forall|q: int| 0 <= q < i ==> !(#[trigger] index.files@[q].0@ == path@ && index.files@[q].1.mtime == mtime),
        decreases index.files.len() - i,
    {
        if str_eq(index.files[i].0.as_str(), path) && index.files[i].1.mtime == mtime {
            return true;
        }
        i = i + 1;
    }
    false
}

/// The paths of `current` (path and modification time) whose symbols must be read again, in the order of `current`.
pub fn files_to_rebuild(index: &ProjectIndex, current: &Vec<(String, u64)>) -> (r: Vec<String>)
    ensures
        forall|k: int| 0 <= k < r@.len() ==> stale_entry(index.files@, current@, (#[trigger] r@[k])@),
        forall|j: int| 0 <= j < current@.len() && stale(index.files@, (#[trigger] current@[j]).0@, current@[j].1)
            ==> crate::text::strs(r@).contains(current@[j].0@),
{
    let mut out: Vec<String> = Vec::new();
    let mut j: usize = 0;
    while j < current.len()
        invariant
            j <= current.len(),
            forall|k: int| 0 <= k < out@.len() ==> stale_entry(index.files@, current@, (#[trigger] out@[k])@),
            forall|q: int| 0 <= q < j && stale(index.files@, (#[trigger] current@[q]).0@, current@[q].1)
                ==> crate::text::strs(out@).contains(current@[q].0@),
        decreases current.len() - j,
    {
        if !indexed_at(index, current[j].0.as_str(), current[j].1) {
            let ghost before = out@;
            out.push(current[j].0.clone());
            assert(stale_entry(index.files@, current@, current@[j as int].0@));
            assert forall|q: int| 0 <= q < j + 1 && stale(index.files@, (#[trigger] current@[q]).0@, current@[q].1)
                implies crate::text::strs(out@).contains(current@[q].0@) by {
                if q < j {
                    assert(crate::text::strs(before).contains(current@[q].0@));
                    let k = choose|k: int| 0 <= k < crate::text::strs(before).len() && crate::text::strs(before)[k] == current@[q].0@;
                    assert(crate::text::strs(out@)[k] == current@[q].0@);
                } else {
                    assert(crate::text::strs(out@)[out@.len() - 1] == current@[q].0@);
                }
            }
        }
        j = j + 1;
    }
    out
}

} // verus!
