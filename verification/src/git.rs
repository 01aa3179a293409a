//! Reading the output of git: `status --porcelain=v1`, `log` with a field
//! separator, `blame --porcelain`, and the arguments the tools pass to git.
use vstd::prelude::*;
use vstd::utf8::encode_utf8;
use crate::error::ToolError;
use crate::text::{vec_eq, byte_cut, is_cut, lemma_cut_unique, contains, lower_text, str_contains, to_lowercase, byte_len, byte_len_at_least, chars_of, is_hex, parse_usize, parse_usize_str, str_starts_with, dec, lemma_lex_total, lemma_lex_trans, lex_lt, lines_of, lines_str, match_at, matches_at, owned, push_str, starts_with, string_of, strs, trim, trim_chars, trim_str};

verus! {

// ─── Sorted sets of strings ─────────────────────────────────────────────────

/// Strictly increasing: sorted and without duplicates, like a `BTreeSet`.
pub open spec fn sorted_set(s: Seq<Seq<char>>) -> bool {
    forall|i: int, j: int| 0 <= i < j < s.len() ==> lex_lt(#[trigger] s[i], #[trigger] s[j])
}

/// Inserts `x` into a sorted set of strings.
pub fn insert_sorted(v: &mut Vec<String>, x: String)
    requires
        sorted_set(strs(old(v)@)),
    ensures
        sorted_set(strs(final(v)@)),
        forall|y: Seq<char>| strs(final(v)@).contains(y) <==> (strs(old(v)@).contains(y) || y == x@),
{
    let ghost old_s = strs(v@);
    let xc = chars_of(x.as_str());
    let mut p: usize = 0;
    while p < v.len() && crate::text::chars_lt(&chars_of(v[p].as_str()), &xc)
        invariant
            p <= v.len(),
            xc@ == x@,
            old_s == strs(v@),
            sorted_set(old_s),
            forall|i: int| 0 <= i < p ==> lex_lt(old_s[i], x@),
        decreases v.len() - p,
    {
        p = p + 1;
    }
    if p < v.len() && crate::text::str_eq(v[p].as_str(), x.as_str()) {
        assert forall|y: Seq<char>| old_s.contains(y) <==> (old_s.contains(y) || y == x@) by {
            if y == x@ {
                assert(old_s[p as int] == y);
            }
        }
        return;
    }
    proof {
        if p < v.len() {
            lemma_lex_total(old_s[p as int], x@);
        }
    }
    v.insert(p, x);
    let ghost new_s = strs(v@);
    assert(new_s =~= old_s.take(p as int).push(x@) + old_s.skip(p as int));
    assert forall|i: int, j: int| 0 <= i < j < new_s.len() implies lex_lt(#[trigger] new_s[i], #[trigger] new_s[j]) by {
        if j < p {
        } else if j == p {
        } else if i < p {
            lemma_lex_total(old_s[p as int], x@);
            if j - 1 > p {
                lemma_lex_trans(x@, old_s[p as int], old_s[j - 1]);
            }
            lemma_lex_trans(old_s[i], x@, old_s[j - 1]);
        } else if i == p {
            lemma_lex_total(old_s[p as int], x@);
            if j - 1 > p {
                lemma_lex_trans(x@, old_s[p as int], old_s[j - 1]);
            }
        } else {
            assert(new_s[i] == old_s[i - 1]);
            assert(new_s[j] == old_s[j - 1]);
        }
    }
    assert forall|y: Seq<char>| new_s.contains(y) <==> (old_s.contains(y) || y == x@) by {
        if new_s.contains(y) {
            let k = choose|k: int| 0 <= k < new_s.len() && new_s[k] == y;
            if k < p {
                assert(old_s[k] == y);
            } else if k > p {
                assert(old_s[k - 1] == y);
            }
        }
        if old_s.contains(y) {
            let k = choose|k: int| 0 <= k < old_s.len() && old_s[k] == y;
            if k < p {
                assert(new_s[k] == y);
            } else {
                assert(new_s[k + 1] == y);
            }
        }
        if y == x@ {
            assert(new_s[p as int] == y);
        }
    }
}

// ─── git status ─────────────────────────────────────────────────────────────

/// Result of `git_status`.
pub struct GitStatusResult {
    pub kind: String,
    pub branch: String,
    pub modified: Vec<String>,
    pub added: Vec<String>,
    pub deleted: Vec<String>,
    pub untracked: Vec<String>,
    pub staged: Vec<String>,
    pub conflicts: Vec<String>,
    pub clean: bool,
}

/// The lists a status line can put its path in.
pub enum StatusKind {
    Modified,
    Added,
    Deleted,
    Untracked,
    Staged,
    Conflict,
}

/// An unmerged pair of status codes.
pub open spec fn conflict_codes(x: char, y: char) -> bool {
    x == 'U' || y == 'U' || (x == 'A' && y == 'A') || (x == 'D' && y == 'D')
}

/// `is_conflict`.
pub fn is_conflict(x: char, y: char) -> (r: bool)
    ensures
        r == conflict_codes(x, y),
{
    x == 'U' || y == 'U' || (x == 'A' && y == 'A') || (x == 'D' && y == 'D')
}

/// Backslashes turned into slashes.
pub open spec fn normalize(p: Seq<char>) -> Seq<char> {
    p.map_values(|c: char| if c == '\\' { '/' } else { c })
}

/// Index of the last `->` in `s`, or -1.
pub open spec fn last_arrow(s: Seq<char>, i: int) -> int
    decreases i + 1,
{
    if i < 0 {
        -1
    } else if match_at(s, "->"@, i) {
        i
    } else {
        last_arrow(s, i - 1)
    }
}

/// The target of a rename (`old -> new`), or the path itself.
pub open spec fn rename_target(raw: Seq<char>) -> Seq<char> {
    let i = last_arrow(raw, raw.len() as int - 2);
    if i >= 0 {
        trim(raw.skip(i + 2))
    } else {
        raw
    }
}

pub open spec fn is_ascii_char(c: char) -> bool {
    (c as u32) < 128
}

/// A porcelain status line that is read: at least two bytes.
pub open spec fn untracked_line(l: Seq<char>) -> bool {
    byte_len(l) >= 2 && starts_with(l, "??"@)
}

pub open spec fn tracked_line(l: Seq<char>) -> bool {
    byte_len(l) >= 3 && !starts_with(l, "??"@)
}

/// A tracked line can be cut after its second and after its third byte
/// (the status codes and the space before the path): bytes 2 and 3 fall
/// between characters. Otherwise the cut would split a character.
pub open spec fn status_line_ok(l: Seq<char>) -> bool {
    tracked_line(l) ==> ((exists|k: int| is_cut(l, k, 2)) && (exists|k: int| is_cut(l, k, 3)))
}

/// The number of characters in the first `n` bytes of `l`.
pub open spec fn cut_of(l: Seq<char>, n: nat) -> int {
    choose|k: int| is_cut(l, k, n)
}

/// The first status code of a tracked line: the first character of its
/// first two bytes.
pub open spec fn status_x(l: Seq<char>) -> char {
    l[0]
}

/// The second status code: the second character of the first two bytes,
/// or a space where they hold one character.
pub open spec fn status_y(l: Seq<char>) -> char {
    if cut_of(l, 2) >= 2 {
        l[1]
    } else {
        ' '
    }
}

pub open spec fn status_output_ok(raw: Seq<char>) -> bool {
    forall|i: int| 0 <= i < lines_of(raw).len() ==> status_line_ok(#[trigger] lines_of(raw)[i])
}

/// The path a status line reports.
pub open spec fn status_path(l: Seq<char>) -> Seq<char> {
    if starts_with(l, "??"@) {
        normalize(trim(l.skip(2)))
    } else {
        normalize(rename_target(trim(l.skip(cut_of(l, 3)))))
    }
}

/// The line puts its path in the list `k`.
pub open spec fn line_in(l: Seq<char>, k: StatusKind) -> bool {
    if untracked_line(l) {
        k == StatusKind::Untracked
    } else if !tracked_line(l) {
        false
    } else if conflict_codes(status_x(l), status_y(l)) {
        k == StatusKind::Conflict
    } else {
        let x = status_x(l);
        let y = status_y(l);
        match k {
            StatusKind::Added => x == 'A',
            StatusKind::Staged => x == 'M',
            StatusKind::Deleted => x == 'D' || y == 'D',
            StatusKind::Modified => y == 'M' || x == 'R' || y == 'R' || x == 'C' || y == 'C',
            _ => false,
        }
    }
}

/// `p` is listed under `k` by one of the lines.
pub open spec fn listed(lines: Seq<Seq<char>>, k: StatusKind, p: Seq<char>) -> bool {
    exists|i: int| 0 <= i < lines.len() && line_in(#[trigger] lines[i], k) && status_path(lines[i]) == p
}

/// A list of a status result: sorted, without duplicates, and holding
/// exactly the paths the lines put in it.
pub open spec fn status_list(v: Seq<String>, lines: Seq<Seq<char>>, k: StatusKind) -> bool {
    &&& sorted_set(strs(v))
    &&& forall|p: Seq<char>| strs(v).contains(p) <==> listed(lines, k, p)
}

/// Characters from index `k` on.
fn skip_chars(v: &Vec<char>, k: usize) -> (r: Vec<char>)
    requires
        k <= v.len(),
    ensures
        r@ == v@.skip(k as int),
{
    let mut r: Vec<char> = Vec::new();
    let mut i = k;
    while i < v.len()
        invariant
            k <= i <= v.len(),
            r@ == v@.subrange(k as int, i as int),
        decreases v.len() - i,
    {
        r.push(v[i]);
        i = i + 1;
        assert(v@.subrange(k as int, i as int) =~= v@.subrange(k as int, i - 1).push(v@[i - 1]));
    }
    r
}

/// `path.replace('\\', "/")`.
pub fn normalize_path(p: &Vec<char>) -> (r: String)
    ensures
        r@ == normalize(p@),
{
    let mut v: Vec<char> = Vec::new();
    let mut i: usize = 0;
    while i < p.len()
        invariant
            i <= p.len(),
            v@ == normalize(p@.take(i as int)),
        decreases p.len() - i,
    {
        let c = p[i];
        v.push(if c == '\\' { '/' } else { c });
        i = i + 1;
        assert(normalize(p@.take(i as int)) =~= normalize(p@.take(i - 1)).push(
            if p@[i - 1] == '\\' { '/' } else { p@[i - 1] },
        ));
    }
    assert(p@.take(p.len() as int) =~= p@);
    string_of(&v)
}

/// `parse_rename_path`: the text after the last `->`, trimmed.
pub fn parse_rename_path(raw: &Vec<char>) -> (r: Vec<char>)
    ensures
        r@ == rename_target(raw@),
{
    let arrow = chars_of("->");
    proof {
        reveal_strlit("->");
    }
    let mut i: usize = raw.len();
    while i >= 2
        invariant
            i <= raw.len(),
            arrow@ == "->"@,
            last_arrow(raw@, raw@.len() as int - 2) == last_arrow(raw@, i as int - 2),
        decreases i,
    {
        if matches_at(raw, &arrow, i - 2) {
            let rest = skip_chars(raw, i);
            return trim_chars(&rest);
        }
        i = i - 1;
    }
    assert(last_arrow(raw@, i as int - 2) == -1);
    let mut r: Vec<char> = Vec::new();
    crate::text::push_chars(&mut r, raw);
    r
}

/// Whether `s` starts with two question marks.
fn starts_qq(c: &Vec<char>) -> (r: bool)
    ensures
        r == starts_with(c@, "??"@),
{
    proof {
        reveal_strlit("??");
    }
    let r = c.len() >= 2 && c[0] == '?' && c[1] == '?';
    proof {
        if c@.len() >= 2 {
            if r {
                assert(c@.take(2) =~= "??"@);
            } else {
                assert(c@.take(2)[0] != "??"@[0] || c@.take(2)[1] != "??"@[1]);
            }
        }
    }
    r
}

/// `res` is the status `run_git_status` gives for these outputs.
pub open spec fn git_status_answer(branch_raw: Seq<char>, status_raw: Seq<char>, res: GitStatusResult) -> bool {
    let lines = lines_of(status_raw);
    &&& res.kind@ == "success"@
    &&& res.branch@ == trim(branch_raw)
    &&& status_list(res.modified@, lines, StatusKind::Modified)
    &&& status_list(res.added@, lines, StatusKind::Added)
    &&& status_list(res.deleted@, lines, StatusKind::Deleted)
    &&& status_list(res.untracked@, lines, StatusKind::Untracked)
    &&& status_list(res.staged@, lines, StatusKind::Staged)
    &&& status_list(res.conflicts@, lines, StatusKind::Conflict)
    &&& res.clean == (res.modified.len() == 0 && res.added.len() == 0 && res.deleted.len() == 0
        && res.untracked.len() == 0 && res.staged.len() == 0 && res.conflicts.len() == 0)
}

/// A deletion is reported: a tracked status line that is not a conflict and
/// whose index or work-tree code is `D` (a file removed with `git rm`, or
/// deleted from the work tree) puts its path in the deleted list, and the
/// repository is then not clean.
pub proof fn law_deletion_is_listed(branch_raw: Seq<char>, status_raw: Seq<char>, res: GitStatusResult, i: int)
    requires
        git_status_answer(branch_raw, status_raw, res),
        0 <= i < lines_of(status_raw).len(),
        byte_len(lines_of(status_raw)[i]) >= 3,
        !starts_with(lines_of(status_raw)[i], "??"@),
        status_x(lines_of(status_raw)[i]) == 'D' || status_y(lines_of(status_raw)[i]) == 'D',
        status_x(lines_of(status_raw)[i]) != 'U',
        status_y(lines_of(status_raw)[i]) != 'U',
        !(status_x(lines_of(status_raw)[i]) == 'D' && status_y(lines_of(status_raw)[i]) == 'D'),
    ensures
        strs(res.deleted@).contains(status_path(lines_of(status_raw)[i])),
        !res.clean,
{
    let lines = lines_of(status_raw);
    let l = lines[i];
    assert(!untracked_line(l));
    assert(tracked_line(l));
    assert(line_in(lines[i], StatusKind::Deleted));
    assert(listed(lines, StatusKind::Deleted, status_path(l)));
    assert(strs(res.deleted@).len() > 0);
}

/// Every status line is reported where its codes put it: `??` lines as
/// untracked; tracked lines with `U` in a column, or `AA` or `DD`, as
/// conflicts; other tracked lines as added when the index code is `A`,
/// staged when it is `M`, and modified when the work-tree code is `M` or
/// either code is `R` or `C`.  A repository with any such line is not
/// clean.
pub proof fn law_status_lines_are_listed(branch_raw: Seq<char>, status_raw: Seq<char>, res: GitStatusResult, i: int)
    requires
        git_status_answer(branch_raw, status_raw, res),
        0 <= i < lines_of(status_raw).len(),
    ensures
        ({
            let l = lines_of(status_raw)[i];
            let p = status_path(l);
            let x = status_x(l);
            let y = status_y(l);
            let in_index = byte_len(l) >= 3 && !starts_with(l, "??"@);
            let conflict = x == 'U' || y == 'U' || (x == 'A' && y == 'A') || (x == 'D' && y == 'D');
            &&& (byte_len(l) >= 2 && starts_with(l, "??"@)) ==> strs(res.untracked@).contains(p) && !res.clean
            &&& (in_index && conflict) ==> strs(res.conflicts@).contains(p) && !res.clean
            &&& (in_index && !conflict && x == 'A') ==> strs(res.added@).contains(p) && !res.clean
            &&& (in_index && !conflict && x == 'M') ==> strs(res.staged@).contains(p) && !res.clean
            &&& (in_index && !conflict && (y == 'M' || x == 'R' || y == 'R' || x == 'C' || y == 'C'))
                ==> strs(res.modified@).contains(p) && !res.clean
        }),
{
    let lines = lines_of(status_raw);
    let l = lines[i];
    let p = status_path(l);
    if line_in(lines[i], StatusKind::Untracked) {
        assert(listed(lines, StatusKind::Untracked, p));
        assert(strs(res.untracked@).len() > 0);
    }
    if line_in(lines[i], StatusKind::Conflict) {
        assert(listed(lines, StatusKind::Conflict, p));
        assert(strs(res.conflicts@).len() > 0);
    }
    if line_in(lines[i], StatusKind::Added) {
        assert(listed(lines, StatusKind::Added, p));
        assert(strs(res.added@).len() > 0);
    }
    if line_in(lines[i], StatusKind::Staged) {
        assert(listed(lines, StatusKind::Staged, p));
        assert(strs(res.staged@).len() > 0);
    }
    if line_in(lines[i], StatusKind::Modified) {
        assert(listed(lines, StatusKind::Modified, p));
        assert(strs(res.modified@).len() > 0);
    }
}

/// A clean repository has no status line that any list reports.
pub proof fn law_clean_means_no_changes(branch_raw: Seq<char>, status_raw: Seq<char>, res: GitStatusResult)
    requires
        git_status_answer(branch_raw, status_raw, res),
        res.clean,
    ensures
        forall|k: StatusKind, p: Seq<char>| !listed(lines_of(status_raw), k, p),
{
    assert forall|k: StatusKind, p: Seq<char>| !listed(lines_of(status_raw), k, p) by {
        if listed(lines_of(status_raw), k, p) {
            match k {
                StatusKind::Modified => assert(strs(res.modified@).contains(p)),
                StatusKind::Added => assert(strs(res.added@).contains(p)),
                StatusKind::Deleted => assert(strs(res.deleted@).contains(p)),
                StatusKind::Untracked => assert(strs(res.untracked@).contains(p)),
                StatusKind::Staged => assert(strs(res.staged@).contains(p)),
                StatusKind::Conflict => assert(strs(res.conflicts@).contains(p)),
            }
        }
    }
}

/// Only deletions are reported as deleted: every path of the deleted list
/// comes from a tracked status line, not a conflict, with a `D` code.
pub proof fn law_deleted_come_from_deletions(branch_raw: Seq<char>, status_raw: Seq<char>, res: GitStatusResult, p: Seq<char>)
    requires
        git_status_answer(branch_raw, status_raw, res),
        strs(res.deleted@).contains(p),
    ensures
        exists|i: int|
            {
                &&& 0 <= i < lines_of(status_raw).len()
                &&& byte_len(#[trigger] lines_of(status_raw)[i]) >= 3
                &&& !starts_with(lines_of(status_raw)[i], "??"@)
                &&& (status_x(lines_of(status_raw)[i]) == 'D' || status_y(lines_of(status_raw)[i]) == 'D')
                &&& !conflict_codes(status_x(lines_of(status_raw)[i]), status_y(lines_of(status_raw)[i]))
                &&& status_path(lines_of(status_raw)[i]) == p
            },
{
    let lines = lines_of(status_raw);
    assert(listed(lines, StatusKind::Deleted, p));
    let i = choose|i: int| 0 <= i < lines.len() && line_in(#[trigger] lines[i], StatusKind::Deleted) && status_path(lines[i]) == p;
    assert(byte_len(lines_of(status_raw)[i]) >= 3);
}

/// The status of a repository from `git rev-parse --abbrev-ref HEAD`
/// (`branch_raw`) and `git status --porcelain=v1 -u` (`status_raw`): the
/// trimmed branch name and the sorted, deduplicated paths of each list.
pub fn run_git_status(branch_raw: &str, status_raw: &str) -> (r: Result<GitStatusResult, ToolError>)
    requires
        status_output_ok(status_raw@),
    ensures
        r matches Ok(res) && git_status_answer(branch_raw@, status_raw@, res),
{
    let branch = trim_str(branch_raw);
    let lines = lines_str(status_raw);
    let ghost ls = strs(lines@);
    let mut modified: Vec<String> = Vec::new();
    let mut added: Vec<String> = Vec::new();
    let mut deleted: Vec<String> = Vec::new();
    let mut untracked: Vec<String> = Vec::new();
    let mut staged: Vec<String> = Vec::new();
    let mut conflicts: Vec<String> = Vec::new();
    let mut i: usize = 0;
    while i < lines.len()
        invariant
            i <= lines.len(),
            ls == strs(lines@),
            ls == lines_of(status_raw@),
            status_output_ok(status_raw@),
            status_list(modified@, ls.take(i as int), StatusKind::Modified),
            status_list(added@, ls.take(i as int), StatusKind::Added),
            status_list(deleted@, ls.take(i as int), StatusKind::Deleted),
            status_list(untracked@, ls.take(i as int), StatusKind::Untracked),
            status_list(staged@, ls.take(i as int), StatusKind::Staged),
            status_list(conflicts@, ls.take(i as int), StatusKind::Conflict),
        decreases lines.len() - i,
    {
        let line = &lines[i];
        let ghost l = ls[i as int];
        let ghost pre = ls.take(i as int);
        let ghost post = ls.take(i + 1);
        assert(post =~= pre.push(l));
        assert(status_line_ok(ls[i as int]));
        let c = chars_of(line.as_str());
        let len2 = byte_len_at_least(&c, 2);
        let len3 = byte_len_at_least(&c, 3);
        proof {
            reveal_strlit("??");
            assert(line@ == l);
            assert forall|k: StatusKind, p: Seq<char>| #[trigger] listed(post, k, p) <==> (listed(pre, k, p)
                || (line_in(l, k) && status_path(l) == p)) by {
                if listed(post, k, p) {
                    let j = choose|j: int| 0 <= j < post.len() && line_in(#[trigger] post[j], k) && status_path(post[j]) == p;
                    if j < pre.len() {
                        assert(pre[j] == post[j]);
                    }
                }
                if listed(pre, k, p) {
                    let j = choose|j: int| 0 <= j < pre.len() && line_in(#[trigger] pre[j], k) && status_path(pre[j]) == p;
                    assert(post[j] == pre[j]);
                }
                if line_in(l, k) && status_path(l) == p {
                    assert(post[i as int] == l);
                }
            }
        }
        if !len2 {
            assert(!line_in(l, StatusKind::Modified) && !line_in(l, StatusKind::Added)
                && !line_in(l, StatusKind::Deleted) && !line_in(l, StatusKind::Untracked)
                && !line_in(l, StatusKind::Staged) && !line_in(l, StatusKind::Conflict));
        } else if starts_qq(&c) {
            let rest = skip_chars(&c, 2);
            let t = trim_chars(&rest);
            let path = normalize_path(&t);
            assert(status_path(l) == path@);
            insert_sorted(&mut untracked, path);
        } else if !len3 {
            assert(!line_in(l, StatusKind::Modified) && !line_in(l, StatusKind::Added)
                && !line_in(l, StatusKind::Deleted) && !line_in(l, StatusKind::Untracked)
                && !line_in(l, StatusKind::Staged) && !line_in(l, StatusKind::Conflict));
        } else {
            let k2: usize = match byte_cut(&c, 2) {
                Some(k) => k,
                None => {
                    proof {
                        let w = choose|k: int| is_cut(c@, k, 2);
                        assert(is_cut(c@, w, 2));
                    }
                    0
                },
            };
            let k3: usize = match byte_cut(&c, 3) {
                Some(k) => k,
                None => {
                    proof {
                        let w = choose|k: int| is_cut(c@, k, 3);
                        assert(is_cut(c@, w, 3));
                    }
                    0
                },
            };
            proof {
                lemma_cut_unique(c@, k2 as int, cut_of(c@, 2), 2);
                lemma_cut_unique(c@, k3 as int, cut_of(c@, 3), 3);
                if k2 == 0 {
                    assert(c@.take(0) =~= Seq::<char>::empty());
                    assert(encode_utf8(Seq::<char>::empty()) =~= Seq::<u8>::empty());
                }
            }
            let x = c[0];
            let y = if k2 >= 2 { c[1] } else { ' ' };
            let rest = skip_chars(&c, k3);
            let raw_path = trim_chars(&rest);
            let target = parse_rename_path(&raw_path);
            let path = normalize_path(&target);
            assert(status_path(l) == path@);
            if is_conflict(x, y) {
                insert_sorted(&mut conflicts, path);
            } else {
                if x == 'A' {
                    insert_sorted(&mut added, path.clone());
                }
                if x == 'M' {
                    insert_sorted(&mut staged, path.clone());
                }
                if x == 'D' || y == 'D' {
                    insert_sorted(&mut deleted, path.clone());
                }
                if y == 'M' || x == 'R' || y == 'R' || x == 'C' || y == 'C' {
                    insert_sorted(&mut modified, path.clone());
                }
            }
        }
        i = i + 1;
    }
    assert(ls.take(lines.len() as int) =~= ls);
    let clean = modified.len() == 0 && added.len() == 0 && deleted.len() == 0 && untracked.len() == 0
        && staged.len() == 0 && conflicts.len() == 0;
    Ok(GitStatusResult {
        kind: owned("success"),
        branch,
        modified,
        added,
        deleted,
        untracked,
        staged,
        conflicts,
        clean,
    })
}

// ─── Splitting ──────────────────────────────────────────────────────────────

/// First position at or after `i` where `sep` occurs, or -1.
pub open spec fn first_match_from(s: Seq<char>, sep: Seq<char>, i: int) -> int
    decreases s.len() + 1 - i,
{
    if i < 0 || i + sep.len() > s.len() {
        -1
    } else if match_at(s, sep, i) {
        i
    } else {
        first_match_from(s, sep, i + 1)
    }
}

/// `s.splitn(n, sep)` for a nonempty `sep` and `n >= 1`.
pub open spec fn splitn_spec(s: Seq<char>, sep: Seq<char>, n: nat) -> Seq<Seq<char>>
    decreases n,
{
    let i = first_match_from(s, sep, 0);
    if n <= 1 || i < 0 {
        seq![s]
    } else {
        seq![s.take(i)] + splitn_spec(s.skip(i + sep.len()), sep, (n - 1) as nat)
    }
}

/// Where `sep` first occurs in `s`.
pub fn find_first(s: &Vec<char>, sep: &Vec<char>) -> (r: Option<usize>)
    requires
        sep.len() > 0,
    ensures
        r matches Some(i) ==> i as int == first_match_from(s@, sep@, 0) && i + sep.len() <= s.len(),
        r is None ==> first_match_from(s@, sep@, 0) == -1,
{
    if sep.len() > s.len() {
        return None;
    }
    let mut i: usize = 0;
    let last = s.len() - sep.len();
    while i <= last
        invariant
            0 < sep.len() <= s.len(),
            last == s.len() - sep.len(),
            i <= last + 1,
            first_match_from(s@, sep@, 0) == first_match_from(s@, sep@, i as int),
        decreases last + 1 - i,
    {
        if matches_at(s, sep, i) {
            return Some(i);
        }
        i = i + 1;
    }
    None
}

pub fn take_vec(v: &Vec<char>, k: usize) -> (r: Vec<char>)
    requires
        k <= v.len(),
    ensures
        r@ == v@.take(k as int),
{
    let mut r: Vec<char> = Vec::new();
    let mut i: usize = 0;
    while i < k
        invariant
            i <= k <= v.len(),
            r@ == v@.take(i as int),
        decreases k - i,
    {
        r.push(v[i]);
        i = i + 1;
        assert(v@.take(i as int) =~= v@.take(i - 1).push(v@[i - 1]));
    }
    r
}

/// `s.splitn(n, sep)` on characters.
pub fn splitn_chars(s: &Vec<char>, sep: &Vec<char>, n: usize) -> (r: Vec<Vec<char>>)
    requires
        sep.len() > 0,
    ensures
        r@.map_values(|v: Vec<char>| v@) == splitn_spec(s@, sep@, n as nat),
    decreases n,
{
    let found = find_first(s, sep);
    match found {
        Some(i) => {
            if n <= 1 {
                let mut r: Vec<Vec<char>> = Vec::new();
                r.push(take_vec(s, s.len()));
                assert(s@.take(s.len() as int) =~= s@);
                assert(r@.map_values(|v: Vec<char>| v@) =~= seq![s@]);
                r
            } else {
                let head = take_vec(s, i);
                let tail = skip_chars(s, i + sep.len());
                let rest = splitn_chars(&tail, sep, n - 1);
                let mut r: Vec<Vec<char>> = Vec::new();
                r.push(head);
                let mut k: usize = 0;
                while k < rest.len()
                    invariant
                        k <= rest.len(),
                        r@.map_values(|v: Vec<char>| v@) == seq![s@.take(i as int)] + rest@.map_values(
                            |v: Vec<char>| v@,
                        ).take(k as int),
                    decreases rest.len() - k,
                {
                    let ghost prev = r@.map_values(|v: Vec<char>| v@);
                    r.push(take_vec(&rest[k], rest[k].len()));
                    assert(rest@[k as int]@.take(rest@[k as int].len() as int) =~= rest@[k as int]@);
                    assert(r@.map_values(|v: Vec<char>| v@) =~= prev.push(rest@[k as int]@));
                    assert(rest@.map_values(|v: Vec<char>| v@).take(k + 1) =~= rest@.map_values(
                        |v: Vec<char>| v@,
                    ).take(k as int).push(rest@[k as int]@));
                    k = k + 1;
                    assert(r@.map_values(|v: Vec<char>| v@) =~= seq![s@.take(i as int)] + rest@.map_values(
                        |v: Vec<char>| v@,
                    ).take(k as int));
                }
                assert(rest@.map_values(|v: Vec<char>| v@).take(rest.len() as int) =~= rest@.map_values(
                    |v: Vec<char>| v@,
                ));
                r
            }
        },
        None => {
            let mut r: Vec<Vec<char>> = Vec::new();
            r.push(take_vec(s, s.len()));
            assert(s@.take(s.len() as int) =~= s@);
            assert(r@.map_values(|v: Vec<char>| v@) =~= seq![s@]);
            r
        },
    }
}

// ─── git log ────────────────────────────────────────────────────────────────

/// Parameters of `git_log`.
pub struct GitLogParams {
    /// Most commits to list (default 20, at most 200).
    pub limit: Option<usize>,
    /// Only commits touching this relative path.
    pub path: Option<String>,
    /// Starting ref (default HEAD).
    pub since: Option<String>,
}

/// One commit.
pub struct CommitEntry {
    pub hash: String,
    pub short: String,
    pub author: String,
    pub date: String,
    pub subject: String,
}

/// Result of `git_log`.
pub struct GitLogResult {
    pub kind: String,
    pub total: usize,
    pub commits: Vec<CommitEntry>,
}

/// `limit.unwrap_or(20).min(200)`.
pub open spec fn log_limit(l: Option<usize>) -> nat {
    let n: nat = match l {
        Some(x) => x as nat,
        None => 20,
    };
    if n < 200 { n } else { 200 }
}

/// The arguments of `git log`: format, count, start, `--` and the path.
pub open spec fn log_args(p: GitLogParams) -> Seq<Seq<char>> {
    seq![
        "log"@,
        "--format=%H|||%h|||%an|||%ai|||%s"@,
        "-"@ + dec(log_limit(p.limit)),
        match p.since {
            Some(s) => s@,
            None => "HEAD"@,
        },
        "--"@,
    ] + match p.path {
        Some(x) => seq![x@],
        None => Seq::<Seq<char>>::empty(),
    }
}

/// Arguments for `git log` with these parameters.
pub fn git_log_args(params: &GitLogParams) -> (r: Vec<String>)
    ensures
        strs(r@) == log_args(*params),
{
    let limit: usize = match params.limit {
        Some(x) => if x < 200 { x } else { 200 },
        None => 20,
    };
    let mut args: Vec<String> = Vec::new();
    args.push(owned("log"));
    args.push(owned("--format=%H|||%h|||%an|||%ai|||%s"));
    let mut l = chars_of("-");
    let d = crate::text::dec_string(limit);
    push_str(&mut l, d.as_str());
    args.push(string_of(&l));
    args.push(match &params.since {
        Some(s) => s.clone(),
        None => owned("HEAD"),
    });
    args.push(owned("--"));
    match &params.path {
        Some(p) => args.push(p.clone()),
        None => {},
    }
    assert(strs(args@) =~= log_args(*params));
    args
}

/// The field lists of the commit lines among `lines`: nonempty lines that
/// split into five fields at the first four `|||`.
pub open spec fn log_commit_parts(lines: Seq<Seq<char>>) -> Seq<Seq<Seq<char>>>
    decreases lines.len(),
{
    if lines.len() == 0 {
        seq![]
    } else {
        let prev = log_commit_parts(lines.drop_last());
        let p = splitn_spec(lines.last(), "|||"@, 5);
        if lines.last().len() > 0 && p.len() == 5 {
            prev.push(p)
        } else {
            prev
        }
    }
}

pub open spec fn commit_fields(c: CommitEntry) -> Seq<Seq<char>> {
    seq![c.hash@, c.short@, c.author@, c.date@, c.subject@]
}

/// The commits listed by `git log --format=%H|||%h|||%an|||%ai|||%s`.
pub fn run_git_log(output: &str) -> (r: Result<GitLogResult, ToolError>)
    ensures
        r matches Ok(res) && {
            let parts = log_commit_parts(lines_of(output@));
            &&& res.kind@ == "success"@
            &&& res.commits.len() == parts.len()
            &&& res.total == parts.len()
            &&& forall|k: int| 0 <= k < parts.len() ==> commit_fields(#[trigger] res.commits@[k]) == parts[k]
        },
{
    let lines = lines_str(output);
    let ghost ls = strs(lines@);
    let sep = chars_of("|||");
    proof {
        reveal_strlit("|||");
    }
    let mut commits: Vec<CommitEntry> = Vec::new();
    let mut i: usize = 0;
    while i < lines.len()
        invariant
            i <= lines.len(),
            ls == strs(lines@),
            ls == lines_of(output@),
            sep@ == "|||"@,
            commits.len() == log_commit_parts(ls.take(i as int)).len(),
            forall|k: int| 0 <= k < commits.len() ==> commit_fields(#[trigger] commits@[k]) == log_commit_parts(ls.take(i as int))[k],
        decreases lines.len() - i,
    {
        assert(ls.take(i + 1).drop_last() =~= ls.take(i as int));
        assert(ls.take(i + 1).last() == lines@[i as int]@);
        let c = chars_of(lines[i].as_str());
        proof {
            reveal_strlit("|||");
        }
        if c.len() > 0 {
            let parts = splitn_chars(&c, &sep, 5);
            if parts.len() == 5 {
                let ghost pv = parts@.map_values(|v: Vec<char>| v@);
                assert(pv[0] == parts@[0]@ && pv[1] == parts@[1]@ && pv[2] == parts@[2]@ && pv[3] == parts@[3]@ && pv[4] == parts@[4]@);
                let e = CommitEntry {
                    hash: string_of(&parts[0]),
                    short: string_of(&parts[1]),
                    author: string_of(&parts[2]),
                    date: string_of(&parts[3]),
                    subject: string_of(&parts[4]),
                };
                assert(commit_fields(e) =~= pv);
                commits.push(e);
            }
        }
        i = i + 1;
    }
    assert(ls.take(lines.len() as int) =~= ls);
    let total = commits.len();
    Ok(GitLogResult { kind: owned("success"), total, commits })
}

// ─── git blame ──────────────────────────────────────────────────────────────

/// Parameters of `git_blame`.
pub struct GitBlameParams {
    pub path: String,
    /// 1-based, inclusive; `None` for the whole file.
    pub start_line: Option<usize>,
    pub end_line: Option<usize>,
}

/// Authorship of one line.
pub struct BlameLine {
    pub line: usize,
    pub hash: String,
    pub short: String,
    pub author: String,
    pub date: String,
    pub content: String,
}

/// Result of `git_blame`.
pub struct GitBlameResult {
    pub kind: String,
    pub path: String,
    pub total: usize,
    pub lines: Vec<BlameLine>,
}

/// The line range argument of `git blame`, if any.
pub open spec fn blame_range(p: GitBlameParams) -> Seq<Seq<char>> {
    match (p.start_line, p.end_line) {
        (Some(s), Some(e)) => seq!["-L"@, dec(s as nat) + ","@ + dec(e as nat)],
        (Some(s), None) => seq!["-L"@, dec(s as nat) + ",+9999"@],
        _ => Seq::<Seq<char>>::empty(),
    }
}

/// Arguments of `git blame --porcelain` for `rel`, the repository-relative path.
pub fn git_blame_args(params: &GitBlameParams, rel: &str) -> (r: Vec<String>)
    ensures
        strs(r@) == seq!["blame"@, "--porcelain"@] + blame_range(*params) + seq!["--"@, rel@],
{
    let mut args: Vec<String> = Vec::new();
    args.push(owned("blame"));
    args.push(owned("--porcelain"));
    match (params.start_line, params.end_line) {
        (Some(s), Some(e)) => {
            args.push(owned("-L"));
            let mut v = chars_of(crate::text::dec_string(s).as_str());
            push_str(&mut v, ",");
            push_str(&mut v, crate::text::dec_string(e).as_str());
            args.push(string_of(&v));
        },
        (Some(s), None) => {
            args.push(owned("-L"));
            let mut v = chars_of(crate::text::dec_string(s).as_str());
            push_str(&mut v, ",+9999");
            args.push(string_of(&v));
        },
        _ => {},
    }
    args.push(owned("--"));
    args.push(owned(rel));
    assert(strs(args@) =~= seq!["blame"@, "--porcelain"@] + blame_range(*params) + seq!["--"@, rel@]);
    args
}

/// Every character is a hex digit.
pub open spec fn all_hex(s: Seq<char>) -> bool {
    forall|i: int| 0 <= i < s.len() ==> is_hex(#[trigger] s[i])
}

/// A header line of a commit block: a 40-hex-digit commit id, then the
/// original and the final line number.
pub open spec fn is_blame_header(l: Seq<char>) -> bool {
    let p = splitn_spec(l, " "@, 4);
    &&& p.len() >= 3
    &&& p[0].len() == 40
    &&& all_hex(p[0])
    &&& parse_usize(p[1]) is Some
    &&& parse_usize(p[2]) is Some
}

/// Whether `v` is a 40-hex-digit commit id.
fn is_commit_id(v: &Vec<char>) -> (r: bool)
    ensures
        r == (v@.len() == 40 && all_hex(v@)),
{
    if v.len() != 40 {
        return false;
    }
    let mut i: usize = 0;
    while i < v.len()
        invariant
            i <= v.len(),
            forall|k: int| 0 <= k < i ==> is_hex(#[trigger] v@[k]),
        decreases v.len() - i,
    {
        let c = v[i];
        if !(('a' <= c && c <= 'f') || ('A' <= c && c <= 'F') || ('0' <= c && c <= '9')) {
            return false;
        }
        i = i + 1;
    }
    true
}

/// The final line number of a header, 0 when missing or not a number.
pub open spec fn header_lineno(l: Seq<char>) -> nat {
    let p = splitn_spec(l, " "@, 4);
    if p.len() > 2 {
        match parse_usize(p[2]) {
            Some(v) => v,
            None => 0,
        }
    } else {
        0
    }
}

/// Author and date recorded for commit `h`: the latest entry for it.
pub open spec fn meta_of(known: Seq<(Seq<char>, Seq<char>, Seq<char>)>, h: Seq<char>) -> Option<(Seq<char>, Seq<char>)>
    decreases known.len(),
{
    if known.len() == 0 {
        None
    } else if known.last().0 == h {
        Some((known.last().1, known.last().2))
    } else {
        meta_of(known.drop_last(), h)
    }
}

/// Parser state: hash, author, date and line number of the current block,
/// and the author and date seen so far for each commit.  Porcelain output
/// gives a commit's author lines only in its first block, so a header of a
/// commit seen before brings its recorded author and date back.
pub open spec fn blame_step(
    st: (Seq<char>, Seq<char>, Seq<char>, nat, Seq<(Seq<char>, Seq<char>, Seq<char>)>),
    l: Seq<char>,
) -> (Seq<char>, Seq<char>, Seq<char>, nat, Seq<(Seq<char>, Seq<char>, Seq<char>)>) {
    if starts_with(l, "\t"@) {
        st
    } else if is_blame_header(l) {
        let h = splitn_spec(l, " "@, 4)[0];
        match meta_of(st.4, h) {
            Some(m) => (h, m.0, m.1, header_lineno(l), st.4),
            None => (h, st.1, st.2, header_lineno(l), st.4),
        }
    } else if starts_with(l, "author "@) {
        (st.0, l.skip(7), st.2, st.3, st.4.push((st.0, l.skip(7), st.2)))
    } else if starts_with(l, "author-time "@) {
        (st.0, st.1, l.skip(12), st.3, st.4.push((st.0, st.1, l.skip(12))))
    } else {
        st
    }
}

pub open spec fn blame_state(lines: Seq<Seq<char>>) -> (
    Seq<char>,
    Seq<char>,
    Seq<char>,
    nat,
    Seq<(Seq<char>, Seq<char>, Seq<char>)>,
)
    decreases lines.len(),
{
    if lines.len() == 0 {
        (seq![], seq![], seq![], 0, seq![])
    } else {
        blame_step(blame_state(lines.drop_last()), lines.last())
    }
}

/// The first seven bytes of a hash, or the whole hash.
pub open spec fn short_hash(h: Seq<char>) -> Seq<char> {
    if byte_len(h) >= 7 {
        h.take(7)
    } else {
        h
    }
}

/// The rows of the content lines: line number, hash, short hash, author,
/// date and content.
pub open spec fn blame_rows(lines: Seq<Seq<char>>) -> Seq<(nat, Seq<char>, Seq<char>, Seq<char>, Seq<char>, Seq<char>)>
    decreases lines.len(),
{
    if lines.len() == 0 {
        seq![]
    } else {
        let prev = blame_rows(lines.drop_last());
        let l = lines.last();
        if starts_with(l, "\t"@) {
            let st = blame_state(lines.drop_last());
            prev.push((st.3, st.0, short_hash(st.0), st.1, st.2, l.skip(1)))
        } else {
            prev
        }
    }
}

pub open spec fn blame_row(b: BlameLine) -> (nat, Seq<char>, Seq<char>, Seq<char>, Seq<char>, Seq<char>) {
    (b.line as nat, b.hash@, b.short@, b.author@, b.date@, b.content@)
}

/// Cutting a hash at seven bytes falls between characters.
pub open spec fn hash_ok(h: Seq<char>) -> bool {
    byte_len(h) >= 7 ==> (h.len() >= 7 && forall|k: int| 0 <= k < 7 ==> is_ascii_char(#[trigger] h[k]))
}

/// Whether the line `c` is a header line.
fn is_header_line(c: &Vec<char>, space: &Vec<char>) -> (r: bool)
    requires
        space@ == " "@,
    ensures
        r == is_blame_header(c@),
{
    proof {
        reveal_strlit(" ");
    }
    let parts = splitn_chars(c, space, 4);
    let ghost pv = parts@.map_values(|v: Vec<char>| v@);
    if parts.len() < 3 {
        return false;
    }
    assert(pv[0] == parts@[0]@ && pv[1] == parts@[1]@ && pv[2] == parts@[2]@);
    if !is_commit_id(&parts[0]) {
        return false;
    }
    let a = string_of(&parts[1]);
    let b = string_of(&parts[2]);
    parse_usize_str(a.as_str()).is_some() && parse_usize_str(b.as_str()).is_some()
}

pub open spec fn known_view(k: Seq<(Vec<char>, Vec<char>, Vec<char>)>) -> Seq<(Seq<char>, Seq<char>, Seq<char>)> {
    k.map_values(|t: (Vec<char>, Vec<char>, Vec<char>)| (t.0@, t.1@, t.2@))
}

/// The index of the latest entry recorded for commit `h`.
fn find_meta(known: &Vec<(Vec<char>, Vec<char>, Vec<char>)>, h: &Vec<char>) -> (r: Option<usize>)
    ensures
        match r {
            Some(j) => j < known.len() && meta_of(known_view(known@), h@) == Some(
                (known@[j as int].1@, known@[j as int].2@),
            ),
            None => meta_of(known_view(known@), h@) is None,
        },
{
    let ghost kv = known_view(known@);
    let mut j: usize = known.len();
    assert(kv.take(j as int) =~= kv);
    while j > 0
        invariant
            j <= known.len(),
            kv == known_view(known@),
            meta_of(kv, h@) == meta_of(kv.take(j as int), h@),
        decreases j,
    {
        let ghost t = kv.take(j as int);
        assert(t.drop_last() =~= kv.take(j - 1));
        assert(t.last() == kv[j - 1]);
        j = j - 1;
        if vec_eq(&known[j].0, h) {
            return Some(j);
        }
    }
    None
}

/// A copy of `v`.
fn copy_chars(v: &Vec<char>) -> (r: Vec<char>)
    ensures
        r@ == v@,
{
    let r = take_vec(v, v.len());
    assert(v@.take(v.len() as int) =~= v@);
    r
}

/// The lines of `git blame --porcelain` output with their commit, author,
/// date and final line number.
pub fn parse_porcelain(output: &str) -> (r: Vec<BlameLine>)
    ensures
        r@.map_values(|b: BlameLine| blame_row(b)) == blame_rows(lines_of(output@)),
{
    let lines = lines_str(output);
    let ghost ls = strs(lines@);
    let space = chars_of(" ");
    let mut out: Vec<BlameLine> = Vec::new();
    let mut hash: Vec<char> = Vec::new();
    let mut author: Vec<char> = Vec::new();
    let mut date: Vec<char> = Vec::new();
    let mut lineno: usize = 0;
    let mut known: Vec<(Vec<char>, Vec<char>, Vec<char>)> = Vec::new();
    let mut i: usize = 0;
    proof {
        reveal_strlit(" ");
    }
    assert(known_view(known@) =~= seq![]);
    while i < lines.len()
        invariant
            i <= lines.len(),
            ls == strs(lines@),
            ls == lines_of(output@),
            space@ == " "@,
            (hash@, author@, date@, lineno as nat, known_view(known@)) == blame_state(ls.take(i as int)),
            hash_ok(hash@),
            out@.map_values(|b: BlameLine| blame_row(b)) == blame_rows(ls.take(i as int)),
        decreases lines.len() - i,
    {
        proof {
            reveal_strlit("\t");
            reveal_strlit("author ");
            reveal_strlit("author-time ");
            reveal_strlit(" ");
        }
        let ghost pre = ls.take(i as int);
        let ghost l = ls[i as int];
        assert(ls.take(i + 1).drop_last() =~= pre);
        assert(ls.take(i + 1).last() == l);
        let line = lines[i].as_str();
        let c = chars_of(line);
        let ghost before = out@.map_values(|b: BlameLine| blame_row(b));
        if str_starts_with(line, "\t") {
            let content = skip_chars(&c, 1);
            let short = if byte_len_at_least(&hash, 7) {
                take_vec(&hash, 7)
            } else {
                take_vec(&hash, hash.len())
            };
            assert(hash@.take(hash.len() as int) =~= hash@);
            let b = BlameLine {
                line: lineno,
                hash: string_of(&hash),
                short: string_of(&short),
                author: string_of(&author),
                date: string_of(&date),
                content: string_of(&content),
            };
            out.push(b);
            assert(out@.map_values(|b: BlameLine| blame_row(b)) =~= before.push(blame_row(b)));
        } else if is_header_line(&c, &space) {
            assert(is_blame_header(l));
            let parts = splitn_chars(&c, &space, 4);
            let ghost pv = parts@.map_values(|v: Vec<char>| v@);
            assert(pv[0] == parts@[0]@);
            assert(pv[2] == parts@[2]@);
            hash = copy_chars(&parts[0]);
            let t = string_of(&parts[2]);
            lineno = match parse_usize_str(t.as_str()) {
                Some(v) => v,
                None => 0,
            };
            match find_meta(&known, &hash) {
                Some(j) => {
                    author = copy_chars(&known[j].1);
                    date = copy_chars(&known[j].2);
                },
                None => {},
            }
            assert(out@.map_values(|b: BlameLine| blame_row(b)) == blame_rows(ls.take(i + 1)));
        } else if str_starts_with(line, "author ") {
            author = skip_chars(&c, 7);
            known.push((copy_chars(&hash), copy_chars(&author), copy_chars(&date)));
            assert(known_view(known@) =~= blame_state(pre).4.push((hash@, author@, date@)));
            assert(out@.map_values(|b: BlameLine| blame_row(b)) == blame_rows(ls.take(i + 1)));
        } else if str_starts_with(line, "author-time ") {
            date = skip_chars(&c, 12);
            known.push((copy_chars(&hash), copy_chars(&author), copy_chars(&date)));
            assert(known_view(known@) =~= blame_state(pre).4.push((hash@, author@, date@)));
            assert(out@.map_values(|b: BlameLine| blame_row(b)) == blame_rows(ls.take(i + 1)));
        } else {
            assert(out@.map_values(|b: BlameLine| blame_row(b)) == blame_rows(ls.take(i + 1)));
        }
        i = i + 1;
    }
    assert(ls.take(lines.len() as int) =~= ls);
    out
}

/// `git_blame` for the file at `path`: the parsed porcelain output.
pub fn run_git_blame(path: &str, output: &str) -> (r: Result<GitBlameResult, ToolError>)
    ensures
        r matches Ok(res) && {
            &&& res.kind@ == "success"@
            &&& res.path@ == path@
            &&& res.lines@.map_values(|b: BlameLine| blame_row(b)) == blame_rows(lines_of(output@))
            &&& res.total == res.lines.len()
        },
{
    let lines = parse_porcelain(output);
    let total = lines.len();
    Ok(GitBlameResult { kind: owned("success"), path: owned(path), total, lines })
}

// ─── git diff_file ──────────────────────────────────────────────────────────

/// Parameters of `git_diff_file`.
pub struct GitDiffFileParams {
    pub path: String,
    /// Base revision (default HEAD).
    pub base: Option<String>,
    /// Compare the index instead of the working tree.
    pub staged: Option<bool>,
}

/// `base.unwrap_or("HEAD")`.
pub fn diff_base(params: &GitDiffFileParams) -> (r: String)
    ensures
        r@ == match params.base {
            Some(b) => b@,
            None => "HEAD"@,
        },
{
    match &params.base {
        Some(b) => b.clone(),
        None => owned("HEAD"),
    }
}

/// The object name of `rel` at revision `base` (`base:rel`).
pub fn blob_spec(base: &str, rel: &str) -> (r: String)
    ensures
        r@ == base@ + ":"@ + rel@,
{
    let mut v = chars_of(base);
    push_str(&mut v, ":");
    push_str(&mut v, rel);
    string_of(&v)
}

/// The object name of `rel` in the index (`:rel`).
pub fn index_spec(rel: &str) -> (r: String)
    ensures
        r@ == ":"@ + rel@,
{
    let mut v = chars_of(":");
    push_str(&mut v, rel);
    string_of(&v)
}

/// `git show` reports that the path does not exist at that revision.
pub open spec fn missing_path_text(s: Seq<char>) -> bool {
    ||| contains(s, "exists on disk, but not in"@)
    ||| (contains(s, "path"@) && contains(s, "does not exist"@))
    ||| contains(s, "unknown revision or path not in the working tree"@)
}

/// `is_missing_path` on lowercased error output.
pub fn is_missing_path(stderr: &str) -> (r: bool)
    ensures
        r == missing_path_text(stderr@),
{
    str_contains(stderr, "exists on disk, but not in") || str_contains(stderr, "path") && str_contains(
        stderr,
        "does not exist",
    ) || str_contains(stderr, "unknown revision or path not in the working tree")
}

/// What a `git show <spec>` run means: the blob when it succeeded, `None`
/// when the path does not exist there, otherwise an error with the
/// lowercased error output.
pub fn read_git_blob_outcome(success: bool, stdout: Vec<u8>, stderr: &str, spec: &str) -> (r: Result<
    Option<Vec<u8>>,
    ToolError,
>)
    ensures
        success ==> r == Ok::<Option<Vec<u8>>, ToolError>(Some(stdout)),
        !success && missing_path_text(lower_text(stderr@)) ==> r == Ok::<Option<Vec<u8>>, ToolError>(None),
        !success && !missing_path_text(lower_text(stderr@)) ==> (r matches Err(ToolError::GitError { message, hint })
            && message@ == "git show "@ + spec@ + ": "@ + trim(lower_text(stderr@))
            && hint@ == "Verify git base reference and file path."@),
{
    if success {
        return Ok(Some(stdout));
    }
    let lower = to_lowercase(stderr);
    if is_missing_path(lower.as_str()) {
        return Ok(None);
    }
    let mut m = chars_of("git show ");
    push_str(&mut m, spec);
    push_str(&mut m, ": ");
    let t = trim_str(lower.as_str());
    push_str(&mut m, t.as_str());
    Err(ToolError::GitError {
        message: string_of(&m),
        hint: owned("Verify git base reference and file path."),
    })
}

/// Counts of a diff.
pub struct DiffSummary {
    pub total_added: usize,
    pub total_removed: usize,
}

/// A hunk of a diff.
pub struct DiffHunk {
    pub lines: Vec<crate::checkpoint::DiffLine>,
}

/// A line diff between two texts.
pub struct DiffResult {
    pub summary: DiffSummary,
    pub hunks: Vec<DiffHunk>,
}

/// Result of `git_diff_file`.
pub struct GitDiffFileResult {
    pub kind: String,
    pub path: String,
    pub base: String,
    pub staged: bool,
    pub diff: DiffResult,
}

/// Where the new side of a file diff comes from.
#[derive(Clone, Copy, PartialEq, Eq, Structural)]
pub enum DiffNewSide {
    /// The staged blob (`:path`).
    Index,
    /// The file in the working tree.
    WorkingTree,
    /// Nothing: the file is gone.
    Empty,
}

/// The new side: the index when staged, else the working tree where the
/// file exists, else empty text.
pub fn diff_new_side(params: &GitDiffFileParams, exists: bool) -> (r: DiffNewSide)
    ensures
        r == (if params.staged == Some(true) {
            DiffNewSide::Index
        } else if exists {
            DiffNewSide::WorkingTree
        } else {
            DiffNewSide::Empty
        }),
{
    if params.staged == Some(true) {
        DiffNewSide::Index
    } else if exists {
        DiffNewSide::WorkingTree
    } else {
        DiffNewSide::Empty
    }
}

/// `git_diff_file` once the diff of the file against its base is known: the
/// path shown with forward slashes, the base (default HEAD), whether the
/// index was compared.
pub fn run_git_diff_file(params: GitDiffFileParams, rel_path: &str, diff: DiffResult) -> (r: GitDiffFileResult)
    ensures
        r.kind@ == "success"@,
        r.path@ == normalize(rel_path@),
        r.base@ == match params.base {
            Some(b) => b@,
            None => "HEAD"@,
        },
        r.staged == (params.staged == Some(true)),
        r.diff == diff,
{
    let base = diff_base(&params);
    proof {
        reveal_strlit("success");
    }
    GitDiffFileResult {
        kind: owned("success"),
        path: normalize_path(&chars_of(rel_path)),
        base,
        staged: params.staged == Some(true),
        diff,
    }
}

} // verus!
