//! Which tools a session may call, and the `active_tools` list of the
//! runtime capabilities file.
use vstd::prelude::*;
use crate::metadata::{tool_is_active, ToolMetadata};
use crate::text::{
    chars_of, lines_chars, lines_of, starts_with, string_of, strs, trim, trim_chars, char_vecs,
};

verus! {

/// Result of an active-filter check.
#[derive(Debug, Clone, Copy, PartialEq, Eq, Structural)]
pub enum FilterResult {
    /// Tool is permitted to execute.
    Allowed,
    /// Tool exists but is not active in this session.
    Disabled,
}

/// Filter backed by the session's set of active tools.
pub struct ActiveFilter {
    active_tools: Vec<String>,
}

impl ActiveFilter {
    /// The tools named in the filter.
    pub closed spec fn active(&self) -> Seq<Seq<char>> {
        strs(self.active_tools@)
    }

    pub fn new(active_tools: Vec<String>) -> (f: Self)
        ensures
            f.active() == strs(active_tools@),
    {
        ActiveFilter { active_tools }
    }

    /// Allowed when `name` is an active tool or active by default.
    pub fn check(&self, name: &str) -> (r: FilterResult)
        ensures
            r == (if tool_is_active(name@, self.active()) {
                FilterResult::Allowed
            } else {
                FilterResult::Disabled
            }),
    {
        if ToolMetadata::is_active(name, &self.active_tools) {
            FilterResult::Allowed
        } else {
            FilterResult::Disabled
        }
    }
}

// ─── The capabilities file ──────────────────────────────────────────────────

/// `s.trim_start_matches(c)`.
pub open spec fn trim_start_matches(s: Seq<char>, c: char) -> Seq<char>
    decreases s.len(),
{
    if s.len() > 0 && s[0] == c {
        trim_start_matches(s.drop_first(), c)
    } else {
        s
    }
}

/// `s.trim_end_matches(c)`.
pub open spec fn trim_end_matches(s: Seq<char>, c: char) -> Seq<char>
    decreases s.len(),
{
    if s.len() > 0 && s.last() == c {
        trim_end_matches(s.drop_last(), c)
    } else {
        s
    }
}

/// `s.trim_matches(c)`.
pub open spec fn trim_matches(s: Seq<char>, c: char) -> Seq<char> {
    trim_end_matches(trim_start_matches(s, c), c)
}

/// The pieces of `rest` produced by `split(c)` when the current piece holds `cur`.
pub open spec fn split_from(cur: Seq<char>, rest: Seq<char>, c: char) -> Seq<Seq<char>>
    decreases rest.len(),
{
    if rest.len() == 0 {
        seq![cur]
    } else if rest[0] == c {
        seq![cur] + split_from(seq![], rest.drop_first(), c)
    } else {
        split_from(cur.push(rest[0]), rest.drop_first(), c)
    }
}

/// `s.split(c)`.
pub open spec fn split_on(s: Seq<char>, c: char) -> Seq<Seq<char>> {
    split_from(seq![], s, c)
}

/// A tool name as listed: trimmed, without surrounding quotes; none if empty.
pub open spec fn item_name(raw: Seq<char>) -> Seq<Seq<char>> {
    let n = trim_matches(trim_matches(trim(raw), '"'), '\'');
    if n.len() == 0 {
        seq![]
    } else {
        seq![n]
    }
}

/// The names of an inline list `a, b, c]` (after the `[`).
pub open spec fn inline_items_from(pieces: Seq<Seq<char>>) -> Seq<Seq<char>>
    decreases pieces.len(),
{
    if pieces.len() == 0 {
        seq![]
    } else {
        item_name(pieces[0]) + inline_items_from(pieces.drop_first())
    }
}

/// Index of the first `c` in `s`, if any.
pub open spec fn index_of(s: Seq<char>, c: char) -> Option<int>
    decreases s.len(),
{
    if s.len() == 0 {
        None
    } else if s[0] == c {
        Some(0)
    } else {
        match index_of(s.drop_first(), c) {
            Some(i) => Some(i + 1),
            None => None,
        }
    }
}

/// The names listed under `active_tools:` in the remaining `lines`, when the
/// list is open (`in_list`) or not.
pub open spec fn active_items_from(lines: Seq<Seq<char>>, in_list: bool) -> Seq<Seq<char>>
    decreases lines.len(),
{
    if lines.len() == 0 {
        seq![]
    } else {
        let t = trim(lines[0]);
        let rest = lines.drop_first();
        if starts_with(t, "active_tools:"@) {
            match index_of(t, '[') {
                Some(b) => inline_items_from(split_on(trim_end_matches(t.skip(b + 1), ']'), ','))
                    + active_items_from(rest, false),
                None => active_items_from(rest, true),
            }
        } else if in_list {
            if t.len() > 0 && t[0] == '-' {
                item_name(t.drop_first()) + active_items_from(rest, true)
            } else if t.len() > 0 && t[0] != '#' {
                active_items_from(rest, false)
            } else {
                active_items_from(rest, true)
            }
        } else {
            active_items_from(rest, false)
        }
    }
}

/// The tool names of the `active_tools` key of a capabilities file, as a
/// block list (`- name`) or an inline list (`[a, b]`).
pub open spec fn active_tool_names(content: Seq<char>) -> Seq<Seq<char>> {
    active_items_from(lines_of(content), false)
}

pub fn trim_start_matches_chars(s: &Vec<char>, c: char) -> (r: Vec<char>)
    ensures
        r@ == trim_start_matches(s@, c),
{
    let mut k: usize = 0;
    assert(s@.skip(0) =~= s@);
    while k < s.len() && s[k] == c
        invariant
            k <= s.len(),
            trim_start_matches(s@, c) == trim_start_matches(s@.skip(k as int), c),
        decreases s.len() - k,
    {
        assert(s@.skip(k as int).drop_first() =~= s@.skip(k + 1));
        k = k + 1;
    }
    slice_chars(s, k, s.len())
}

fn trim_end_matches_chars(s: &Vec<char>, c: char) -> (r: Vec<char>)
    ensures
        r@ == trim_end_matches(s@, c),
{
    let mut k: usize = s.len();
    assert(s@.take(s.len() as int) =~= s@);
    while k > 0 && s[k - 1] == c
        invariant
            k <= s.len(),
            trim_end_matches(s@, c) == trim_end_matches(s@.take(k as int), c),
        decreases k,
    {
        assert(s@.take(k as int).drop_last() =~= s@.take(k - 1));
        k = k - 1;
    }
    let r = slice_chars(s, 0, k);
    assert(r@ =~= s@.take(k as int));
    r
}

/// `s[from..to]` on characters.
pub fn slice_chars(s: &Vec<char>, from: usize, to: usize) -> (r: Vec<char>)
    requires
        from <= to <= s.len(),
    ensures
        r@ == s@.subrange(from as int, to as int),
        to == s.len() ==> r@ == s@.skip(from as int),
{
    let mut r: Vec<char> = Vec::new();
    let mut i = from;
    while i < to
        invariant
            from <= i <= to <= s.len(),
            r@ == s@.subrange(from as int, i as int),
        decreases to - i,
    {
        r.push(s[i]);
        i = i + 1;
        assert(s@.subrange(from as int, i as int) =~= s@.subrange(from as int, i - 1).push(
            s@[i - 1],
        ));
    }
    assert(to == s.len() ==> s@.subrange(from as int, to as int) =~= s@.skip(from as int));
    r
}

/// `s.split(c)` on characters.
pub fn split_chars(s: &Vec<char>, c: char) -> (r: Vec<Vec<char>>)
    ensures
        char_vecs(r@) == split_on(s@, c),
{
    let mut out: Vec<Vec<char>> = Vec::new();
    let mut cur: Vec<char> = Vec::new();
    let mut i: usize = 0;
    assert(s@.skip(0) =~= s@);
    while i < s.len()
        invariant
            i <= s.len(),
            split_on(s@, c) == char_vecs(out@) + split_from(cur@, s@.skip(i as int), c),
        decreases s.len() - i,
    {
        assert(s@.skip(i as int).drop_first() =~= s@.skip(i + 1));
        if s[i] == c {
            let ghost before = char_vecs(out@);
            let ghost cv = cur@;
            out.push(cur);
            cur = Vec::new();
            assert(char_vecs(out@) =~= before.push(cv));
            assert(before + (seq![cv] + split_from(seq![], s@.skip(i + 1), c)) =~= char_vecs(out@)
                + split_from(cur@, s@.skip(i + 1), c));
        } else {
            cur.push(s[i]);
        }
        i = i + 1;
    }
    let ghost before = char_vecs(out@);
    let ghost cv = cur@;
    out.push(cur);
    assert(char_vecs(out@) =~= before.push(cv));
    assert(s@.skip(i as int) =~= seq![]);
    assert(char_vecs(out@) =~= split_on(s@, c));
    out
}

/// The cleaned name of a list item, if not empty.
fn clean_item(raw: &Vec<char>) -> (r: Option<Vec<char>>)
    ensures
        match r {
            Some(n) => item_name(raw@) == seq![n@],
            None => item_name(raw@) == Seq::<Seq<char>>::empty(),
        },
{
    let t = trim_chars(raw);
    let a = trim_start_matches_chars(&t, '"');
    let b = trim_end_matches_chars(&a, '"');
    let d = trim_start_matches_chars(&b, '\'');
    let e = trim_end_matches_chars(&d, '\'');
    if e.len() == 0 {
        None
    } else {
        Some(e)
    }
}

/// Adds `n` to the set `out` of names.
fn insert_name(out: &mut Vec<String>, n: &Vec<char>)
    requires
        strs(old(out)@).no_duplicates(),
    ensures
        strs(final(out)@).no_duplicates(),
        strs(final(out)@).to_set() == strs(old(out)@).to_set().insert(n@),
{
    let ghost o = strs(out@);
    let mut i: usize = 0;
    while i < out.len()
        invariant
            i <= out.len(),
            o == strs(out@),
            o.no_duplicates(),
            forall|j: int| 0 <= j < i ==> out@[j]@ != n@,
        decreases out.len() - i,
    {
        let oc = chars_of(out[i].as_str());
        if crate::text::vec_eq(&oc, n) {
            assert(o[i as int] == n@);
            assert(o.to_set() =~= o.to_set().insert(n@));
            return;
        }
        i = i + 1;
    }
    let s = string_of(n);
    out.push(s);
    assert(strs(out@) =~= o.push(n@));
    proof {
        o.lemma_push_to_set_commute(n@);
    }
}

proof fn lemma_singleton_to_set(x: Seq<char>)
    ensures
        seq![x].to_set() == set![x],
{
    assert forall|a: Seq<char>| seq![x].to_set().contains(a) <==> set![x].contains(a) by {
        if a == x {
            assert(seq![x][0] == a);
        }
    }
    assert(seq![x].to_set() =~= set![x]);
}

proof fn lemma_to_set_concat(a: Seq<Seq<char>>, b: Seq<Seq<char>>)
    ensures
        (a + b).to_set() == a.to_set().union(b.to_set()),
{
    vstd::seq_lib::seq_to_set_distributes_over_add(a, b);
}

/// The set of tool names under `active_tools` in the text of a
/// capabilities file (empty when the key is absent).
pub fn parse_active_tools_yaml(content: &str) -> (r: Vec<String>)
    ensures
        strs(r@).no_duplicates(),
        strs(r@).to_set() == active_tool_names(content@).to_set(),
{
    let c = chars_of(content);
    let lines = lines_chars(&c);
    let ghost ls = char_vecs(lines@);
    let mut out: Vec<String> = Vec::new();
    let mut in_list = false;
    let mut i: usize = 0;
    let ghost mut done: Seq<Seq<char>> = seq![];
    assert(ls.skip(0) =~= ls);
    while i < lines.len()
        invariant
            i <= lines.len(),
            ls == char_vecs(lines@),
            ls == lines_of(content@),
            strs(out@).no_duplicates(),
            active_tool_names(content@) == done + active_items_from(ls.skip(i as int), in_list),
            strs(out@).to_set() == done.to_set(),
        decreases lines.len() - i,
    {
        let ghost rest = ls.skip(i as int);
        assert(rest.drop_first() =~= ls.skip(i + 1));
        assert(rest[0] == lines@[i as int]@);
        let t = trim_chars(&lines[i]);
        let ghost step_items: Seq<Seq<char>>;
        if starts_with_chars(&t, "active_tools:") {
            let mut b: usize = 0;
            assert(t@.skip(0) =~= t@);
            while b < t.len() && t[b] != '['
                invariant
                    b <= t.len(),
                    index_of(t@, '[') == match index_of(t@.skip(b as int), '[') {
                        Some(j) => Some(j + b),
                        None => None,
                    },
                    forall|j: int| 0 <= j < b ==> t@[j] != '[',
                decreases t.len() - b,
            {
                assert(t@.skip(b as int).drop_first() =~= t@.skip(b + 1));
                b = b + 1;
            }
            if b < t.len() {
                assert(t@.skip(b as int)[0] == '[');
                let inner = slice_chars(&t, b + 1, t.len());
                let inner2 = trim_end_matches_chars(&inner, ']');
                let pieces = split_chars(&inner2, ',');
                let ghost ps = char_vecs(pieces@);
                let mut k: usize = 0;
                let ghost mut acc: Seq<Seq<char>> = seq![];
                assert(ps.skip(0) =~= ps);
                while k < pieces.len()
                    invariant
                        k <= pieces.len(),
                        ps == char_vecs(pieces@),
                        inline_items_from(ps) == acc + inline_items_from(ps.skip(k as int)),
                        strs(out@).no_duplicates(),
                        strs(out@).to_set() == done.to_set().union(acc.to_set()),
                    decreases pieces.len() - k,
                {
                    assert(ps.skip(k as int).drop_first() =~= ps.skip(k + 1));
                    assert(ps.skip(k as int)[0] == pieces@[k as int]@);
                    match clean_item(&pieces[k]) {
                        Some(n) => {
                            insert_name(&mut out, &n);
                            proof {
                                lemma_to_set_concat(acc, seq![n@]);
                                lemma_singleton_to_set(n@);
                                acc = acc + seq![n@];
                            }
                        },
                        None => {
                            assert(acc + seq![] =~= acc);
                        },
                    }
                    assert(inline_items_from(ps) =~= acc + inline_items_from(ps.skip(k + 1)));
                    k = k + 1;
                }
                assert(acc =~= inline_items_from(ps)) by {
                    assert(ps.skip(pieces.len() as int) =~= seq![]);
                }
                proof {
                    lemma_to_set_concat(done, acc);
                    step_items = acc;
                }
                in_list = false;
            } else {
                proof {
                    step_items = seq![];
                }
                in_list = true;
            }
        } else if in_list {
            if t.len() > 0 && t[0] == '-' {
                let rest_t = slice_chars(&t, 1, t.len());
                assert(rest_t@ =~= t@.drop_first());
                match clean_item(&rest_t) {
                    Some(n) => {
                        insert_name(&mut out, &n);
                        proof {
                            lemma_to_set_concat(done, seq![n@]);
                            lemma_singleton_to_set(n@);
                            step_items = seq![n@];
                        }
                    },
                    None => {
                        proof {
                            step_items = seq![];
                        }
                    },
                }
            } else if t.len() > 0 && t[0] != '#' {
                proof {
                    step_items = seq![];
                }
                in_list = false;
            } else {
                proof {
                    step_items = seq![];
                }
            }
        } else {
            proof {
                step_items = seq![];
            }
        }
        proof {
            assert(done + step_items + active_items_from(ls.skip(i + 1), in_list) =~= done + (
            step_items + active_items_from(ls.skip(i + 1), in_list)));
            lemma_to_set_concat(done, step_items);
            done = done + step_items;
        }
        i = i + 1;
    }
    assert(ls.skip(i as int) =~= seq![]);
    assert(done + seq![] =~= done);
    out
}

/// `t.starts_with(p)` on characters.
fn starts_with_chars(t: &Vec<char>, p: &str) -> (r: bool)
    ensures
        r == starts_with(t@, p@),
{
    let pc = chars_of(p);
    let r = crate::text::matches_at(t, &pc, 0);
    proof {
        assert(t@.take(pc@.len() as int) =~= t@.subrange(0, pc@.len() as int));
    }
    r
}

} // verus!
