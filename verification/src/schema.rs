//! The `tools/list` entries generated from the tool registry.
use vstd::prelude::*;
use crate::metadata::{registry, tool_table, ToolMetadata};
use crate::text::{lex_le, lex_lt, lemma_lex_total, owned, str_lt};

verus! {

/// Lightweight tool descriptor for tools/list generation.
pub struct ToolListEntry {
    pub name: String,
    pub description: String,
    pub read_only_hint: bool,
    pub destructive_hint: bool,
}

/// The listed view of a tool: name, description and the two hints.
pub type EntryView = (Seq<char>, Seq<char>, bool, bool);

pub open spec fn entry_of(m: ToolMetadata) -> EntryView {
    (m.name@, m.description@, m.read_only, m.destructive)
}

pub open spec fn entry_view(e: ToolListEntry) -> EntryView {
    (e.name@, e.description@, e.read_only_hint, e.destructive_hint)
}

/// Inserting `x` after every leading entry whose name is not greater.
pub open spec fn insert_by_name(s: Seq<EntryView>, x: EntryView) -> Seq<EntryView>
    decreases s.len(),
{
    if s.len() == 0 {
        seq![x]
    } else if !lex_lt(x.0, s[0].0) {
        seq![s[0]] + insert_by_name(s.drop_first(), x)
    } else {
        seq![x] + s
    }
}

/// Stable sort by name (`sort_by(|a, b| a.name.cmp(&b.name))`).
pub open spec fn sort_by_name(s: Seq<EntryView>) -> Seq<EntryView>
    decreases s.len(),
{
    if s.len() == 0 {
        s
    } else {
        insert_by_name(sort_by_name(s.drop_last()), s.last())
    }
}

/// The entries of all registered tools, sorted by name.
pub open spec fn tools_list() -> Seq<EntryView> {
    sort_by_name(tool_table().map_values(|m: ToolMetadata| entry_of(m)))
}

/// Names never decrease along `s`.
pub open spec fn sorted_by_name(s: Seq<EntryView>) -> bool {
    forall|i: int| 0 <= i < s.len() - 1 ==> lex_le(#[trigger] s[i].0, s[i + 1].0)
}

pub open spec fn name_insert_pos(s: Seq<EntryView>, x: EntryView) -> nat
    decreases s.len(),
{
    if s.len() == 0 {
        0
    } else if !lex_lt(x.0, s[0].0) {
        1 + name_insert_pos(s.drop_first(), x)
    } else {
        0
    }
}

proof fn lemma_insert_by_name(s: Seq<EntryView>, x: EntryView)
    ensures
        name_insert_pos(s, x) <= s.len(),
        insert_by_name(s, x) == s.take(name_insert_pos(s, x) as int).push(x) + s.skip(
            name_insert_pos(s, x) as int,
        ),
    decreases s.len(),
{
    if s.len() > 0 && !lex_lt(x.0, s[0].0) {
        lemma_insert_by_name(s.drop_first(), x);
        let p: int = name_insert_pos(s.drop_first(), x) as int;
        assert(s.take(p + 1).push(x) + s.skip(p + 1) =~= seq![s[0]] + (s.drop_first().take(p).push(
            x,
        ) + s.drop_first().skip(p)));
    } else {
        assert(s.take(0).push(x) + s.skip(0) =~= seq![x] + s);
    }
}

/// Inserting into a sorted list keeps it sorted.
proof fn lemma_insert_sorted(s: Seq<EntryView>, x: EntryView)
    requires
        sorted_by_name(s),
    ensures
        sorted_by_name(insert_by_name(s, x)),
        insert_by_name(s, x).len() == s.len() + 1,
        insert_by_name(s, x)[0] == x || (s.len() > 0 && insert_by_name(s, x)[0] == s[0]),
    decreases s.len(),
{
    if s.len() > 0 && !lex_lt(x.0, s[0].0) {
        let t = s.drop_first();
        assert(sorted_by_name(t)) by {
            assert forall|i: int| 0 <= i < t.len() - 1 implies lex_le(#[trigger] t[i].0, t[i + 1].0) by {
                assert(t[i] == s[i + 1]);
                assert(t[i + 1] == s[i + 2]);
            }
        }
        lemma_insert_sorted(t, x);
        let r = insert_by_name(s, x);
        let rt = insert_by_name(t, x);
        assert(r == seq![s[0]] + rt);
        assert forall|i: int| 0 <= i < r.len() - 1 implies lex_le(#[trigger] r[i].0, r[i + 1].0) by {
            if i == 0 {
                assert(r[0] == s[0]);
                assert(r[1] == rt[0]);
                if rt[0] == x {
                    lemma_lex_total(x.0, s[0].0);
                } else {
                    assert(rt[0] == s[1]);
                }
            } else {
                assert(r[i] == rt[i - 1]);
                assert(r[i + 1] == rt[i]);
            }
        }
    } else {
        let r = insert_by_name(s, x);
        assert(r == seq![x] + s);
        assert forall|i: int| 0 <= i < r.len() - 1 implies lex_le(#[trigger] r[i].0, r[i + 1].0) by {
            if i == 0 {
                assert(r[1] == s[0]);
            } else {
                assert(r[i] == s[i - 1]);
                assert(r[i + 1] == s[i]);
            }
        }
    }
}

/// Sorting by name yields a list whose names never decrease.
pub proof fn lemma_sort_by_name_sorted(s: Seq<EntryView>)
    ensures
        sorted_by_name(sort_by_name(s)),
        sort_by_name(s).len() == s.len(),
    decreases s.len(),
{
    if s.len() > 0 {
        lemma_sort_by_name_sorted(s.drop_last());
        lemma_insert_sorted(sort_by_name(s.drop_last()), s.last());
    }
}

/// The `tools/list` entries are sorted by name, one per registered tool.
pub proof fn law_tools_list_sorted()
    ensures
        sorted_by_name(tools_list()),
        tools_list().len() == tool_table().len(),
{
    lemma_sort_by_name_sorted(tool_table().map_values(|m: ToolMetadata| entry_of(m)));
}

pub open spec fn entry_views(v: Seq<ToolListEntry>) -> Seq<EntryView> {
    v.map_values(|e: ToolListEntry| entry_view(e))
}

/// Generates the tools/list entries from the registry, sorted by name.
pub fn generate_tools_list() -> (r: Vec<ToolListEntry>)
    ensures
        entry_views(r@) == tools_list(),
{
    let reg = registry();
    let ghost src = tool_table().map_values(|m: ToolMetadata| entry_of(m));
    let mut entries: Vec<ToolListEntry> = Vec::new();
    let mut i: usize = 0;
    while i < reg.len()
        invariant
            i <= reg.len(),
            reg@ == tool_table(),
            src == tool_table().map_values(|m: ToolMetadata| entry_of(m)),
            entry_views(entries@) == sort_by_name(src.take(i as int)),
        decreases reg.len() - i,
    {
        let m = reg[i];
        let x = ToolListEntry {
            name: owned(m.name),
            description: owned(m.description),
            read_only_hint: m.read_only,
            destructive_hint: m.destructive,
        };
        let ghost xv = entry_view(x);
        let ghost old_e = entry_views(entries@);
        assert(src.take(i + 1).drop_last() =~= src.take(i as int));
        assert(src.take(i + 1).last() == xv);
        proof {
            lemma_insert_by_name(old_e, xv);
        }
        let mut pos: usize = 0;
        assert(old_e.skip(0) =~= old_e);
        while pos < entries.len() && !str_lt(m.name, entries[pos].name.as_str())
            invariant
                pos <= entries.len(),
                old_e == entry_views(entries@),
                xv.0 == m.name@,
                name_insert_pos(old_e, xv) == pos + name_insert_pos(old_e.skip(pos as int), xv),
            decreases entries.len() - pos,
        {
            assert(old_e.skip(pos as int).drop_first() =~= old_e.skip(pos + 1));
            assert(old_e.skip(pos as int)[0] == old_e[pos as int]);
            pos = pos + 1;
        }
        proof {
            if pos < entries.len() {
                assert(old_e.skip(pos as int)[0] == old_e[pos as int]);
            }
        }
        entries.insert(pos, x);
        assert(entry_views(entries@) =~= old_e.take(pos as int).push(xv) + old_e.skip(pos as int));
        i = i + 1;
    }
    assert(src.take(reg.len() as int) =~= src);
    entries
}

} // verus!
