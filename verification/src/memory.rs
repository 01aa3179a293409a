//! Named memory entries: Markdown files under `.ai/memory/` with an index of
//! tags, update times and previews, searched by tag and text.
use vstd::prelude::*;
use crate::error::ToolError;
use crate::journal_log::{law_sorted_prefix_newest_first, sort_by_ts_desc, sort_indices_by_ts_desc, ts_desc};
use crate::text::{chars_of, contains, ends_with, eq_ignore_ascii_case, lower_text, owned, push_str, starts_with, str_contains, str_eq_ignore_ascii_case, string_of, strings_clone, strs, take_chars, to_lowercase, trim, trim_end, trim_str};

verus! {

// ─── Parameters, results and the index ──────────────────────────────────────

/// Parameters of `memory_write`.
pub struct MemoryWriteParams {
    /// Alphanumeric, dash, underscore, slash; e.g. "decisions/arch-v4".
    pub key: String,
    pub content: String,
    pub tags: Vec<String>,
    /// "overwrite" (default) or "append".
    pub mode: Option<String>,
}

/// Result of `memory_write`.
pub struct MemoryWriteResult {
    /// "created" | "updated" | "appended"
    pub kind: String,
    pub key: String,
    pub path: String,
    pub tags: Vec<String>,
    pub updated: String,
}

/// What the index knows of an entry.
pub struct MemoryIndexEntry {
    pub tags: Vec<String>,
    pub updated: String,
    pub preview: String,
}

/// Parameters of `memory_list`.
pub struct MemoryListParams {
    pub tag: Option<String>,
    pub limit: Option<usize>,
}

/// One entry of a listing.
pub struct MemoryListEntry {
    pub key: String,
    pub tags: Vec<String>,
    pub updated: String,
    pub preview: String,
}

/// Result of `memory_list`.
pub struct MemoryListResult {
    pub kind: String,
    pub total: usize,
    pub truncated: bool,
    pub entries: Vec<MemoryListEntry>,
}

/// Parameters of `memory_read`.
pub struct MemoryReadParams {
    pub query: String,
    pub tag: Option<String>,
    pub limit: Option<usize>,
}

/// One entry found by `memory_read`.
pub struct MemoryEntry {
    pub key: String,
    pub tags: Vec<String>,
    pub updated: String,
    pub preview: String,
    pub content: Option<String>,
}

/// Result of `memory_read`.
pub struct MemoryReadResult {
    pub kind: String,
    pub query: String,
    pub total: usize,
    pub truncated: bool,
    pub entries: Vec<MemoryEntry>,
}

/// Parameters of `memory_delete`.
pub struct MemoryDeleteParams {
    pub key: String,
}

/// Result of `memory_delete`.
pub struct MemoryDeleteResult {
    /// "deleted" | "not_found"
    pub kind: String,
    pub key: String,
}

/// The index: keys with their entries, each key once.
pub open spec fn index_ok(index: Seq<(String, MemoryIndexEntry)>) -> bool {
    forall|i: int, j: int| 0 <= i < j < index.len() ==> #[trigger] index[i].0@ != #[trigger] index[j].0@
}

// ─── Keys ───────────────────────────────────────────────────────────────────

/// `char::is_alphanumeric`, named: the Unicode `Alphabetic` and `Numeric`
/// properties take tables to state.
pub uninterp spec fn alphanumeric(c: char) -> bool;

/// `char::is_alphanumeric`: the Unicode `Alphabetic` or `Numeric` property.
/// Among ASCII characters those are exactly the letters and the digits.
#[verifier::external_body]
pub(crate) fn is_alphanumeric(c: char) -> (r: bool)
    ensures
        r == alphanumeric(c),
        (c as u32) < 128 ==> (r <==> (('a' <= c && c <= 'z') || ('A' <= c && c <= 'Z') || ('0' <= c
            && c <= '9'))),
{
    c.is_alphanumeric()
}

/// A letter or digit: on ASCII the letters and digits, elsewhere by the
/// Unicode properties.
pub open spec fn alnum(c: char) -> bool {
    if (c as u32) < 128 {
        ('a' <= c && c <= 'z') || ('A' <= c && c <= 'Z') || ('0' <= c && c <= '9')
    } else {
        alphanumeric(c)
    }
}

pub open spec fn key_char_ok(c: char) -> bool {
    alnum(c) || c == '-' || c == '_' || c == '/'
}

/// Checks a memory key: not blank, only alphanumerics, dash, underscore and
/// slash, and no leading, trailing or doubled slash.
pub fn validate_key(key: &str) -> (r: Result<(), ToolError>)
    ensures
        trim(key@).len() == 0 ==> (r matches Err(ToolError::MissingParameter { missing, hint })
            && missing@ == "key"@ && hint@ == "Provide a non-empty key like \"decisions/arch-v4\"."@),
        trim(key@).len() > 0 && !(forall|i: int| 0 <= i < key@.len() ==> key_char_ok(#[trigger] key@[i]))
            ==> (r matches Err(ToolError::IoError { message }) && message@ == "Invalid key '"@ + key@
            + "': only alphanumeric, dash, underscore, slash allowed."@),
        trim(key@).len() > 0 && (forall|i: int| 0 <= i < key@.len() ==> key_char_ok(#[trigger] key@[i]))
            && (starts_with(key@, "/"@) || ends_with(key@, "/"@) || contains(key@, "//"@)) ==> (r matches Err(
            ToolError::IoError { message },
        ) && message@ == "Invalid key '"@ + key@ + "': cannot start/end with slash or contain '..'."@),
        r is Ok <==> (trim(key@).len() > 0 && (forall|i: int| 0 <= i < key@.len() ==> key_char_ok(
            #[trigger] key@[i],
        )) && !(starts_with(key@, "/"@) || ends_with(key@, "/"@) || contains(key@, "//"@))),
{
    let t = trim_str(key);
    if t.as_str().is_empty() {
        return Err(ToolError::MissingParameter {
            missing: owned("key"),
            hint: owned("Provide a non-empty key like \"decisions/arch-v4\"."),
        });
    }
    let c = chars_of(key);
    let mut i: usize = 0;
    while i < c.len()
        invariant
            i <= c.len(),
            c@ == key@,
            trim(key@).len() > 0,
            forall|k: int| 0 <= k < i ==> key_char_ok(#[trigger] key@[k]),
        decreases c.len() - i,
    {
        let ch = c[i];
        if !(is_alphanumeric(ch) || ch == '-' || ch == '_' || ch == '/') {
            assert(!key_char_ok(key@[i as int]));
            let mut m = chars_of("Invalid key '");
            push_str(&mut m, key);
            push_str(&mut m, "': only alphanumeric, dash, underscore, slash allowed.");
            return Err(ToolError::IoError { message: string_of(&m) });
        }
        i = i + 1;
    }
    if crate::text::str_starts_with(key, "/") || crate::text::str_ends_with(key, "/") || str_contains(
        key,
        "//",
    ) {
        let mut m = chars_of("Invalid key '");
        push_str(&mut m, key);
        push_str(&mut m, "': cannot start/end with slash or contain '..'.");
        return Err(ToolError::IoError { message: string_of(&m) });
    }
    Ok(())
}

// ─── Writing ────────────────────────────────────────────────────────────────

/// Characters of a preview.
pub const PREVIEW_CHARS: usize = 200;

/// The content a write stores: appended after a separator when the mode is
/// "append" and the entry exists, otherwise the new content.
pub open spec fn final_content(mode: Option<String>, existing: Option<String>, content: Seq<char>) -> Seq<char> {
    match existing {
        Some(old) => if mode matches Some(m) && m@ == "append"@ {
            trim_end(old@) + "\n\n---\n\n"@ + content
        } else {
            content
        },
        None => content,
    }
}

/// The text to store for a write, given the existing content of the entry
/// if it exists.
pub fn memory_final_content(params: &MemoryWriteParams, existing: &Option<String>) -> (r: String)
    ensures
        r@ == final_content(params.mode, *existing, params.content@),
{
    let append = match &params.mode {
        Some(m) => crate::text::str_eq(m.as_str(), "append"),
        None => false,
    };
    match existing {
        Some(old) => {
            if append {
                let oc = chars_of(old.as_str());
                let mut v = crate::text::trim_end_chars(&oc);
                push_str(&mut v, "\n\n---\n\n");
                push_str(&mut v, params.content.as_str());
                string_of(&v)
            } else {
                params.content.clone()
            }
        },
        None => params.content.clone(),
    }
}

/// The preview stored in the index: the first 200 characters.
pub fn memory_preview(content: &str) -> (r: String)
    ensures
        r@ == (if content@.len() <= 200 { content@ } else { content@.take(200) }),
{
    take_chars(content, PREVIEW_CHARS)
}

/// The kind of a write: created, appended or updated.
pub open spec fn write_kind(existed: bool, mode: Option<String>) -> Seq<char> {
    if !existed {
        "created"@
    } else if mode matches Some(m) && m@ == "append"@ {
        "appended"@
    } else {
        "updated"@
    }
}

/// The answer to a write of `params` stored at `updated`.
pub fn memory_write_result(params: &MemoryWriteParams, existed: bool, updated: &str) -> (r: MemoryWriteResult)
    ensures
        r.kind@ == write_kind(existed, params.mode),
        r.key == params.key,
        r.path@ == ".ai/memory/"@ + params.key@ + ".md"@,
        strs(r.tags@) == strs(params.tags@),
        r.updated@ == updated@,
{
    let append = match &params.mode {
        Some(m) => crate::text::str_eq(m.as_str(), "append"),
        None => false,
    };
    let kind = if !existed {
        owned("created")
    } else if append {
        owned("appended")
    } else {
        owned("updated")
    };
    let mut p = chars_of(".ai/memory/");
    push_str(&mut p, params.key.as_str());
    push_str(&mut p, ".md");
    MemoryWriteResult {
        kind,
        key: params.key.clone(),
        path: string_of(&p),
        tags: strings_clone(&params.tags),
        updated: owned(updated),
    }
}

/// Index lookup of `key`.
pub open spec fn index_has(index: Seq<(String, MemoryIndexEntry)>, key: Seq<char>) -> bool {
    exists|i: int| 0 <= i < index.len() && #[trigger] index[i].0@ == key
}

/// Where `key` is in the index.
pub fn index_find(index: &Vec<(String, MemoryIndexEntry)>, key: &str) -> (r: Option<usize>)
    ensures
        r matches Some(i) ==> i < index.len() && index@[i as int].0@ == key@,
        r is None ==> !index_has(index@, key@),
{
    let mut i: usize = 0;
    while i < index.len()
        invariant
            i <= index.len(),
            forall|k: int| 0 <= k < i ==> #[trigger] index@[k].0@ != key@,
        decreases index.len() - i,
    {
        if crate::text::str_eq(index[i].0.as_str(), key) {
            return Some(i);
        }
        i = i + 1;
    }
    None
}

/// Sets the entry of `key` in the index, replacing an existing one.
pub fn index_insert(index: &mut Vec<(String, MemoryIndexEntry)>, key: String, entry: MemoryIndexEntry)
    requires
        index_ok(old(index)@),
    ensures
        index_ok(final(index)@),
        index_has(final(index)@, key@),
        forall|i: int| 0 <= i < final(index)@.len() && #[trigger] final(index)@[i].0@ == key@ ==> final(index)@[i].1 == entry,
        forall|k: Seq<char>| k != key@ ==> (index_has(final(index)@, k) <==> index_has(old(index)@, k)),
        forall|i: int| #![trigger old(index)@[i]] 0 <= i < old(index)@.len() && old(index)@[i].0@ != key@ ==> exists|j: int|
            0 <= j < final(index)@.len() && #[trigger] final(index)@[j] == old(index)@[i],
{
    let ghost before = index@;
    match index_find(index, key.as_str()) {
        Some(i) => {
            let kc = key.clone();
            index.set(i, (kc, entry));
            proof {
                lemma_set_keeps_keys(before, index@, i as int, key@);
            }
        },
        None => {
            let kc = key.clone();
            index.push((kc, entry));
            proof {
                lemma_push_keeps_keys(before, index@, key@);
            }
        },
    }
}

/// The index entry a write leaves for its key: the tags, the time of the
/// write and the preview of the content written.
pub open spec fn written_entry(e: MemoryIndexEntry, params: MemoryWriteParams, final_content: Seq<char>, updated: Seq<char>) -> bool {
    &&& strs(e.tags@) == strs(params.tags@)
    &&& e.updated@ == updated
    &&& e.preview@ == (if final_content.len() <= 200 { final_content } else { final_content.take(200) })
}

/// Records a write of `final_content` under the key of `params` at
/// `updated` in the index, replacing what the index held for that key.
pub fn index_memory_write(
    index: &mut Vec<(String, MemoryIndexEntry)>,
    params: &MemoryWriteParams,
    final_content: &str,
    updated: &str,
)
    requires
        index_ok(old(index)@),
    ensures
        index_ok(final(index)@),
        index_has(final(index)@, params.key@),
        forall|i: int|
            0 <= i < final(index)@.len() && #[trigger] final(index)@[i].0@ == params.key@ ==> written_entry(
                final(index)@[i].1,
                *params,
                final_content@,
                updated@,
            ),
        forall|k: Seq<char>| k != params.key@ ==> (index_has(final(index)@, k) <==> index_has(old(index)@, k)),
        forall|i: int| #![trigger old(index)@[i]] 0 <= i < old(index)@.len() && old(index)@[i].0@ != params.key@ ==> exists|j: int|
            0 <= j < final(index)@.len() && #[trigger] final(index)@[j] == old(index)@[i],
{
    let entry = MemoryIndexEntry {
        tags: strings_clone(&params.tags),
        updated: owned(updated),
        preview: memory_preview(final_content),
    };
    let ghost e = entry;
    index_insert(index, params.key.clone(), entry);
    assert(written_entry(e, *params, final_content@, updated@));
}

proof fn lemma_set_keeps_keys(
    before: Seq<(String, MemoryIndexEntry)>,
    after: Seq<(String, MemoryIndexEntry)>,
    i: int,
    key: Seq<char>,
)
    requires
        index_ok(before),
        0 <= i < before.len(),
        before[i].0@ == key,
        after.len() == before.len(),
        after[i].0@ == key,
        forall|j: int| 0 <= j < after.len() && j != i ==> after[j] == before[j],
    ensures
        index_ok(after),
        index_has(after, key),
        forall|j: int| 0 <= j < after.len() && #[trigger] after[j].0@ == key ==> j == i,
        forall|k: Seq<char>| k != key ==> (index_has(after, k) <==> index_has(before, k)),
        forall|a: int| #![trigger before[a]] 0 <= a < before.len() && before[a].0@ != key ==> exists|j: int|
            0 <= j < after.len() && #[trigger] after[j] == before[a],
{
    assert(after[i].0@ == key);
    assert forall|a: int, b: int| 0 <= a < b < after.len() implies #[trigger] after[a].0@ != #[trigger] after[b].0@ by {
        assert(before[a].0@ != before[b].0@);
    }
    assert forall|j: int| 0 <= j < after.len() && #[trigger] after[j].0@ == key implies j == i by {
        if j != i {
            assert(before[j].0@ != before[i].0@);
        }
    }
    assert forall|k: Seq<char>| k != key implies (index_has(after, k) <==> index_has(before, k)) by {
        if index_has(after, k) {
            let j = choose|j: int| 0 <= j < after.len() && #[trigger] after[j].0@ == k;
            assert(before[j].0@ == k);
        }
        if index_has(before, k) {
            let j = choose|j: int| 0 <= j < before.len() && #[trigger] before[j].0@ == k;
            assert(after[j].0@ == k);
        }
    }
    assert forall|a: int| #![trigger before[a]] 0 <= a < before.len() && before[a].0@ != key implies exists|j: int|
        0 <= j < after.len() && #[trigger] after[j] == before[a] by {
        assert(after[a] == before[a]);
    }
}

proof fn lemma_push_keeps_keys(
    before: Seq<(String, MemoryIndexEntry)>,
    after: Seq<(String, MemoryIndexEntry)>,
    key: Seq<char>,
)
    requires
        index_ok(before),
        !index_has(before, key),
        after.len() == before.len() + 1,
        after.last().0@ == key,
        forall|j: int| 0 <= j < before.len() ==> after[j] == before[j],
    ensures
        index_ok(after),
        index_has(after, key),
        forall|j: int| 0 <= j < after.len() && #[trigger] after[j].0@ == key ==> j == before.len(),
        forall|k: Seq<char>| k != key ==> (index_has(after, k) <==> index_has(before, k)),
        forall|a: int| #![trigger before[a]] 0 <= a < before.len() && before[a].0@ != key ==> exists|j: int|
            0 <= j < after.len() && #[trigger] after[j] == before[a],
{
    let n = before.len() as int;
    assert(after[n].0@ == key);
    assert forall|a: int, b: int| 0 <= a < b < after.len() implies #[trigger] after[a].0@ != #[trigger] after[b].0@ by {
        if b < n {
            assert(before[a].0@ != before[b].0@);
        } else {
            assert(after[a] == before[a]);
        }
    }
    assert forall|j: int| 0 <= j < after.len() && #[trigger] after[j].0@ == key implies j == n by {
        if j < n {
            assert(after[j] == before[j]);
        }
    }
    assert forall|k: Seq<char>| k != key implies (index_has(after, k) <==> index_has(before, k)) by {
        if index_has(after, k) {
            let j = choose|j: int| 0 <= j < after.len() && #[trigger] after[j].0@ == k;
            assert(j < n);
            assert(before[j].0@ == k);
        }
        if index_has(before, k) {
            let j = choose|j: int| 0 <= j < before.len() && #[trigger] before[j].0@ == k;
            assert(after[j].0@ == k);
        }
    }
    assert forall|a: int| #![trigger before[a]] 0 <= a < before.len() && before[a].0@ != key implies exists|j: int|
        0 <= j < after.len() && #[trigger] after[j] == before[a] by {
        assert(after[a] == before[a]);
    }
}

/// Removes the entry of `key` from the index.
pub fn index_remove(index: &mut Vec<(String, MemoryIndexEntry)>, key: &str)
    requires
        index_ok(old(index)@),
    ensures
        index_ok(final(index)@),
        !index_has(final(index)@, key@),
        forall|k: Seq<char>| k != key@ ==> (index_has(final(index)@, k) <==> index_has(old(index)@, k)),
        forall|a: int| #![trigger old(index)@[a]] 0 <= a < old(index)@.len() && old(index)@[a].0@ != key@ ==> exists|j: int|
            0 <= j < final(index)@.len() && #[trigger] final(index)@[j] == old(index)@[a],
{
    let ghost before = index@;
    match index_find(index, key) {
        Some(i) => {
            let _ = index.remove(i);
            proof {
                lemma_remove_keeps_keys(before, index@, i as int, key@);
            }
        },
        None => {
            assert forall|a: int| #![trigger before[a]] 0 <= a < before.len() && before[a].0@ != key@ implies exists|j: int|
                0 <= j < index@.len() && #[trigger] index@[j] == before[a] by {
                assert(index@[a] == before[a]);
            }
        },
    }
}

proof fn lemma_remove_keeps_keys(
    before: Seq<(String, MemoryIndexEntry)>,
    after: Seq<(String, MemoryIndexEntry)>,
    i: int,
    key: Seq<char>,
)
    requires
        index_ok(before),
        0 <= i < before.len(),
        before[i].0@ == key,
        after == before.remove(i),
    ensures
        index_ok(after),
        !index_has(after, key),
        forall|k: Seq<char>| k != key ==> (index_has(after, k) <==> index_has(before, k)),
        forall|a: int| #![trigger before[a]] 0 <= a < before.len() && before[a].0@ != key ==> exists|j: int|
            0 <= j < after.len() && #[trigger] after[j] == before[a],
{
    assert forall|a: int, b: int| 0 <= a < b < after.len() implies #[trigger] after[a].0@ != #[trigger] after[b].0@ by {
        let a2 = if a < i { a } else { a + 1 };
        let b2 = if b < i { b } else { b + 1 };
        assert(after[a] == before[a2]);
        assert(after[b] == before[b2]);
        assert(before[a2].0@ != before[b2].0@);
    }
    assert forall|j: int| 0 <= j < after.len() implies #[trigger] after[j].0@ != key by {
        let j2 = if j < i { j } else { j + 1 };
        assert(after[j] == before[j2]);
        assert(before[j2].0@ != before[i].0@);
    }
    assert forall|k: Seq<char>| k != key implies (index_has(after, k) <==> index_has(before, k)) by {
        if index_has(after, k) {
            let j = choose|j: int| 0 <= j < after.len() && #[trigger] after[j].0@ == k;
            let j2 = if j < i { j } else { j + 1 };
            assert(after[j] == before[j2]);
        }
        if index_has(before, k) {
            let j = choose|j: int| 0 <= j < before.len() && #[trigger] before[j].0@ == k;
            let j2 = if j < i { j } else { j - 1 };
            assert(after[j2] == before[j]);
        }
    }
    assert forall|a: int| #![trigger before[a]] 0 <= a < before.len() && before[a].0@ != key implies exists|j: int|
        0 <= j < after.len() && #[trigger] after[j] == before[a] by {
        let j2 = if a < i { a } else { a - 1 };
        assert(after[j2] == before[a]);
    }
}

// ─── Listing and searching ──────────────────────────────────────────────────

/// One of the tags equals `t`, ignoring ASCII case.
pub open spec fn has_tag(tags: Seq<Seq<char>>, t: Seq<char>) -> bool {
    exists|i: int| 0 <= i < tags.len() && eq_ignore_ascii_case(#[trigger] tags[i], t)
}

/// `tags.iter().any(|tag| tag.eq_ignore_ascii_case(t))`.
pub fn tags_include(tags: &Vec<String>, t: &str) -> (r: bool)
    ensures
        r == has_tag(strs(tags@), t@),
{
    let mut i: usize = 0;
    while i < tags.len()
        invariant
            i <= tags.len(),
            forall|k: int| 0 <= k < i ==> !eq_ignore_ascii_case(#[trigger] strs(tags@)[k], t@),
        decreases tags.len() - i,
    {
        if str_eq_ignore_ascii_case(tags[i].as_str(), t) {
            assert(eq_ignore_ascii_case(strs(tags@)[i as int], t@));
            return true;
        }
        i = i + 1;
    }
    false
}

/// Positions `< k` of the index entries that `sel` keeps, ascending.
pub open spec fn positions(sel: spec_fn(int) -> bool, k: int) -> Seq<int>
    decreases k,
{
    if k <= 0 {
        seq![]
    } else if sel(k - 1) {
        positions(sel, k - 1).push(k - 1)
    } else {
        positions(sel, k - 1)
    }
}

/// The update times of the index entries.
pub open spec fn updated_views(index: Seq<(String, MemoryIndexEntry)>) -> Seq<Seq<char>> {
    index.map_values(|e: (String, MemoryIndexEntry)| e.1.updated@)
}

/// The listed positions: the kept entries by most recent update first,
/// at most `limit` of them.
pub open spec fn listing(index: Seq<(String, MemoryIndexEntry)>, sel: spec_fn(int) -> bool, limit: nat) -> Seq<int> {
    let s = sort_by_ts_desc(positions(sel, index.len() as int), updated_views(index));
    if s.len() <= limit { s } else { s.take(limit as int) }
}

/// The entry is listed for a tag filter.
pub open spec fn list_keeps(index: Seq<(String, MemoryIndexEntry)>, tag: Option<String>) -> spec_fn(int) -> bool {
    |i: int| match tag {
        Some(t) => has_tag(strs(index[i].1.tags@), t@),
        None => true,
    }
}

/// `limit.unwrap_or(default).min(max)`.
pub open spec fn capped(limit: Option<usize>, default: nat, max: nat) -> nat {
    let n: nat = match limit {
        Some(x) => x as nat,
        None => default,
    };
    if n < max { n } else { max }
}

/// `e` shows the index entry `x`.
pub open spec fn shows(e: MemoryListEntry, x: (String, MemoryIndexEntry)) -> bool {
    &&& e.key == x.0
    &&& strs(e.tags@) == strs(x.1.tags@)
    &&& e.updated == x.1.updated
    &&& e.preview == x.1.preview
}

/// `res` is the listing of the index `ix` for `params`.
pub open spec fn memory_list_answer(params: MemoryListParams, ix: Seq<(String, MemoryIndexEntry)>, res: MemoryListResult) -> bool {
    let sel = list_keeps(ix, params.tag);
    let all = positions(sel, ix.len() as int);
    let shown = listing(ix, sel, capped(params.limit, 50, 200));
    &&& res.kind@ == "success"@
    &&& res.total == all.len()
    &&& res.truncated == (all.len() > capped(params.limit, 50, 200))
    &&& res.entries.len() == shown.len()
    &&& forall|k: int| 0 <= k < shown.len() ==> shows(#[trigger] res.entries@[k], ix[shown[k]])
}

/// Selected positions, computed.
fn keep_positions(index: &Vec<(String, MemoryIndexEntry)>, tag: &Option<String>) -> (r: Vec<usize>)
    ensures
        r@.map_values(|i: usize| i as int) == positions(list_keeps(index@, *tag), index@.len() as int),
        forall|k: int| 0 <= k < r@.len() ==> r@[k] < index.len(),
{
    let ghost sel = list_keeps(index@, *tag);
    let mut r: Vec<usize> = Vec::new();
    let mut i: usize = 0;
    while i < index.len()
        invariant
            i <= index.len(),
            sel == list_keeps(index@, *tag),
            r@.map_values(|x: usize| x as int) == positions(sel, i as int),
            forall|k: int| 0 <= k < r@.len() ==> r@[k] < i,
        decreases index.len() - i,
    {
        let keep = match tag {
            Some(t) => tags_include(&index[i].1.tags, t.as_str()),
            None => true,
        };
        if keep {
            let ghost before = r@.map_values(|x: usize| x as int);
            r.push(i);
            assert(r@.map_values(|x: usize| x as int) =~= before.push(i as int));
        }
        i = i + 1;
    }
    r
}

fn updated_of(index: &Vec<(String, MemoryIndexEntry)>) -> (r: Vec<String>)
    ensures
        strs(r@) == updated_views(index@),
{
    let mut r: Vec<String> = Vec::new();
    let mut i: usize = 0;
    while i < index.len()
        invariant
            i <= index.len(),
            r.len() == i,
            forall|j: int| 0 <= j < i ==> #[trigger] r@[j]@ == index@[j].1.updated@,
        decreases index.len() - i,
    {
        r.push(index[i].1.updated.clone());
        i = i + 1;
    }
    assert(strs(r@) =~= updated_views(index@));
    r
}

/// Lists the index entries with the tag (any when `None`), most recently
/// updated first, at most `limit` (default 50, at most 200); `None` for an
/// index that does not exist yet gives an empty result.
pub fn run_memory_list(params: &MemoryListParams, index: Option<&Vec<(String, MemoryIndexEntry)>>) -> (r: Result<
    MemoryListResult,
    ToolError,
>)
    ensures
        index is None ==> (r matches Ok(res) && res.kind@ == "empty"@ && res.total == 0 && !res.truncated
            && res.entries.len() == 0),
        index matches Some(ix) ==> (r matches Ok(res) && memory_list_answer(*params, ix@, res)),
{
    let ix = match index {
        None => {
            return Ok(MemoryListResult {
                kind: owned("empty"),
                total: 0,
                truncated: false,
                entries: Vec::new(),
            });
        },
        Some(ix) => ix,
    };
    let limit: usize = match params.limit {
        Some(x) => if x < 200 { x } else { 200 },
        None => 50,
    };
    let pos = keep_positions(ix, &params.tag);
    let ups = updated_of(ix);
    assert(strs(ups@).len() == ups@.len());
    assert(ups.len() == ix.len());
    let order = sort_indices_by_ts_desc(&pos, &ups);
    let ghost sel = list_keeps(ix@, params.tag);
    let ghost os = order@.map_values(|i: usize| i as int);
    proof {
        lemma_sort_len(pos@.map_values(|i: usize| i as int), updated_views(ix@));
    }
    let total = pos.len();
    let n = if order.len() <= limit { order.len() } else { limit };
    let ghost shown = listing(ix@, sel, limit as nat);
    assert(shown =~= os.take(n as int));
    let mut entries: Vec<MemoryListEntry> = Vec::new();
    let mut k: usize = 0;
    while k < n
        invariant
            k <= n <= order.len(),
            os == order@.map_values(|i: usize| i as int),
            forall|q: int| 0 <= q < order@.len() ==> order@[q] < ix.len(),
            entries.len() == k,
            forall|q: int| 0 <= q < k ==> shows(#[trigger] entries@[q], ix@[os[q]]),
        decreases n - k,
    {
        let e = &ix[order[k]];
        entries.push(MemoryListEntry {
            key: e.0.clone(),
            tags: strings_clone(&e.1.tags),
            updated: e.1.updated.clone(),
            preview: e.1.preview.clone(),
        });
        k = k + 1;
    }
    Ok(MemoryListResult { kind: owned("success"), total, truncated: total > limit, entries })
}

/// `s.to_lowercase().contains(q)`.
pub open spec fn text_hit(s: Seq<char>, q: Seq<char>) -> bool {
    contains(lower_text(s), q)
}

/// Some tag contains `q` when lowercased.
pub open spec fn tag_hit(tags: Seq<Seq<char>>, q: Seq<char>) -> bool {
    exists|j: int| 0 <= j < tags.len() && text_hit(#[trigger] tags[j], q)
}

/// The entry is found for a tag filter and a lowercased query.
pub open spec fn read_keeps(index: Seq<(String, MemoryIndexEntry)>, tag: Option<String>, q: Seq<char>) -> spec_fn(
    int,
) -> bool {
    |i: int|
        (match tag {
            Some(t) => has_tag(strs(index[i].1.tags@), t@),
            None => true,
        }) && (text_hit(index[i].0@, q) || tag_hit(strs(index[i].1.tags@), q) || text_hit(
            index[i].1.preview@,
            q,
        ))
}

fn lower_contains(s: &str, q: &str) -> (r: bool)
    ensures
        r == text_hit(s@, q@),
{
    let l = to_lowercase(s);
    str_contains(l.as_str(), q)
}

fn tags_hit(tags: &Vec<String>, q: &str) -> (r: bool)
    ensures
        r == tag_hit(strs(tags@), q@),
{
    let mut i: usize = 0;
    while i < tags.len()
        invariant
            i <= tags.len(),
            forall|k: int| 0 <= k < i ==> !text_hit(#[trigger] strs(tags@)[k], q@),
        decreases tags.len() - i,
    {
        if lower_contains(tags[i].as_str(), q) {
            assert(text_hit(strs(tags@)[i as int], q@));
            return true;
        }
        i = i + 1;
    }
    false
}

fn found_positions(index: &Vec<(String, MemoryIndexEntry)>, tag: &Option<String>, q: &str) -> (r: Vec<usize>)
    ensures
        r@.map_values(|i: usize| i as int) == positions(read_keeps(index@, *tag, q@), index@.len() as int),
        forall|k: int| 0 <= k < r@.len() ==> r@[k] < index.len(),
{
    let ghost sel = read_keeps(index@, *tag, q@);
    let mut r: Vec<usize> = Vec::new();
    let mut i: usize = 0;
    while i < index.len()
        invariant
            i <= index.len(),
            sel == read_keeps(index@, *tag, q@),
            r@.map_values(|x: usize| x as int) == positions(sel, i as int),
            forall|k: int| 0 <= k < r@.len() ==> r@[k] < i,
        decreases index.len() - i,
    {
        let e = &index[i];
        let tag_ok = match tag {
            Some(t) => tags_include(&e.1.tags, t.as_str()),
            None => true,
        };
        let keep = tag_ok && (lower_contains(e.0.as_str(), q) || tags_hit(&e.1.tags, q) || lower_contains(
            e.1.preview.as_str(),
            q,
        ));
        if keep {
            let ghost before = r@.map_values(|x: usize| x as int);
            r.push(i);
            assert(r@.map_values(|x: usize| x as int) =~= before.push(i as int));
        }
        i = i + 1;
    }
    r
}

/// `e` shows the index entry `x`, without its content.
pub open spec fn shows_found(e: MemoryEntry, x: (String, MemoryIndexEntry)) -> bool {
    &&& e.key == x.0
    &&& strs(e.tags@) == strs(x.1.tags@)
    &&& e.updated == x.1.updated
    &&& e.preview == x.1.preview
    &&& e.content is None
}

/// `res` is what a search of the index `ix` answers for `params`.
pub open spec fn memory_read_answer(params: MemoryReadParams, ix: Seq<(String, MemoryIndexEntry)>, res: MemoryReadResult) -> bool {
    let sel = read_keeps(ix, params.tag, lower_text(params.query@));
    let all = positions(sel, ix.len() as int);
    let shown = listing(ix, sel, capped(params.limit, 10, 50));
    &&& res.kind@ == "success"@
    &&& res.query == params.query
    &&& res.total == all.len()
    &&& res.truncated == (all.len() > capped(params.limit, 10, 50))
    &&& res.entries.len() == shown.len()
    &&& forall|k: int| 0 <= k < shown.len() ==> shows_found(#[trigger] res.entries@[k], ix[shown[k]])
}

/// One of `tags` equals `t`, ignoring ASCII case.
pub open spec fn carries_tag(tags: Seq<String>, t: Seq<char>) -> bool {
    exists|j: int| 0 <= j < tags.len() && eq_ignore_ascii_case(#[trigger] tags[j]@, t)
}

/// The number of the first `k` index entries that carry a tag equal to `t`
/// ignoring ASCII case.
pub open spec fn tagged_count(ix: Seq<(String, MemoryIndexEntry)>, t: Seq<char>, k: int) -> nat
    decreases k,
{
    if k <= 0 {
        0
    } else {
        tagged_count(ix, t, k - 1) + if exists|j: int|
            0 <= j < ix[k - 1].1.tags@.len() && eq_ignore_ascii_case(#[trigger] ix[k - 1].1.tags@[j]@, t) {
            1nat
        } else {
            0nat
        }
    }
}

/// The positions `sel` keeps are positions below `k` that it keeps.
proof fn lemma_positions_kept(sel: spec_fn(int) -> bool, k: int)
    ensures
        forall|j: int| 0 <= j < positions(sel, k).len() ==> 0 <= #[trigger] positions(sel, k)[j] < k && sel(
            positions(sel, k)[j],
        ),
    decreases k,
{
    if k > 0 {
        lemma_positions_kept(sel, k - 1);
        let prev = positions(sel, k - 1);
        if sel(k - 1) {
            assert forall|j: int| 0 <= j < positions(sel, k).len() implies 0 <= #[trigger] positions(sel, k)[j] < k
                && sel(positions(sel, k)[j]) by {
                if j < prev.len() {
                    assert(positions(sel, k)[j] == prev[j]);
                }
            }
        }
    }
}

/// A selection that keeps only tagged entries keeps at most as many
/// entries as carry the tag.
proof fn lemma_positions_within_tagged(ix: Seq<(String, MemoryIndexEntry)>, t: Seq<char>, sel: spec_fn(int) -> bool, k: int)
    requires
        k <= ix.len(),
        forall|i: int| 0 <= i < ix.len() && #[trigger] sel(i) ==> exists|j: int|
            0 <= j < ix[i].1.tags@.len() && eq_ignore_ascii_case(#[trigger] ix[i].1.tags@[j]@, t),
    ensures
        positions(sel, k).len() <= tagged_count(ix, t, k),
    decreases k,
{
    if k > 0 {
        lemma_positions_within_tagged(ix, t, sel, k - 1);
        if sel(k - 1) {
            assert(exists|j: int| 0 <= j < ix[k - 1].1.tags@.len() && eq_ignore_ascii_case(#[trigger] ix[k - 1].1.tags@[j]@, t));
        }
    }
}

/// Every position a listing shows is a position of the index that `sel`
/// keeps.
proof fn lemma_listing_kept(ix: Seq<(String, MemoryIndexEntry)>, sel: spec_fn(int) -> bool, cap: nat, k: int)
    requires
        0 <= k < listing(ix, sel, cap).len(),
    ensures
        0 <= listing(ix, sel, cap)[k] < ix.len(),
        sel(listing(ix, sel, cap)[k]),
{
    let all = positions(sel, ix.len() as int);
    let ts = updated_views(ix);
    let srt = sort_by_ts_desc(all, ts);
    lemma_positions_kept(sel, ix.len() as int);
    crate::journal_log::lemma_sort_contains(all, ts);
    lemma_sort_len(all, ts);
    let x = listing(ix, sel, cap)[k];
    assert(x == srt[k]);
    assert(srt.contains(x));
    assert(all.contains(x));
    let a = choose|a: int| 0 <= a < all.len() && all[a] == x;
    assert(sel(all[a]));
}

/// Without a tag filter every index entry counts.
proof fn lemma_positions_all(sel: spec_fn(int) -> bool, k: int)
    requires
        k >= 0,
        forall|i: int| 0 <= i < k ==> #[trigger] sel(i),
    ensures
        positions(sel, k).len() == k,
    decreases k,
{
    if k > 0 {
        assert(sel(k - 1));
        lemma_positions_all(sel, k - 1);
    }
}

/// A listing with tag `t` shows only entries that carry a tag equal to `t`
/// ignoring ASCII case, and counts no more entries than the index has with
/// such a tag.
pub proof fn law_listing_keeps_the_tag(
    params: MemoryListParams,
    ix: Seq<(String, MemoryIndexEntry)>,
    res: MemoryListResult,
    t: String,
)
    requires
        memory_list_answer(params, ix, res),
        params.tag == Some(t),
    ensures
        forall|k: int| 0 <= k < res.entries.len() ==> carries_tag(#[trigger] res.entries@[k].tags@, t@),
        res.total <= tagged_count(ix, t@, ix.len() as int),
{
    let sel = list_keeps(ix, params.tag);
    let cap = capped(params.limit, 50, 200);
    let shown = listing(ix, sel, cap);
    assert forall|i: int| 0 <= i < ix.len() && #[trigger] sel(i) implies exists|j: int|
        0 <= j < ix[i].1.tags@.len() && eq_ignore_ascii_case(#[trigger] ix[i].1.tags@[j]@, t@) by {
        assert(has_tag(strs(ix[i].1.tags@), t@));
        let j = choose|j: int| 0 <= j < strs(ix[i].1.tags@).len() && eq_ignore_ascii_case(#[trigger] strs(ix[i].1.tags@)[j], t@);
        assert(strs(ix[i].1.tags@)[j] == ix[i].1.tags@[j]@);
    }
    lemma_positions_within_tagged(ix, t@, sel, ix.len() as int);
    assert forall|k: int| 0 <= k < res.entries.len() implies carries_tag(#[trigger] res.entries@[k].tags@, t@) by {
        lemma_listing_kept(ix, sel, cap, k);
        let x = shown[k];
        assert(shows(res.entries@[k], ix[x]));
        let j = choose|j: int| 0 <= j < ix[x].1.tags@.len() && eq_ignore_ascii_case(#[trigger] ix[x].1.tags@[j]@, t@);
        assert(strs(res.entries@[k].tags@).len() == strs(ix[x].1.tags@).len());
        assert(strs(res.entries@[k].tags@)[j] == strs(ix[x].1.tags@)[j]);
        assert(res.entries@[k].tags@[j]@ == strs(res.entries@[k].tags@)[j]);
        assert(eq_ignore_ascii_case(res.entries@[k].tags@[j]@, t@));
    }
}

/// A listing without a tag counts every entry of the index.
pub proof fn law_untagged_listing_counts_all(params: MemoryListParams, ix: Seq<(String, MemoryIndexEntry)>, res: MemoryListResult)
    requires
        memory_list_answer(params, ix, res),
        params.tag is None,
    ensures
        res.total == ix.len(),
{
    lemma_positions_all(list_keeps(ix, params.tag), ix.len() as int);
}

/// A search finds only what matches its query: every entry it shows has a
/// key, a tag or a preview that contains the lowercased query when
/// lowercased.
pub proof fn law_search_matches_the_query(params: MemoryReadParams, ix: Seq<(String, MemoryIndexEntry)>, res: MemoryReadResult)
    requires
        memory_read_answer(params, ix, res),
    ensures
        forall|k: int|
            #![trigger res.entries@[k]]
            0 <= k < res.entries.len() ==> {
                let q = lower_text(params.query@);
                ||| contains(lower_text(res.entries@[k].key@), q)
                ||| contains(lower_text(res.entries@[k].preview@), q)
                ||| exists|j: int|
                    0 <= j < res.entries@[k].tags@.len() && contains(lower_text(#[trigger] res.entries@[k].tags@[j]@), q)
            },
{
    let q = lower_text(params.query@);
    let sel = read_keeps(ix, params.tag, q);
    let cap = capped(params.limit, 10, 50);
    let shown = listing(ix, sel, cap);
    assert forall|k: int| #![trigger res.entries@[k]] 0 <= k < res.entries.len() implies {
        ||| contains(lower_text(res.entries@[k].key@), q)
        ||| contains(lower_text(res.entries@[k].preview@), q)
        ||| exists|j: int|
            0 <= j < res.entries@[k].tags@.len() && contains(lower_text(#[trigger] res.entries@[k].tags@[j]@), q)
    } by {
        assert(shows_found(res.entries@[k], ix[shown[k]]));
        lemma_listing_kept(ix, sel, cap, k);
        let x = shown[k];
        assert(sel(x));
        if tag_hit(strs(ix[x].1.tags@), q) {
            let j = choose|j: int| 0 <= j < strs(ix[x].1.tags@).len() && text_hit(#[trigger] strs(ix[x].1.tags@)[j], q);
            assert(strs(res.entries@[k].tags@)[j] == strs(ix[x].1.tags@)[j]);
            assert(res.entries@[k].tags@[j]@ == strs(res.entries@[k].tags@)[j]);
        }
    }
}

/// A tag filter holds: every entry a search with tag `t` shows carries a
/// tag equal to `t` ignoring ASCII case, and it finds no more entries than
/// the index has with such a tag.
pub proof fn law_search_keeps_the_tag(
    params: MemoryReadParams,
    ix: Seq<(String, MemoryIndexEntry)>,
    res: MemoryReadResult,
    t: String,
)
    requires
        memory_read_answer(params, ix, res),
        params.tag == Some(t),
    ensures
        forall|k: int|
            #![trigger res.entries@[k]]
            0 <= k < res.entries.len() ==> exists|j: int|
                0 <= j < res.entries@[k].tags@.len() && eq_ignore_ascii_case(#[trigger] res.entries@[k].tags@[j]@, t@),
        res.total <= tagged_count(ix, t@, ix.len() as int),
{
    let q = lower_text(params.query@);
    let sel = read_keeps(ix, params.tag, q);
    let all = positions(sel, ix.len() as int);
    let ts = updated_views(ix);
    let srt = sort_by_ts_desc(all, ts);
    let cap = capped(params.limit, 10, 50);
    let shown = listing(ix, sel, cap);
    lemma_positions_kept(sel, ix.len() as int);
    crate::journal_log::lemma_sort_contains(all, ts);
    lemma_sort_len(all, ts);
    assert forall|i: int| 0 <= i < ix.len() && #[trigger] sel(i) implies exists|j: int|
        0 <= j < ix[i].1.tags@.len() && eq_ignore_ascii_case(#[trigger] ix[i].1.tags@[j]@, t@) by {
        assert(has_tag(strs(ix[i].1.tags@), t@));
        let j = choose|j: int| 0 <= j < strs(ix[i].1.tags@).len() && eq_ignore_ascii_case(#[trigger] strs(ix[i].1.tags@)[j], t@);
        assert(strs(ix[i].1.tags@)[j] == ix[i].1.tags@[j]@);
    }
    lemma_positions_within_tagged(ix, t@, sel, ix.len() as int);
    assert forall|k: int| #![trigger res.entries@[k]] 0 <= k < res.entries.len() implies exists|j: int|
        0 <= j < res.entries@[k].tags@.len() && eq_ignore_ascii_case(#[trigger] res.entries@[k].tags@[j]@, t@) by {
        assert(shows_found(res.entries@[k], ix[shown[k]]));
        assert(shown[k] == srt[k]);
        assert(srt.contains(srt[k]));
        assert(all.contains(shown[k]));
        let a = choose|a: int| 0 <= a < all.len() && all[a] == shown[k];
        let x = all[a];
        assert(sel(x));
        let j = choose|j: int| 0 <= j < ix[x].1.tags@.len() && eq_ignore_ascii_case(#[trigger] ix[x].1.tags@[j]@, t@);
        assert(strs(res.entries@[k].tags@)[j] == strs(ix[x].1.tags@)[j]);
        assert(res.entries@[k].tags@[j]@ == strs(res.entries@[k].tags@)[j]);
    }
}

/// Searches the index: entries with the tag (if any) whose key, one of
/// whose tags, or whose preview contains the query, ignoring case; most
/// recently updated first, at most `limit` (default 10, at most 50). The
/// contents are left empty: when exactly one entry is found, the caller
/// loads its file into `content`.
pub fn run_memory_read(params: &MemoryReadParams, index: Option<&Vec<(String, MemoryIndexEntry)>>) -> (r: Result<
    MemoryReadResult,
    ToolError,
>)
    ensures
        trim(params.query@).len() == 0 ==> (r matches Err(ToolError::MissingParameter { missing, hint })
            && missing@ == "query"@ && hint@ == "Provide a search query to match against memory keys, tags, or content."@),
        trim(params.query@).len() > 0 && index is None ==> (r matches Ok(res) && res.kind@ == "empty"@
            && res.query == params.query && res.total == 0 && !res.truncated && res.entries.len() == 0),
        trim(params.query@).len() > 0 && index is Some ==> (r matches Ok(res) && memory_read_answer(
            *params,
            index.unwrap()@,
            res,
        )),
{
    let t = trim_str(params.query.as_str());
    if t.as_str().is_empty() {
        return Err(ToolError::MissingParameter {
            missing: owned("query"),
            hint: owned("Provide a search query to match against memory keys, tags, or content."),
        });
    }
    let limit: usize = match params.limit {
        Some(x) => if x < 50 { x } else { 50 },
        None => 10,
    };
    let ix = match index {
        None => {
            return Ok(MemoryReadResult {
                kind: owned("empty"),
                query: params.query.clone(),
                total: 0,
                truncated: false,
                entries: Vec::new(),
            });
        },
        Some(ix) => ix,
    };
    let q = to_lowercase(params.query.as_str());
    let pos = found_positions(ix, &params.tag, q.as_str());
    let ups = updated_of(ix);
    assert(strs(ups@).len() == ups@.len());
    assert(ups.len() == ix.len());
    let order = sort_indices_by_ts_desc(&pos, &ups);
    let ghost sel = read_keeps(ix@, params.tag, q@);
    let ghost os = order@.map_values(|i: usize| i as int);
    proof {
        lemma_sort_len(pos@.map_values(|i: usize| i as int), updated_views(ix@));
    }
    let total = pos.len();
    let n = if order.len() <= limit { order.len() } else { limit };
    let ghost shown = listing(ix@, sel, limit as nat);
    assert(shown =~= os.take(n as int));
    let mut entries: Vec<MemoryEntry> = Vec::new();
    let mut k: usize = 0;
    while k < n
        invariant
            k <= n <= order.len(),
            os == order@.map_values(|i: usize| i as int),
            forall|q: int| 0 <= q < order@.len() ==> order@[q] < ix.len(),
            entries.len() == k,
            forall|q: int| 0 <= q < k ==> shows_found(#[trigger] entries@[q], ix@[os[q]]),
        decreases n - k,
    {
        let e = &ix[order[k]];
        entries.push(MemoryEntry {
            key: e.0.clone(),
            tags: strings_clone(&e.1.tags),
            updated: e.1.updated.clone(),
            preview: e.1.preview.clone(),
            content: None,
        });
        k = k + 1;
    }
    Ok(MemoryReadResult {
        kind: owned("success"),
        query: params.query.clone(),
        total,
        truncated: total > limit,
        entries,
    })
}

/// The entry whose file a read loads: the only one, when exactly one entry
/// matched and it is shown.
pub open spec fn loads_content(res: MemoryReadResult) -> bool {
    res.total == 1 && res.entries.len() >= 1
}

/// The file (relative to `.ai/memory`) whose content a read shows, if any:
/// that of the only entry found.
pub fn content_to_load(res: &MemoryReadResult) -> (r: Option<String>)
    ensures
        loads_content(*res) ==> (r matches Some(f) && f@ == res.entries@[0].key@ + ".md"@),
        !loads_content(*res) ==> r is None,
{
    if res.total == 1 && res.entries.len() >= 1 {
        Some(memory_file_name(res.entries[0].key.as_str()))
    } else {
        None
    }
}

/// The read with the content of the only entry found filled in from its
/// file (`None` where the file could not be read); other reads unchanged.
pub fn with_loaded_content(res: MemoryReadResult, content: Option<String>) -> (r: MemoryReadResult)
    ensures
        r.kind == res.kind,
        r.query == res.query,
        r.total == res.total,
        r.truncated == res.truncated,
        r.entries.len() == res.entries.len(),
        loads_content(res) ==> r.entries@[0].content == content && r.entries@[0].key == res.entries@[0].key
            && r.entries@[0].tags == res.entries@[0].tags && r.entries@[0].updated == res.entries@[0].updated
            && r.entries@[0].preview == res.entries@[0].preview,
        forall|k: int| 1 <= k < r.entries.len() ==> r.entries@[k] == res.entries@[k],
        !loads_content(res) ==> r == res,
{
    if res.total == 1 && res.entries.len() >= 1 {
        let MemoryReadResult { kind, query, total, truncated, entries } = res;
        let mut entries = entries;
        let first = entries.remove(0);
        let MemoryEntry { key, tags, updated, preview, content: _ } = first;
        entries.insert(0, MemoryEntry { key, tags, updated, preview, content });
        MemoryReadResult { kind, query, total, truncated, entries }
    } else {
        res
    }
}

/// The file of a memory entry, relative to `.ai/memory`.
pub fn memory_file_name(key: &str) -> (r: String)
    ensures
        r@ == key@ + ".md"@,
{
    let mut v = chars_of(key);
    push_str(&mut v, ".md");
    string_of(&v)
}

/// The answer to a delete: whether the entry's file existed.
pub fn memory_delete_result(key: &str, existed: bool) -> (r: MemoryDeleteResult)
    ensures
        r.kind@ == (if existed { "deleted"@ } else { "not_found"@ }),
        r.key@ == key@,
{
    MemoryDeleteResult {
        kind: if existed { owned("deleted") } else { owned("not_found") },
        key: owned(key),
    }
}

/// Sorting keeps the length.
proof fn lemma_sort_len(s: Seq<int>, ts: Seq<Seq<char>>)
    ensures
        sort_by_ts_desc(s, ts).len() == s.len(),
    decreases s.len(),
{
    if s.len() > 0 {
        lemma_sort_len(s.drop_last(), ts);
        lemma_insert_len(sort_by_ts_desc(s.drop_last(), ts), s.last(), ts);
    }
}

proof fn lemma_insert_len(s: Seq<int>, x: int, ts: Seq<Seq<char>>)
    ensures
        crate::journal_log::insert_by_ts(s, x, ts).len() == s.len() + 1,
    decreases s.len(),
{
    if s.len() > 0 {
        lemma_insert_len(s.drop_first(), x, ts);
    }
}

/// A position that `sel` keeps is listed.
proof fn lemma_positions_has(sel: spec_fn(int) -> bool, k: int, i: int)
    requires
        0 <= i < k,
        sel(i),
    ensures
        positions(sel, k).contains(i),
    decreases k,
{
    if i < k - 1 {
        lemma_positions_has(sel, k - 1, i);
        if sel(k - 1) {
            assert(positions(sel, k)[positions(sel, k - 1).index_of(i)] == i);
        }
    } else {
        assert(positions(sel, k).last() == i);
    }
}

/// What a write keeps is found by a read for its key: in an index where
/// `key` holds `entry`, a read whose query is `key` (with no tag filter)
/// finds an entry under `key` that holds `entry`.
pub proof fn law_read_finds_written_key(index: Seq<(String, MemoryIndexEntry)>, key: String, entry: MemoryIndexEntry)
    requires
        index_has(index, key@),
        forall|i: int| 0 <= i < index.len() && #[trigger] index[i].0@ == key@ ==> index[i].1 == entry,
    ensures
        ({
            let found = positions(read_keeps(index, None, lower_text(key@)), index.len() as int);
            exists|k: int| 0 <= k < found.len() && #[trigger] index[found[k]].0@ == key@ && index[found[k]].1 == entry
        }),
{
    let i = choose|i: int| 0 <= i < index.len() && #[trigger] index[i].0@ == key@;
    let q = lower_text(key@);
    assert(q.subrange(0, q.len() as int) =~= q);
    assert(crate::text::match_at(q, q, 0));
    assert(text_hit(index[i].0@, q));
    let sel = read_keeps(index, None, q);
    assert(sel(i));
    lemma_positions_has(sel, index.len() as int, i);
    let found = positions(sel, index.len() as int);
    let k = found.index_of(i);
    assert(index[found[k]].0@ == key@);
}

/// Listed positions are positions of the index.
proof fn lemma_positions_in_range(sel: spec_fn(int) -> bool, k: int)
    ensures
        forall|j: int| 0 <= j < positions(sel, k).len() ==> 0 <= #[trigger] positions(sel, k)[j] < k,
    decreases k,
{
    if k > 0 {
        lemma_positions_in_range(sel, k - 1);
        let prev = positions(sel, k - 1);
        if sel(k - 1) {
            assert forall|j: int| 0 <= j < positions(sel, k).len() implies 0 <= #[trigger] positions(sel, k)[j] < k by {
                if j < prev.len() {
                    assert(positions(sel, k)[j] == prev[j]);
                }
            }
        }
    }
}

/// What a delete removes is not found again: in an index without `key`,
/// no entry that a read (for any query and tag) finds is under `key`.
pub proof fn law_read_misses_deleted_key(
    index: Seq<(String, MemoryIndexEntry)>,
    key: Seq<char>,
    tag: Option<String>,
    q: Seq<char>,
)
    requires
        !index_has(index, key),
    ensures
        ({
            let found = positions(read_keeps(index, tag, q), index.len() as int);
            forall|k: int| 0 <= k < found.len() ==> #[trigger] index[found[k]].0@ != key
        }),
{
    lemma_positions_in_range(read_keeps(index, tag, q), index.len() as int);
}

/// Law: a memory listing is ordered by update time, newest first.
pub proof fn law_listing_newest_first(index: Seq<(String, MemoryIndexEntry)>, sel: spec_fn(int) -> bool, limit: nat)
    ensures
        ts_desc(listing(index, sel, limit), updated_views(index)),
{
    let s = positions(sel, index.len() as int);
    let ts = updated_views(index);
    lemma_sort_len(s, ts);
    if s.len() <= limit {
        law_sorted_prefix_newest_first(s, ts, 0);
    } else {
        law_sorted_prefix_newest_first(s, ts, limit as int);
    }
}

/// Law: a memory written by `index_memory_write` is read back by a read for
/// its key, with the tags, time and preview of that write.
pub proof fn law_written_memory_is_read_back(
    index: Seq<(String, MemoryIndexEntry)>,
    params: MemoryWriteParams,
    final_content: Seq<char>,
    updated: Seq<char>,
)
    requires
        index_ok(index),
        index_has(index, params.key@),
        forall|i: int|
            0 <= i < index.len() && #[trigger] index[i].0@ == params.key@ ==> written_entry(
                index[i].1,
                params,
                final_content,
                updated,
            ),
    ensures
        ({
            let found = positions(read_keeps(index, None, lower_text(params.key@)), index.len() as int);
            exists|k: int|
                0 <= k < found.len() && #[trigger] index[found[k]].0@ == params.key@ && written_entry(
                    index[found[k]].1,
                    params,
                    final_content,
                    updated,
                )
        }),
{
    let i = choose|i: int| 0 <= i < index.len() && #[trigger] index[i].0@ == params.key@;
    let key = index[i].0;
    assert forall|j: int| 0 <= j < index.len() && #[trigger] index[j].0@ == key@ implies index[j].1 == index[i].1 by {
        if j != i {
            assert(index[i].0@ != index[j].0@ || i == j);
        }
    }
    law_read_finds_written_key(index, key, index[i].1);
    let found = positions(read_keeps(index, None, lower_text(params.key@)), index.len() as int);
    let k = choose|k: int| 0 <= k < found.len() && #[trigger] index[found[k]].0@ == key@ && index[found[k]].1 == index[i].1;
    assert(index[found[k]].0@ == params.key@);
}

} // verus!
