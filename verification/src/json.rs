//! JSON values as the library reads them: the values, their views, and lookups of members.
use vstd::prelude::*;
use crate::text::str_eq;

verus! {

/// A JSON number: its text, and its value where it is an integer that fits.
pub struct JsonNumber {
    pub as_u64: Option<u64>,
    pub as_i64: Option<i64>,
    pub text: String,
}

/// A JSON value. An object is its entries in order; a well-formed one
/// holds each key once.
pub enum Json {
    Null,
    Bool(bool),
    Number(JsonNumber),
    Str(String),
    Array(Vec<Json>),
    Object(Vec<(String, Json)>),
}

/// The mathematical value of a `Json`.
pub enum JsonV {
    Null,
    Bool(bool),
    Number(Option<u64>, Option<i64>, Seq<char>),
    Str(Seq<char>),
    Array(Seq<JsonV>),
    Object(Seq<(Seq<char>, JsonV)>),
}

pub open spec fn jview(j: Json) -> JsonV
    decreases j,
{
    match j {
        Json::Null => JsonV::Null,
        Json::Bool(b) => JsonV::Bool(b),
        Json::Number(n) => JsonV::Number(n.as_u64, n.as_i64, n.text@),
        Json::Str(s) => JsonV::Str(s@),
        Json::Array(v) => {
            proof {
                assert(decreases_to!(v => v@));
            }
            JsonV::Array(jviews(v@))
        },
        Json::Object(es) => {
            proof {
                assert(decreases_to!(es => es@));
            }
            JsonV::Object(entry_views(es@))
        },
    }
}

pub open spec fn jviews(s: Seq<Json>) -> Seq<JsonV>
    decreases s,
{
    if s.len() == 0 {
        seq![]
    } else {
        proof {
            assert(decreases_to!(s => s[s.len() - 1]));
        }
        jviews(s.drop_last()).push(jview(s.last()))
    }
}

pub open spec fn entry_views(s: Seq<(String, Json)>) -> Seq<(Seq<char>, JsonV)>
    decreases s,
{
    if s.len() == 0 {
        seq![]
    } else {
        proof {
            assert(decreases_to!(s => s[s.len() - 1]));
            assert(decreases_to!(s[s.len() - 1] => s[s.len() - 1].1));
        }
        entry_views(s.drop_last()).push((s.last().0@, jview(s.last().1)))
    }
}

pub proof fn lemma_jviews_len(s: Seq<Json>)
    ensures
        jviews(s).len() == s.len(),
        forall|i: int| 0 <= i < s.len() ==> #[trigger] jviews(s)[i] == jview(s[i]),
    decreases s.len(),
{
    if s.len() > 0 {
        lemma_jviews_len(s.drop_last());
    }
}

pub proof fn lemma_entry_views_len(s: Seq<(String, Json)>)
    ensures
        entry_views(s).len() == s.len(),
        forall|i: int| 0 <= i < s.len() ==> #[trigger] entry_views(s)[i] == (s[i].0@, jview(s[i].1)),
    decreases s.len(),
{
    if s.len() > 0 {
        entry_views(s.drop_last());
        lemma_entry_views_len(s.drop_last());
    }
}

/// The value under the first entry with key `k`.
pub open spec fn lookup(es: Seq<(Seq<char>, JsonV)>, k: Seq<char>) -> Option<JsonV>
    decreases es.len(),
{
    if es.len() == 0 {
        None
    } else if es[0].0 == k {
        Some(es[0].1)
    } else {
        lookup(es.subrange(1, es.len() as int), k)
    }
}

/// `value.get(k)`: the member `k` of an object; nothing for other values.
pub open spec fn get(v: JsonV, k: Seq<char>) -> Option<JsonV> {
    match v {
        JsonV::Object(es) => lookup(es, k),
        _ => None,
    }
}

/// `value.as_str()`.
pub open spec fn as_str(v: Option<JsonV>) -> Option<Seq<char>> {
    match v {
        Some(JsonV::Str(s)) => Some(s),
        _ => None,
    }
}

/// Index of the first entry with key `k`.
pub fn find_key(es: &Vec<(String, Json)>, k: &str) -> (r: Option<usize>)
    ensures
        match r {
            Some(i) => i < es@.len() && es@[i as int].0@ == k@ && lookup(entry_views(es@), k@) == Some(
                jview(es@[i as int].1),
            ) && forall|j: int| 0 <= j < i ==> #[trigger] es@[j].0@ != k@,
            None => lookup(entry_views(es@), k@) is None && forall|j: int| 0 <= j < es@.len() ==> #[trigger] es@[j].0@ != k@,
        },
{
    proof {
        lemma_entry_views_len(es@);
        assert(entry_views(es@).subrange(0, es@.len() as int) =~= entry_views(es@));
    }
    let mut i: usize = 0;
    while i < es.len()
        invariant
            i <= es.len(),
            entry_views(es@).len() == es@.len(),
            forall|j: int| 0 <= j < es@.len() ==> #[trigger] entry_views(es@)[j] == (es@[j].0@, jview(es@[j].1)),
            lookup(entry_views(es@), k@) == lookup(entry_views(es@).subrange(i as int, es@.len() as int), k@),
            forall|j: int| 0 <= j < i ==> #[trigger] es@[j].0@ != k@,
        decreases es.len() - i,
    {
        let ghost rest = entry_views(es@).subrange(i as int, es@.len() as int);
        assert(rest[0] == entry_views(es@)[i as int]);
        if str_eq(es[i].0.as_str(), k) {
            return Some(i);
        }
        assert(rest.subrange(1, rest.len() as int) =~= entry_views(es@).subrange(i + 1, es@.len() as int));
        i = i + 1;
    }
    None
}

/// A borrow of the member `k` of `v` (`value.get(k)`).
pub fn get_member<'a>(v: &'a Json, k: &str) -> (r: Option<&'a Json>)
    ensures
        match r {
            Some(x) => get(jview(*v), k@) == Some(jview(*x)),
            None => get(jview(*v), k@) is None,
        },
{
    match v {
        Json::Object(es) => {
            match find_key(es, k) {
                Some(i) => Some(&es[i].1),
                None => None,
            }
        },
        _ => None,
    }
}

/// `value.as_str()` on a borrowed value.
pub fn str_of<'a>(v: Option<&'a Json>) -> (r: Option<&'a str>)
    ensures
        match r {
            Some(s) => v matches Some(x) && jview(*x) == JsonV::Str(s@),
            None => !(v matches Some(x) && jview(*x) is Str),
        },
{
    match v {
        Some(Json::Str(s)) => Some(s.as_str()),
        _ => None,
    }
}

} // verus!
