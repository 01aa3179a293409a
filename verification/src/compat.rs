//! Tool schemas rewritten for the kind of client that asked for them.
use vstd::prelude::*;
use crate::json::{Json, JsonV, jview, jviews, entry_views, lemma_jviews_len, lemma_entry_views_len, lookup, get,
    as_str, find_key, get_member, str_of};
use crate::text::{owned, str_eq};

verus! {

/// The kinds of MCP client.
#[derive(Debug, Clone, Copy, PartialEq, Eq, Structural)]
pub enum ClientType {
    Claude,
    OpenAI,
    Gemini,
    Unknown,
}

/// Keys that OpenAI does not accept in a schema.
pub open spec fn openai_dropped(k: Seq<char>) -> bool {
    k == "additionalProperties"@ || k == "$schema"@ || k == "const"@
}

/// A schema without the keys OpenAI refuses, at its top level and (in turn)
/// in each value of its "properties" object.
pub open spec fn openai_clean(v: JsonV) -> JsonV
    decreases v,
{
    match v {
        JsonV::Object(es) => JsonV::Object(clean_entries(es)),
        _ => v,
    }
}

pub open spec fn clean_entries(es: Seq<(Seq<char>, JsonV)>) -> Seq<(Seq<char>, JsonV)>
    decreases es,
{
    if es.len() == 0 {
        seq![]
    } else {
        let e = es.last();
        let rest = clean_entries(es.drop_last());
        proof {
            assert(decreases_to!(es => es[es.len() - 1]));
            assert(decreases_to!(es[es.len() - 1] => es[es.len() - 1].1));
        }
        if openai_dropped(e.0) {
            rest
        } else if e.0 == "properties"@ {
            match e.1 {
                JsonV::Object(ps) => rest.push((e.0, JsonV::Object(clean_values(ps)))),
                _ => rest.push(e),
            }
        } else {
            rest.push(e)
        }
    }
}

pub open spec fn clean_values(ps: Seq<(Seq<char>, JsonV)>) -> Seq<(Seq<char>, JsonV)>
    decreases ps,
{
    if ps.len() == 0 {
        seq![]
    } else {
        proof {
            assert(decreases_to!(ps => ps[ps.len() - 1]));
            assert(decreases_to!(ps[ps.len() - 1] => ps[ps.len() - 1].1));
        }
        clean_values(ps.drop_last()).push((ps.last().0, openai_clean(ps.last().1)))
    }
}

/// A variant whose "type" is "null".
pub open spec fn null_typed(v: JsonV) -> bool {
    as_str(get(v, "type"@)) == Some("null"@)
}

/// The variants that are not null-typed, in order.
pub open spec fn non_null(vs: Seq<JsonV>) -> Seq<JsonV>
    decreases vs.len(),
{
    if vs.len() == 0 {
        seq![]
    } else if null_typed(vs.last()) {
        non_null(vs.drop_last())
    } else {
        non_null(vs.drop_last()).push(vs.last())
    }
}

pub open spec fn has_null(vs: Seq<JsonV>) -> bool {
    exists|i: int| 0 <= i < vs.len() && #[trigger] null_typed(vs[i])
}

/// The first index holding key `k`.
pub open spec fn is_first_key(es: Seq<(Seq<char>, JsonV)>, k: Seq<char>, i: int) -> bool {
    0 <= i < es.len() && es[i].0 == k && forall|j: int| 0 <= j < i ==> #[trigger] es[j].0 != k
}

/// `map.insert(k, v)`: the value of the entry with key `k` replaced, or a new
/// entry at the end.
pub open spec fn obj_insert(es: Seq<(Seq<char>, JsonV)>, k: Seq<char>, v: JsonV) -> Seq<(Seq<char>, JsonV)> {
    if exists|i: int| is_first_key(es, k, i) {
        es.update(choose|i: int| is_first_key(es, k, i), (k, v))
    } else {
        es.push((k, v))
    }
}

/// `anyOf: [T, null]` flattened to `T` with `nullable: true` (top level).
pub open spec fn gemini_flat(v: JsonV) -> JsonV {
    match v {
        JsonV::Object(es) => match lookup(es, "anyOf"@) {
            Some(JsonV::Array(vs)) => if has_null(vs) && non_null(vs).len() == 1 {
                match non_null(vs)[0] {
                    JsonV::Object(oes) => JsonV::Object(obj_insert(oes, "nullable"@, JsonV::Bool(true))),
                    o => o,
                }
            } else {
                v
            },
            _ => v,
        },
        _ => v,
    }
}

/// The schema a client of kind `c` is given.
pub open spec fn sanitized(v: JsonV, c: ClientType) -> JsonV {
    match c {
        ClientType::Claude => v,
        ClientType::OpenAI => openai_clean(v),
        ClientType::Gemini => gemini_flat(v),
        ClientType::Unknown => gemini_flat(openai_clean(v)),
    }
}

/// Rewrites `schema` for a client of kind `client`.
pub fn sanitize_for_client(schema: Json, client: ClientType) -> (r: Json)
    ensures
        jview(r) == sanitized(jview(schema), client),
{
    match client {
        ClientType::Claude => schema,
        ClientType::OpenAI => remove_openai_incompatible(schema),
        ClientType::Gemini => flatten_gemini_nullable(schema),
        ClientType::Unknown => {
            let s = remove_openai_incompatible(schema);
            flatten_gemini_nullable(s)
        },
    }
}

/// Drops `additionalProperties`, `$schema` and `const`, here and in each
/// property's schema.
pub fn remove_openai_incompatible(schema: Json) -> (r: Json)
    ensures
        jview(r) == openai_clean(jview(schema)),
    decreases schema,
{
    let ghost s0 = schema;
    match schema {
        Json::Object(es) => {
            let ghost orig = es@;
            proof {
                assert(decreases_to!(s0 => es));
                assert(decreases_to!(es => orig));
            }
            let mut rest = es;
            let mut out: Vec<(String, Json)> = Vec::new();
            let mut i: usize = 0;
            assert(orig.skip(0) =~= orig);
            while rest.len() > 0
                invariant
                    i <= orig.len(),
                    rest@ == orig.skip(i as int),
                    entry_views(out@) == clean_entries(entry_views(orig.take(i as int))),
                    decreases_to!(s0 => orig),
                    s0 == schema,
                decreases rest.len(),
            {
                let ghost r0 = rest@;
                let (k, v) = rest.remove(0);
                assert(r0[0] == orig[i as int]);
                proof {
                    let t = orig.take(i + 1);
                    assert(t.drop_last() =~= orig.take(i as int));
                    assert(t.last() == (k, v));
                    assert(entry_views(t).drop_last() =~= entry_views(orig.take(i as int)));
                }
                let drop = str_eq(k.as_str(), "additionalProperties") || str_eq(k.as_str(), "$schema")
                    || str_eq(k.as_str(), "const");
                let is_props = str_eq(k.as_str(), "properties");
                let ghost ob = out@;
                if drop {
                } else if is_props {
                    match v {
                        Json::Object(ps) => {
                            proof {
                                assert(decreases_to!(orig => orig[i as int]));
                                assert(decreases_to!(orig[i as int] => orig[i as int].1));
                                assert(decreases_to!(orig[i as int].1 => ps));
                            }
                            let cps = clean_property_values(ps);
                            out.push((k, Json::Object(cps)));
                            assert(out@.drop_last() =~= ob);
                        },
                        other => {
                            out.push((k, other));
                            assert(out@.drop_last() =~= ob);
                        },
                    }
                } else {
                    out.push((k, v));
                    assert(out@.drop_last() =~= ob);
                }
                i = i + 1;
                assert(rest@ =~= orig.skip(i as int));
            }
            assert(orig.take(orig.len() as int) =~= orig);
            Json::Object(out)
        },
        other => other,
    }
}

/// Each property schema rewritten for OpenAI.
fn clean_property_values(ps: Vec<(String, Json)>) -> (r: Vec<(String, Json)>)
    ensures
        entry_views(r@) == clean_values(entry_views(ps@)),
    decreases ps,
{
    let ghost orig = ps@;
    proof {
        assert(decreases_to!(ps => orig));
    }
    assert(orig.len() == ps.len());
    let mut rest = ps;
    let mut out: Vec<(String, Json)> = Vec::new();
    let mut i: usize = 0;
    assert(orig.skip(0) =~= orig);
    while rest.len() > 0
        invariant
            i <= orig.len(),
            orig.len() <= usize::MAX,
            rest@ == orig.skip(i as int),
            entry_views(out@) == clean_values(entry_views(orig.take(i as int))),
            decreases_to!(ps => orig),
        decreases rest.len(),
    {
        let ghost r0 = rest@;
        assert(r0.len() == orig.len() - i);
        let (k, v) = rest.remove(0);
        assert(r0[0] == orig[i as int]);
        proof {
            let t = orig.take(i + 1);
            assert(t.drop_last() =~= orig.take(i as int));
            assert(t.last() == (k, v));
            assert(entry_views(t).drop_last() =~= entry_views(orig.take(i as int)));
            assert(decreases_to!(orig => orig[i as int]));
            assert(decreases_to!(orig[i as int] => orig[i as int].1));
        }
        let cv = remove_openai_incompatible(v);
        let ghost ob = out@;
        out.push((k, cv));
        assert(out@.drop_last() =~= ob);
        i = i + 1;
        assert(rest@ =~= orig.skip(i as int));
    }
    assert(orig.take(orig.len() as int) =~= orig);
    out
}

/// Whether a variant's "type" is "null".
fn is_null_typed(v: &Json) -> (r: bool)
    ensures
        r == null_typed(jview(*v)),
{
    match str_of(get_member(v, "type")) {
        Some(t) => str_eq(t, "null"),
        None => false,
    }
}

/// Over the variants: whether one is null-typed, how many are not, and the
/// index of the first that is not.
fn scan_variants(vs: &Vec<Json>) -> (r: (bool, usize, usize))
    ensures
        r.0 == has_null(jviews(vs@)),
        r.1 == non_null(jviews(vs@)).len(),
        r.1 >= 1 ==> r.2 < vs@.len() && non_null(jviews(vs@))[0] == jview(vs@[r.2 as int]),
{
    let ghost w = jviews(vs@);
    proof {
        lemma_jviews_len(vs@);
    }
    let mut hn = false;
    let mut cnt: usize = 0;
    let mut first: usize = 0;
    let mut k: usize = 0;
    while k < vs.len()
        invariant
            k <= vs.len(),
            w == jviews(vs@),
            w.len() == vs@.len(),
            forall|i: int| 0 <= i < vs@.len() ==> #[trigger] w[i] == jview(vs@[i]),
            hn == has_null(w.take(k as int)),
            cnt == non_null(w.take(k as int)).len(),
            cnt <= k,
            cnt >= 1 ==> first < k && non_null(w.take(k as int))[0] == jview(vs@[first as int]),
        decreases vs.len() - k,
    {
        let t = is_null_typed(&vs[k]);
        proof {
            let a = w.take(k + 1);
            assert(a.drop_last() =~= w.take(k as int));
            assert(a.last() == w[k as int]);
            if t {
                assert(null_typed(a[k as int]));
            } else {
                assert forall|i: int| 0 <= i < k + 1 && #[trigger] null_typed(a[i]) implies 0 <= i < k
                    && null_typed(w.take(k as int)[i]) by {
                    if i == k {
                        assert(a[i] == w[k as int]);
                    }
                }
            }
            assert(forall|i: int| 0 <= i < k ==> #[trigger] a[i] == w.take(k as int)[i]);
        }
        if t {
            hn = true;
        } else {
            if cnt == 0 {
                first = k;
            }
            cnt = cnt + 1;
        }
        k = k + 1;
    }
    assert(w.take(vs.len() as int) =~= w);
    (hn, cnt, first)
}

/// `map.insert(k, v)` on an object's entries.
fn insert_entry(oes: Vec<(String, Json)>, k: &str, v: Json) -> (r: Vec<(String, Json)>)
    ensures
        entry_views(r@) == obj_insert(entry_views(oes@), k@, jview(v)),
{
    let ghost e = entry_views(oes@);
    proof {
        lemma_entry_views_len(oes@);
    }
    let key = owned(k);
    match find_key(&oes, k) {
        Some(i) => {
            let mut o = oes;
            o.set(i, (key, v));
            proof {
                lemma_entry_views_len(o@);
                assert(is_first_key(e, k@, i as int));
                assert forall|j: int| is_first_key(e, k@, j) implies j == i by {
                    if j < i {
                        assert(e[j].0 == oes@[j].0@);
                    } else if j > i {
                        assert(e[i as int].0 == k@);
                    }
                }
                assert(entry_views(o@) =~= e.update(i as int, (k@, jview(v))));
            }
            o
        },
        None => {
            let mut o = oes;
            let ghost o0 = o@;
            o.push((key, v));
            proof {
                assert(o@.drop_last() =~= o0);
                assert(!exists|j: int| is_first_key(e, k@, j)) by {
                    assert forall|j: int| !is_first_key(e, k@, j) by {
                        if 0 <= j < e.len() {
                            assert(e[j].0 == oes@[j].0@);
                        }
                    }
                }
            }
            o
        },
    }
}

/// For Gemini: a schema `anyOf: [T, null]` becomes `T` with
/// `nullable: true`.
pub fn flatten_gemini_nullable(schema: Json) -> (r: Json)
    ensures
        jview(r) == gemini_flat(jview(schema)),
{
    let (ai, ni, ok) = match &schema {
        Json::Object(es) => match find_key(es, "anyOf") {
            Some(ai) => match &es[ai].1 {
                Json::Array(vs) => {
                    let (hn, cnt, first) = scan_variants(vs);
                    (ai, first, hn && cnt == 1)
                },
                _ => (0, 0, false),
            },
            None => (0, 0, false),
        },
        _ => (0, 0, false),
    };
    if !ok {
        return schema;
    }
    match schema {
        Json::Object(es) => {
            let mut es = es;
            let (_k, av) = es.remove(ai);
            match av {
                Json::Array(vs) => {
                    let mut vs = vs;
                    let o = vs.remove(ni);
                    proof {
                        reveal_strlit("nullable");
                    }
                    match o {
                        Json::Object(oes) => Json::Object(insert_entry(oes, "nullable", Json::Bool(true))),
                        other => other,
                    }
                },
                other => other,
            }
        },
        other => other,
    }
}

} // verus!
