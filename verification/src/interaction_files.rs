//! Interaction requests kept as files: listing them, reading one and
//! answering one, and the summary of the active interaction.
use vstd::prelude::*;
use crate::error::ToolError;
use crate::json::{Json, JsonNumber, JsonV, jview, get, as_str, get_member, str_of};
use crate::journal_log::{sort_by_ts_desc, sort_indices_by_ts_desc};
use crate::memory::{alnum, is_alphanumeric};
use crate::text::{chars_of, owned, push_str, str_eq, string_of, strs};

verus! {

/// Parameters of `sy_list_interactions` (status "pending" by default;
/// "all" lists every status).
pub struct ListInteractionsParams {
    pub status: Option<String>,
}

/// Parameters of `sy_read_interaction`.
pub struct ReadInteractionParams {
    pub interaction_id: String,
}

/// Parameters of `sy_resolve_interaction`.
pub struct ResolveInteractionParams {
    pub interaction_id: String,
    pub selected_option: String,
    pub comment: Option<String>,
}

/// One interaction request, as listed.
pub struct InteractionSummary {
    pub interaction_id: String,
    pub kind: String,
    pub status: String,
    pub title: String,
    pub created_at: String,
}

/// Result of `sy_list_interactions`.
pub struct ListInteractionsResult {
    pub kind: String,
    pub total: usize,
    pub items: Vec<InteractionSummary>,
}

/// Result of `sy_read_interaction`.
pub struct ReadInteractionResult {
    /// "found" | "not_found"
    pub kind: String,
    pub found: bool,
    pub data: Option<Json>,
}

/// Result of `sy_resolve_interaction`.
pub struct ResolveInteractionResult {
    pub kind: String,
    pub interaction_id: String,
    pub resolved: bool,
    pub response_path: String,
}

pub type SummaryView = (Seq<char>, Seq<char>, Seq<char>, Seq<char>, Seq<char>);

pub open spec fn summary_view(s: InteractionSummary) -> SummaryView {
    (s.interaction_id@, s.kind@, s.status@, s.title@, s.created_at@)
}

/// `obj.get(k).and_then(as_str).unwrap_or("")`.
pub open spec fn text_field(v: JsonV, k: Seq<char>) -> Seq<char> {
    match as_str(get(v, k)) {
        Some(s) => s,
        None => Seq::<char>::empty(),
    }
}

/// The summary of a request, where its status passes the filter.
pub open spec fn summary_of(v: JsonV, filter: Seq<char>) -> Option<SummaryView> {
    let status = text_field(v, "status"@);
    if filter != "all"@ && status != filter {
        None
    } else {
        Some(
            (
                text_field(v, "interaction_id"@),
                text_field(v, "kind"@),
                status,
                text_field(v, "title"@),
                text_field(v, "created_at"@),
            ),
        )
    }
}

/// The summaries of the requests that pass the filter, in the order read.
pub open spec fn summaries(objs: Seq<JsonV>, filter: Seq<char>) -> Seq<SummaryView>
    decreases objs.len(),
{
    if objs.len() == 0 {
        seq![]
    } else {
        let r = summaries(objs.drop_last(), filter);
        match summary_of(objs.last(), filter) {
            Some(s) => r.push(s),
            None => r,
        }
    }
}

fn text_field_of(v: &Json, k: &str) -> (r: String)
    ensures
        r@ == text_field(jview(*v), k@),
{
    match str_of(get_member(v, k)) {
        Some(s) => owned(s),
        None => {
            proof {
                reveal_strlit("");
            }
            owned("")
        },
    }
}

/// The summary of one request, as `summary_of` says.
pub fn interaction_summary(v: &Json, filter: &str) -> (r: Option<InteractionSummary>)
    ensures
        match r {
            Some(s) => summary_of(jview(*v), filter@) == Some(summary_view(s)),
            None => summary_of(jview(*v), filter@) is None,
        },
{
    let status = text_field_of(v, "status");
    if !str_eq(filter, "all") && !str_eq(status.as_str(), filter) {
        return None;
    }
    Some(
        InteractionSummary {
            interaction_id: text_field_of(v, "interaction_id"),
            kind: text_field_of(v, "kind"),
            status,
            title: text_field_of(v, "title"),
            created_at: text_field_of(v, "created_at"),
        },
    )
}

pub open spec fn created_times(s: Seq<SummaryView>) -> Seq<Seq<char>> {
    s.map_values(|x: SummaryView| x.4)
}

pub open spec fn indices(n: nat) -> Seq<int> {
    Seq::new(n, |i: int| i)
}

/// `sy_list_interactions` over the requests read (none where the folder is
/// missing): those of the status asked, newest first by `created_at`, ties
/// in the order read.
pub fn run_list_interactions(params: &ListInteractionsParams, objs: &Vec<Json>) -> (r: ListInteractionsResult)
    ensures
        ({
            let filter = match params.status {
                Some(s) => s@,
                None => "pending"@,
            };
            let f = summaries(objs@.map_values(|j: Json| jview(j)), filter);
            let order = sort_by_ts_desc(indices(f.len()), created_times(f));
            &&& r.kind@ == "list"@
            &&& r.total == f.len()
            &&& r.items@.len() == order.len()
            &&& forall|k: int| 0 <= k < order.len() ==> #[trigger] summary_view(r.items@[k]) == f[order[k]]
        }),
{
    let filter: String = match &params.status {
        Some(s) => s.clone(),
        None => {
            proof {
                reveal_strlit("pending");
            }
            owned("pending")
        },
    };
    let ghost vs = objs@.map_values(|j: Json| jview(j));
    let mut found: Vec<InteractionSummary> = Vec::new();
    let mut i: usize = 0;
    while i < objs.len()
        invariant
            i <= objs.len(),
            vs == objs@.map_values(|j: Json| jview(j)),
            found@.map_values(|s: InteractionSummary| summary_view(s)) == summaries(vs.take(i as int), filter@),
        decreases objs.len() - i,
    {
        assert(vs.take(i + 1).drop_last() =~= vs.take(i as int));
        assert(vs.take(i + 1).last() == jview(objs@[i as int]));
        match interaction_summary(&objs[i], filter.as_str()) {
            Some(s) => {
                let ghost before = found@.map_values(|s: InteractionSummary| summary_view(s));
                let ghost sv = summary_view(s);
                found.push(s);
                assert(found@.map_values(|s: InteractionSummary| summary_view(s)) =~= before.push(sv));
            },
            None => {},
        }
        i = i + 1;
    }
    assert(vs.take(objs.len() as int) =~= vs);
    let ghost f = found@.map_values(|s: InteractionSummary| summary_view(s));
    let mut ts: Vec<String> = Vec::new();
    let mut kept: Vec<usize> = Vec::new();
    let mut j: usize = 0;
    while j < found.len()
        invariant
            j <= found.len(),
            f == found@.map_values(|s: InteractionSummary| summary_view(s)),
            strs(ts@) == created_times(f).take(j as int),
            kept@.map_values(|x: usize| x as int) == indices(f.len()).take(j as int),
            forall|q: int| 0 <= q < kept@.len() ==> kept@[q] < j,
        decreases found.len() - j,
    {
        let ghost t0 = strs(ts@);
        ts.push(found[j].created_at.clone());
        assert(strs(ts@) =~= t0.push(found@[j as int].created_at@));
        assert(created_times(f).take(j + 1) =~= created_times(f).take(j as int).push(f[j as int].4));
        let ghost k0 = kept@.map_values(|x: usize| x as int);
        kept.push(j);
        assert(kept@.map_values(|x: usize| x as int) =~= k0.push(j as int));
        assert(indices(f.len()).take(j + 1) =~= indices(f.len()).take(j as int).push(j as int));
        j = j + 1;
    }
    assert(strs(ts@) =~= created_times(f));
    assert(indices(f.len()).take(found.len() as int) =~= indices(f.len()));
    let sorted = sort_indices_by_ts_desc(&kept, &ts);
    let mut items: Vec<InteractionSummary> = Vec::new();
    let mut k: usize = 0;
    while k < sorted.len()
        invariant
            k <= sorted.len(),
            f == found@.map_values(|s: InteractionSummary| summary_view(s)),
            ts@.len() == found@.len(),
            forall|q: int| 0 <= q < sorted@.len() ==> sorted@[q] < ts.len(),
            items@.len() == k,
            forall|q: int| 0 <= q < k ==> #[trigger] summary_view(items@[q]) == f[sorted@[q] as int],
        decreases sorted.len() - k,
    {
        let s = &found[sorted[k]];
        items.push(
            InteractionSummary {
                interaction_id: s.interaction_id.clone(),
                kind: s.kind.clone(),
                status: s.status.clone(),
                title: s.title.clone(),
                created_at: s.created_at.clone(),
            },
        );
        k = k + 1;
    }
    let total = found.len();
    proof {
        reveal_strlit("list");
        let order = sort_by_ts_desc(indices(f.len()), created_times(f));
        assert(order == sorted@.map_values(|x: usize| x as int));
        assert forall|q: int| 0 <= q < order.len() implies #[trigger] summary_view(items@[q]) == f[order[q]] by {
            assert(order[q] == sorted@[q] as int);
        }
    }
    ListInteractionsResult { kind: owned("list"), total, items }
}

/// An interaction id names a file only when it holds alphanumerics and
/// dashes alone.
pub open spec fn id_ok(id: Seq<char>) -> bool {
    forall|i: int| 0 <= i < id.len() ==> alnum(#[trigger] id[i]) || id[i] == '-'
}

/// Refuses an id that could leave the requests folder.
pub fn check_interaction_id(id: &str) -> (r: Result<(), ToolError>)
    ensures
        r is Ok <==> id_ok(id@),
        r matches Err(e) ==> (e matches ToolError::IoError { message } && message@ == "invalid interaction_id: '"@
            + id@ + "'"@),
{
    let c = chars_of(id);
    let mut i: usize = 0;
    while i < c.len()
        invariant
            i <= c.len(),
            c@ == id@,
            forall|k: int| 0 <= k < i ==> alnum(#[trigger] c@[k]) || c@[k] == '-',
        decreases c.len() - i,
    {
        if !(is_alphanumeric(c[i]) || c[i] == '-') {
            let mut m = chars_of("invalid interaction_id: '");
            push_str(&mut m, id);
            push_str(&mut m, "'");
            return Err(ToolError::IoError { message: string_of(&m) });
        }
        i = i + 1;
    }
    Ok(())
}

/// The file of a request or response: the id and ".json".
pub fn interaction_file_name(id: &str) -> (r: String)
    ensures
        r@ == id@ + ".json"@,
{
    let mut v = chars_of(id);
    push_str(&mut v, ".json");
    string_of(&v)
}

/// The answer of `sy_read_interaction`: the request where its file exists.
pub fn read_interaction_result(data: Option<Json>) -> (r: ReadInteractionResult)
    ensures
        r.found == data is Some,
        r.kind@ == (if data is Some { "found"@ } else { "not_found"@ }),
        r.data == data,
{
    proof {
        reveal_strlit("found");
        reveal_strlit("not_found");
    }
    match data {
        Some(d) => ReadInteractionResult { kind: owned("found"), found: true, data: Some(d) },
        None => ReadInteractionResult { kind: owned("not_found"), found: false, data: None },
    }
}

/// The answer of `sy_resolve_interaction` once the response is written.
pub fn resolve_interaction_result(interaction_id: String, response_path: String) -> (r: ResolveInteractionResult)
    ensures
        r.kind@ == "resolved"@,
        r.interaction_id@ == interaction_id@,
        r.resolved,
        r.response_path@ == response_path@,
{
    proof {
        reveal_strlit("resolved");
    }
    ResolveInteractionResult { kind: owned("resolved"), interaction_id, resolved: true, response_path }
}

/// What was found of the file of active interactions.
pub enum ActiveFile {
    Missing,
    ReadFailed(String),
    NotJson,
    Parsed(Json),
}

fn zero() -> (r: Json)
    ensures
        jview(r) == JsonV::Number(Some(0u64), Some(0i64), "0"@),
{
    Json::Number(JsonNumber { as_u64: Some(0), as_i64: Some(0), text: owned("0") })
}

/// The summary of the active interaction: the file as parsed, or an empty
/// summary (no active id, nothing pending) that says why there was none.
pub fn read_active_interactions(f: ActiveFile) -> (r: Json)
    ensures
        match f {
            ActiveFile::Parsed(j) => r == j,
            _ => r matches Json::Object(es) && es@.len() >= 4 && es@[0].0@ == "active_id"@ && jview(es@[0].1)
                == JsonV::Null && es@[1].0@ == "pending_count"@ && jview(es@[1].1) == JsonV::Number(
                Some(0u64),
                Some(0i64),
                "0"@,
            ) && es@[2].0@ == "blocking_kind"@ && jview(es@[2].1) == JsonV::Null && es@[3].0@ == "blocking_reason"@
                && jview(es@[3].1) == JsonV::Null && match f {
                ActiveFile::Missing => es@.len() == 4,
                ActiveFile::ReadFailed(m) => es@.len() == 5 && es@[4].0@ == "_read_error"@ && es@[4].1 == Json::Str(m),
                ActiveFile::NotJson => es@.len() == 5 && es@[4].0@ == "_parse_error"@ && jview(es@[4].1)
                    == JsonV::Str("active.json is not valid JSON"@),
                _ => true,
            },
        },
{
    let mut es: Vec<(String, Json)> = Vec::new();
    match f {
        ActiveFile::Parsed(j) => return j,
        ActiveFile::Missing => {
            es.push((owned("active_id"), Json::Null));
            es.push((owned("pending_count"), zero()));
            es.push((owned("blocking_kind"), Json::Null));
            es.push((owned("blocking_reason"), Json::Null));
        },
        ActiveFile::ReadFailed(m) => {
            es.push((owned("active_id"), Json::Null));
            es.push((owned("pending_count"), zero()));
            es.push((owned("blocking_kind"), Json::Null));
            es.push((owned("blocking_reason"), Json::Null));
            es.push((owned("_read_error"), Json::Str(m)));
        },
        ActiveFile::NotJson => {
            es.push((owned("active_id"), Json::Null));
            es.push((owned("pending_count"), zero()));
            es.push((owned("blocking_kind"), Json::Null));
            es.push((owned("blocking_reason"), Json::Null));
            es.push((owned("_parse_error"), Json::Str(owned("active.json is not valid JSON"))));
        },
    }
    Json::Object(es)
}

} // verus!
