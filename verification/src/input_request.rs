//! Requests for structured input (code, a path, text), kept in an
//! append-only log where the last record of a request id is its current state.
use vstd::prelude::*;
use crate::error::ToolError;
use crate::journal_log::{is_last, latest_order, latest_order_spec, law_latest_newest_first, lemma_latest_contains};
use crate::text::{chars_of, lex_lt, i64_string, idec, opt_clone, owned, push_str, str_eq, string_of, strs, trim, trim_str};

verus! {

// ─── Parameters and results ─────────────────────────────────────────────────

/// Parameters of `sy_input_request`.
pub struct InputRequestParams {
    /// Short description of what is needed.
    pub prompt: String,
    /// "text" | "code" | "file_path" | "json" (default "text").
    pub kind: Option<String>,
    /// Language hint when the kind is code.
    pub language: Option<String>,
    /// Example value shown to the user.
    pub example: Option<String>,
}

/// Parameters of `sy_input_status`.
pub struct InputStatusParams {
    pub request_id: Option<String>,
}

/// Result of `sy_input_request`.
pub struct InputRequestResult {
    pub kind: String,
    pub request_id: String,
    pub prompt: String,
    pub notified: bool,
}

/// One request in a status listing.
pub struct InputEntry {
    pub request_id: String,
    pub prompt: String,
    pub kind: String,
    pub language: Option<String>,
    pub example: Option<String>,
    /// "pending" | "submitted"
    pub status: String,
    pub response: Option<String>,
    pub ts: String,
    pub submitted_at: Option<String>,
}

/// Result of `sy_input_status`.
pub struct InputStatusResult {
    /// "submitted" | "pending" | "empty"
    pub kind: String,
    pub total: usize,
    pub requests: Vec<InputEntry>,
}

/// One line of the input requests log.
pub struct InputRecord {
    pub request_id: String,
    pub ts: String,
    pub prompt: String,
    pub kind: String,
    pub language: Option<String>,
    pub example: Option<String>,
    pub status: String,
    pub response: Option<String>,
    pub submitted_at: Option<String>,
}

// ─── Specification ──────────────────────────────────────────────────────────

pub open spec fn request_ids(log: Seq<InputRecord>) -> Seq<Seq<char>> {
    log.map_values(|r: InputRecord| r.request_id@)
}

pub open spec fn request_tss(log: Seq<InputRecord>) -> Seq<Seq<char>> {
    log.map_values(|r: InputRecord| r.ts@)
}

/// The last record of each request, newest first.
pub open spec fn current_requests(log: Seq<InputRecord>) -> Seq<InputRecord> {
    latest_order_spec(request_ids(log), request_tss(log)).map_values(|i: int| log[i])
}

/// The request is listed: the requested id, or any pending request.
pub open spec fn request_selected(r: InputRecord, p: InputStatusParams) -> bool {
    match p.request_id {
        Some(id) => r.request_id@ == id@,
        None => r.status@ == "pending"@,
    }
}

pub open spec fn selected_requests(recs: Seq<InputRecord>, p: InputStatusParams) -> Seq<InputRecord>
    decreases recs.len(),
{
    if recs.len() == 0 {
        seq![]
    } else if request_selected(recs.last(), p) {
        selected_requests(recs.drop_last(), p).push(recs.last())
    } else {
        selected_requests(recs.drop_last(), p)
    }
}

/// The listing entry of a record.
pub open spec fn input_entry_of(r: InputRecord) -> InputEntry {
    InputEntry {
        request_id: r.request_id,
        prompt: r.prompt,
        kind: r.kind,
        language: r.language,
        example: r.example,
        status: r.status,
        response: r.response,
        ts: r.ts,
        submitted_at: r.submitted_at,
    }
}

pub open spec fn submitted_in(s: Seq<InputRecord>) -> nat
    decreases s.len(),
{
    if s.len() == 0 {
        0
    } else {
        submitted_in(s.drop_last()) + if s.last().status@ == "submitted"@ { 1nat } else { 0nat }
    }
}

/// The kind of a listing: empty, all submitted, or some still pending.
pub open spec fn input_listing_kind(n: nat, submitted: nat) -> Seq<char> {
    if n == 0 {
        "empty"@
    } else if submitted == n {
        "submitted"@
    } else {
        "pending"@
    }
}

// ─── Status ─────────────────────────────────────────────────────────────────

/// Lists the current requests of `log` (records in file order): the one
/// with the requested id, or all pending ones, newest first.
pub fn run_input_status(params: &InputStatusParams, log: &Vec<InputRecord>) -> (r: Result<
    InputStatusResult,
    ToolError,
>)
    ensures
        r matches Ok(res) && {
            let sel = selected_requests(current_requests(log@), *params);
            &&& res.requests@ == sel.map_values(|x: InputRecord| input_entry_of(x))
            &&& res.total == sel.len()
            &&& res.kind@ == input_listing_kind(sel.len(), submitted_in(sel))
        },
{
    let mut ids: Vec<String> = Vec::new();
    let mut tss: Vec<String> = Vec::new();
    let mut i: usize = 0;
    while i < log.len()
        invariant
            i <= log.len(),
            ids.len() == i,
            tss.len() == i,
            forall|j: int| 0 <= j < i ==> ids@[j]@ == log@[j].request_id@ && tss@[j]@ == log@[j].ts@,
        decreases log.len() - i,
    {
        ids.push(log[i].request_id.clone());
        tss.push(log[i].ts.clone());
        i = i + 1;
    }
    assert(strs(ids@) =~= request_ids(log@));
    assert(strs(tss@) =~= request_tss(log@));
    let order = latest_order(&ids, &tss);
    let ghost os = order@.map_values(|x: usize| x as int);
    let ghost cur = current_requests(log@);
    assert(cur =~= os.map_values(|x: int| log@[x]));
    let mut out: Vec<InputEntry> = Vec::new();
    let mut submitted: usize = 0;
    let mut k: usize = 0;
    while k < order.len()
        invariant
            k <= order.len(),
            os == order@.map_values(|x: usize| x as int),
            cur == os.map_values(|x: int| log@[x]),
            forall|q: int| 0 <= q < order@.len() ==> order@[q] < log.len(),
            out@ == selected_requests(cur.take(k as int), *params).map_values(|x: InputRecord| input_entry_of(x)),
            submitted == submitted_in(selected_requests(cur.take(k as int), *params)),
            submitted <= out.len(),
            out.len() <= k,
        decreases order.len() - k,
    {
        let rec = &log[order[k]];
        let ghost pre = cur.take(k as int);
        assert(cur.take(k + 1).drop_last() =~= pre);
        assert(cur.take(k + 1).last() == *rec);
        let ghost sp = selected_requests(pre, *params);
        let sel = match &params.request_id {
            Some(id) => str_eq(rec.request_id.as_str(), id.as_str()),
            None => str_eq(rec.status.as_str(), "pending"),
        };
        if sel {
            assert(selected_requests(cur.take(k + 1), *params) == sp.push(*rec));
            assert(sp.push(*rec).drop_last() =~= sp);
            let is_submitted = str_eq(rec.status.as_str(), "submitted");
            out.push(
                InputEntry {
                    request_id: rec.request_id.clone(),
                    prompt: rec.prompt.clone(),
                    kind: rec.kind.clone(),
                    language: opt_clone(&rec.language),
                    example: opt_clone(&rec.example),
                    status: rec.status.clone(),
                    response: opt_clone(&rec.response),
                    ts: rec.ts.clone(),
                    submitted_at: opt_clone(&rec.submitted_at),
                },
            );
            assert(out@ =~= sp.push(*rec).map_values(|x: InputRecord| input_entry_of(x)));
            if is_submitted {
                submitted = submitted + 1;
            }
        } else {
            assert(selected_requests(cur.take(k + 1), *params) == sp);
        }
        k = k + 1;
    }
    assert(cur.take(order.len() as int) =~= cur);
    let total = out.len();
    let kind = if total == 0 {
        owned("empty")
    } else if submitted == total {
        owned("submitted")
    } else {
        owned("pending")
    };
    Ok(InputStatusResult { kind, total, requests: out })
}

// ─── Requesting ─────────────────────────────────────────────────────────────

/// `kind.unwrap_or("text")`.
pub open spec fn kind_or_text(k: Option<String>) -> Seq<char> {
    match k {
        Some(s) => s@,
        None => "text"@,
    }
}

/// The record of a new input request made at `now_millis` / `ts`, or the
/// error for a blank prompt.
pub fn input_request_record(params: &InputRequestParams, now_millis: i64, ts: &str) -> (r: Result<
    InputRecord,
    ToolError,
>)
    ensures
        trim(params.prompt@).len() == 0 ==> (r matches Err(ToolError::MissingParameter { missing, hint })
            && missing@ == "prompt"@ && hint@ == "Provide a non-empty input prompt."@),
        trim(params.prompt@).len() > 0 ==> (r matches Ok(rec) && {
            &&& rec.request_id@ == "inp_"@ + idec(now_millis as int)
            &&& rec.ts@ == ts@
            &&& rec.prompt == params.prompt
            &&& rec.kind@ == kind_or_text(params.kind)
            &&& rec.language == params.language
            &&& rec.example == params.example
            &&& rec.status@ == "pending"@
            &&& rec.response is None
            &&& rec.submitted_at is None
        }),
{
    let t = trim_str(params.prompt.as_str());
    if t.as_str().is_empty() {
        return Err(ToolError::MissingParameter {
            missing: owned("prompt"),
            hint: owned("Provide a non-empty input prompt."),
        });
    }
    let mut id = chars_of("inp_");
    let n = i64_string(now_millis);
    push_str(&mut id, n.as_str());
    let kind = match &params.kind {
        Some(k) => k.clone(),
        None => owned("text"),
    };
    Ok(InputRecord {
        request_id: string_of(&id),
        ts: owned(ts),
        prompt: params.prompt.clone(),
        kind,
        language: opt_clone(&params.language),
        example: opt_clone(&params.example),
        status: owned("pending"),
        response: None,
        submitted_at: None,
    })
}

/// The toast hint for a kind of input.
pub open spec fn kind_hint(kind: Seq<char>) -> Seq<char> {
    if kind == "code"@ {
        " [code input needed]"@
    } else if kind == "file_path"@ {
        " [file path needed]"@
    } else if kind == "json"@ {
        " [JSON input needed]"@
    } else {
        " [text input needed]"@
    }
}

/// Toast body of an input request: the prompt and what kind of input is needed.
pub fn input_toast_body(prompt: &str, kind: &str) -> (m: String)
    ensures
        m@ == prompt@ + kind_hint(kind@),
{
    let mut v = chars_of(prompt);
    if str_eq(kind, "code") {
        push_str(&mut v, " [code input needed]");
    } else if str_eq(kind, "file_path") {
        push_str(&mut v, " [file path needed]");
    } else if str_eq(kind, "json") {
        push_str(&mut v, " [JSON input needed]");
    } else {
        push_str(&mut v, " [text input needed]");
    }
    string_of(&v)
}

/// The answer to `sy_input_request` once the request is recorded and announced.
pub fn input_request_result(record: &InputRecord, notified: bool) -> (r: InputRequestResult)
    ensures
        r.kind@ == "pending"@,
        r.request_id == record.request_id,
        r.prompt == record.prompt,
        r.notified == notified,
{
    InputRequestResult {
        kind: owned("pending"),
        request_id: record.request_id.clone(),
        prompt: record.prompt.clone(),
        notified,
    }
}

/// A record that the status request selects is listed.
proof fn lemma_selected_has(recs: Seq<InputRecord>, p: InputStatusParams, j: int)
    requires
        0 <= j < recs.len(),
        request_selected(recs[j], p),
    ensures
        selected_requests(recs, p).contains(recs[j]),
    decreases recs.len(),
{
    let prev = selected_requests(recs.drop_last(), p);
    if j == recs.len() - 1 {
        assert(selected_requests(recs, p).last() == recs[j]);
    } else {
        assert(recs.drop_last()[j] == recs[j]);
        lemma_selected_has(recs.drop_last(), p, j);
        if request_selected(recs.last(), p) {
            let k = prev.index_of(recs[j]);
            assert(selected_requests(recs, p)[k] == recs[j]);
        }
    }
}

/// Law: the record appended last (a request or its answer) is listed by a
/// status request that selects it: the one for its id, or, while it is
/// pending, the one for all pending requests.
pub proof fn law_requested_input_is_listed(log: Seq<InputRecord>, u: InputRecord, p: InputStatusParams)
    requires
        request_selected(u, p),
    ensures
        selected_requests(current_requests(log.push(u)), p).contains(u),
{
    let l2 = log.push(u);
    let order = latest_order_spec(request_ids(l2), request_tss(l2));
    lemma_latest_contains(request_ids(l2), request_tss(l2));
    let n = log.len() as int;
    assert(is_last(request_ids(l2), n));
    assert(order.contains(n));
    let k = choose|k: int| 0 <= k < order.len() && order[k] == n;
    assert(current_requests(l2)[k] == l2[n]);
    lemma_selected_has(current_requests(l2), p, k);
}

/// Law: the current state of each input request is listed newest first: no listed
/// record has an older timestamp than one listed after it.
pub proof fn law_current_requests_newest_first(log: Seq<InputRecord>)
    ensures
        forall|i: int, j: int|
            0 <= i < j < current_requests(log).len() ==> !lex_lt(
                #[trigger] current_requests(log)[i].ts@,
                #[trigger] current_requests(log)[j].ts@,
            ),
{
    let order = latest_order_spec(request_ids(log), request_tss(log));
    law_latest_newest_first(request_ids(log), request_tss(log));
    lemma_latest_contains(request_ids(log), request_tss(log));
    assert forall|i: int, j: int| 0 <= i < j < current_requests(log).len() implies !lex_lt(
        #[trigger] current_requests(log)[i].ts@,
        #[trigger] current_requests(log)[j].ts@,
    ) by {
        assert(order.contains(order[i]) && order.contains(order[j]));
        assert(request_tss(log)[order[i]] == log[order[i]].ts@);
        assert(request_tss(log)[order[j]] == log[order[j]].ts@);
    }
}

} // verus!
