//! Questions to the user, kept in an append-only log where the last record
//! of a question id is its current state.
use vstd::prelude::*;
use crate::error::ToolError;
use crate::journal_log::{is_last, latest_order, latest_order_spec, law_latest_newest_first, lemma_latest_contains};
use crate::text::{chars_of, lex_lt, i64_string, idec, join, join_strings, opt_clone, owned, push_str, str_eq, string_of, strings_clone, strs, trim, trim_str};

verus! {

// ─── Parameters and results ─────────────────────────────────────────────────

/// Parameters of `sy_ask_user`.
pub struct AskUserParams {
    pub question: String,
    /// Valid choices, shown in the toast body.
    pub options: Option<Vec<String>>,
    /// Suggested answer (a hint only).
    pub default: Option<String>,
}

/// Parameters of `sy_ask_user_status`.
pub struct AskUserStatusParams {
    pub question_id: Option<String>,
}

/// Result of `sy_ask_user`.
pub struct AskUserResult {
    pub kind: String,
    pub question_id: String,
    pub question: String,
    pub notified: bool,
}

/// One question in a status listing.
pub struct QuestionEntry {
    pub question_id: String,
    pub question: String,
    pub options: Option<Vec<String>>,
    pub default: Option<String>,
    /// "pending" | "answered"
    pub status: String,
    pub answer: Option<String>,
    pub ts: String,
    pub answered_at: Option<String>,
}

/// Result of `sy_ask_user_status`.
pub struct AskUserStatusResult {
    /// "answered" | "pending" | "empty"
    pub kind: String,
    pub total: usize,
    pub questions: Vec<QuestionEntry>,
}

/// One line of the questions log.
pub struct QuestionRecord {
    pub question_id: String,
    pub ts: String,
    pub question: String,
    pub options: Option<Vec<String>>,
    pub default: Option<String>,
    pub status: String,
    pub answer: Option<String>,
    pub answered_at: Option<String>,
}

// ─── Specification ──────────────────────────────────────────────────────────

/// The views of optional choices.
pub open spec fn opt_strs(o: Option<Vec<String>>) -> Option<Seq<Seq<char>>> {
    match o {
        Some(v) => Some(strs(v@)),
        None => None,
    }
}

pub open spec fn question_ids(log: Seq<QuestionRecord>) -> Seq<Seq<char>> {
    log.map_values(|r: QuestionRecord| r.question_id@)
}

pub open spec fn question_tss(log: Seq<QuestionRecord>) -> Seq<Seq<char>> {
    log.map_values(|r: QuestionRecord| r.ts@)
}

/// The last record of each question, newest first.
pub open spec fn current_questions(log: Seq<QuestionRecord>) -> Seq<QuestionRecord> {
    latest_order_spec(question_ids(log), question_tss(log)).map_values(|i: int| log[i])
}

/// The question is listed: the requested id, or any pending question.
pub open spec fn question_selected(r: QuestionRecord, p: AskUserStatusParams) -> bool {
    match p.question_id {
        Some(id) => r.question_id@ == id@,
        None => r.status@ == "pending"@,
    }
}

pub open spec fn selected_questions(recs: Seq<QuestionRecord>, p: AskUserStatusParams) -> Seq<QuestionRecord>
    decreases recs.len(),
{
    if recs.len() == 0 {
        seq![]
    } else if question_selected(recs.last(), p) {
        selected_questions(recs.drop_last(), p).push(recs.last())
    } else {
        selected_questions(recs.drop_last(), p)
    }
}

/// `e` lists the record `r`.
pub open spec fn lists_question(e: QuestionEntry, r: QuestionRecord) -> bool {
    &&& e.question_id == r.question_id
    &&& e.question == r.question
    &&& opt_strs(e.options) == opt_strs(r.options)
    &&& e.default == r.default
    &&& e.status == r.status
    &&& e.answer == r.answer
    &&& e.ts == r.ts
    &&& e.answered_at == r.answered_at
}

pub open spec fn answered_in(s: Seq<QuestionRecord>) -> nat
    decreases s.len(),
{
    if s.len() == 0 {
        0
    } else {
        answered_in(s.drop_last()) + if s.last().status@ == "answered"@ { 1nat } else { 0nat }
    }
}

/// The kind of a listing: empty, all answered, or some still pending.
pub open spec fn listing_kind(n: nat, answered: nat) -> Seq<char> {
    if n == 0 {
        "empty"@
    } else if answered == n {
        "answered"@
    } else {
        "pending"@
    }
}

// ─── Status ─────────────────────────────────────────────────────────────────

/// Lists the current questions of `log` (records in file order): the one
/// with the requested id, or all pending ones, newest first.
pub fn run_ask_user_status(params: &AskUserStatusParams, log: &Vec<QuestionRecord>) -> (r: Result<
    AskUserStatusResult,
    ToolError,
>)
    ensures
        r matches Ok(res) && {
            let sel = selected_questions(current_questions(log@), *params);
            &&& res.questions.len() == sel.len()
            &&& forall|k: int| 0 <= k < sel.len() ==> lists_question(#[trigger] res.questions@[k], sel[k])
            &&& res.total == sel.len()
            &&& res.kind@ == listing_kind(sel.len(), answered_in(sel))
        },
{
    let mut ids: Vec<String> = Vec::new();
    let mut tss: Vec<String> = Vec::new();
    let mut i: usize = 0;
    while i < log.len()
        invariant
            i <= log.len(),
            ids.len() == i,
            tss.len() == i,
            forall|j: int| 0 <= j < i ==> ids@[j]@ == log@[j].question_id@ && tss@[j]@ == log@[j].ts@,
        decreases log.len() - i,
    {
        ids.push(log[i].question_id.clone());
        tss.push(log[i].ts.clone());
        i = i + 1;
    }
    assert(strs(ids@) =~= question_ids(log@));
    assert(strs(tss@) =~= question_tss(log@));
    let order = latest_order(&ids, &tss);
    let ghost os = order@.map_values(|x: usize| x as int);
    let ghost cur = current_questions(log@);
    assert(cur =~= os.map_values(|x: int| log@[x]));
    let mut out: Vec<QuestionEntry> = Vec::new();
    let mut answered: usize = 0;
    let mut k: usize = 0;
    while k < order.len()
        invariant
            k <= order.len(),
            os == order@.map_values(|x: usize| x as int),
            cur == os.map_values(|x: int| log@[x]),
            forall|q: int| 0 <= q < order@.len() ==> order@[q] < log.len(),
            out.len() == selected_questions(cur.take(k as int), *params).len(),
            forall|q: int| 0 <= q < out.len() ==> lists_question(#[trigger] out@[q], selected_questions(cur.take(k as int), *params)[q]),
            answered == answered_in(selected_questions(cur.take(k as int), *params)),
            answered <= out.len(),
            out.len() <= k,
        decreases order.len() - k,
    {
        let rec = &log[order[k]];
        let ghost pre = cur.take(k as int);
        assert(cur.take(k + 1).drop_last() =~= pre);
        assert(cur.take(k + 1).last() == *rec);
        let sel = match &params.question_id {
            Some(id) => str_eq(rec.question_id.as_str(), id.as_str()),
            None => str_eq(rec.status.as_str(), "pending"),
        };
        let ghost sp = selected_questions(pre, *params);
        if sel {
            assert(selected_questions(cur.take(k + 1), *params) == sp.push(*rec));
            assert(sp.push(*rec).drop_last() =~= sp);
            let is_answered = str_eq(rec.status.as_str(), "answered");
            let options = match &rec.options {
                Some(v) => Some(strings_clone(v)),
                None => None,
            };
            out.push(
                QuestionEntry {
                    question_id: rec.question_id.clone(),
                    question: rec.question.clone(),
                    options,
                    default: opt_clone(&rec.default),
                    status: rec.status.clone(),
                    answer: opt_clone(&rec.answer),
                    ts: rec.ts.clone(),
                    answered_at: opt_clone(&rec.answered_at),
                },
            );
            if is_answered {
                answered = answered + 1;
            }
        } else {
            assert(selected_questions(cur.take(k + 1), *params) == sp);
        }
        k = k + 1;
    }
    assert(cur.take(order.len() as int) =~= cur);
    let total = out.len();
    let kind = if total == 0 {
        owned("empty")
    } else if answered == total {
        owned("answered")
    } else {
        owned("pending")
    };
    Ok(AskUserStatusResult { kind, total, questions: out })
}

// ─── Asking ─────────────────────────────────────────────────────────────────

/// The record of a new question asked at `now_millis` / `ts`, or the error
/// for a blank question.
pub fn ask_user_record(params: &AskUserParams, now_millis: i64, ts: &str) -> (r: Result<
    QuestionRecord,
    ToolError,
>)
    ensures
        trim(params.question@).len() == 0 ==> (r matches Err(ToolError::MissingParameter { missing, hint })
            && missing@ == "question"@ && hint@ == "Provide a non-empty question."@),
        trim(params.question@).len() > 0 ==> (r matches Ok(rec) && {
            &&& rec.question_id@ == "qst_"@ + idec(now_millis as int)
            &&& rec.ts@ == ts@
            &&& rec.question == params.question
            &&& opt_strs(rec.options) == opt_strs(params.options)
            &&& rec.default == params.default
            &&& rec.status@ == "pending"@
            &&& rec.answer is None
            &&& rec.answered_at is None
        }),
{
    let t = trim_str(params.question.as_str());
    if t.as_str().is_empty() {
        return Err(ToolError::MissingParameter {
            missing: owned("question"),
            hint: owned("Provide a non-empty question."),
        });
    }
    let mut id = chars_of("qst_");
    let n = i64_string(now_millis);
    push_str(&mut id, n.as_str());
    let options = match &params.options {
        Some(v) => Some(strings_clone(v)),
        None => None,
    };
    Ok(QuestionRecord {
        question_id: string_of(&id),
        ts: owned(ts),
        question: params.question.clone(),
        options,
        default: opt_clone(&params.default),
        status: owned("pending"),
        answer: None,
        answered_at: None,
    })
}

/// Toast body of a question: the question, its options and its default.
pub fn ask_user_toast_body(params: &AskUserParams) -> (m: String)
    ensures
        m@ == params.question@ + match params.options {
            Some(o) => " Options: "@ + join(strs(o@), " / "@),
            None => Seq::<char>::empty(),
        } + match params.default {
            Some(d) => " [default: "@ + d@ + "]"@,
            None => Seq::<char>::empty(),
        },
{
    let mut v = chars_of(params.question.as_str());
    match &params.options {
        Some(o) => {
            push_str(&mut v, " Options: ");
            let j = join_strings(o, " / ");
            push_str(&mut v, j.as_str());
        },
        None => {},
    }
    match &params.default {
        Some(d) => {
            push_str(&mut v, " [default: ");
            push_str(&mut v, d.as_str());
            push_str(&mut v, "]");
        },
        None => {},
    }
    string_of(&v)
}

/// The answer to `sy_ask_user` once the question is recorded and announced.
pub fn ask_user_result(record: &QuestionRecord, notified: bool) -> (r: AskUserResult)
    ensures
        r.kind@ == "pending"@,
        r.question_id == record.question_id,
        r.question == record.question,
        r.notified == notified,
{
    AskUserResult {
        kind: owned("pending"),
        question_id: record.question_id.clone(),
        question: record.question.clone(),
        notified,
    }
}

/// A record that the status request selects is listed.
proof fn lemma_selected_has(recs: Seq<QuestionRecord>, p: AskUserStatusParams, j: int)
    requires
        0 <= j < recs.len(),
        question_selected(recs[j], p),
    ensures
        selected_questions(recs, p).contains(recs[j]),
    decreases recs.len(),
{
    let prev = selected_questions(recs.drop_last(), p);
    if j == recs.len() - 1 {
        assert(selected_questions(recs, p).last() == recs[j]);
    } else {
        assert(recs.drop_last()[j] == recs[j]);
        lemma_selected_has(recs.drop_last(), p, j);
        if question_selected(recs.last(), p) {
            let k = prev.index_of(recs[j]);
            assert(selected_questions(recs, p)[k] == recs[j]);
        }
    }
}

/// Law: the record appended last (a question or its answer) is listed by
/// a status request that selects it: the one for its id, or, while it is
/// pending, the one for all pending questions.
pub proof fn law_asked_question_is_listed(log: Seq<QuestionRecord>, u: QuestionRecord, p: AskUserStatusParams)
    requires
        question_selected(u, p),
    ensures
        selected_questions(current_questions(log.push(u)), p).contains(u),
{
    let l2 = log.push(u);
    let order = latest_order_spec(question_ids(l2), question_tss(l2));
    lemma_latest_contains(question_ids(l2), question_tss(l2));
    let n = log.len() as int;
    assert(is_last(question_ids(l2), n));
    assert(order.contains(n));
    let k = choose|k: int| 0 <= k < order.len() && order[k] == n;
    assert(current_questions(l2)[k] == l2[n]);
    lemma_selected_has(current_questions(l2), p, k);
}

/// Law: the current state of each question is listed newest first: no listed
/// record has an older timestamp than one listed after it.
pub proof fn law_current_questions_newest_first(log: Seq<QuestionRecord>)
    ensures
        forall|i: int, j: int|
            0 <= i < j < current_questions(log).len() ==> !lex_lt(
                #[trigger] current_questions(log)[i].ts@,
                #[trigger] current_questions(log)[j].ts@,
            ),
{
    let order = latest_order_spec(question_ids(log), question_tss(log));
    law_latest_newest_first(question_ids(log), question_tss(log));
    lemma_latest_contains(question_ids(log), question_tss(log));
    assert forall|i: int, j: int| 0 <= i < j < current_questions(log).len() implies !lex_lt(
        #[trigger] current_questions(log)[i].ts@,
        #[trigger] current_questions(log)[j].ts@,
    ) by {
        assert(order.contains(order[i]) && order.contains(order[j]));
        assert(question_tss(log)[order[i]] == log[order[i]].ts@);
        assert(question_tss(log)[order[j]] == log[order[j]].ts@);
    }
}

} // verus!
