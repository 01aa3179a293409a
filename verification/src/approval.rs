//! Approvals: requests that wait for a human decision, kept in an append-only
//! log where the last record of an id is its current state.
use vstd::prelude::*;
use crate::error::ToolError;
use crate::journal_log::{is_last, law_latest_newest_first, lemma_last_of, lemma_latest_contains, latest_order, latest_order_spec};
use crate::text::{chars_of, i64_string, idec, lex_lt, opt_clone, owned, push_str, str_eq, str_lt, string_of, strs, take_chars, trim, trim_str};

verus! {

// ─── Parameters and results ─────────────────────────────────────────────────

/// Parameters of `sy_approval_request`.
pub struct ApprovalRequestParams {
    /// Short subject line shown in the toast and approval list.
    pub subject: String,
    pub detail: Option<String>,
    /// Category tag (e.g. "destructive", "deploy", "policy").
    pub category: Option<String>,
    /// Auto-reject after this many seconds if not resolved.
    pub timeout_secs: Option<u64>,
}

/// Parameters of `sy_approval_resolve`.
pub struct ApprovalResolveParams {
    pub approval_id: String,
    /// "approved" or "rejected".
    pub decision: String,
    pub note: Option<String>,
}

/// Parameters of `sy_approval_status`.
pub struct ApprovalStatusParams {
    /// A specific approval; otherwise all pending ones.
    pub approval_id: Option<String>,
    /// Only entries created at or after this ISO 8601 timestamp.
    pub since_ts: Option<String>,
}

/// Result of `sy_approval_request`.
pub struct ApprovalRequestResult {
    pub kind: String,
    pub approval_id: String,
    pub subject: String,
    pub status: String,
    pub notified: bool,
    pub timeout_secs: Option<u64>,
    pub expires_at: Option<String>,
}

/// Result of `sy_approval_resolve`.
pub struct ApprovalResolveResult {
    pub kind: String,
    pub approval_id: String,
    pub decision: String,
    pub resolved_at: String,
}

/// One approval in a status listing.
pub struct ApprovalEntry {
    pub approval_id: String,
    pub subject: String,
    pub category: Option<String>,
    pub status: String,
    pub ts: String,
    pub detail: Option<String>,
    pub expires_at: Option<String>,
}

/// Result of `sy_approval_status`.
pub struct ApprovalStatusResult {
    pub kind: String,
    pub total: usize,
    pub pending_count: usize,
    pub approvals: Vec<ApprovalEntry>,
}

/// One line of the approvals log.
pub struct ApprovalRecord {
    pub approval_id: String,
    pub ts: String,
    pub subject: String,
    pub detail: Option<String>,
    pub category: Option<String>,
    /// "pending" | "approved" | "rejected" | "timeout"
    pub status: String,
    pub decision: Option<String>,
    pub note: Option<String>,
    pub resolved_at: Option<String>,
    pub timeout_secs: Option<u64>,
    pub expires_at: Option<String>,
}

/// Result of projecting an approval into the interaction store.
pub struct InteractionProjectionResult {
    pub interaction_id: String,
    pub kind: String,
    pub schema: u32,
    pub file_path: String,
    pub projected: bool,
}

impl Clone for ApprovalRecord {
    fn clone(&self) -> (r: Self)
        ensures
            r == *self,
    {
        ApprovalRecord {
            approval_id: self.approval_id.clone(),
            ts: self.ts.clone(),
            subject: self.subject.clone(),
            detail: opt_clone(&self.detail),
            category: opt_clone(&self.category),
            status: self.status.clone(),
            decision: opt_clone(&self.decision),
            note: opt_clone(&self.note),
            resolved_at: opt_clone(&self.resolved_at),
            timeout_secs: self.timeout_secs,
            expires_at: opt_clone(&self.expires_at),
        }
    }
}

// ─── The current approvals of a log ─────────────────────────────────────────

pub open spec fn approval_ids(log: Seq<ApprovalRecord>) -> Seq<Seq<char>> {
    log.map_values(|r: ApprovalRecord| r.approval_id@)
}

pub open spec fn approval_tss(log: Seq<ApprovalRecord>) -> Seq<Seq<char>> {
    log.map_values(|r: ApprovalRecord| r.ts@)
}

/// The last record of each approval, newest first.
pub open spec fn current_approvals(log: Seq<ApprovalRecord>) -> Seq<ApprovalRecord> {
    latest_order_spec(approval_ids(log), approval_tss(log)).map_values(|i: int| log[i])
}

/// The current state of every approval in `log` (records in file order).
pub fn latest_approvals(log: &Vec<ApprovalRecord>) -> (r: Vec<ApprovalRecord>)
    ensures
        r@ == current_approvals(log@),
{
    let mut ids: Vec<String> = Vec::new();
    let mut tss: Vec<String> = Vec::new();
    let mut i: usize = 0;
    while i < log.len()
        invariant
            i <= log.len(),
            ids.len() == i,
            tss.len() == i,
            forall|j: int| 0 <= j < i ==> ids@[j]@ == log@[j].approval_id@ && tss@[j]@ == log@[j].ts@,
        decreases log.len() - i,
    {
        ids.push(log[i].approval_id.clone());
        tss.push(log[i].ts.clone());
        i = i + 1;
    }
    assert(strs(ids@) =~= approval_ids(log@));
    assert(strs(tss@) =~= approval_tss(log@));
    let order = latest_order(&ids, &tss);
    let ghost os = order@.map_values(|x: usize| x as int);
    let mut r: Vec<ApprovalRecord> = Vec::new();
    let mut k: usize = 0;
    while k < order.len()
        invariant
            k <= order.len(),
            os == order@.map_values(|x: usize| x as int),
            forall|q: int| 0 <= q < order@.len() ==> order@[q] < log.len(),
            r@ == os.take(k as int).map_values(|x: int| log@[x]),
        decreases order.len() - k,
    {
        let rec = log[order[k]].clone();
        r.push(rec);
        k = k + 1;
        assert(r@ =~= os.take(k as int).map_values(|x: int| log@[x]));
    }
    assert(os.take(order.len() as int) =~= os);
    r
}

/// An approval id occurs in the current approvals exactly when it occurs in the log.
pub proof fn lemma_current_has_id(log: Seq<ApprovalRecord>, id: Seq<char>)
    ensures
        (exists|k: int| 0 <= k < current_approvals(log).len() && #[trigger] current_approvals(log)[k].approval_id@ == id)
            <==> (exists|i: int| 0 <= i < log.len() && #[trigger] log[i].approval_id@ == id),
{
    let ids = approval_ids(log);
    let order = latest_order_spec(ids, approval_tss(log));
    lemma_latest_contains(ids, approval_tss(log));
    if exists|i: int| 0 <= i < log.len() && #[trigger] log[i].approval_id@ == id {
        let i = choose|i: int| 0 <= i < log.len() && #[trigger] log[i].approval_id@ == id;
        lemma_last_of(ids, i);
        let j = choose|j: int| i <= j < ids.len() && ids[j] == ids[i] && is_last(ids, j);
        assert(order.contains(j));
        let k = choose|k: int| 0 <= k < order.len() && order[k] == j;
        assert(current_approvals(log)[k].approval_id@ == id);
    }
    if exists|k: int| 0 <= k < current_approvals(log).len() && #[trigger] current_approvals(log)[k].approval_id@ == id {
        let k = choose|k: int| 0 <= k < current_approvals(log).len() && #[trigger] current_approvals(log)[k].approval_id@ == id;
        assert(order.contains(order[k]));
        assert(ids.len() == log.len());
        assert(0 <= order[k] < log.len());
        assert(current_approvals(log)[k] == log[order[k]]);
    }
}

/// Law: the record appended last (a request, a decision or a timeout) is the
/// current state of its approval.
pub proof fn law_appended_is_current(log: Seq<ApprovalRecord>, u: ApprovalRecord)
    ensures
        exists|k: int|
            0 <= k < current_approvals(log.push(u)).len() && #[trigger] current_approvals(log.push(u))[k] == u,
{
    let l2 = log.push(u);
    let ids = approval_ids(l2);
    let order = latest_order_spec(ids, approval_tss(l2));
    lemma_latest_contains(ids, approval_tss(l2));
    let n = log.len() as int;
    assert(is_last(ids, n));
    assert(order.contains(n));
    let k = choose|k: int| 0 <= k < order.len() && order[k] == n;
    assert(current_approvals(l2)[k] == l2[n]);
}

// ─── Expiry ─────────────────────────────────────────────────────────────────

/// A pending approval whose expiry time is not after `now`.
pub open spec fn is_expired(r: ApprovalRecord, now: Seq<char>) -> bool {
    &&& r.status@ == "pending"@
    &&& r.expires_at matches Some(e)
    &&& !lex_lt(now, e@)
}

/// `t` is the record that rejects `r` at `now` because its time ran out.
pub open spec fn is_timeout_of(t: ApprovalRecord, r: ApprovalRecord, now: Seq<char>) -> bool {
    &&& t.approval_id == r.approval_id
    &&& t.ts == r.ts
    &&& t.subject == r.subject
    &&& t.detail == r.detail
    &&& t.category == r.category
    &&& t.timeout_secs == r.timeout_secs
    &&& t.expires_at == r.expires_at
    &&& t.status@ == "timeout"@
    &&& t.decision matches Some(d) && d@ == "rejected"@
    &&& t.note matches Some(n) && n@ == "auto-rejected: timeout expired"@
    &&& t.resolved_at matches Some(x) && x@ == now
}

/// The timeout record to append for `record` at time `now`, if it expired.
pub fn expire_if_needed(record: &ApprovalRecord, now: &str) -> (r: Option<ApprovalRecord>)
    ensures
        r is Some <==> is_expired(*record, now@),
        r matches Some(t) ==> is_timeout_of(t, *record, now@),
{
    if !str_eq(record.status.as_str(), "pending") {
        return None;
    }
    let expires_at = match &record.expires_at {
        Some(e) => e,
        None => return None,
    };
    if str_lt(now, expires_at.as_str()) {
        return None;
    }
    Some(ApprovalRecord {
        approval_id: record.approval_id.clone(),
        ts: record.ts.clone(),
        subject: record.subject.clone(),
        detail: opt_clone(&record.detail),
        category: opt_clone(&record.category),
        status: owned("timeout"),
        decision: Some(owned("rejected")),
        note: Some(owned("auto-rejected: timeout expired")),
        resolved_at: Some(owned(now)),
        timeout_secs: record.timeout_secs,
        expires_at: opt_clone(&record.expires_at),
    })
}

/// `t` holds, in order, the timeout records of the expired approvals of `cur`.
pub open spec fn timeouts_for(t: Seq<ApprovalRecord>, cur: Seq<ApprovalRecord>, now: Seq<char>) -> bool
    decreases cur.len(),
{
    if cur.len() == 0 {
        t.len() == 0
    } else if is_expired(cur.last(), now) {
        &&& t.len() > 0
        &&& is_timeout_of(t.last(), cur.last(), now)
        &&& timeouts_for(t.drop_last(), cur.drop_last(), now)
    } else {
        timeouts_for(t, cur.drop_last(), now)
    }
}

/// Every appended timeout record has status "timeout".
proof fn lemma_timeouts_status(t: Seq<ApprovalRecord>, cur: Seq<ApprovalRecord>, now: Seq<char>)
    requires
        timeouts_for(t, cur, now),
    ensures
        forall|j: int| 0 <= j < t.len() ==> (#[trigger] t[j]).status@ == "timeout"@,
    decreases cur.len(),
{
    if cur.len() > 0 {
        if is_expired(cur.last(), now) {
            lemma_timeouts_status(t.drop_last(), cur.drop_last(), now);
            assert forall|j: int| 0 <= j < t.len() implies (#[trigger] t[j]).status@ == "timeout"@ by {
                if j < t.len() - 1 {
                    assert(t.drop_last()[j] == t[j]);
                }
            }
        } else {
            lemma_timeouts_status(t, cur.drop_last(), now);
        }
    }
}

/// Every expired approval of `cur` has a timeout record in `t`.
proof fn lemma_timeouts_cover(t: Seq<ApprovalRecord>, cur: Seq<ApprovalRecord>, now: Seq<char>, m: int)
    requires
        timeouts_for(t, cur, now),
        0 <= m < cur.len(),
        is_expired(cur[m], now),
    ensures
        exists|j: int| 0 <= j < t.len() && (#[trigger] t[j]).approval_id == cur[m].approval_id,
    decreases cur.len(),
{
    if m == cur.len() - 1 {
        assert(t[t.len() - 1] == t.last());
    } else {
        assert(cur.drop_last()[m] == cur[m]);
        if is_expired(cur.last(), now) {
            lemma_timeouts_cover(t.drop_last(), cur.drop_last(), now, m);
            let j = choose|j: int| 0 <= j < t.drop_last().len() && (#[trigger] t.drop_last()[j]).approval_id == cur[m].approval_id;
            assert(t[j] == t.drop_last()[j]);
        } else {
            lemma_timeouts_cover(t, cur.drop_last(), now, m);
        }
    }
}

/// Law: once the expired approvals have their timeout records appended (as a
/// status query does), no current approval is still pending past its expiry.
pub proof fn law_no_expired_pending_after_status(
    old_log: Seq<ApprovalRecord>,
    new_log: Seq<ApprovalRecord>,
    now: Seq<char>,
)
    requires
        new_log.len() >= old_log.len(),
        new_log.take(old_log.len() as int) == old_log,
        timeouts_for(new_log.skip(old_log.len() as int), current_approvals(old_log), now),
    ensures
        forall|k: int|
            0 <= k < current_approvals(new_log).len() ==> !is_expired(
                #[trigger] current_approvals(new_log)[k],
                now,
            ),
{
    let t = new_log.skip(old_log.len() as int);
    let cur = current_approvals(old_log);
    let ids = approval_ids(old_log);
    let nids = approval_ids(new_log);
    let order = latest_order_spec(nids, approval_tss(new_log));
    let oorder = latest_order_spec(ids, approval_tss(old_log));
    lemma_latest_contains(nids, approval_tss(new_log));
    lemma_latest_contains(ids, approval_tss(old_log));
    lemma_timeouts_status(t, cur, now);
    assert forall|k: int| 0 <= k < current_approvals(new_log).len() implies !is_expired(
        #[trigger] current_approvals(new_log)[k],
        now,
    ) by {
        let i = order[k];
        assert(order.contains(i));
        assert(nids.len() == new_log.len());
        assert(current_approvals(new_log)[k] == new_log[i]);
        assert(is_last(nids, i));
        if i >= old_log.len() {
            assert(new_log[i] == t[i - old_log.len()]);
            assert(t[i - old_log.len()].status@ == "timeout"@);
            reveal_strlit("timeout");
            reveal_strlit("pending");
            assert("timeout"@[0] != "pending"@[0]);
        } else {
            assert(new_log[i] == old_log[i]);
            assert forall|j: int| i < j < ids.len() implies ids[j] != ids[i] by {
                assert(new_log[j] == old_log[j]);
                assert(nids[j] != nids[i]);
            }
            assert(is_last(ids, i));
            assert(oorder.contains(i));
            let m = choose|m: int| 0 <= m < oorder.len() && oorder[m] == i;
            assert(cur[m] == old_log[i]);
            if is_expired(old_log[i], now) {
                lemma_timeouts_cover(t, cur, now, m);
                let j = choose|j: int| 0 <= j < t.len() && (#[trigger] t[j]).approval_id == cur[m].approval_id;
                assert(new_log[old_log.len() + j] == t[j]);
                assert(nids[old_log.len() + j] == nids[i]);
                assert(false);
            }
        }
    }
}

// ─── Status ─────────────────────────────────────────────────────────────────

/// The approval is listed for these parameters.
pub open spec fn approval_selected(r: ApprovalRecord, p: ApprovalStatusParams) -> bool {
    &&& match p.approval_id {
        Some(id) => r.approval_id@ == id@,
        None => r.status@ == "pending"@,
    }
    &&& match p.since_ts {
        Some(s) => !lex_lt(r.ts@, s@),
        None => true,
    }
}

/// The listed approvals, in order.
pub open spec fn selected_approvals(recs: Seq<ApprovalRecord>, p: ApprovalStatusParams) -> Seq<ApprovalRecord>
    decreases recs.len(),
{
    if recs.len() == 0 {
        seq![]
    } else if approval_selected(recs.last(), p) {
        selected_approvals(recs.drop_last(), p).push(recs.last())
    } else {
        selected_approvals(recs.drop_last(), p)
    }
}

/// The listing entry of a record.
pub open spec fn entry_of(r: ApprovalRecord) -> ApprovalEntry {
    ApprovalEntry {
        approval_id: r.approval_id,
        subject: r.subject,
        category: r.category,
        status: r.status,
        ts: r.ts,
        detail: r.detail,
        expires_at: r.expires_at,
    }
}

/// Number of pending entries.
pub open spec fn pending_in(s: Seq<ApprovalEntry>) -> nat
    decreases s.len(),
{
    if s.len() == 0 {
        0
    } else {
        pending_in(s.drop_last()) + if s.last().status@ == "pending"@ { 1nat } else { 0nat }
    }
}

/// `res` lists the approvals of `log` that `params` select.
pub open spec fn approval_status_answer(params: ApprovalStatusParams, log: Seq<ApprovalRecord>, res: ApprovalStatusResult) -> bool {
    let listed = selected_approvals(current_approvals(log), params).map_values(|x: ApprovalRecord| entry_of(x));
    &&& res.approvals@ == listed
    &&& res.total == listed.len()
    &&& res.pending_count == pending_in(listed)
    &&& res.kind@ == (if listed.len() == 0 { "empty"@ } else { "success"@ })
}

/// Every record selected is one of `recs` that the parameters select.
proof fn lemma_selected_are_selected(recs: Seq<ApprovalRecord>, p: ApprovalStatusParams)
    ensures
        forall|k: int|
            0 <= k < selected_approvals(recs, p).len() ==> approval_selected(
                #[trigger] selected_approvals(recs, p)[k],
                p,
            ) && recs.contains(selected_approvals(recs, p)[k]),
    decreases recs.len(),
{
    if recs.len() > 0 {
        lemma_selected_are_selected(recs.drop_last(), p);
        let prev = selected_approvals(recs.drop_last(), p);
        assert forall|k: int| 0 <= k < selected_approvals(recs, p).len() implies approval_selected(
            #[trigger] selected_approvals(recs, p)[k],
            p,
        ) && recs.contains(selected_approvals(recs, p)[k]) by {
            let x = selected_approvals(recs, p)[k];
            if k < prev.len() {
                assert(x == prev[k]);
                let i = choose|i: int| 0 <= i < recs.drop_last().len() && recs.drop_last()[i] == x;
                assert(recs[i] == x);
            } else {
                assert(x == recs.last());
                assert(recs[recs.len() - 1] == x);
            }
        }
    }
}

/// Every record of `recs` that the parameters select is selected.
proof fn lemma_selected_has(recs: Seq<ApprovalRecord>, p: ApprovalStatusParams, i: int)
    requires
        0 <= i < recs.len(),
        approval_selected(recs[i], p),
    ensures
        selected_approvals(recs, p).contains(recs[i]),
    decreases recs.len(),
{
    if i < recs.len() - 1 {
        assert(recs.drop_last()[i] == recs[i]);
        lemma_selected_has(recs.drop_last(), p, i);
        let prev = selected_approvals(recs.drop_last(), p);
        let j = choose|j: int| 0 <= j < prev.len() && prev[j] == recs[i];
        if approval_selected(recs.last(), p) {
            assert(selected_approvals(recs, p)[j] == recs[i]);
        }
    } else {
        let cur = selected_approvals(recs, p);
        assert(cur[cur.len() - 1] == recs[i]);
    }
}

/// What a status listing holds: every approval it lists was created at or
/// after `since_ts` (when given), and is the requested one, or, with no id
/// requested, pending.
pub proof fn law_listed_approvals_are_selected(
    params: ApprovalStatusParams,
    log: Seq<ApprovalRecord>,
    res: ApprovalStatusResult,
    k: int,
)
    requires
        approval_status_answer(params, log, res),
        0 <= k < res.approvals.len(),
    ensures
        params.since_ts matches Some(s) ==> !lex_lt(res.approvals@[k].ts@, s@),
        params.approval_id matches Some(id) ==> res.approvals@[k].approval_id@ == id@,
        params.approval_id is None ==> res.approvals@[k].status@ == "pending"@,
{
    let recs = current_approvals(log);
    lemma_selected_are_selected(recs, params);
    let x = selected_approvals(recs, params)[k];
    assert(approval_selected(x, params));
    assert(res.approvals@[k] == entry_of(x));
}

/// And nothing selected is left out: every current approval of the log
/// created at or after `since_ts` (when given) that is the requested one,
/// or, with no id requested, pending, is listed.
pub proof fn law_selected_approvals_are_listed(
    params: ApprovalStatusParams,
    log: Seq<ApprovalRecord>,
    res: ApprovalStatusResult,
    r: ApprovalRecord,
)
    requires
        approval_status_answer(params, log, res),
        current_approvals(log).contains(r),
        params.since_ts matches Some(s) ==> !lex_lt(r.ts@, s@),
        params.approval_id matches Some(id) ==> r.approval_id@ == id@,
        params.approval_id is None ==> r.status@ == "pending"@,
    ensures
        exists|k: int|
            0 <= k < res.approvals.len() && (#[trigger] res.approvals@[k]).approval_id@ == r.approval_id@
                && res.approvals@[k].ts@ == r.ts@ && res.approvals@[k].status@ == r.status@,
{
    let recs = current_approvals(log);
    let i = choose|i: int| 0 <= i < recs.len() && recs[i] == r;
    assert(approval_selected(recs[i], params));
    lemma_selected_has(recs, params, i);
    let sel = selected_approvals(recs, params);
    let j = choose|j: int| 0 <= j < sel.len() && sel[j] == r;
    assert(res.approvals@[j] == entry_of(sel[j]));
}

/// Appends to `log` a timeout record for each current approval that has
/// expired at `now`, then lists the approvals the parameters select from the
/// updated log: one id, or all pending ones, created at or after `since_ts`.
pub fn run_approval_status(params: &ApprovalStatusParams, log: &mut Vec<ApprovalRecord>, now: &str) -> (r:
    Result<ApprovalStatusResult, ToolError>)
    ensures
        final(log)@.len() >= old(log)@.len(),
        final(log)@.take(old(log)@.len() as int) == old(log)@,
        timeouts_for(final(log)@.skip(old(log)@.len() as int), current_approvals(old(log)@), now@),
        r matches Ok(res) && approval_status_answer(*params, final(log)@, res),
{
    let ghost old_log = log@;
    let cur = latest_approvals(log);
    let mut i: usize = 0;
    while i < cur.len()
        invariant
            i <= cur.len(),
            cur@ == current_approvals(old_log),
            log@.len() >= old_log.len(),
            log@.take(old_log.len() as int) == old_log,
            timeouts_for(log@.skip(old_log.len() as int), cur@.take(i as int), now@),
        decreases cur.len() - i,
    {
        let ghost before = log@;
        assert(cur@.take(i + 1).drop_last() =~= cur@.take(i as int));
        assert(cur@.take(i + 1).last() == cur@[i as int]);
        match expire_if_needed(&cur[i], now) {
            Some(t) => {
                log.push(t);
                assert(log@.take(old_log.len() as int) =~= before.take(old_log.len() as int));
                assert(log@.skip(old_log.len() as int).drop_last() =~= before.skip(old_log.len() as int));
            },
            None => {},
        }
        i = i + 1;
    }
    assert(cur@.take(cur.len() as int) =~= cur@);
    let all = latest_approvals(log);
    let mut entries: Vec<ApprovalEntry> = Vec::new();
    let mut pending: usize = 0;
    let mut k: usize = 0;
    while k < all.len()
        invariant
            k <= all.len(),
            all@ == current_approvals(log@),
            entries@ == selected_approvals(all@.take(k as int), *params).map_values(
                |x: ApprovalRecord| entry_of(x),
            ),
            pending == pending_in(entries@),
            pending <= entries.len(),
            entries.len() <= k,
        decreases all.len() - k,
    {
        let rec = &all[k];
        let ghost pre = all@.take(k as int);
        assert(all@.take(k + 1).drop_last() =~= pre);
        assert(all@.take(k + 1).last() == all@[k as int]);
        let id_ok = match &params.approval_id {
            Some(id) => str_eq(rec.approval_id.as_str(), id.as_str()),
            None => str_eq(rec.status.as_str(), "pending"),
        };
        let since_ok = match &params.since_ts {
            Some(s) => !str_lt(rec.ts.as_str(), s.as_str()),
            None => true,
        };
        if id_ok && since_ok {
            let ghost prev = entries@;
            let is_pending = str_eq(rec.status.as_str(), "pending");
            entries.push(
                ApprovalEntry {
                    approval_id: rec.approval_id.clone(),
                    subject: rec.subject.clone(),
                    category: opt_clone(&rec.category),
                    status: rec.status.clone(),
                    ts: rec.ts.clone(),
                    detail: opt_clone(&rec.detail),
                    expires_at: opt_clone(&rec.expires_at),
                },
            );
            assert(entries@ =~= selected_approvals(all@.take(k + 1), *params).map_values(
                |x: ApprovalRecord| entry_of(x),
            ));
            assert(entries@.drop_last() =~= prev);
            if is_pending {
                pending = pending + 1;
            }
        } else {
            assert(selected_approvals(all@.take(k + 1), *params) == selected_approvals(pre, *params));
        }
        k = k + 1;
    }
    assert(all@.take(all.len() as int) =~= all@);
    let total = entries.len();
    let kind = if total == 0 {
        owned("empty")
    } else {
        owned("success")
    };
    Ok(ApprovalStatusResult { kind, total, pending_count: pending, approvals: entries })
}

// ─── Resolve ────────────────────────────────────────────────────────────────

pub open spec fn valid_decision(d: Seq<char>) -> bool {
    d == "approved"@ || d == "rejected"@
}

/// `u` records the decision of `p` on `r`, made at `at`.
pub open spec fn is_resolution_of(u: ApprovalRecord, r: ApprovalRecord, p: ApprovalResolveParams, at: Seq<char>) -> bool {
    &&& u.approval_id == r.approval_id
    &&& u.ts == r.ts
    &&& u.subject == r.subject
    &&& u.detail == r.detail
    &&& u.category == r.category
    &&& u.timeout_secs == r.timeout_secs
    &&& u.expires_at == r.expires_at
    &&& u.status@ == p.decision@
    &&& u.decision matches Some(d) && d@ == p.decision@
    &&& u.note == p.note
    &&& u.resolved_at matches Some(x) && x@ == at
}

/// Records a decision on an approval: the decision must be "approved" or
/// "rejected" and the id must occur in the log; the updated record is
/// appended to `log`.
pub fn run_approval_resolve(params: &ApprovalResolveParams, log: &mut Vec<ApprovalRecord>, resolved_at: &str) -> (r:
    Result<ApprovalResolveResult, ToolError>)
    ensures
        !valid_decision(params.decision@) ==> {
            &&& r matches Err(ToolError::IoError { message })
            &&& message@ == "decision must be 'approved' or 'rejected', got '"@ + params.decision@ + "'."@
            &&& final(log)@ == old(log)@
        },
        valid_decision(params.decision@) && !(exists|i: int| 0 <= i < old(log)@.len() && #[trigger] old(log)@[i].approval_id@ == params.approval_id@)
            ==> {
            &&& r matches Err(ToolError::IoError { message })
            &&& message@ == "approval_id '"@ + params.approval_id@ + "' not found."@
            &&& final(log)@ == old(log)@
        },
        valid_decision(params.decision@) && (exists|i: int| 0 <= i < old(log)@.len() && #[trigger] old(log)@[i].approval_id@ == params.approval_id@)
            ==> {
            let cur = current_approvals(old(log)@);
            &&& r matches Ok(res)
            &&& res.kind@ == params.decision@
            &&& res.approval_id == params.approval_id
            &&& res.decision@ == params.decision@
            &&& res.resolved_at@ == resolved_at@
            &&& final(log)@.len() == old(log)@.len() + 1
            &&& final(log)@.drop_last() == old(log)@
            &&& exists|k: int| {
                &&& 0 <= k < cur.len()
                &&& #[trigger] cur[k].approval_id@ == params.approval_id@
                &&& forall|j: int| 0 <= j < k ==> cur[j].approval_id@ != params.approval_id@
                &&& is_resolution_of(final(log)@.last(), cur[k], *params, resolved_at@)
            }
        },
{
    let d = params.decision.as_str();
    if !(str_eq(d, "approved") || str_eq(d, "rejected")) {
        let mut m = chars_of("decision must be 'approved' or 'rejected', got '");
        push_str(&mut m, d);
        push_str(&mut m, "'.");
        return Err(ToolError::IoError { message: string_of(&m) });
    }
    let all = latest_approvals(log);
    proof {
        lemma_current_has_id(log@, params.approval_id@);
    }
    let mut k: usize = 0;
    while k < all.len()
        invariant_except_break
            k <= all.len(),
            all@ == current_approvals(log@),
            forall|j: int| 0 <= j < k ==> all@[j].approval_id@ != params.approval_id@,
        ensures
            k <= all.len(),
            all@ == current_approvals(log@),
            forall|j: int| 0 <= j < k ==> all@[j].approval_id@ != params.approval_id@,
            k < all.len() ==> all@[k as int].approval_id@ == params.approval_id@,
        decreases all.len() - k,
    {
        if str_eq(all[k].approval_id.as_str(), params.approval_id.as_str()) {
            break;
        }
        k = k + 1;
    }
    if k == all.len() {
        let mut m = chars_of("approval_id '");
        push_str(&mut m, params.approval_id.as_str());
        push_str(&mut m, "' not found.");
        return Err(ToolError::IoError { message: string_of(&m) });
    }
    let existing = &all[k];
    let updated = ApprovalRecord {
        approval_id: existing.approval_id.clone(),
        ts: existing.ts.clone(),
        subject: existing.subject.clone(),
        detail: opt_clone(&existing.detail),
        category: opt_clone(&existing.category),
        status: params.decision.clone(),
        decision: Some(params.decision.clone()),
        note: opt_clone(&params.note),
        resolved_at: Some(owned(resolved_at)),
        timeout_secs: existing.timeout_secs,
        expires_at: opt_clone(&existing.expires_at),
    };
    let ghost before = log@;
    log.push(updated);
    assert(log@.drop_last() =~= before);
    Ok(ApprovalResolveResult {
        kind: params.decision.clone(),
        approval_id: params.approval_id.clone(),
        decision: params.decision.clone(),
        resolved_at: owned(resolved_at),
    })
}

/// Toast text announcing a decision: the subject and the decision in capitals.
pub fn resolution_toast_message(subject: &str, decision: &str) -> (m: String)
    requires
        valid_decision(decision@),
    ensures
        m@ == subject@ + ": "@ + (if decision@ == "approved"@ { "APPROVED"@ } else { "REJECTED"@ }),
{
    let mut v = chars_of(subject);
    push_str(&mut v, ": ");
    if str_eq(decision, "approved") {
        push_str(&mut v, "APPROVED");
    } else {
        push_str(&mut v, "REJECTED");
    }
    string_of(&v)
}

// ─── Request ────────────────────────────────────────────────────────────────

/// The record of a new approval request made at `now_millis` / `ts`, or the
/// error for a blank subject.
pub fn approval_request_record(
    params: &ApprovalRequestParams,
    now_millis: i64,
    ts: &str,
    expires_at: Option<String>,
) -> (r: Result<ApprovalRecord, ToolError>)
    ensures
        trim(params.subject@).len() == 0 ==> (r matches Err(ToolError::MissingParameter { missing, hint })
            && missing@ == "subject"@ && hint@ == "Provide a non-empty approval subject."@),
        trim(params.subject@).len() > 0 ==> (r matches Ok(rec) && {
            &&& rec.approval_id@ == "apr_"@ + idec(now_millis as int)
            &&& rec.ts@ == ts@
            &&& rec.subject == params.subject
            &&& rec.detail == params.detail
            &&& rec.category == params.category
            &&& rec.status@ == "pending"@
            &&& rec.decision is None
            &&& rec.note is None
            &&& rec.resolved_at is None
            &&& rec.timeout_secs == params.timeout_secs
            &&& rec.expires_at == expires_at
        }),
{
    let t = trim_str(params.subject.as_str());
    if t.as_str().is_empty() {
        return Err(ToolError::MissingParameter {
            missing: owned("subject"),
            hint: owned("Provide a non-empty approval subject."),
        });
    }
    let mut id = chars_of("apr_");
    let n = i64_string(now_millis);
    push_str(&mut id, n.as_str());
    Ok(ApprovalRecord {
        approval_id: string_of(&id),
        ts: owned(ts),
        subject: params.subject.clone(),
        detail: opt_clone(&params.detail),
        category: opt_clone(&params.category),
        status: owned("pending"),
        decision: None,
        note: None,
        resolved_at: None,
        timeout_secs: params.timeout_secs,
        expires_at,
    })
}

/// The first 19 characters of an ASCII timestamp (date and time to the second).
pub open spec fn ascii_prefix(e: Seq<char>) -> bool {
    e.len() >= 19 && forall|i: int| 0 <= i < 19 ==> (e[i] as u32) < 128
}

/// Toast text of a new request: subject, detail and the expiry to the second.
pub fn approval_toast_message(subject: &str, detail: &Option<String>, expires_at: &Option<String>) -> (m:
    String)
    requires
        expires_at matches Some(e) ==> ascii_prefix(e@),
    ensures
        ({
            let hint = match expires_at {
                Some(e) => " [expires "@ + e@.take(19) + "]"@,
                None => Seq::<char>::empty(),
            };
            m@ == match detail {
                Some(d) => subject@ + " — "@ + d@ + hint,
                None => subject@ + hint,
            }
        }),
{
    let mut v = chars_of(subject);
    match detail {
        Some(d) => {
            push_str(&mut v, " — ");
            push_str(&mut v, d.as_str());
        },
        None => {},
    }
    match expires_at {
        Some(e) => {
            push_str(&mut v, " [expires ");
            let p = take_chars(e.as_str(), 19);
            push_str(&mut v, p.as_str());
            push_str(&mut v, "]");
        },
        None => {},
    }
    string_of(&v)
}

/// The answer to a request once its record is written and the toast sent.
pub fn approval_request_result(record: &ApprovalRecord, notified: bool) -> (r: ApprovalRequestResult)
    ensures
        r.kind@ == "pending"@,
        r.approval_id == record.approval_id,
        r.subject == record.subject,
        r.status@ == "pending"@,
        r.notified == notified,
        r.timeout_secs == record.timeout_secs,
        r.expires_at == record.expires_at,
{
    ApprovalRequestResult {
        kind: owned("pending"),
        approval_id: record.approval_id.clone(),
        subject: record.subject.clone(),
        status: owned("pending"),
        notified,
        timeout_secs: record.timeout_secs,
        expires_at: opt_clone(&record.expires_at),
    }
}

/// Id of the interaction that an approval is projected to: "ix-", the date
/// of `ts` without dashes, and "-000".
pub fn projection_interaction_id(ts: &str) -> (r: String)
    requires
        ascii_prefix(ts@),
    ensures
        r@ == "ix-"@ + ts@.take(10).filter(|c: char| c != '-') + "-000"@,
{
    let c = chars_of(ts);
    let mut v = chars_of("ix-");
    let ghost base = v@;
    let mut i: usize = 0;
    while i < 10
        invariant
            i <= 10,
            c@ == ts@,
            ts@.len() >= 19,
            v@ == base + ts@.take(i as int).filter(|c: char| c != '-'),
        decreases 10 - i,
    {
        assert(ts@.take(i + 1).drop_last() =~= ts@.take(i as int));
        reveal_with_fuel(Seq::filter, 1);
        if c[i] != '-' {
            v.push(c[i]);
        }
        i = i + 1;
        assert(v@ =~= base + ts@.take(i as int).filter(|c: char| c != '-'));
    }
    push_str(&mut v, "-000");
    string_of(&v)
}

/// The question put to the client: the subject in bold, the detail where
/// there is one, and "Approve this action?".
pub open spec fn elicitation_text(subject: Seq<char>, detail: Option<Seq<char>>) -> Seq<char> {
    match detail {
        Some(d) => "**"@ + subject + "**\n\n"@ + d + "\n\nApprove this action?"@,
        None => "**"@ + subject + "**\n\nApprove this action?"@,
    }
}

pub fn elicitation_message(subject: &str, detail: Option<&str>) -> (r: String)
    ensures
        r@ == elicitation_text(
            subject@,
            match detail {
                Some(d) => Some(d@),
                None => None,
            },
        ),
{
    let mut v = chars_of("**");
    push_str(&mut v, subject);
    match detail {
        Some(d) => {
            push_str(&mut v, "**\n\n");
            push_str(&mut v, d);
            push_str(&mut v, "\n\nApprove this action?");
        },
        None => {
            push_str(&mut v, "**\n\nApprove this action?");
        },
    }
    string_of(&v)
}

/// How the client answered the question.
pub enum ElicitAction {
    Accept,
    Decline,
    Cancel,
}

/// The decision an answer stands for: an acceptance approves unless its
/// "approved" field says false; a refusal rejects; a cancel cancels.
pub open spec fn elicited_decision(action: ElicitAction, approved: Option<bool>) -> Seq<char> {
    match action {
        ElicitAction::Accept => if approved != Some(false) {
            "approved"@
        } else {
            "rejected"@
        },
        ElicitAction::Decline => "rejected"@,
        ElicitAction::Cancel => "cancelled"@,
    }
}

pub fn elicitation_decision(action: ElicitAction, approved: Option<bool>) -> (r: String)
    ensures
        r@ == elicited_decision(action, approved),
{
    proof {
        reveal_strlit("approved");
        reveal_strlit("rejected");
        reveal_strlit("cancelled");
    }
    match action {
        ElicitAction::Accept => if approved != Some(false) {
            owned("approved")
        } else {
            owned("rejected")
        },
        ElicitAction::Decline => owned("rejected"),
        ElicitAction::Cancel => owned("cancelled"),
    }
}

/// The id of an approval asked at `ms`: "apr_" and the milliseconds.
pub fn approval_id_of(ms: i64) -> (r: String)
    ensures
        r@ == "apr_"@ + idec(ms as int),
{
    let mut v = chars_of("apr_");
    let d = i64_string(ms);
    push_str(&mut v, d.as_str());
    string_of(&v)
}

/// The answer when the local presenter took the decision.
pub fn presenter_approval_result(decision: String, approval_id: String, subject: String, timeout_secs: Option<u64>) -> (r:
    ApprovalRequestResult)
    ensures
        r.kind@ == decision@,
        r.status@ == decision@,
        r.approval_id@ == approval_id@,
        r.subject@ == subject@,
        r.notified,
        r.timeout_secs == timeout_secs,
        r.expires_at is None,
{
    ApprovalRequestResult {
        kind: decision.clone(),
        approval_id,
        subject,
        status: decision,
        notified: true,
        timeout_secs,
        expires_at: None,
    }
}

/// Law: the current state of each approval is listed newest first: no listed
/// record has an older timestamp than one listed after it.
pub proof fn law_current_approvals_newest_first(log: Seq<ApprovalRecord>)
    ensures
        forall|i: int, j: int|
            0 <= i < j < current_approvals(log).len() ==> !lex_lt(
                #[trigger] current_approvals(log)[i].ts@,
                #[trigger] current_approvals(log)[j].ts@,
            ),
{
    let order = latest_order_spec(approval_ids(log), approval_tss(log));
    law_latest_newest_first(approval_ids(log), approval_tss(log));
    lemma_latest_contains(approval_ids(log), approval_tss(log));
    assert forall|i: int, j: int| 0 <= i < j < current_approvals(log).len() implies !lex_lt(
        #[trigger] current_approvals(log)[i].ts@,
        #[trigger] current_approvals(log)[j].ts@,
    ) by {
        assert(order.contains(order[i]) && order.contains(order[j]));
        assert(approval_tss(log)[order[i]] == log[order[i]].ts@);
        assert(approval_tss(log)[order[j]] == log[order[j]].ts@);
    }
}

} // verus!
