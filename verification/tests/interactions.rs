use seeyue_mcp::approval::{
    approval_id_of, approval_request_record, approval_request_result, approval_toast_message, elicitation_decision,
    elicitation_message, expire_if_needed, latest_approvals, presenter_approval_result, projection_interaction_id,
    resolution_toast_message, run_approval_resolve, run_approval_status, ApprovalRecord, ApprovalRequestParams,
    ApprovalResolveParams, ApprovalStatusParams, ElicitAction,
};
use seeyue_mcp::ask_user::{
    ask_user_record, ask_user_result, ask_user_toast_body, run_ask_user_status, AskUserParams, AskUserStatusParams,
    QuestionRecord,
};
use seeyue_mcp::error::ToolError;
use seeyue_mcp::input_request::{
    input_request_record, input_toast_body, run_input_status, InputRequestParams, InputStatusParams,
};

fn pending(id: &str, ts: &str, expires: Option<&str>) -> ApprovalRecord {
    ApprovalRecord {
        approval_id: id.into(),
        ts: ts.into(),
        subject: format!("subject {}", id),
        detail: None,
        category: None,
        status: "pending".into(),
        decision: None,
        note: None,
        resolved_at: None,
        timeout_secs: None,
        expires_at: expires.map(|e| e.to_string()),
    }
}

fn all_pending() -> ApprovalStatusParams {
    ApprovalStatusParams { approval_id: None, since_ts: None }
}

#[test]
fn expired_approvals_time_out_on_status() {
    let mut log = vec![
        pending("apr_1", "2026-01-01T00:00:00Z", Some("2026-01-01T00:10:00Z")),
        pending("apr_2", "2026-01-02T00:00:00Z", None),
    ];
    let r = run_approval_status(&all_pending(), &mut log, "2026-01-01T00:20:00Z").ok().unwrap();
    assert_eq!(log.len(), 3);
    assert_eq!(log[2].status, "timeout");
    assert_eq!(log[2].decision.as_deref(), Some("rejected"));
    assert_eq!(log[2].note.as_deref(), Some("auto-rejected: timeout expired"));
    assert_eq!(r.total, 1);
    assert_eq!(r.pending_count, 1);
    assert_eq!(r.approvals[0].approval_id, "apr_2");
    let again = run_approval_status(&all_pending(), &mut log, "2026-01-01T00:30:00Z").ok().unwrap();
    assert_eq!(log.len(), 3);
    assert_eq!(again.total, 1);
}

#[test]
fn resolving_an_approval_makes_it_current() {
    let mut log = vec![pending("apr_1", "2026-01-01T00:00:00Z", None)];
    let p = ApprovalResolveParams { approval_id: "apr_1".into(), decision: "approved".into(), note: Some("ok".into()) };
    let res = run_approval_resolve(&p, &mut log, "2026-01-01T01:00:00Z").ok().unwrap();
    assert_eq!(res.decision, "approved");
    assert_eq!(log.len(), 2);
    let current = latest_approvals(&log);
    assert_eq!(current.len(), 1);
    assert_eq!(current[0].status, "approved");
    let by_id = ApprovalStatusParams { approval_id: Some("apr_1".into()), since_ts: None };
    let st = run_approval_status(&by_id, &mut log, "2026-01-02T00:00:00Z").ok().unwrap();
    assert_eq!(st.approvals[0].status, "approved");
    assert_eq!(st.pending_count, 0);
}

#[test]
fn resolve_errors() {
    let mut log = vec![pending("apr_1", "t", None)];
    let bad = ApprovalResolveParams { approval_id: "apr_1".into(), decision: "maybe".into(), note: None };
    match run_approval_resolve(&bad, &mut log, "x") {
        Err(ToolError::IoError { message }) => {
            assert_eq!(message, "decision must be 'approved' or 'rejected', got 'maybe'.")
        }
        _ => panic!("expected IoError"),
    }
    let unknown = ApprovalResolveParams { approval_id: "apr_9".into(), decision: "rejected".into(), note: None };
    match run_approval_resolve(&unknown, &mut log, "x") {
        Err(ToolError::IoError { message }) => assert_eq!(message, "approval_id 'apr_9' not found."),
        _ => panic!("expected IoError"),
    }
    assert_eq!(log.len(), 1);
}

#[test]
fn expiry_check() {
    let r = pending("apr_1", "t", Some("2026-01-01T00:10:00Z"));
    assert!(expire_if_needed(&r, "2026-01-01T00:09:59Z").is_none());
    assert!(expire_if_needed(&r, "2026-01-01T00:10:00Z").is_some());
    assert!(expire_if_needed(&pending("apr_2", "t", None), "9999").is_none());
}

#[test]
fn approval_requests() {
    let blank = ApprovalRequestParams { subject: "  ".into(), detail: None, category: None, timeout_secs: None };
    assert!(matches!(approval_request_record(&blank, 1, "t", None), Err(ToolError::MissingParameter { .. })));
    let p = ApprovalRequestParams { subject: "Deploy".into(), detail: Some("prod".into()), category: None, timeout_secs: Some(60) };
    let rec = approval_request_record(&p, 1700, "2026-01-01T00:00:00Z", Some("2026-01-01T00:01:00.123Z".into()))
        .ok()
        .unwrap();
    assert_eq!(rec.approval_id, "apr_1700");
    assert_eq!(rec.status, "pending");
    let res = approval_request_result(&rec, true);
    assert_eq!((res.kind.as_str(), res.timeout_secs), ("pending", Some(60)));
    assert_eq!(
        approval_toast_message("Deploy", &Some("prod".into()), &Some("2026-01-01T00:01:00.123Z".into())),
        "Deploy — prod [expires 2026-01-01T00:01:00]"
    );
    assert_eq!(resolution_toast_message("Deploy", "rejected"), "Deploy: REJECTED");
    assert_eq!(projection_interaction_id("2026-03-18T10:00:00Z"), "ix-20260318-000");
}

#[test]
fn elicitation_answers() {
    assert_eq!(elicitation_message("Deploy", Some("prod")), "**Deploy**\n\nprod\n\nApprove this action?");
    assert_eq!(elicitation_message("Deploy", None), "**Deploy**\n\nApprove this action?");
    assert_eq!(elicitation_decision(ElicitAction::Accept, None), "approved");
    assert_eq!(elicitation_decision(ElicitAction::Accept, Some(false)), "rejected");
    assert_eq!(elicitation_decision(ElicitAction::Decline, Some(true)), "rejected");
    assert_eq!(elicitation_decision(ElicitAction::Cancel, None), "cancelled");
    assert_eq!(approval_id_of(42), "apr_42");
    let r = presenter_approval_result("approved".into(), "apr_42".into(), "s".into(), None);
    assert_eq!((r.kind.as_str(), r.status.as_str()), ("approved", "approved"));
}

fn question(id: &str, ts: &str, status: &str) -> QuestionRecord {
    QuestionRecord {
        question_id: id.into(),
        ts: ts.into(),
        question: "q?".into(),
        options: None,
        default: None,
        status: status.into(),
        answer: None,
        answered_at: None,
    }
}

#[test]
fn asking_the_user() {
    let blank = AskUserParams { question: " ".into(), options: None, default: None };
    assert!(ask_user_record(&blank, 1, "t").is_err());
    let p = AskUserParams { question: "Which?".into(), options: Some(vec!["a".into(), "b".into()]), default: Some("a".into()) };
    let rec = ask_user_record(&p, 5, "t").ok().unwrap();
    assert_eq!(rec.question_id, "qst_5");
    assert_eq!(ask_user_toast_body(&p), "Which? Options: a / b [default: a]");
    assert_eq!(ask_user_result(&rec, false).kind, "pending");
    let log = vec![question("qst_1", "2026-01-01", "pending"), question("qst_2", "2026-01-02", "pending")];
    let st = run_ask_user_status(&AskUserStatusParams { question_id: None }, &log).ok().unwrap();
    assert_eq!(st.kind, "pending");
    assert_eq!(st.total, 2);
    let none = run_ask_user_status(&AskUserStatusParams { question_id: Some("qst_9".into()) }, &log).ok().unwrap();
    assert_eq!(none.kind, "empty");
}

#[test]
fn input_requests() {
    let p = InputRequestParams { prompt: "Token".into(), kind: None, language: None, example: None };
    let rec = input_request_record(&p, 9, "t").ok().unwrap();
    assert_eq!((rec.request_id.as_str(), rec.kind.as_str()), ("inp_9", "text"));
    assert_eq!(input_toast_body("Token", "json"), "Token [JSON input needed]");
    assert_eq!(input_toast_body("Token", "other"), "Token [text input needed]");
    let blank = InputRequestParams { prompt: "".into(), kind: None, language: None, example: None };
    assert!(matches!(input_request_record(&blank, 1, "t"), Err(ToolError::MissingParameter { .. })));
}

#[test]
fn an_asked_question_is_listed() {
    let p = AskUserParams { question: "Proceed?".into(), options: None, default: None };
    let mut log = vec![question("qst_1", "2026-01-01", "answered")];
    log.push(ask_user_record(&p, 7, "2026-01-05").ok().unwrap());
    let by_id = run_ask_user_status(&AskUserStatusParams { question_id: Some("qst_7".into()) }, &log).ok().unwrap();
    assert_eq!(by_id.total, 1);
    assert_eq!((by_id.questions[0].question.as_str(), by_id.questions[0].status.as_str()), ("Proceed?", "pending"));
    let pending = run_ask_user_status(&AskUserStatusParams { question_id: None }, &log).ok().unwrap();
    assert!(pending.questions.iter().any(|q| q.question_id == "qst_7"));
}

#[test]
fn a_requested_input_is_listed() {
    let p = InputRequestParams { prompt: "Token".into(), kind: Some("json".into()), language: None, example: None };
    let log = vec![input_request_record(&p, 3, "2026-01-02").ok().unwrap()];
    let st = run_input_status(&InputStatusParams { request_id: Some("inp_3".into()) }, &log).ok().unwrap();
    assert_eq!(st.total, 1);
    assert_eq!((st.requests[0].kind.as_str(), st.requests[0].status.as_str()), ("json", "pending"));
}

#[test]
fn current_records_are_listed_newest_first() {
    let log = vec![
        pending("apr_1", "2026-01-01T00:00:00Z", None),
        pending("apr_2", "2026-01-03T00:00:00Z", None),
        pending("apr_3", "2026-01-02T00:00:00Z", None),
    ];
    let cur = latest_approvals(&log);
    let ids: Vec<&str> = cur.iter().map(|r| r.approval_id.as_str()).collect();
    assert_eq!(ids, vec!["apr_2", "apr_3", "apr_1"]);
    let qs = vec![question("qst_1", "2026-01-01", "pending"), question("qst_2", "2026-01-02", "pending")];
    let st = run_ask_user_status(&AskUserStatusParams { question_id: None }, &qs).ok().unwrap();
    assert_eq!(st.questions[0].question_id, "qst_2");
}
