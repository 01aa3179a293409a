use seeyue_mcp::bash_evidence::{check_command, detect_tdd_evidence, posttool_bash_result, truncate_tail, PosttoolBashParams};
use seeyue_mcp::error::ToolError;
use seeyue_mcp::format_file::{formatter_command, not_found_result, run_format_file, unsupported_result, FormatFileParams, Formatter};
use seeyue_mcp::lint::{
    detect_linter, lint_file_result, linter_command, parse_clippy, parse_eslint, parse_ruff, ClippyLine, Diagnostic,
    EslintFile, EslintMessage, Linter, RuffItem,
};
use seeyue_mcp::session::{
    boot_memory_order, initial_node_status, initial_tdd_state, orphan_traces, recovery_status, resume_tdd_state,
    should_auto_compact, write_recorded_message,
};

fn bash(cmd: &str) -> PosttoolBashParams {
    PosttoolBashParams {
        command: cmd.into(),
        exit_code: 0,
        stdout: None,
        stderr: None,
        node_id: None,
        run_id: None,
        phase: None,
    }
}

#[test]
fn bash_evidence() {
    assert!(matches!(check_command(&bash(" ")), Err(ToolError::MissingParameter { .. })));
    assert!(check_command(&bash("cargo test")).is_ok());
    assert_eq!(detect_tdd_evidence("test result: OK. 3 passed", "", 0, "test"), Some("green"));
    assert_eq!(detect_tdd_evidence("", "1 FAILED", 101, "test"), Some("red"));
    assert_eq!(detect_tdd_evidence("all passed", "", 0, "build"), None);
    assert_eq!(detect_tdd_evidence("nothing", "", 0, "test"), None);
    assert_eq!(truncate_tail("short", 10), "short");
    assert_eq!(truncate_tail("abcdefghij", 3), "[...truncated]\nhij");
    let r = posttool_bash_result(&bash("cargo test"), "test", "ok".into(), Some("green"), true);
    assert_eq!(r.kind, "recorded");
    assert_eq!(r.tdd_evidence.as_deref(), Some("green"));
}

#[test]
fn formatters() {
    assert!(Formatter::detect("tsx") == Some(Formatter::Prettier));
    assert!(Formatter::detect("cobol").is_none());
    let (prog, args) = formatter_command(Formatter::Gofmt, "a.go", true);
    assert_eq!(prog, "gofmt");
    assert_eq!(args, vec!["-l", "a.go"]);
    let (_, rargs) = formatter_command(Formatter::Rustfmt, "a.rs", false);
    assert_eq!(rargs, vec!["a.rs"]);
    let p = FormatFileParams { path: "a.rs".into(), check_only: Some(true) };
    assert_eq!(unsupported_result(&p).status, "UNSUPPORTED");
    assert_eq!(not_found_result(&p, Formatter::Rustfmt).status, "FORMATTER_NOT_FOUND");
    assert_eq!(run_format_file(&p, Formatter::Rustfmt, false, "", 5).ok().unwrap().status, "needs_formatting");
    assert_eq!(run_format_file(&p, Formatter::Rustfmt, true, "", 5).ok().unwrap().status, "already_formatted");
    let w = FormatFileParams { path: "a.rs".into(), check_only: None };
    assert_eq!(run_format_file(&w, Formatter::Black, true, "", 5).ok().unwrap().status, "formatted");
    match run_format_file(&w, Formatter::Black, false, "bad input", 5) {
        Err(ToolError::IoError { message }) => assert_eq!(message, "black failed: bad input"),
        _ => panic!("expected IoError"),
    }
}

#[test]
fn choosing_a_linter() {
    assert!(detect_linter(&Some("Python".into()), "", false, false).ok() == Some(Linter::Ruff));
    match detect_linter(&Some("pylint".into()), "", false, false) {
        Err(ToolError::UnsupportedLanguage { language, .. }) => assert_eq!(language, "pylint"),
        _ => panic!("expected UnsupportedLanguage"),
    }
    assert!(detect_linter(&None, "mjs", false, false).ok() == Some(Linter::Eslint));
    assert!(detect_linter(&None, "txt", false, true).ok() == Some(Linter::Eslint));
    assert!(detect_linter(&None, "txt", true, true).ok() == Some(Linter::Clippy));
    assert!(detect_linter(&None, "txt", false, false).is_err());
    assert_eq!(linter_command(Linter::Ruff, "/w/a.py", true), vec!["ruff", "check", "--output-format", "json", "/w/a.py", "--fix"]);
    assert_eq!(Linter::Clippy.label(), "cargo clippy");
}

#[test]
fn reading_linter_output() {
    let clippy = vec![
        ClippyLine { reason: Some("compiler-message".into()), level: None, message: Some("m".into()), code: None, line_start: Some(3), column_start: Some(4) },
        ClippyLine { reason: Some("build-finished".into()), level: None, message: None, code: None, line_start: None, column_start: None },
    ];
    let (d, fixed) = parse_clippy(&clippy);
    assert_eq!(d.len(), 1);
    assert_eq!((d[0].severity.as_str(), d[0].line, fixed), ("warning", Some(3), None));
    let eslint = vec![EslintFile {
        fixable_error_count: Some(1),
        fixable_warning_count: Some(2),
        messages: vec![
            EslintMessage { severity: Some(2), rule_id: Some("no-var".into()), message: Some("x".into()), line: Some(1), column: Some(1) },
            EslintMessage { severity: Some(1), rule_id: None, message: None, line: None, column: None },
        ],
    }];
    let (e, f) = parse_eslint(&eslint, true);
    assert_eq!((e[0].severity.as_str(), e[1].severity.as_str(), f), ("error", "warning", Some(3)));
    assert_eq!(parse_eslint(&eslint, false).1, None);
    let ruff = vec![RuffItem { code: Some("E501".into()), message: Some("long".into()), row: Some(9), column: Some(1) }];
    let (r, _) = parse_ruff(&ruff);
    assert_eq!((r[0].rule.as_str(), r[0].line), ("E501", Some(9)));
    let many: Vec<Diagnostic> = (0..60)
        .map(|i| Diagnostic { severity: "info".into(), rule: String::new(), message: i.to_string(), line: None, column: None })
        .collect();
    let res = lint_file_result(Linter::Eslint, "a.js", many, None, 7);
    assert_eq!((res.total_issues, res.truncated, res.diagnostics.len()), (60, true, 50));
    assert_eq!(res.linter, "eslint");
}

#[test]
fn session_start_recovery() {
    let ev = |e: &str, t: &str| (e.to_string(), t.to_string());
    let events = vec![
        ev("tool_request", "t1"),
        ev("tool_request", "t2"),
        ev("tool_completed", "t1"),
        ev("tool_request", ""),
        ev("tool_request", "t3"),
        ev("aborted", "t3"),
    ];
    assert_eq!(orphan_traces(&events), vec!["t2"]);
    assert_eq!(recovery_status(1), "recovered");
    assert_eq!(recovery_status(0), "clean");
    assert_eq!(resume_tdd_state(Some("green_pending")), "green_pending");
    assert_eq!(resume_tdd_state(Some("red_verified")), "red_verified");
    assert_eq!(resume_tdd_state(Some("weird")), "idle");
    assert_eq!(resume_tdd_state(None), "idle");
}

#[test]
fn write_and_node_hooks() {
    assert!(should_auto_compact(151));
    assert!(!should_auto_compact(150));
    assert_eq!(write_recorded_message("a.rs", true), "Write recorded: a.rs (auto_compacted: journal flushed)");
    assert_eq!(write_recorded_message("a.rs", false), "Write recorded: a.rs");
    assert_eq!(initial_tdd_state(Some(true)).as_deref(), Some("red_pending"));
    assert_eq!(initial_tdd_state(Some(false)), None);
    assert_eq!(initial_node_status(&None), "active");
    let updated: Vec<String> = ["2026-01-01", "2026-01-05", "", "2026-01-03", "2026-01-05", "2026-01-02", "2026-01-04"]
        .iter()
        .map(|s| s.to_string())
        .collect();
    assert_eq!(boot_memory_order(&updated), vec![1, 4, 6, 3, 5]);
}
