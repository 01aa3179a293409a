use seeyue_mcp::checkpoint::{
    checkpoint_label, diff_result, no_checkpoint_result, path_passes_filter, render_hunk, rewind_message,
    run_checkpoint_list, select_snapshot, to_forward_slashes, CheckpointListParams, DiffLine, DiffLineKind, SnapshotInfo,
};
use seeyue_mcp::env_info::{codepage_name, free_mb, run_env_info, windows_os_string, EnvFacts};
use seeyue_mcp::edit::MatchFallback;
use seeyue_mcp::error::{is_protocol_error, ToolError};
use seeyue_mcp::file_ops::{
    check_rename, file_rename_result, outline_depth, preview_edit_result, run_file_outline, run_preview_edit,
    FileOutlineParams, FileRenameParams, PreviewEditParams,
};
use seeyue_mcp::git::{diff_new_side, run_git_diff_file, DiffHunk, DiffNewSide, DiffResult, DiffSummary, GitDiffFileParams};
use seeyue_mcp::interaction_files::{
    read_active_interactions, check_interaction_id, interaction_file_name, run_list_interactions, read_interaction_result,
    resolve_interaction_result, ActiveFile, ListInteractionsParams,
};
use seeyue_mcp::json::{Json, JsonNumber};
use seeyue_mcp::notify::{
    build_suggestions, check_editor_path, check_notify_message, editor_not_found, editor_opened, error_toast_body,
    goto_arg, notify_result, notify_title, on_error_kind, on_error_result, resolve_editor, OnErrorParams,
    OpenInEditorParams,
};

fn snap(tool: &str, ms: i64) -> SnapshotInfo {
    SnapshotInfo { file_path: "/w/src/a.rs".into(), tool_name: tool.into(), captured_at_ms: ms }
}

#[test]
fn checkpoint_list_renders_times() {
    let empty = run_checkpoint_list(CheckpointListParams {}, &Vec::new()).ok().unwrap();
    assert_eq!(empty.kind, "empty");
    assert_eq!(empty.total, 0);
    let r = run_checkpoint_list(CheckpointListParams {}, &vec![snap("edit", 947638923004), snap("write", i64::MAX)])
        .ok()
        .unwrap();
    assert_eq!(r.kind, "success");
    assert_eq!(r.total, 2);
    assert_eq!(r.checkpoints[0].captured_at, "2000-01-12T01:02:03.004+00:00");
    assert_eq!(r.checkpoints[1].captured_at, "9223372036854775807");
    assert_eq!(r.checkpoints[1].tool_name, "write");
}

#[test]
fn snapshot_selection_by_label() {
    let snaps = vec![snap("edit", 3), snap("multi_write", 2), snap("edit", 1)];
    assert_eq!(select_snapshot(&snaps, &Some("write".into())), Some(1));
    assert_eq!(select_snapshot(&snaps, &Some("zzz".into())), Some(0));
    assert_eq!(select_snapshot(&snaps, &None), Some(0));
    assert_eq!(select_snapshot(&Vec::new(), &None), None);
    assert_eq!(checkpoint_label(&snap("edit", -1700)), "edit @ -1700");
}

#[test]
fn path_filter_and_slashes() {
    assert!(path_passes_filter("src/a.rs", &Some(vec!["lib".into(), "a.rs".into()])));
    assert!(!path_passes_filter("src/a.rs", &Some(vec!["x".into()])));
    assert!(path_passes_filter("src/a.rs", &None));
    assert_eq!(to_forward_slashes("a\\b\\c"), "a/b/c");
}

#[test]
fn diff_since_checkpoint_answers() {
    let none = no_checkpoint_result();
    assert_eq!(none.status, "NO_CHECKPOINT");
    assert!(none.checkpoint_label.is_none());
    let lines = vec![
        DiffLine { kind: DiffLineKind::Ctx, content: "x\n".into() },
        DiffLine { kind: DiffLineKind::Del, content: "y\n".into() },
        DiffLine { kind: DiffLineKind::Add, content: "z\n".into() },
    ];
    assert_eq!(render_hunk(&lines), " x\n-y\n+z\n");
    let unchanged = DiffResult { summary: DiffSummary { total_added: 0, total_removed: 0 }, hunks: Vec::new() };
    let r0 = diff_result("edit @ 1".into(), "src/a.rs".into(), &unchanged);
    assert_eq!(r0.status, "ok");
    assert_eq!(r0.total_files, 0);
    let changed = DiffResult { summary: DiffSummary { total_added: 1, total_removed: 1 }, hunks: vec![DiffHunk { lines }] };
    let r1 = diff_result("edit @ 1".into(), "src/a.rs".into(), &changed);
    assert_eq!(r1.total_files, 1);
    assert_eq!(r1.files[0].hunks, vec![" x\n-y\n+z\n".to_string()]);
    assert_eq!((r1.total_added, r1.total_removed), (1, 1));
}

#[test]
fn environment_description() {
    assert_eq!(codepage_name(936), "GBK");
    assert_eq!(codepage_name(65001), "UTF-8");
    assert_eq!(codepage_name(1252), "CP1252");
    assert_eq!(windows_os_string(Some((10, 0, 19045))), "Windows 10.0 (19045)");
    assert_eq!(windows_os_string(None), "Windows");
    assert_eq!(free_mb(5 * 1024 * 1024 + 7), 5);
    let r = run_env_info(EnvFacts {
        os: "linux".into(),
        arch: "x86_64".into(),
        workspace: "/w".into(),
        codepage: 932,
        windows: false,
        volume_kind: None,
        disk_free_mb: None,
        rust_analyzer_available: false,
        git_available: true,
        version: "0.1.0".into(),
    });
    assert_eq!(r.kind, "success");
    assert_eq!(r.codepage_name, "Shift-JIS");
    assert_eq!(r.line_ending, "LF");
    assert_eq!(r.volume_kind, "Unknown");
    assert_eq!(r.disk_free_mb, 0);
}

#[test]
fn protocol_errors_are_parameter_errors() {
    assert!(is_protocol_error(&ToolError::MissingParameter { missing: "x".into(), hint: "h".into() }));
    assert!(is_protocol_error(&ToolError::InvalidRegex { pattern: "(".into(), message: "m".into(), hint: "h".into() }));
    assert!(!is_protocol_error(&ToolError::IoError { message: "m".into() }));
}

#[test]
fn outline_and_preview() {
    assert_eq!(outline_depth(None), 1);
    assert_eq!(outline_depth(Some(5)), 2);
    assert_eq!(outline_depth(Some(0)), 0);
    let p = FileOutlineParams { path: "a.rs".into(), depth: None };
    match run_file_outline(p, None, "rust".into(), Vec::new(), 0) {
        Err(ToolError::FileNotFound { file_path, .. }) => assert_eq!(file_path, "a.rs"),
        _ => panic!("expected FileNotFound"),
    }
    let p2 = FileOutlineParams { path: "a.rs".into(), depth: Some(1) };
    let o = run_file_outline(p2, Some("a\nb\n"), "rust".into(), Vec::new(), 12).ok().unwrap();
    assert_eq!((o.total_lines, o.token_estimate), (2, 12));
    let pe = PreviewEditParams { file_path: "a.rs".into(), old_string: "b".into(), new_string: "c".into(), replace_all: None };
    let none = MatchFallback { normalized: None, unicode_hints: Vec::new() };
    let applied = run_preview_edit(&pe, Some("a b a"), &none).ok().unwrap();
    assert_eq!(applied.new_content, "a c a");
    let diff = DiffResult { summary: DiffSummary { total_added: 1, total_removed: 1 }, hunks: Vec::new() };
    let res = preview_edit_result(&applied, diff, true);
    assert!(res.would_apply && res.syntax_valid_after);
    assert_eq!(res.replacements, 1);
    assert_eq!((res.match_kind.as_str(), res.diff.summary.total_added), ("exact", 1));
    assert!(matches!(run_preview_edit(&pe, Some("b b"), &none), Err(ToolError::MultipleMatches { count: 2, .. })));
    assert!(matches!(run_preview_edit(&pe, None, &none), Err(ToolError::FileNotFound { .. })));
    assert!(matches!(run_preview_edit(&pe, Some("nothing here"), &none), Err(ToolError::StringNotFound { .. })));
    let tab = PreviewEditParams { file_path: "a.rs".into(), old_string: "\tb".into(), new_string: "c".into(), replace_all: None };
    let spaced = MatchFallback { normalized: Some("    b".into()), unicode_hints: Vec::new() };
    let t = run_preview_edit(&tab, Some("a\n    b\n"), &spaced).ok().unwrap();
    assert_eq!((t.new_content.as_str(), t.match_kind.as_str()), ("a\nc\n", "tab_normalized"));
}

#[test]
fn rename_checks_and_result() {
    let p = FileRenameParams { old_path: "a.rs".into(), new_path: "b.rs".into() };
    assert!(check_rename(&p, true, false).is_ok());
    assert!(matches!(check_rename(&p, false, false), Err(ToolError::FileNotFound { .. })));
    match check_rename(&p, true, true) {
        Err(ToolError::IoError { message }) => assert_eq!(message, "Destination already exists: b.rs"),
        _ => panic!("expected IoError"),
    }
    let r = file_rename_result(p, 1700000000123);
    assert_eq!(r.checkpoint_id, "1700000000123");
    assert_eq!(r.kind, "success");
}

#[test]
fn git_diff_file_answer() {
    let p = GitDiffFileParams { path: "src\\a.rs".into(), base: None, staged: None };
    assert!(diff_new_side(&p, true) == DiffNewSide::WorkingTree);
    assert!(diff_new_side(&p, false) == DiffNewSide::Empty);
    let staged = GitDiffFileParams { path: "x".into(), base: Some("main".into()), staged: Some(true) };
    assert!(diff_new_side(&staged, true) == DiffNewSide::Index);
    let d = DiffResult { summary: DiffSummary { total_added: 0, total_removed: 0 }, hunks: Vec::new() };
    let r = run_git_diff_file(p, "src\\a.rs", d);
    assert_eq!(r.path, "src/a.rs");
    assert_eq!(r.base, "HEAD");
    assert!(!r.staged);
}

#[test]
fn notify_checks_and_answers() {
    assert!(matches!(check_notify_message("  "), Err(ToolError::MissingParameter { .. })));
    assert!(check_notify_message("hi").is_ok());
    assert_eq!(notify_title(&None), "seeyue-mcp");
    assert_eq!(notify_result("m".into(), "info".into(), false, "toast").kind, "error");
    assert_eq!(notify_result("m".into(), "info".into(), true, "fallback").kind, "fallback");
    assert_eq!(notify_result("m".into(), "info".into(), true, "toast").kind, "sent");
}

#[test]
fn error_reports() {
    let p = OnErrorParams {
        tool: " ".into(),
        error: "e".into(),
        error_kind: None,
        path: None,
        notify: None,
        node_id: None,
        run_id: None,
    };
    assert!(matches!(on_error_kind(&p), Err(ToolError::MissingParameter { .. })));
    let q = OnErrorParams { tool: "edit".into(), ..p };
    assert_eq!(on_error_kind(&q).ok().unwrap(), "unknown");
    assert_eq!(build_suggestions("io", "edit")[1], "Use read_file first to verify the file exists.");
    assert_eq!(build_suggestions("weird", "edit")[0], "Review the full error message from edit and retry.");
    let r = on_error_result("edit".into(), "lsp".into(), true, false);
    assert_eq!(r.kind, "recorded");
    assert_eq!(r.suggestions.len(), 2);
    let long = "x".repeat(130);
    assert_eq!(error_toast_body("edit", &long), format!("edit: {}", "x".repeat(120)));
    assert_eq!(error_toast_body("edit", "short"), "edit: short");
}

#[test]
fn opening_in_an_editor() {
    assert!(check_editor_path(" ").is_err());
    let p = OpenInEditorParams { path: "src/a.rs".into(), line: Some(3), column: None, editor: None };
    assert_eq!(goto_arg("/w/src/a.rs", Some(3), None), "/w/src/a.rs:3:1");
    assert_eq!(goto_arg("/w/src/a.rs", None, Some(9)), "/w/src/a.rs");
    let (cmd, label) = resolve_editor("auto", false, true).ok().unwrap();
    assert_eq!((cmd.as_str(), label.as_str()), ("code", "VS Code"));
    let (cmd2, _) = resolve_editor("cursor", false, false).ok().unwrap();
    assert_eq!(cmd2, "cursor");
    assert!(matches!(resolve_editor("auto", false, false), Err(ToolError::IoError { .. })));
    let r = editor_opened(&p, "code", "VS Code".into(), "/w/src/a.rs:3:1");
    assert_eq!(r.command, "code --goto /w/src/a.rs:3:1");
    assert_eq!(editor_not_found(&p).kind, "not_found");
}

fn js(x: &str) -> Json {
    Json::Str(x.into())
}

fn request(id: &str, status: &str, created: &str) -> Json {
    Json::Object(vec![
        ("interaction_id".into(), js(id)),
        ("kind".into(), js("approval")),
        ("status".into(), js(status)),
        ("title".into(), js("t")),
        ("created_at".into(), js(created)),
    ])
}

#[test]
fn listing_interactions() {
    let objs = vec![
        request("ix-1", "pending", "2026-01-01"),
        request("ix-2", "resolved", "2026-01-03"),
        request("ix-3", "pending", "2026-01-02"),
        Json::Null,
    ];
    let r = run_list_interactions(&ListInteractionsParams { status: None }, &objs);
    let ids: Vec<&str> = r.items.iter().map(|i| i.interaction_id.as_str()).collect();
    assert_eq!(ids, vec!["ix-3", "ix-1"]);
    assert_eq!(r.kind, "list");
    let all = run_list_interactions(&ListInteractionsParams { status: Some("all".into()) }, &objs);
    let ids2: Vec<&str> = all.items.iter().map(|i| i.interaction_id.as_str()).collect();
    assert_eq!(ids2, vec!["ix-2", "ix-3", "ix-1", ""]);
}

#[test]
fn interaction_ids_and_files() {
    assert!(check_interaction_id("ix-20260318-001").is_ok());
    match check_interaction_id("../x") {
        Err(ToolError::IoError { message }) => assert_eq!(message, "invalid interaction_id: '../x'"),
        _ => panic!("expected IoError"),
    }
    assert_eq!(interaction_file_name("ix-1"), "ix-1.json");
    assert_eq!(read_interaction_result(None).kind, "not_found");
    assert!(read_interaction_result(Some(Json::Null)).found);
    assert!(resolve_interaction_result("ix-1".into(), "/r/ix-1.json".into()).resolved);
}

#[test]
fn active_interaction_summary_defaults() {
    match read_active_interactions(ActiveFile::Missing) {
        Json::Object(es) => {
            assert_eq!(es.len(), 4);
            assert_eq!(es[1].0, "pending_count");
            assert!(matches!(&es[1].1, Json::Number(JsonNumber { as_u64: Some(0), .. })));
        }
        _ => panic!("expected an object"),
    }
    match read_active_interactions(ActiveFile::NotJson) {
        Json::Object(es) => assert_eq!(es[4].0, "_parse_error"),
        _ => panic!("expected an object"),
    }
}

#[test]
fn rewind_answers() {
    assert_eq!(rewind_message(&Vec::new()), "No checkpoints to rewind.");
    assert_eq!(rewind_message(&vec!["a.rs".to_string()]), "Rewound 1 file(s):\n  - a.rs");
    assert_eq!(
        rewind_message(&vec!["b.rs".to_string(), "a.rs".to_string()]),
        "Rewound 2 file(s):\n  - b.rs\n  - a.rs"
    );
}
