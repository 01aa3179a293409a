use seeyue_mcp::edit::MatchFallback;
use seeyue_mcp::error::ToolError;
use seeyue_mcp::multi_file_edit::{
    apply_file_edits, check_edit_sets, count_newlines, file_edit_outcome, file_edits_reportable, lines_changed,
    multi_file_edit_checkpoint_id, multi_file_edit_result, plan_multi_file_edit, FileEditItem, FileEditSet, MultiFileEditParams,
};
use seeyue_mcp::json::Json;
use seeyue_mcp::progress::{
    active_node_label, collect_task_nodes, phase_node_stats, node_stats, run_progress_report, scan_journal, JournalLine, NodeProgress, ProgressReportParams,
    SessionSnapshot,
};
use seeyue_mcp::symbols::{find_enclosing_symbol, reference_entry, OverviewSymbol};

fn node(status: Option<&str>) -> NodeProgress {
    NodeProgress { id: None, name: None, status: status.map(|s| s.to_string()), phase_id: None, phase_name: None }
}

fn line(run: &str, event: &str, path: Option<&str>) -> JournalLine {
    JournalLine { run_id: run.into(), event: event.into(), payload_path: path.map(|p| p.to_string()) }
}

fn session() -> SessionSnapshot {
    SessionSnapshot {
        run_id: Some("r1".into()),
        phase_id: Some("build".into()),
        phase_name: None,
        phase_status: Some("active".into()),
        node_id: Some("n2".into()),
        node_name: None,
        node_status: Some("in_progress".into()),
    }
}

#[test]
fn progress_of_a_session() {
    let nodes = vec![node(Some("completed")), node(Some("done")), node(Some("pending")), node(None)];
    assert_eq!(node_stats(&nodes), (4, 2, 2));
    let lines = vec![
        line("r1", "write_recorded", Some("a.rs")),
        line("r0", "write_recorded", Some("x.rs")),
        line("", "write_recorded", Some("a.rs")),
        line("r1", "tool_call", None),
        line("r1", "write_recorded", Some("b.rs")),
    ];
    let (files, counts) = scan_journal(&lines, &Some("r1".into()));
    assert_eq!(files, vec!["a.rs", "b.rs"]);
    assert_eq!(counts, vec![("write_recorded".to_string(), 3), ("tool_call".to_string(), 1)]);
    assert_eq!(active_node_label(&session()).as_deref(), Some("n2 (in_progress)"));
    let p = ProgressReportParams { phase: None, notify: false };
    let r = run_progress_report(&p, Some(&session()), &nodes, &lines).ok().unwrap();
    assert_eq!(r.kind, "success");
    assert_eq!(r.phase.as_deref(), Some("build"));
    assert_eq!(r.summary, "Phase 'build' — 2/4 nodes completed (50%). Active: n2 (in_progress). Files written: 2.");
    let none = run_progress_report(&p, None, &nodes, &lines).ok().unwrap();
    assert_eq!((none.kind.as_str(), none.summary.as_str()), ("no_session", "No active session."));
}

fn nones(n: usize) -> Vec<MatchFallback> {
    (0..n).map(|_| MatchFallback { normalized: None, unicode_hints: Vec::new() }).collect()
}

fn item(old: &str, new: &str) -> FileEditItem {
    FileEditItem { old_string: old.into(), new_string: new.into(), replace_all: None }
}

#[test]
fn multi_file_edits() {
    let empty = MultiFileEditParams { edits: Vec::new(), verify_syntax: None };
    assert!(matches!(check_edit_sets(&empty), Err(ToolError::MissingParameter { .. })));
    assert_eq!(apply_file_edits("a.rs", "one two", &vec![item("one", "1"), item("two", "2")], &nones(2)).ok().unwrap(), "1 2");
    assert_eq!(apply_file_edits("a.rs", "anything", &vec![item("", "whole")], &nones(1)).ok().unwrap(), "whole");
    match apply_file_edits("a.rs", "one two", &vec![item("one", "1"), item("zzz", "2")], &nones(2)) {
        Err(ToolError::EditFailed { edit_index, file_state, .. }) => {
            assert_eq!(edit_index, 1);
            assert_eq!(file_state, "unchanged (validation phase)");
        }
        _ => panic!("expected EditFailed"),
    }
    let retry = vec![MatchFallback { normalized: None, unicode_hints: Vec::new() }, MatchFallback {
        normalized: Some("two".into()),
        unicode_hints: Vec::new(),
    }];
    assert_eq!(apply_file_edits("a.rs", "one two", &vec![item("one", "1"), item("\ttwo", "2")], &retry).ok().unwrap(), "1 2");
    assert_eq!(count_newlines("a\nb\n"), 2);
    assert_eq!(lines_changed("a\n", "a\nb\nc\n"), 2);
    assert_eq!(lines_changed("a\nb\n", "a"), -2);
    let params = MultiFileEditParams {
        edits: vec![
            FileEditSet { file_path: "a.rs".into(), edits: vec![item("x", "y"), item("y", "z")] },
            FileEditSet { file_path: "b.rs".into(), edits: vec![item("x", "y")] },
        ],
        verify_syntax: None,
    };
    assert!(check_edit_sets(&params).is_ok());
    let o = file_edit_outcome(&params, "a.rs", "x\n", "z\n", Some(true));
    assert_eq!((o.edits_applied, o.lines_changed), (2, 0));
    assert_eq!(multi_file_edit_checkpoint_id(1700000000123), "multi_file_edit_1700000000123");
    let r = multi_file_edit_result(vec![o], "cp1".into());
    assert_eq!((r.status.as_str(), r.files_modified), ("ok", 1));
}

fn sym(name: &str, start: usize, end: usize, children: Vec<OverviewSymbol>) -> OverviewSymbol {
    OverviewSymbol { name: name.into(), kind: "function".into(), start_line: start, end_line: end, children }
}

#[test]
fn enclosing_symbols() {
    let syms = vec![sym("A", 1, 10, vec![sym("inner", 3, 5, vec![])]), sym("B", 12, 20, vec![])];
    assert_eq!(find_enclosing_symbol(&syms, 4, None).as_deref(), Some("A/inner"));
    assert_eq!(find_enclosing_symbol(&syms, 7, None).as_deref(), Some("A"));
    assert_eq!(find_enclosing_symbol(&syms, 11, None), None);
    let r = reference_entry(&syms, "src/a.rs", 13, Some("l1\nl2\nl3\nl4\nl5\nl6\nl7\nl8\nl9\nl10\nl11\nl12\n   call(x)  \n"));
    assert_eq!((r.name_path.as_str(), r.snippet.as_str()), ("B", "call(x)"));
    let z = reference_entry(&syms, "src/a.rs", 0, Some("  first  \nsecond\n"));
    assert_eq!((z.name_path.as_str(), z.snippet.as_str()), ("<file>", "first"));
    let f = reference_entry(&syms, "src/a.rs", 11, None);
    assert_eq!((f.name_path.as_str(), f.snippet.as_str()), ("<file>", ""));
}

fn two_files() -> MultiFileEditParams {
    MultiFileEditParams {
        edits: vec![
            FileEditSet { file_path: "a.rs".into(), edits: vec![item("one", "1")] },
            FileEditSet { file_path: "b.rs".into(), edits: vec![item("two", "2"), item("2", "II")] },
        ],
        verify_syntax: None,
    }
}

#[test]
fn a_plan_covers_every_file_or_none() {
    let params = two_files();
    let ok = plan_multi_file_edit(&params, vec![Ok("one\n".into()), Ok("two\n".into())], &vec![nones(1), nones(2)]);
    assert_eq!(ok.unwrap().ok().unwrap(), vec!["1\n".to_string(), "II\n".to_string()]);
    match plan_multi_file_edit(&params, vec![Ok("one\n".into()), Ok("three\n".into())], &vec![nones(1), nones(2)]) {
        Some(Err(ToolError::EditFailed { edit_index, hint, .. })) => {
            assert_eq!(edit_index, 0);
            assert_eq!(hint, "Validation failed for b.rs edit #0: No files were modified.");
        }
        _ => panic!("expected the failure of the second file"),
    }
    let missing = ToolError::FileNotFound { file_path: "a.rs".into(), hint: "File must exist before multi_file_edit.".into() };
    match plan_multi_file_edit(&params, vec![Err(missing), Ok("zzz".into())], &vec![nones(1), nones(2)]) {
        Some(Err(ToolError::FileNotFound { file_path, .. })) => assert_eq!(file_path, "a.rs"),
        _ => panic!("expected the read failure of the first file"),
    }
}

#[test]
fn ambiguous_newline_matches_cannot_be_planned() {
    let nl = vec![item("\nx", "y")];
    assert!(!file_edits_reportable("\nx\nx", &nl, &nones(1)));
    assert!(file_edits_reportable("\nx", &nl, &nones(1)));
    assert!(file_edits_reportable("ab ab", &vec![item("ab", "c")], &nones(1)));
    let params = MultiFileEditParams {
        edits: vec![FileEditSet { file_path: "a.rs".into(), edits: nl }],
        verify_syntax: None,
    };
    assert!(plan_multi_file_edit(&params, vec![Ok("\nx\nx".into())], &vec![nones(1)]).is_none());
}

fn jstr(x: &str) -> Json {
    Json::Str(x.to_string())
}

fn jobj(es: Vec<(&str, Json)>) -> Json {
    Json::Object(es.into_iter().map(|(k, v)| (k.to_string(), v)).collect())
}

#[test]
fn a_phase_report_counts_only_that_phase() {
    let graph = jobj(vec![(
        "phases",
        Json::Array(vec![
            jobj(vec![
                ("id", jstr("p1")),
                ("nodes", Json::Array(vec![jobj(vec![("id", jstr("a")), ("status", jstr("completed"))])])),
            ]),
            jobj(vec![
                ("id", jstr("p2")),
                ("nodes", Json::Array(vec![jobj(vec![("id", jstr("b")), ("status", jstr("pending"))])])),
            ]),
        ]),
    )]);
    let nodes = collect_task_nodes(&graph);
    assert_eq!(nodes.len(), 2);
    assert_eq!((nodes[0].id.as_deref(), nodes[0].phase_id.as_deref()), (Some("a"), Some("p1")));
    assert_eq!(phase_node_stats(&nodes, &None), (2, 1, 1));
    let p = ProgressReportParams { phase: Some("p1".into()), notify: false };
    let r = run_progress_report(&p, Some(&session()), &nodes, &Vec::new()).ok().unwrap();
    assert_eq!(r.phase.as_deref(), Some("p1"));
    assert_eq!((r.nodes_total, r.nodes_completed, r.nodes_pending), (1, 1, 0));
    let root = jobj(vec![("nodes", Json::Array(vec![jobj(vec![("name", jstr("x"))])]))]);
    let rn = collect_task_nodes(&root);
    assert_eq!((rn.len(), rn[0].name.as_deref(), rn[0].phase_id.is_none()), (1, Some("x"), true));
}
