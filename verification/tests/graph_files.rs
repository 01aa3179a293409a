use seeyue_mcp::call_hierarchy::{call_hierarchy_result, call_hierarchy_setup, call_patterns, scan_file, CallHierarchyParams, CallScan};
use seeyue_mcp::compact_journal::{add_session_note, archive_name, compact_journal_result, compact_plan, summary_line, CompactJournalParams};
use seeyue_mcp::error::ToolError;
use seeyue_mcp::file_tree::{
    batch_read_result, check_batch, check_tree, create_file_tree_result, error_entry, node_outcome, plan_node, read_entry,
    BatchReadParams, CreateFileTreeParams, FileNodeOutcome, NodePlan,
};
use seeyue_mcp::find_files::{add_match, find_files_result, find_files_setup, format_modified_ago, FindFilesParams, FindScan};
use seeyue_mcp::graph::{
    extension_of, js_import_specifiers, lookup_language, python_module_file, python_module_files, run_dependency_graph,
    rust_module_names, DependencyGraphParams, ImportEntry,
};
use seeyue_mcp::interaction::run_probe_interaction_capability;
use seeyue_mcp::project_index::{files_to_rebuild, flatten_symbols, index_timestamp, FileEntry, IndexEntry, ProjectIndex};
use seeyue_mcp::symbols::OverviewSymbol;

#[test]
fn import_extraction() {
    let js = "import a from './a';\nconst b = require( \"../b\" );\nimport c from 'lib';\n";
    assert_eq!(js_import_specifiers(js), vec!["./a", "../b"]);
    assert_eq!(rust_module_names("pub mod graph;\nmod text ;\n// mod no\nfn mod_x() {}\n"), vec!["graph", "text"]);
    assert_eq!(python_module_file("pkg.mod"), "pkg/mod.py");
    assert_eq!(python_module_files("from .utils.io import read\n"), vec!["utils/io.py"]);
    assert!(python_module_files("import os\nfrom .x import y\n").is_empty());
}

fn entry(f: &str, imports: &[&str]) -> ImportEntry {
    ImportEntry { file: f.into(), imports: imports.iter().map(|s| s.to_string()).collect() }
}

#[test]
fn dependency_graph_breadth_first() {
    let map = vec![entry("a", &["b", "c"]), entry("b", &["d"]), entry("c", &["d"]), entry("d", &["e"]), entry("e", &[])];
    let p = DependencyGraphParams { path: "a".into(), depth: None, direction: None };
    let r = run_dependency_graph(&p, "a", &map, &Vec::new()).ok().unwrap();
    assert_eq!(r.direction, "imports");
    assert_eq!((r.nodes[0].path.as_str(), r.nodes[0].depth), ("a", 0));
    assert!(r.nodes.windows(2).all(|w| w[0].depth <= w[1].depth));
    let mut nodes: Vec<(String, usize)> = r.nodes.iter().map(|n| (n.path.clone(), n.depth)).collect();
    nodes.sort();
    assert_eq!(nodes, vec![("a".into(), 0), ("b".into(), 1), ("c".into(), 1), ("d".into(), 2)]);
    assert_eq!(r.total_edges, 4);
    let d = r.nodes.iter().find(|n| n.path == "d").unwrap();
    assert_eq!(d.impact_count, 2);
    let back = DependencyGraphParams { path: "d".into(), depth: Some(1), direction: Some("imported_by".into()) };
    let rb = run_dependency_graph(&back, "d", &map, &Vec::new()).ok().unwrap();
    let mut ns: Vec<String> = rb.nodes.iter().map(|n| n.path.clone()).collect();
    ns.sort();
    assert_eq!(ns, vec!["b", "c", "d"]);
    for e in &rb.edges {
        assert_eq!(e.to, "d");
    }
    assert_eq!(rb.nodes.iter().find(|n| n.path == "d").unwrap().impact_count, 2);
}

#[test]
fn graph_nodes_carry_their_language() {
    assert_eq!(extension_of("src/main.rs"), "rs");
    assert_eq!(extension_of("a.b/c.tar.gz"), "gz");
    assert_eq!(extension_of("dir.x/Makefile"), "");
    assert_eq!(extension_of(".bashrc"), "");
    assert_eq!(extension_of("x."), "");
    let table = vec![("rs".to_string(), "rust".to_string()), ("py".to_string(), "python".to_string())];
    assert_eq!(lookup_language(&table, "py"), "python");
    assert_eq!(lookup_language(&table, "go"), "");
    let map = vec![entry("src/a.rs", &["lib/b.py"]), entry("lib/b.py", &[])];
    let p = DependencyGraphParams { path: "src/a.rs".into(), depth: None, direction: None };
    let r = run_dependency_graph(&p, "src/a.rs", &map, &table).ok().unwrap();
    let langs: Vec<(&str, &str)> = r.nodes.iter().map(|n| (n.path.as_str(), n.language.as_str())).collect();
    assert_eq!(langs, vec![("src/a.rs", "rust"), ("lib/b.py", "python")]);
}

#[test]
fn call_sites_in_a_file() {
    let p = CallHierarchyParams { symbol: "foo".into(), direction: None, limit: None, path: None };
    let (dir, limit) = call_hierarchy_setup(&p).ok().unwrap();
    assert_eq!((dir.as_str(), limit), ("callers", 50));
    assert!(matches!(
        call_hierarchy_setup(&CallHierarchyParams { symbol: " ".into(), direction: None, limit: None, path: None }),
        Err(ToolError::MissingParameter { .. })
    ));
    let (caller, callee) = call_patterns("foo").ok().unwrap();
    let content = "fn foo() {}\nlet x = foo(1);\n  foo (2)\nfoofoo(3)\n";
    let mut scan = CallScan { sites: Vec::new(), total: 0 };
    scan_file(&mut scan, "src/a.rs", content, &caller, &callee, "callers", 50);
    let got: Vec<(usize, &str)> = scan.sites.iter().map(|s| (s.line, s.preview.as_str())).collect();
    assert_eq!(got, vec![(2, "let x = foo(1);"), (3, "foo (2)")]);
    let mut defs = CallScan { sites: Vec::new(), total: 0 };
    scan_file(&mut defs, "src/a.rs", content, &caller, &callee, "callees", 50);
    assert_eq!(defs.sites.len(), 1);
    assert_eq!(defs.sites[0].kind, "callee");
    let mut capped = CallScan { sites: Vec::new(), total: 0 };
    scan_file(&mut capped, "src/a.rs", content, &caller, &callee, "both", 1);
    assert_eq!((capped.total, capped.sites.len()), (3, 1));
    let r = call_hierarchy_result("foo", "both".into(), 1, capped);
    assert!(r.truncated);
    assert!(call_patterns("a(b").is_ok());
}

#[test]
fn journal_compaction() {
    let content = "{\"event\":\"a\"}\n\n{\"event\":\"b\"}\n{\"event\":\"c\"}\n";
    let p = CompactJournalParams { max_entries: Some(2), summarize: false };
    let plan = compact_plan(&p, Some(content));
    assert_eq!(plan.total_before, 3);
    assert_eq!(plan.archived, vec!["{\"event\":\"a\"}"]);
    assert_eq!(plan.new_journal.as_deref(), Some("{\"event\":\"b\"}\n{\"event\":\"c\"}\n"));
    let r = compact_journal_result(&plan, "journal.archive-x.jsonl", true);
    assert_eq!((r.kind.as_str(), r.archived, r.retained), ("compacted", 1, 2));
    let small = compact_plan(&CompactJournalParams { max_entries: None, summarize: false }, Some(content));
    assert!(small.new_journal.is_none());
    assert_eq!(compact_journal_result(&small, "x", false).kind, "already_compact");
    assert_eq!(compact_plan(&p, None).total_before, 0);
    assert_eq!(archive_name("20260101"), "journal.archive-20260101.jsonl");
    let names = vec!["b".to_string(), "a".to_string(), "b".to_string()];
    assert_eq!(summary_line(3, "arc.jsonl", &names), "  - compact_journal: archived 3 events into arc.jsonl (a=1, b=2)");
    assert_eq!(add_session_note("x: 1\nnotes:\n  - old\n", "  - new"), "x: 1\nnotes:\n  - new\n  - old\n");
    assert_eq!(add_session_note("x: 1", "  - new"), "x: 1\nnotes:\n  - new\n");
}

#[test]
fn file_trees_and_batches() {
    let empty = CreateFileTreeParams { base_path: ".".into(), tree: Vec::new(), overwrite: None };
    assert!(matches!(check_tree(&empty), Err(ToolError::MissingParameter { .. })));
    assert!(matches!(plan_node("src/", false, false), NodePlan::CreateDir));
    assert!(matches!(plan_node("a.rs", true, false), NodePlan::Skip));
    assert!(matches!(plan_node("a.rs", true, true), NodePlan::Write { snapshot: true }));
    assert!(matches!(plan_node("a.rs", false, false), NodePlan::Write { snapshot: false }));
    assert_eq!(node_outcome("a.rs", &NodePlan::Write { snapshot: true }).action, "overwritten");
    // With overwrite on, a file that did not exist is created, not overwritten.
    let fresh = plan_node("new.rs", false, true);
    assert!(matches!(fresh, NodePlan::Write { snapshot: false }));
    assert_eq!(node_outcome("new.rs", &fresh).action, "created");
    assert_eq!(node_outcome("old.rs", &plan_node("old.rs", true, false)).action, "skipped");
    assert_eq!(node_outcome("d/", &plan_node("d/", true, true)).action, "created");
    let res = create_file_tree_result(
        vec![FileNodeOutcome { path: "a".into(), action: "skipped".into() }, FileNodeOutcome { path: "b".into(), action: "created".into() }],
        "cp".into(),
    );
    assert_eq!((res.created, res.skipped), (1, 1));
    assert!(check_batch(&BatchReadParams { paths: vec!["a".into()] }).is_ok());
    match check_batch(&BatchReadParams { paths: (0..21).map(|i| i.to_string()).collect() }) {
        Err(ToolError::MissingParameter { hint, .. }) => assert_eq!(hint, "Maximum 20 paths per request, got 21."),
        _ => panic!("expected MissingParameter"),
    }
    assert_eq!(read_entry("a", "héllo".into()).size, 6);
    assert_eq!(error_entry("a", "gone").error.as_deref(), Some("gone"));
    assert_eq!(batch_read_result(vec![read_entry("a", "x".into())], 3).total, 1);
}

#[test]
fn finding_files() {
    let p = FindFilesParams { pattern: "src/**/*.rs".into(), respect_gitignore: None, show_hidden: None, limit: Some(2) };
    let (m, limit, ignore, hidden) = find_files_setup(&p, true).ok().unwrap();
    assert_eq!(limit, 2);
    assert!(ignore && !hidden);
    assert!(m.matches("src/a/b.rs"));
    assert!(!m.matches("tests/b.rs"));
    let bad = FindFilesParams { pattern: "a[".into(), respect_gitignore: None, show_hidden: None, limit: None };
    assert!(matches!(find_files_setup(&bad, true), Err(ToolError::InvalidRegex { .. })));
    let blank = FindFilesParams { pattern: " ".into(), respect_gitignore: None, show_hidden: None, limit: None };
    assert!(matches!(find_files_setup(&blank, true), Err(ToolError::MissingParameter { .. })));
    assert_eq!(format_modified_ago(59), "59s");
    assert_eq!(format_modified_ago(7200), "2h");
    assert_eq!(format_modified_ago(700000), "1w");
    let mut scan = FindScan { files: Vec::new(), truncated: false };
    assert!(add_match(&mut scan, "src/a.rs", 10, Some(90), 1));
    assert!(!add_match(&mut scan, "src/b.rs", 10, None, 1));
    assert_eq!(scan.files[0].modified_ago, "1m");
    let r = find_files_result("src/**/*.rs".into(), scan);
    assert_eq!((r.kind.as_str(), r.total, r.truncated), ("success", 1, true));
}

fn sym(np: &str) -> IndexEntry {
    IndexEntry { name_path: np.into(), kind: "function".into(), line: 1 }
}

#[test]
fn project_index_queries() {
    let idx = ProjectIndex::build(
        index_timestamp(1700000000),
        "/w".into(),
        vec![
            ("a.rs".into(), FileEntry { mtime: 1, symbols: vec![sym("Session/validate"), sym("validated")] }),
            ("b.rs".into(), FileEntry { mtime: 2, symbols: vec![sym("validate")] }),
        ],
    );
    assert_eq!(idx.generated_at, "1700000000Z");
    let exact: Vec<String> = idx.query("validate", false).into_iter().map(|e| e.name_path).collect();
    assert_eq!(exact, vec!["Session/validate", "validate"]);
    assert_eq!(idx.query("valid", true).len(), 3);
    let mut stale = files_to_rebuild(&idx, &vec![("a.rs".into(), 1), ("b.rs".into(), 5), ("c.rs".into(), 1)]);
    stale.sort();
    assert_eq!(stale, vec!["b.rs", "c.rs"]);
}

#[test]
fn interaction_capability_probe() {
    let with = run_probe_interaction_capability(&Some("/bin/sy-interact".into())).ok().unwrap();
    assert_eq!(with.preferred_mode, "local_presenter");
    let without = run_probe_interaction_capability(&None).ok().unwrap();
    assert_eq!(without.preferred_mode, "text_fallback");
    assert!(!without.supports_elicitation);
}

fn osym(name: &str, kind: &str, line: usize, children: Vec<OverviewSymbol>) -> OverviewSymbol {
    OverviewSymbol { name: name.into(), kind: kind.into(), start_line: line, end_line: line + 1, children }
}

#[test]
fn symbol_trees_flatten_into_name_paths() {
    let tree = vec![
        osym("Server", "struct", 3, vec![osym("new", "method", 5, vec![]), osym("run", "method", 9, vec![])]),
        osym("main", "function", 20, vec![]),
    ];
    let flat = flatten_symbols(&tree, None);
    let got: Vec<(&str, &str, usize)> = flat.iter().map(|e| (e.name_path.as_str(), e.kind.as_str(), e.line)).collect();
    assert_eq!(
        got,
        vec![("Server", "struct", 3), ("Server/new", "method", 5), ("Server/run", "method", 9), ("main", "function", 20)]
    );
    let nested = flatten_symbols(&vec![osym("x", "fn", 1, vec![])], Some("mod"));
    assert_eq!(nested[0].name_path, "mod/x");
}

#[test]
fn compaction_loses_no_event() {
    let journal = "e1\n\ne2\ne3\r\ne4\n";
    let plan = compact_plan(&CompactJournalParams { max_entries: Some(2), summarize: false }, Some(journal));
    let kept: Vec<String> = plan.new_journal.as_deref().unwrap().lines().filter(|l| !l.trim().is_empty()).map(|l| l.to_string()).collect();
    let mut all = plan.archived.clone();
    all.extend(kept);
    let before: Vec<String> = journal.lines().filter(|l| !l.trim().is_empty()).map(|l| l.to_string()).collect();
    assert_eq!(all, before);
    assert_eq!(plan.total_before, 4);
}

#[test]
fn a_trailing_backslash_parses_only_where_it_does_not_escape() {
    let p = FindFilesParams { pattern: "a\\".into(), respect_gitignore: None, show_hidden: None, limit: None };
    assert!(matches!(find_files_setup(&p, true), Err(ToolError::InvalidRegex { .. })));
    assert!(find_files_setup(&p, false).is_ok());
}
