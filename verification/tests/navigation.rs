use seeyue_mcp::completion::{
    builtin_param_completions, complete_values, description_completions, resource_completions, CompletionRef,
};
use seeyue_mcp::definition::{
    extension_for_language, extract_symbol_at, find_definition_result, grep_fallback_query, lsp_definition, preview_line,
    FindDefinitionParams,
};
use seeyue_mcp::find_symbol::{
    extract_lines, run_find_symbol, symbol_to_overview, symbols_overview, FindSymbolParams, ScannedFile, SourceSymbol,
};
use seeyue_mcp::insert_symbol::{insert_at_symbol, insert_lines, InsertPosition, InsertSymbolParams};
use seeyue_mcp::symbols::{GetSymbolsOverviewResult, OverviewSymbol};

#[test]
fn symbol_under_cursor() {
    assert_eq!(extract_symbol_at("let foo_bar = 1;", 1, 6).as_deref(), Some("foo_bar"));
    assert_eq!(extract_symbol_at("x\nfoo + bar", 2, 4).as_deref(), Some("foo"));
    assert_eq!(extract_symbol_at("a  b", 1, 3), None);
    assert_eq!(extract_symbol_at("abc", 1, 10).as_deref(), Some("abc"));
    assert_eq!(extract_symbol_at("abc", 0, 0).as_deref(), Some("abc"));
    assert_eq!(extract_symbol_at("abc", 4, 1), None);
    assert_eq!(extract_symbol_at("\nabc", 1, 1), None);
    assert_eq!(extract_symbol_at("é_x", 1, 1), None);
    assert_eq!(extract_symbol_at("é_x", 1, 3).as_deref(), Some("_x"));
}

#[test]
fn extensions_and_grep_fallback() {
    assert_eq!(extension_for_language("rust").as_deref(), Some("rs"));
    assert_eq!(extension_for_language("jsx").as_deref(), Some("jsx"));
    assert_eq!(extension_for_language("java"), None);
    assert!(grep_fallback_query("  ", "rust").is_none());
    let (pat, glob) = grep_fallback_query("foo", "rust").unwrap();
    assert_eq!(pat, "foo");
    assert_eq!(glob.as_deref(), Some("**/*.rs"));
    let (_, none) = grep_fallback_query("foo", "cobol").unwrap();
    assert!(none.is_none());
}

#[test]
fn preview_lines() {
    assert_eq!(preview_line("a  \nb\t\n", 1), "a");
    assert_eq!(preview_line("a  \nb\t\n", 0), "a");
    assert_eq!(preview_line("a  \nb\t\n", 2), "b");
    assert_eq!(preview_line("a  \nb\t\n", 5), "");
    let d = lsp_definition("src/x.rs".into(), 2, 4, Some("one\n  two  \n"));
    assert_eq!(d.preview, "  two");
    assert_eq!(d.source.as_deref(), Some("lsp"));
    let unread = lsp_definition("src/y.rs".into(), 1, 1, None);
    assert_eq!(unread.preview, "");
}

#[test]
fn definition_result_names_the_symbol() {
    let p = FindDefinitionParams { path: "a.rs".into(), line: 1, column: 2 };
    let r = find_definition_result("run(x)", &p, Vec::new());
    assert_eq!(r.kind, "success");
    assert_eq!(r.symbol, "run");
    let q = FindDefinitionParams { path: "a.rs".into(), line: 1, column: 1 };
    assert_eq!(find_definition_result("  ", &q, Vec::new()).symbol, "");
}

#[test]
fn builtin_and_resource_completions() {
    assert_eq!(builtin_param_completions("linter", "e"), vec!["eslint"]);
    assert_eq!(builtin_param_completions("language", "c"), vec!["c", "cpp"]);
    assert!(builtin_param_completions("other", "").is_empty());
    assert_eq!(resource_completions("mem"), vec!["memory://index"]);
    assert_eq!(resource_completions("workflow://s"), vec!["workflow://session"]);
    assert_eq!(resource_completions("").len(), 8);
}

#[test]
fn description_lists_choices_after_one_of() {
    assert_eq!(description_completions("Mode, one of: fast | Slow |  | safe", "s"), vec!["Slow", "safe"]);
    assert_eq!(description_completions("a one of: x|y one of: z", ""), vec!["x", "y"]);
    assert!(description_completions("no choices here", "").is_empty());
}

#[test]
fn completion_by_reference() {
    let names = vec!["abc".to_string(), "Abd".to_string(), "x".to_string()];
    assert_eq!(complete_values(CompletionRef::Prompt, "skill", "AB", &names, None), vec!["abc", "Abd"]);
    assert_eq!(complete_values(CompletionRef::Prompt, "language", "PY", &names, None), vec!["python"]);
    assert_eq!(complete_values(CompletionRef::Prompt, "mode", "", &names, Some("one of: a|b")), vec!["a", "b"]);
    assert_eq!(complete_values(CompletionRef::Resource, "uri", "WORKSPACE", &names, None), vec!["workspace://errors"]);
    let many: Vec<String> = (0..30).map(|i| format!("s{}", i)).collect();
    assert_eq!(complete_values(CompletionRef::Prompt, "name", "s", &many, None).len(), 20);
}

fn sym(name: &str, start: usize, end: usize, children: Vec<OverviewSymbol>) -> OverviewSymbol {
    OverviewSymbol { name: name.into(), kind: "function".into(), start_line: start, end_line: end, children }
}

fn scanned(content: Option<&str>) -> ScannedFile {
    ScannedFile {
        file: "src/session.rs".into(),
        overview: GetSymbolsOverviewResult {
            kind: "success".into(),
            source: "syntax".into(),
            symbols: vec![
                sym("UserSession", 1, 8, vec![sym("validate", 2, 3, vec![]), sym("save", 4, 6, vec![])]),
                sym("validate", 10, 11, vec![]),
            ],
        },
        content: content.map(|c| c.to_string()),
    }
}

fn params(p: &str, substring: bool, body: bool) -> FindSymbolParams {
    FindSymbolParams {
        name_path_pattern: p.into(),
        relative_path: None,
        substring_matching: Some(substring),
        include_body: Some(body),
        depth: None,
    }
}

#[test]
fn find_symbol_by_name_and_path() {
    let files = vec![scanned(None)];
    let r = run_find_symbol(&params("validate", false, false), &files);
    let paths: Vec<&str> = r.matches.iter().map(|m| m.name_path.as_str()).collect();
    assert_eq!(paths, vec!["UserSession/validate", "validate"]);
    let r2 = run_find_symbol(&params("UserSession/validate", false, false), &files);
    assert_eq!(r2.matches.len(), 1);
    assert_eq!(r2.matches[0].start_line, 2);
    let r3 = run_find_symbol(&params("Session", true, false), &files);
    let paths3: Vec<&str> = r3.matches.iter().map(|m| m.name_path.as_str()).collect();
    assert_eq!(paths3, vec!["UserSession", "UserSession/validate", "UserSession/save"]);
    assert!(run_find_symbol(&params("nothing", false, false), &files).matches.is_empty());
}

#[test]
fn find_symbol_with_bodies() {
    let content = "struct UserSession {\n fn validate() {\n }\n fn save() {\n }\n}\n}\n}\n\nfn validate() {\n}\n";
    let files = vec![scanned(Some(content))];
    let r = run_find_symbol(&params("save", false, true), &files);
    assert_eq!(r.matches.len(), 1);
    assert_eq!(r.matches[0].body.as_deref(), Some(" fn save() {\n }\n}"));
    assert_eq!(r.matches[0].source, "syntax");
    let no_body = run_find_symbol(&params("save", false, false), &files);
    assert!(no_body.matches[0].body.is_none());
}

#[test]
fn extracting_line_ranges() {
    assert_eq!(extract_lines("a\nb\nc\n", 2, 3), "b\nc");
    assert_eq!(extract_lines("a\nb\nc\n", 0, 1), "a");
    assert_eq!(extract_lines("a\nb\nc\n", 5, 9), "");
    assert_eq!(extract_lines("a\nb\nc\n", 3, 2), "");
}

fn src_sym(name: &str, children: Vec<SourceSymbol>) -> SourceSymbol {
    SourceSymbol { name: name.into(), kind: "class".into(), start_line: 1, end_line: 2, children }
}

#[test]
fn overview_is_cut_to_depth() {
    let tree = src_sym("A", vec![src_sym("B", vec![src_sym("C", vec![])])]);
    let o0 = symbol_to_overview(&tree, 0, 0);
    assert!(o0.children.is_empty());
    let o1 = symbol_to_overview(&tree, 1, 0);
    assert_eq!(o1.children.len(), 1);
    assert!(o1.children[0].children.is_empty());
    let all = symbols_overview(true, &vec![tree], Some(2));
    assert_eq!(all.source, "lsp");
    assert_eq!(all.symbols[0].children[0].children[0].name, "C");
    let none = symbols_overview(false, &vec![src_sym("A", vec![src_sym("B", vec![])])], None);
    assert_eq!(none.source, "syntax");
    assert!(none.symbols[0].children.is_empty());
}

#[test]
fn inserting_lines() {
    assert_eq!(insert_lines("a\nb\nc\n", "X\nY", 1), "a\nX\nY\nb\nc\n");
    assert_eq!(insert_lines("a\nb\nc\n", "X", 5), "a\nb\nc\nX\n");
    assert_eq!(insert_lines("a\nb", "X", 0), "X\na\nb");
}

#[test]
fn insert_before_and_after_a_symbol() {
    let content = "l1\nl2\nl3\nl4\nl5\nl6\nl7\nl8\nl9\nl10\nl11\n";
    let p = InsertSymbolParams { name_path: "UserSession/save".into(), relative_path: "src/session.rs".into(), content: "NEW".into() };
    let (text, res) = insert_at_symbol(&p, InsertPosition::After, scanned(None), content).ok().unwrap();
    assert_eq!(res.insert_line, 7);
    assert_eq!(text, "l1\nl2\nl3\nl4\nl5\nl6\nNEW\nl7\nl8\nl9\nl10\nl11\n");
    let (text2, res2) = insert_at_symbol(&p, InsertPosition::Before, scanned(None), content).ok().unwrap();
    assert_eq!(res2.insert_line, 4);
    assert_eq!(text2, "l1\nl2\nl3\nNEW\nl4\nl5\nl6\nl7\nl8\nl9\nl10\nl11\n");
    let missing = InsertSymbolParams { name_path: "Nope".into(), relative_path: "src/session.rs".into(), content: "x".into() };
    match insert_at_symbol(&missing, InsertPosition::After, scanned(None), content) {
        Err(seeyue_mcp::error::ToolError::FileNotFound { file_path, hint }) => {
            assert_eq!(file_path, "Nope");
            assert_eq!(hint, "Symbol 'Nope' not found in 'src/session.rs'");
        }
        _ => panic!("expected FileNotFound"),
    }
}
