use seeyue_mcp::active_filter::{parse_active_tools_yaml, ActiveFilter, FilterResult};
use seeyue_mcp::dispatch::{route_exists, DispatchError};
use seeyue_mcp::edit::{
    apply_edit_in_memory, apply_multi_edit_in_memory, bool_from_text, check_edit_change, match_reportable, match_string,
    multi_edit_reportable, multi_match_reportable, run_edit_checks, run_multi_edit_checks, EditParams, MatchFallback, MultiEditParams, ReadEntry, SingleEdit,
};
use seeyue_mcp::error::ToolError;
use seeyue_mcp::locate::{find_match_locations, locations_reportable};
use seeyue_mcp::metadata::{registry, ToolMetadata};
use seeyue_mcp::schema::generate_tools_list;
use seeyue_mcp::search::{count_occurrences, replace_all_str, replacen_str};

#[test]
fn filter_allows_active_and_default_tools() {
    let f = ActiveFilter::new(Vec::new());
    assert_eq!(f.check("lint_file"), FilterResult::Allowed);
    assert_eq!(f.check("sy_rename_symbol"), FilterResult::Disabled);
    assert_eq!(f.check("no_such_tool"), FilterResult::Disabled);
    let g = ActiveFilter::new(vec!["sy_rename_symbol".to_string(), "no_such_tool".to_string()]);
    assert_eq!(g.check("sy_rename_symbol"), FilterResult::Allowed);
    assert_eq!(g.check("no_such_tool"), FilterResult::Allowed);
}

#[test]
fn capabilities_file_lists() {
    let mut inline = parse_active_tools_yaml("active_tools: [\"a\", 'b', c]\nother: 1\n");
    inline.sort();
    assert_eq!(inline, vec!["a", "b", "c"]);
    let mut block = parse_active_tools_yaml("x: 1\nactive_tools:\n  - sy_rename_symbol\n  # note\n  - \"b\"\n  - b\nnext: 2\n  - c\n");
    block.sort();
    assert_eq!(block, vec!["b", "sy_rename_symbol"]);
    assert!(parse_active_tools_yaml("nothing: here\n").is_empty());
}

#[test]
fn routes_and_registry() {
    assert!(route_exists("edit"));
    assert!(!route_exists("no_such_tool"));
    match DispatchError::method_not_found("zz") {
        DispatchError::MethodNotFound(m) => assert_eq!(m, "Tool 'zz' not found"),
        _ => panic!("expected MethodNotFound"),
    }
    assert!(ToolMetadata::get("memory_delete").unwrap().destructive);
    assert!(ToolMetadata::get("nope").is_none());
    assert!(ToolMetadata::is_active("lint_file", &Vec::new()));
    assert!(!registry().is_empty());
}

#[test]
fn tools_list_is_sorted_by_name() {
    let list = generate_tools_list();
    assert_eq!(list.len(), registry().len());
    for w in list.windows(2) {
        assert!(w[0].name <= w[1].name);
    }
    let edit = list.iter().find(|e| e.name == "memory_delete").unwrap();
    assert!(edit.destructive_hint);
}

#[test]
fn counting_and_replacing() {
    assert_eq!(count_occurrences("ab", "xxabyyabab"), 3);
    assert_eq!(count_occurrences("aa", "aaaa"), 2);
    assert_eq!(replace_all_str("a-b-c", "-", "+"), "a+b+c");
    assert_eq!(replacen_str("a-b-c", "-", "+", 1), "a+b-c");
    assert_eq!(replace_all_str("abc", "", "."), ".a.b.c.");
}

#[test]
fn match_locations_are_lines() {
    let locs = find_match_locations("foo", "foo\nbar foo\nbaz");
    let lines: Vec<usize> = locs.iter().map(|l| l.line).collect();
    assert_eq!(lines, vec![1, 2]);
    assert_eq!(locs[1].context, "bar foo");
}

#[test]
fn single_edit_in_memory() {
    let r = apply_edit_in_memory("foo", "bar", false, "a foo b", &none()).ok().unwrap();
    assert_eq!(r.new_content, "a bar b");
    assert_eq!(r.replacements, 1);
    assert_eq!(r.match_kind, "exact");
    let all = apply_edit_in_memory("foo", "x", true, "foo foo", &none()).ok().unwrap();
    assert_eq!((all.new_content.as_str(), all.replacements), ("x x", 2));
    match apply_edit_in_memory("foo", "x", false, "foo foo", &none()) {
        Err(ToolError::MultipleMatches { count, .. }) => assert_eq!(count, 2),
        _ => panic!("expected MultipleMatches"),
    }
    match apply_edit_in_memory("zzz", "x", false, "foo\nbar", &none()) {
        Err(ToolError::StringNotFound { file_path, old_string_preview, .. }) => {
            assert_eq!(file_path, "[file]");
            assert_eq!(old_string_preview, "zzz");
        }
        _ => panic!("expected StringNotFound"),
    }
}

fn edit_params(old: &str, new: &str, force: bool) -> EditParams {
    EditParams { file_path: "a.rs".into(), old_string: old.into(), new_string: new.into(), replace_all: false, force }
}

#[test]
fn edit_checks_run_in_order() {
    let entry = ReadEntry { raw_hash: "h1".into(), norm_hash: "h2".into(), read_at: "2026-01-01T00:00:00Z".into() };
    // Identical strings come first, even for a missing file.
    assert!(matches!(run_edit_checks(&edit_params("x", "x", false), false, None, ""), Err(ToolError::NoChanges { .. })));
    match run_edit_checks(&edit_params("x", "y", false), false, Some(&entry), "h1") {
        Err(ToolError::FileNotFound { hint, .. }) => assert_eq!(hint, "File does not exist. Use Write to create it."),
        _ => panic!("expected FileNotFound"),
    }
    match run_edit_checks(&edit_params("x", "y", false), true, None, "") {
        Err(ToolError::FileNotRead { file_path, hint }) => {
            assert_eq!(file_path, "a.rs");
            assert_eq!(hint, "Call Read before Edit to ensure old_string matches exactly.");
        }
        _ => panic!("expected FileNotRead"),
    }
    match run_edit_checks(&edit_params("x", "y", false), true, Some(&entry), "other") {
        Err(ToolError::FileModified { read_at, .. }) => assert_eq!(read_at, "2026-01-01T00:00:00Z"),
        _ => panic!("expected FileModified"),
    }
    assert!(run_edit_checks(&edit_params("x", "y", false), true, Some(&entry), "h2").is_ok());
    assert!(run_edit_checks(&edit_params("x", "y", true), true, None, "").is_ok());
    let mp = MultiEditParams { file_path: "b.rs".into(), edits: Vec::new() };
    assert!(matches!(run_multi_edit_checks(&mp, false, Some(&entry), "h1"), Err(ToolError::FileNotFound { .. })));
    match run_multi_edit_checks(&mp, true, None, "") {
        Err(ToolError::FileNotRead { hint, .. }) => assert_eq!(hint, "Call Read before MultiEdit."),
        _ => panic!("expected FileNotRead"),
    }
    match run_multi_edit_checks(&mp, true, Some(&entry), "zz") {
        Err(ToolError::FileModified { hint, .. }) => assert_eq!(hint, "File was modified externally. Call Read again."),
        _ => panic!("expected FileModified"),
    }
    assert!(run_multi_edit_checks(&mp, true, Some(&entry), "h1").is_ok());
}

#[test]
fn an_edit_must_change_something() {
    assert!(matches!(check_edit_change("same", "same"), Err(ToolError::NoChanges { .. })));
    assert!(check_edit_change("a", "b").is_ok());
}

fn none() -> MatchFallback {
    MatchFallback { normalized: None, unicode_hints: Vec::new() }
}

fn nones(n: usize) -> Vec<MatchFallback> {
    (0..n).map(|_| none()).collect()
}

#[test]
fn tab_normalized_retry_and_unicode_hints() {
    // The indentation differs: the normalized text matches instead.
    let fb = MatchFallback { normalized: Some("    x = 1".into()), unicode_hints: Vec::new() };
    let (m, kind, n) = match_string("\tx = 1", "fn f() {\n    x = 1\n}", false, &fb).ok().unwrap();
    assert_eq!((m.as_str(), kind, n), ("    x = 1", "tab_normalized", 1));
    let r = apply_edit_in_memory("\tx = 1", "    x = 2", false, "fn f() {\n    x = 1\n}", &fb).ok().unwrap();
    assert_eq!(r.new_content, "fn f() {\n    x = 2\n}");
    assert_eq!((r.replacements, r.match_kind.as_str()), (1, "tab_normalized"));
    // An exact match wins over the normalized text.
    let exact = match_string("x = 1", "x = 1", false, &fb).ok().unwrap();
    assert_eq!((exact.0.as_str(), exact.1), ("x = 1", "exact"));
    // Neither matches: the error carries the Unicode hints.
    let hints = MatchFallback {
        normalized: Some("nowhere".into()),
        unicode_hints: vec!["U+2019 in old_string where the file has U+0027".into()],
    };
    match match_string("it\u{2019}s", "it's", false, &hints) {
        Err(ToolError::StringNotFound { suggestions, .. }) => {
            assert_eq!(suggestions, vec!["U+2019 in old_string where the file has U+0027".to_string()]);
        }
        _ => panic!("expected StringNotFound"),
    }
    // A batch edit retries with its own normalized text.
    let batch = vec![edit("a", "b"), edit("\tb", "c")];
    let fbs = vec![none(), MatchFallback { normalized: Some("b".into()), unicode_hints: Vec::new() }];
    let (w, n) = apply_multi_edit_in_memory(&batch, "a", &fbs).ok().unwrap();
    assert_eq!((w.as_str(), n), ("c", 2));
}

fn edit(old: &str, new: &str) -> SingleEdit {
    SingleEdit { old_string: old.into(), new_string: new.into(), replace_all: false, expected_replacements: None }
}

#[test]
fn multi_edit_is_all_or_nothing() {
    let (w, n) = apply_multi_edit_in_memory(&vec![edit("a", "b"), edit("b", "c")], "a", &nones(2)).ok().unwrap();
    assert_eq!((w.as_str(), n), ("c", 2));
    match apply_multi_edit_in_memory(&vec![edit("a", "b"), edit("q", "r")], "a", &nones(2)) {
        Err(ToolError::EditFailed { edit_index, file_state, hint, .. }) => {
            assert_eq!(edit_index, 1);
            assert_eq!(file_state, "unchanged");
            assert_eq!(hint, "Fix edit[1] and retry the entire MultiEdit.");
        }
        _ => panic!("expected EditFailed"),
    }
    let counted = SingleEdit { old_string: "x".into(), new_string: "y".into(), replace_all: true, expected_replacements: Some(3) };
    assert!(apply_multi_edit_in_memory(&vec![counted], "x x", &nones(1)).is_err());
}

#[test]
fn reportable_matches() {
    assert!(locations_reportable("x", "x x x"));
    assert!(!locations_reportable("\nx", "a\nx\nx"));
    assert!(match_reportable("a\nx\nx", "\nx", true));
    assert!(!match_reportable("a\nx\nx", "\nx", false));
    assert!(match_reportable("a\nx", "\nx", false));
    assert!(multi_match_reportable("a\nx\nx", "\nx", false, Some(2)));
    assert!(!multi_match_reportable("a\nx\nx", "\nx", false, Some(1)));
    assert!(multi_edit_reportable(&vec![edit("a", "\nq"), edit("b", "c")], "a b", &nones(2)));
    assert!(multi_edit_reportable(&vec![edit("a", "\nq"), edit("\nq", "c")], "a a", &nones(2)));
    assert!(!multi_edit_reportable(&vec![edit("a", "\nq"), edit("b", "\nq"), edit("\nq", "c")], "a b", &nones(3)));
}

#[test]
fn flags_given_as_text() {
    assert_eq!(bool_from_text("YES"), Ok(true));
    assert_eq!(bool_from_text("True"), Ok(true));
    assert_eq!(bool_from_text("1"), Ok(true));
    assert_eq!(bool_from_text("no"), Ok(false));
    assert_eq!(bool_from_text("0"), Ok(false));
    assert_eq!(bool_from_text("Maybe"), Err("invalid bool string: maybe".to_string()));
}
