use seeyue_mcp::error::ToolError;
use seeyue_mcp::git::{git_log_args, run_git_blame, run_git_log, run_git_status, GitLogParams};
use seeyue_mcp::memory::{
    content_to_load, index_memory_write, with_loaded_content, index_find, index_insert, index_remove, memory_delete_result, memory_final_content, memory_preview,
    memory_write_result, run_memory_list, run_memory_read, validate_key, MemoryIndexEntry, MemoryListParams,
    MemoryReadParams, MemoryWriteParams,
};

#[test]
fn git_status_sorts_paths_into_lists() {
    let status = " M src/a.rs\nM  src/b.rs\nA  new.rs\n?? tmp\\x.txt\nR  old.rs -> new_name.rs\nUU conf.rs\n D gone.rs\n";
    let r = run_git_status("main\n", status).ok().unwrap();
    assert_eq!(r.branch, "main");
    assert_eq!(r.modified, vec!["new_name.rs", "src/a.rs"]);
    assert_eq!(r.staged, vec!["src/b.rs"]);
    assert_eq!(r.added, vec!["new.rs"]);
    assert_eq!(r.untracked, vec!["tmp/x.txt"]);
    assert_eq!(r.conflicts, vec!["conf.rs"]);
    assert_eq!(r.deleted, vec!["gone.rs"]);
    assert!(!r.clean);
    let clean = run_git_status("dev", "").ok().unwrap();
    assert!(clean.clean);
}

#[test]
fn git_log_arguments_and_parsing() {
    let p = GitLogParams { limit: Some(500), path: Some("src".into()), since: None };
    assert_eq!(git_log_args(&p), vec!["log", "--format=%H|||%h|||%an|||%ai|||%s", "-200", "HEAD", "--", "src"]);
    let q = GitLogParams { limit: None, path: None, since: Some("v1".into()) };
    assert_eq!(git_log_args(&q)[2], "-20");
    let out = "abc123|||abc|||Ann|||2026-01-01 10:00:00 +0000|||Fix: a|||b\n\nbroken line\n";
    let r = run_git_log(out).ok().unwrap();
    assert_eq!(r.total, 1);
    assert_eq!(r.commits[0].subject, "Fix: a|||b");
    assert_eq!(r.commits[0].author, "Ann");
}

#[test]
fn a_commit_seen_again_keeps_its_own_author() {
    let a = "1111111111111111111111111111111111111111";
    let b = "2222222222222222222222222222222222222222";
    let out = format!(
        "{a} 1 1 1\nauthor Alice\nauthor-time 100\n\tx\n{b} 2 2 1\nauthor Bob\nauthor-time 200\n\ty\n{a} 3 3 1\n\tz\n"
    );
    let r = run_git_blame("f.rs", &out).ok().unwrap();
    assert_eq!(r.lines.len(), 3);
    let third = &r.lines[2];
    assert_eq!((third.line, third.hash.as_str(), third.short.as_str()), (3, a, "1111111"));
    assert_eq!((third.author.as_str(), third.date.as_str(), third.content.as_str()), ("Alice", "100", "z"));
    assert_eq!((r.lines[1].author.as_str(), r.lines[1].date.as_str()), ("Bob", "200"));
}

#[test]
fn git_blame_porcelain() {
    let out = "0123456789abcdef0123456789abcdef01234567 1 1 2\nauthor Ann\nauthor-time 1700000000\nsummary x\n\tfn a() {}\n0123456789abcdef0123456789abcdef01234567 2 2\n\t}\n";
    let r = run_git_blame("src/a.rs", out).ok().unwrap();
    assert_eq!(r.total, 2);
    assert_eq!(r.lines[0].line, 1);
    assert_eq!(r.lines[0].short, "0123456");
    assert_eq!(r.lines[0].author, "Ann");
    assert_eq!(r.lines[0].date, "1700000000");
    assert_eq!(r.lines[1].content, "}");
    assert_eq!(r.lines[1].line, 2);
}

fn entry(tags: &[&str], updated: &str, preview: &str) -> MemoryIndexEntry {
    MemoryIndexEntry { tags: tags.iter().map(|t| t.to_string()).collect(), updated: updated.into(), preview: preview.into() }
}

fn index() -> Vec<(String, MemoryIndexEntry)> {
    vec![
        ("a".into(), entry(&["Arch"], "2026-01-01", "alpha")),
        ("b".into(), entry(&["x"], "2026-01-03", "Beta notes")),
        ("c".into(), entry(&["arch"], "2026-01-02", "gamma")),
    ]
}

#[test]
fn memory_keys() {
    assert!(validate_key("decisions/arch-v4").is_ok());
    assert!(validate_key("a").is_ok());
    assert!(matches!(validate_key("a b"), Err(ToolError::IoError { .. })));
    assert!(matches!(validate_key("  "), Err(ToolError::MissingParameter { .. })));
    match validate_key("bad key!") {
        Err(ToolError::IoError { message }) => {
            assert_eq!(message, "Invalid key 'bad key!': only alphanumeric, dash, underscore, slash allowed.")
        }
        _ => panic!("expected IoError"),
    }
    assert!(validate_key("/lead").is_err());
    assert!(validate_key("a//b").is_err());
}

#[test]
fn memory_listing_by_tag_newest_first() {
    let ix = index();
    let r = run_memory_list(&MemoryListParams { tag: Some("ARCH".into()), limit: None }, Some(&ix)).ok().unwrap();
    let keys: Vec<&str> = r.entries.iter().map(|e| e.key.as_str()).collect();
    assert_eq!(keys, vec!["c", "a"]);
    assert_eq!((r.total, r.truncated), (2, false));
    let one = run_memory_list(&MemoryListParams { tag: None, limit: Some(1) }, Some(&ix)).ok().unwrap();
    assert_eq!(one.entries[0].key, "b");
    assert!(one.truncated);
    let empty = run_memory_list(&MemoryListParams { tag: None, limit: None }, None).ok().unwrap();
    assert_eq!(empty.kind, "empty");
}

#[test]
fn memory_search() {
    let ix = index();
    let r = run_memory_read(&MemoryReadParams { query: "BETA".into(), tag: None, limit: None }, Some(&ix)).ok().unwrap();
    assert_eq!(r.total, 1);
    assert_eq!(r.entries[0].key, "b");
    assert!(r.entries[0].content.is_none());
    let by_tag = run_memory_read(&MemoryReadParams { query: "arch".into(), tag: None, limit: None }, Some(&ix)).ok().unwrap();
    assert_eq!(by_tag.total, 2);
    assert!(matches!(
        run_memory_read(&MemoryReadParams { query: " ".into(), tag: None, limit: None }, Some(&ix)),
        Err(ToolError::MissingParameter { .. })
    ));
}

#[test]
fn memory_writes() {
    let p = MemoryWriteParams { key: "k".into(), content: "new".into(), tags: vec!["t".into()], mode: Some("append".into()) };
    assert_eq!(memory_final_content(&p, &Some("old\n\n".into())), "old\n\n---\n\nnew");
    assert_eq!(memory_final_content(&p, &None), "new");
    let r = memory_write_result(&p, true, "2026-01-01");
    assert_eq!((r.kind.as_str(), r.path.as_str()), ("appended", ".ai/memory/k.md"));
    let q = MemoryWriteParams { mode: None, ..p };
    assert_eq!(memory_write_result(&q, false, "x").kind, "created");
    assert_eq!(memory_preview(&"y".repeat(250)).len(), 200);
    assert_eq!(memory_delete_result("k", false).kind, "not_found");
    assert_eq!(memory_delete_result("k", true).kind, "deleted");
}

#[test]
fn memory_index_updates() {
    let mut ix = index();
    index_insert(&mut ix, "d".into(), entry(&[], "2026-02-01", "delta"));
    assert_eq!(ix.len(), 4);
    index_insert(&mut ix, "a".into(), entry(&[], "2026-02-02", "alpha2"));
    assert_eq!(ix.len(), 4);
    let i = index_find(&ix, "a").unwrap();
    assert_eq!(ix[i].1.preview, "alpha2");
    index_remove(&mut ix, "b");
    assert!(index_find(&ix, "b").is_none());
    assert_eq!(ix.len(), 3);
}

#[test]
fn a_written_key_is_read_back() {
    let mut ix = index();
    index_insert(&mut ix, "Gamma-Notes".into(), entry(&["misc"], "2026-03-01", "fresh"));
    let r = run_memory_read(&MemoryReadParams { query: "Gamma-Notes".into(), tag: None, limit: None }, Some(&ix))
        .ok()
        .unwrap();
    assert!(r.total >= 1);
    let hit = r.entries.iter().find(|e| e.key == "Gamma-Notes").unwrap();
    assert_eq!((hit.updated.as_str(), hit.preview.as_str()), ("2026-03-01", "fresh"));
}

#[test]
fn a_deleted_key_is_not_read_back() {
    let mut ix = index();
    let key = ix[0].0.clone();
    index_remove(&mut ix, &key);
    let r = run_memory_read(&MemoryReadParams { query: key.clone(), tag: None, limit: None }, Some(&ix)).ok().unwrap();
    assert!(r.entries.iter().all(|e| e.key != key));
}

#[test]
fn a_single_hit_is_read_with_its_content() {
    let ix = index();
    let one = run_memory_read(&MemoryReadParams { query: "beta".into(), tag: None, limit: None }, Some(&ix)).ok().unwrap();
    assert_eq!(content_to_load(&one), Some("b.md".to_string()));
    let filled = with_loaded_content(one, Some("# Beta".into()));
    assert_eq!(filled.entries[0].content.as_deref(), Some("# Beta"));
    let many = run_memory_read(&MemoryReadParams { query: "a".into(), tag: None, limit: None }, Some(&ix)).ok().unwrap();
    assert!(many.total > 1);
    assert_eq!(content_to_load(&many), None);
}

#[test]
fn a_memory_write_is_indexed_and_read_back() {
    let mut ix = index();
    let p = MemoryWriteParams { key: "notes/Zeta".into(), content: "z".repeat(250), tags: vec!["misc".into()], mode: None };
    let content = p.content.clone();
    index_memory_write(&mut ix, &p, &content, "2026-04-01T00:00:00Z");
    let r = run_memory_read(&MemoryReadParams { query: "notes/zeta".into(), tag: None, limit: None }, Some(&ix)).ok().unwrap();
    let hit = r.entries.iter().find(|e| e.key == "notes/Zeta").unwrap();
    assert_eq!(hit.preview.len(), 200);
    assert_eq!(hit.tags, vec!["misc".to_string()]);
    assert_eq!(hit.updated, "2026-04-01T00:00:00Z");
    assert_eq!(ix.len(), 4);
}

#[test]
fn only_commit_lines_start_a_blame_block() {
    let out = "0123456789abcdef0123456789abcdef01234567 3 5 1\nauthor Ann\nauthor-time 1700000000\nfilename deeply/nested/directory/with/a/long/name/file.rs\n\tlet x = 1;\n";
    let r = run_git_blame("file.rs", out).ok().unwrap();
    assert_eq!(r.total, 1);
    assert_eq!(r.lines[0].line, 5);
    assert_eq!(r.lines[0].hash, "0123456789abcdef0123456789abcdef01234567");
}

#[test]
fn status_codes_are_read_by_bytes() {
    let r = run_git_status("main", "\u{e9} a.rs\n").ok().unwrap();
    assert!(r.modified.is_empty() && r.added.is_empty() && r.untracked.is_empty());
    assert!(r.deleted.is_empty() && r.clean);
    let t = run_git_status("main", " D gone.rs\n").ok().unwrap();
    assert_eq!(t.deleted, vec!["gone.rs"]);
}
