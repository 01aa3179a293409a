use seeyue_mcp::backup::{BackupConfig, BackupManager, BackupTrigger};
use seeyue_mcp::json::Json;
use seeyue_mcp::package::{
    package_answer, package_request, registry_kind, registry_url, PackageCache, PackageInfoParams, Registry,
};
use seeyue_mcp::process::{
    parse_tasklist_csv, port_pids, process_entries, process_list_result, run_process_list, ProcessListParams,
};

fn js(x: &str) -> Json {
    Json::Str(x.into())
}

fn obj(es: Vec<(&str, Json)>) -> Json {
    Json::Object(es.into_iter().map(|(k, v)| (k.to_string(), v)).collect())
}

fn pkg_params(name: &str, registry: Option<&str>) -> PackageInfoParams {
    PackageInfoParams { name: name.into(), registry: registry.map(|r| r.to_string()), version: None }
}

#[test]
fn registry_detection_and_keys() {
    let cache = PackageCache::new();
    let (reg, key, hit) = package_request(&cache, &pkg_params("@scope/pkg", None), 0);
    assert_eq!((reg.as_str(), key.as_str()), ("npm", "npm:@scope/pkg"));
    assert!(hit.is_none());
    let (reg2, key2, _) = package_request(&cache, &pkg_params("requests", Some("PyPI")), 0);
    assert_eq!((reg2.as_str(), key2.as_str()), ("pypi", "pypi:requests"));
    let (reg3, _, _) = package_request(&cache, &pkg_params("serde", None), 0);
    assert_eq!(reg3, "crates");
    assert!(registry_kind("pypi") == Registry::Pypi);
    assert!(registry_kind("maven") == Registry::Crates);
    assert_eq!(registry_url(Registry::Pypi, "requests"), "https://pypi.org/pypi/requests/json");
    assert_eq!(registry_url(Registry::Npm, "left-pad"), "https://registry.npmjs.org/left-pad");
}

#[test]
fn registry_answers() {
    let crates = obj(vec![("crate", obj(vec![("newest_version", js("1.0.1")), ("description", js("d")), ("repository", js("r"))]))]);
    let r = package_answer(Registry::Crates, "serde", 200, &crates);
    assert_eq!((r.status.as_str(), r.registry.as_str(), r.version.as_str()), ("ok", "crates", "1.0.1"));
    assert_eq!(r.description.as_deref(), Some("d"));
    assert_eq!(r.homepage.as_deref(), Some("r"));
    assert!(!r.cached);
    let nf = package_answer(Registry::Npm, "nope", 404, &Json::Null);
    assert_eq!((nf.status.as_str(), nf.version.as_str()), ("NOT_FOUND", ""));
    let pypi = obj(vec![("info", obj(vec![("version", js("2.0")), ("summary", js("s")), ("home_page", js(""))]))]);
    let p = package_answer(Registry::Pypi, "requests", 200, &pypi);
    assert_eq!(p.version, "2.0");
    assert!(p.homepage.is_none());
    let npm = obj(vec![("description", js("pad"))]);
    let n = package_answer(Registry::Npm, "left-pad", 200, &npm);
    assert_eq!(n.version, "unknown");
    assert_eq!(n.description.as_deref(), Some("pad"));
}

#[test]
fn cache_gives_back_what_was_stored_for_an_hour() {
    let mut cache = PackageCache::new();
    let answer = package_answer(Registry::Npm, "left-pad", 404, &Json::Null);
    cache.store("npm:left-pad".into(), answer, 1_000);
    let hit = cache.lookup("npm:left-pad", 1_000 + 3_599_999).unwrap();
    assert!(hit.cached);
    assert_eq!(hit.status, "NOT_FOUND");
    assert!(cache.lookup("npm:left-pad", 1_000 + 3_600_000).is_none());
    assert!(cache.lookup("npm:other", 1_000).is_none());
    let newer = package_answer(Registry::Crates, "x", 404, &Json::Null);
    cache.store("npm:left-pad".into(), newer, 5_000_000);
    assert_eq!(cache.lookup("npm:left-pad", 5_000_001).unwrap().registry, "crates");
    assert_eq!(cache.entries.len(), 1);
}

#[test]
fn tasklist_rows() {
    let e = parse_tasklist_csv("\"chrome.exe\",\"1234\",\"Console\",\"1\",\"120,000 K\"").unwrap();
    assert_eq!((e.name.as_str(), e.pid, e.mem_kb), ("chrome.exe", 1234, Some(120000)));
    assert_eq!(e.session.as_deref(), Some("Console"));
    assert!(parse_tasklist_csv("\"idle\",\"0\",\"Services\",\"0\",\"8 K\"").is_none());
    assert!(parse_tasklist_csv("\"a\",\"1\"").is_none());
    assert!(parse_tasklist_csv("\"a\",\"x1\",\"s\",\"1\",\"8 K\"").is_none());
    let odd = parse_tasklist_csv("\"a\",\"7\",\"s\",\"1\",\"N/A\"").unwrap();
    assert_eq!(odd.mem_kb, None);
}

#[test]
fn process_filters() {
    let out = "\"Chrome.exe\",\"10\",\"Console\",\"1\",\"1 K\"\n\"code.exe\",\"20\",\"Console\",\"1\",\"2 K\"\nbad line\n";
    let all = process_entries(out, None);
    assert_eq!(all.len(), 2);
    let chrome = process_entries(out, Some("CHROME"));
    assert_eq!(chrome.len(), 1);
    assert_eq!(chrome[0].pid, 10);
    let netstat = "  TCP    0.0.0.0:8080   0.0.0.0:0   LISTENING   20\n  TCP    [::]:8080  [::]:0  LISTENING  20\n  TCP  0.0.0.0:443  0.0.0.0:0  LISTENING  10\n";
    assert_eq!(port_pids(netstat, 8080), vec![20]);
    assert!(port_pids(netstat, 22).is_empty());
    let by_port = process_list_result(&ProcessListParams { filter_name: None, filter_port: Some(8080), limit: None }, all, vec![20]);
    assert_eq!(by_port.total, 1);
    assert_eq!(by_port.processes[0].name, "code.exe");
    assert_eq!(by_port.kind, "success");
    let limited = process_list_result(
        &ProcessListParams { filter_name: None, filter_port: None, limit: Some(1) },
        process_entries(out, None),
        Vec::new(),
    );
    assert_eq!((limited.total, limited.truncated, limited.processes.len()), (2, true, 1));
    let none = process_list_result(&ProcessListParams { filter_name: None, filter_port: None, limit: None }, Vec::new(), Vec::new());
    assert_eq!(none.kind, "empty");
}

#[test]
fn first_edit_is_backed_up_once() {
    let mut m = BackupManager::new(BackupConfig::default(), "s1".into());
    assert!(m.should_backup("a.rs", true, None));
    assert!(!m.should_backup("a.rs", false, None));
    assert!(!m.should_backup("a.rs", true, Some(500)));
    m.record_backup("a.rs".into());
    assert!(!m.should_backup("a.rs", true, None));
    assert!(m.should_backup("b.rs", true, None));
    let cfg = BackupConfig { directory: "d".into(), trigger: BackupTrigger::AllWrites, retention_days: 1, max_size_mb: 10 };
    let mut all = BackupManager::new(cfg, "s2".into());
    all.record_backup("a.rs".into());
    assert!(all.should_backup("a.rs", true, Some(9)));
}

#[test]
fn process_list_from_command_output() {
    let tasks = "\"Chrome.exe\",\"10\",\"Console\",\"1\",\"1 K\"\n\"code.exe\",\"20\",\"Console\",\"1\",\"2 K\"\n";
    let netstat = "  TCP    0.0.0.0:8080   0.0.0.0:0   LISTENING   20\n";
    let by_port = ProcessListParams { filter_name: None, filter_port: Some(8080), limit: None };
    let r = run_process_list(&by_port, tasks, Some(netstat));
    assert_eq!((r.total, r.port_pids.clone()), (1, vec![20]));
    assert_eq!(r.processes[0].name, "code.exe");
    let unheld = ProcessListParams { filter_name: None, filter_port: Some(9999), limit: None };
    assert_eq!(run_process_list(&unheld, tasks, Some(netstat)).total, 2);
    assert_eq!(run_process_list(&by_port, tasks, None).total, 2);
    let named = ProcessListParams { filter_name: Some("chrome".into()), filter_port: None, limit: None };
    assert_eq!(run_process_list(&named, tasks, None).processes[0].pid, 10);
}
