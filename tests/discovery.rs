use codex_monitor::json::Json;
use codex_monitor::registry::SessionStatus;
use codex_monitor::scan::{extract_session, make_preview, scan_project_sessions, sort_by_recency, trim_trailing_slashes, TranscriptFile};
use codex_monitor::search_path::{build_node_path_env, merge_search_path, split_path};
use codex_monitor::settings::{default_access_mode, default_permission_mode, WorkspaceKind};
use codex_monitor::text::is_blank;

fn s(t: &str) -> Json {
    Json::Str(t.to_string())
}

fn obj(members: Vec<(&str, Json)>) -> Json {
    Json::Object(members.into_iter().map(|(k, v)| (k.to_string(), v)).collect())
}

fn user_line(text: &str) -> Option<Json> {
    Some(obj(vec![
        ("type", s("user")),
        ("message", obj(vec![("content", Json::Array(vec![obj(vec![("type", s("image"))]), obj(vec![("type", s("text")), ("text", s(text))])]))])),
    ]))
}

fn file(id: &str, modified: u64, lines: Vec<Option<Json>>) -> TranscriptFile {
    TranscriptFile {
        session_id: id.to_string(),
        path: format!("/proj/{}.jsonl", id),
        created_at: 1,
        modified_at: modified,
        lines,
    }
}

#[test]
fn extract_reads_cwd_and_preview() {
    let f = file("s1", 50, vec![None, Some(obj(vec![("cwd", s("/work/app/"))])), user_line("hello")]);
    let e = extract_session(&f, "/work/app", "/proj").unwrap();
    assert_eq!(e.session_id, "s1");
    assert_eq!(e.cwd, "/work/app/");
    assert_eq!(e.preview, Some("hello".to_string()));
    assert_eq!(e.last_activity, 50);
    assert_eq!(e.created_at, 1);
    assert_eq!(e.transcript_path, Some("/proj/s1.jsonl".to_string()));
    assert_eq!(e.project_path, Some("/proj".to_string()));
    assert_eq!(e.status, SessionStatus::Active);
}

#[test]
fn extract_rejects_other_directory() {
    let f = file("s1", 50, vec![Some(obj(vec![("cwd", s("/elsewhere"))]))]);
    match extract_session(&f, "/work/app", "/proj") {
        Err(e) => assert_eq!(e, "Session cwd mismatch: expected /work/app, got /elsewhere"),
        Ok(_) => panic!("a session of another directory was accepted"),
    }
}

#[test]
fn extract_without_cwd_uses_expected() {
    let f = file("s1", 50, vec![Some(obj(vec![("type", s("assistant"))]))]);
    let e = extract_session(&f, "/w", "/proj").unwrap();
    assert_eq!(e.cwd, "/w");
    assert_eq!(e.preview, None);
}

#[test]
fn extract_reads_only_first_fifty_lines() {
    let mut lines: Vec<Option<Json>> = (0..50).map(|_| None).collect();
    lines.push(Some(obj(vec![("cwd", s("/elsewhere"))])));
    let e = extract_session(&file("s1", 1, lines), "/w", "/proj").unwrap();
    assert_eq!(e.cwd, "/w");
}

#[test]
fn preview_cut_at_hundred_characters() {
    let long: String = "é".repeat(101);
    let p = make_preview(&long);
    assert_eq!(p.chars().count(), 103);
    assert!(p.ends_with("..."));
    let exact: String = "a".repeat(100);
    assert_eq!(make_preview(&exact), exact);
}

#[test]
fn trailing_slashes_dropped() {
    assert_eq!(trim_trailing_slashes("/a/b//"), "/a/b");
    assert_eq!(trim_trailing_slashes("///"), "");
    assert_eq!(trim_trailing_slashes("/a"), "/a");
}

#[test]
fn scan_orders_most_recent_first_and_skips_mismatches() {
    let files = vec![
        file("old", 10, vec![]),
        file("bad", 99, vec![Some(obj(vec![("cwd", s("/x"))]))]),
        file("new", 30, vec![]),
        file("mid", 20, vec![]),
    ];
    let found = scan_project_sessions("/w", "/proj", &files);
    let ids: Vec<&str> = found.iter().map(|e| e.session_id.as_str()).collect();
    assert_eq!(ids, vec!["new", "mid", "old"]);
}

#[test]
fn sort_keeps_order_of_equal_times() {
    let files = vec![file("a", 5, vec![]), file("b", 5, vec![]), file("c", 7, vec![])];
    let found = scan_project_sessions("/w", "/proj", &files);
    let sorted = sort_by_recency(found);
    let ids: Vec<&str> = sorted.iter().map(|e| e.session_id.as_str()).collect();
    assert_eq!(ids, vec!["c", "a", "b"]);
}

#[test]
fn split_drops_empty_entries() {
    assert_eq!(split_path("/a::/b:"), vec!["/a".to_string(), "/b".to_string()]);
    assert!(split_path("").is_empty());
}

#[test]
fn search_path_appends_missing_dirs_in_order() {
    let r = merge_search_path("/usr/bin:/mine", Some("/h"), &vec!["/h/.nvm/versions/node/v20/bin".to_string()], Some("/opt/tool"))
        .unwrap();
    assert_eq!(
        r,
        "/usr/bin:/mine:/opt/homebrew/bin:/usr/local/bin:/bin:/usr/sbin:/sbin:/h/.local/bin:/h/.local/share/mise/shims:/h/.cargo/bin:/h/.bun/bin:/h/.nvm/versions/node/v20/bin:/opt/tool"
    );
    let bare = merge_search_path("", None, &vec!["/ignored".to_string()], None).unwrap();
    assert_eq!(bare, "/opt/homebrew/bin:/usr/local/bin:/usr/bin:/bin:/usr/sbin:/sbin");
}

#[test]
fn search_path_adds_binary_directory() {
    let r = build_node_path_env("/a", None, &vec![], Some("/tools/bin/agent")).unwrap();
    assert!(r.ends_with(":/sbin:/tools/bin"));
    let blank = build_node_path_env("/a", None, &vec![], Some("   ")).unwrap();
    assert!(blank.ends_with(":/sbin"));
}

#[test]
fn blank_lines() {
    assert!(is_blank(" \t\r\n"));
    assert!(is_blank(""));
    assert!(!is_blank(" x "));
}

#[test]
fn settings_defaults() {
    assert_eq!(default_access_mode(), "current");
    assert_eq!(default_permission_mode(), "default");
    assert!(WorkspaceKind::Worktree.is_worktree());
    assert!(!WorkspaceKind::default().is_worktree());
}

#[test]
fn json_lookup_and_take() {
    let mut j = obj(vec![("a", Json::Int(-3)), ("b", Json::UInt(u64::MAX)), ("a", s("second"))]);
    assert_eq!(j.get("a").unwrap().as_i64(), Some(-3));
    assert_eq!(j.get("a").unwrap().as_u64(), None);
    assert_eq!(j.get("b").unwrap().as_i64(), None);
    assert_eq!(j.get("b").unwrap().as_u64(), Some(u64::MAX));
    assert_eq!(j.take_field("a"), Some(Json::Int(-3)));
    assert_eq!(j.str_field("a"), Some("second".to_string()));
    assert_eq!(j.take_field("zzz"), None);
    assert_eq!(Json::Null.get("a"), None);
}
