use codex_monitor::paths::{AGENT_DIR, create_session_entry, cwd_to_project_dir_name, derive_project_paths, join, project_paths_in, session_entry_at};
use codex_monitor::registry::{SessionEntry, SessionStatus, ThreadRegistry, default_registry_version};

fn entry(id: &str, cwd: &str, last: u64, transcript: Option<&str>) -> SessionEntry {
    SessionEntry {
        session_id: id.to_string(),
        cwd: cwd.to_string(),
        preview: None,
        created_at: 1,
        last_activity: last,
        transcript_path: transcript.map(|t| t.to_string()),
        project_path: None,
        status: SessionStatus::Active,
    }
}

fn visible_ids(r: &ThreadRegistry, ws: &str) -> Vec<String> {
    r.workspace(ws).map(|w| w.visible_session_ids.clone()).unwrap_or_default()
}

#[test]
fn test_cwd_to_project_dir_name() {
    assert_eq!(
        cwd_to_project_dir_name("/Users/thomasmorton/CodexMonitor"),
        "-Users-thomasmorton-CodexMonitor"
    );
    assert_eq!(cwd_to_project_dir_name("/home/user/project"), "-home-user-project");
    assert_eq!(cwd_to_project_dir_name("Users/foo/bar"), "-Users-foo-bar");
    assert_eq!(cwd_to_project_dir_name("C:\\Users\\foo\\bar"), "-C:-Users-foo-bar");
    assert_eq!(cwd_to_project_dir_name("/project"), "-project");
}

#[test]
fn test_create_session_entry() {
    let session = create_session_entry(
        "test-uuid-123".to_string(),
        "/Users/test/project".to_string(),
        Some("Hello world".to_string()),
    );
    assert_eq!(session.session_id, "test-uuid-123");
    assert_eq!(session.cwd, "/Users/test/project");
    assert_eq!(session.preview, Some("Hello world".to_string()));
    assert_eq!(session.status, SessionStatus::Active);
    assert!(session.created_at > 0);
    assert!(session.last_activity > 0);
}

#[test]
fn slug_examples() {
    assert_eq!(cwd_to_project_dir_name("/Users/a/b"), "-Users-a-b");
    assert_eq!(cwd_to_project_dir_name("C:\\a\\b"), "-C:-a-b");
    assert_eq!(cwd_to_project_dir_name("rel/path"), "-rel-path");
}

#[test]
fn slug_never_doubles_leading_dash() {
    assert_eq!(cwd_to_project_dir_name("-already"), "-already");
    assert_eq!(cwd_to_project_dir_name("\\srv\\x"), "-srv-x");
    assert_eq!(cwd_to_project_dir_name(""), "-");
}

#[test]
fn join_follows_path_rules() {
    assert_eq!(join("/home/u", ".cfg"), "/home/u/.cfg");
    assert_eq!(join("/", ".cfg"), "/.cfg");
    assert_eq!(join("", "a"), "a");
    assert_eq!(join("/x", "/abs"), "/abs");
}

#[test]
fn project_paths_under_home() {
    let (project, transcript) = project_paths_in("/home/u", "/work/app", "s1");
    assert_eq!(project, format!("/home/u/{}/projects/-work-app", AGENT_DIR));
    assert_eq!(transcript, format!("/home/u/{}/projects/-work-app/s1.jsonl", AGENT_DIR));
}

#[test]
fn derived_paths_end_with_session_file() {
    if let Some((project, transcript)) = derive_project_paths("/work/app", "s1") {
        assert!(project.ends_with(&format!("/{}/projects/-work-app", AGENT_DIR)));
        assert_eq!(transcript, format!("{}/s1.jsonl", project));
    }
}

#[test]
fn session_entry_at_fixed_time_and_home() {
    let s = session_entry_at("s9".to_string(), "/w".to_string(), None, 42, Some("/h"));
    assert_eq!(s.created_at, 42);
    assert_eq!(s.last_activity, 42);
    assert_eq!(s.project_path, Some(format!("/h/{}/projects/-w", AGENT_DIR)));
    assert_eq!(s.transcript_path, Some(format!("/h/{}/projects/-w/s9.jsonl", AGENT_DIR)));
    let none = session_entry_at("s9".to_string(), "/w".to_string(), None, 42, None);
    assert_eq!(none.project_path, None);
    assert_eq!(none.transcript_path, None);
}

#[test]
fn new_registry_is_empty_at_version_one() {
    let r = ThreadRegistry::new();
    assert_eq!(r.version, 1);
    assert_eq!(default_registry_version(), 1);
    assert_eq!(r.sessions.len(), 0);
    assert_eq!(r.workspaces.len(), 0);
}

#[test]
fn register_twice_lists_once() {
    let mut r = ThreadRegistry::new();
    r.register("w1", entry("s1", "/p", 10, None));
    r.register("w1", entry("s1", "/p", 20, None));
    assert_eq!(visible_ids(&r, "w1"), vec!["s1".to_string()]);
    let (listed, dirty) = r.list_visible("w1");
    assert!(!dirty);
    assert_eq!(listed.len(), 1);
    assert_eq!(listed[0].last_activity, 20);
}

#[test]
fn archive_moves_session_to_archived() {
    let mut r = ThreadRegistry::new();
    r.register("w1", entry("s1", "/p", 10, None));
    r.register("w1", entry("s2", "/p", 11, None));
    r.register("w1", entry("s3", "/other", 12, None));
    r.archive("w1", "s1");
    let (listed, _) = r.list_visible("w1");
    let ids: Vec<&str> = listed.iter().map(|s| s.session_id.as_str()).collect();
    assert_eq!(ids, vec!["s2", "s3"]);
    let archived = r.list_archived("w1", Some("/p"));
    assert_eq!(archived.len(), 1);
    assert_eq!(archived[0].session_id, "s1");
    assert!(r.session("s1").is_some());
    assert!(r.list_archived("w1", None).is_empty());
    assert!(r.list_archived("w1", Some("/nowhere")).is_empty());
}

#[test]
fn archive_unknown_workspace_changes_nothing() {
    let mut r = ThreadRegistry::new();
    r.register("w1", entry("s1", "/p", 10, None));
    r.archive("w2", "s1");
    assert_eq!(visible_ids(&r, "w1"), vec!["s1".to_string()]);
    assert!(r.workspace("w2").is_none());
}

#[test]
fn unarchive_restores_visibility() {
    let mut r = ThreadRegistry::new();
    r.register("w1", entry("s1", "/p", 10, None));
    r.archive("w1", "s1");
    assert_eq!(r.unarchive("w1", "s1"), Ok(()));
    assert_eq!(r.unarchive("w1", "s1"), Ok(()));
    assert_eq!(visible_ids(&r, "w1"), vec!["s1".to_string()]);
}

#[test]
fn unarchive_unknown_session_fails() {
    let mut r = ThreadRegistry::new();
    assert_eq!(r.unarchive("w1", "ghost"), Err("Session ghost not found".to_string()));
    assert!(r.workspace("w1").is_none());
}

#[test]
fn update_activity_sets_time_and_preview() {
    let mut r = ThreadRegistry::new();
    r.register("w1", entry("s1", "/p", 10, None));
    r.update_activity_at("s1", 99, Some("hi".to_string()));
    let s = r.session("s1").unwrap();
    assert_eq!(s.last_activity, 99);
    assert_eq!(s.preview, Some("hi".to_string()));
    r.update_activity_at("s1", 100, None);
    let s = r.session("s1").unwrap();
    assert_eq!(s.last_activity, 100);
    assert_eq!(s.preview, Some("hi".to_string()));
    r.update_activity_at("unknown", 5, None);
    assert!(r.session("unknown").is_none());
}

#[test]
fn update_activity_now_moves_time_forward() {
    let mut r = ThreadRegistry::new();
    r.register("w1", entry("s1", "/p", 10, None));
    r.update_activity("s1", None);
    assert!(r.session("s1").unwrap().last_activity > 10);
}

#[test]
fn list_visible_flags_missing_transcripts() {
    let mut r = ThreadRegistry::new();
    r.register("w1", entry("gone", "/p", 10, Some("/definitely/not/here/x.jsonl")));
    r.register("w1", entry("there", "/p", 11, Some("/")));
    r.register("w1", entry("nopath", "/p", 12, None));
    let (listed, dirty) = r.list_visible("w1");
    assert!(dirty);
    assert_eq!(listed.len(), 3);
    assert_eq!(listed[0].status, SessionStatus::Missing);
    assert_eq!(listed[1].status, SessionStatus::Active);
    assert_eq!(listed[2].status, SessionStatus::Active);
    assert_eq!(r.session("gone").unwrap().status, SessionStatus::Missing);
    let (_, again) = r.list_visible("w1");
    assert!(!again);
}

#[test]
fn refresh_status_only_flags_absent_active() {
    let mut r = ThreadRegistry::new();
    r.register("w1", entry("s1", "/p", 10, Some("/t")));
    assert!(!r.refresh_transcript_status("s1", true));
    assert_eq!(r.session("s1").unwrap().status, SessionStatus::Active);
    assert!(r.refresh_transcript_status("s1", false));
    assert_eq!(r.session("s1").unwrap().status, SessionStatus::Missing);
    assert!(!r.refresh_transcript_status("s1", false));
    assert!(!r.refresh_transcript_status("unknown", false));
}

#[test]
fn mark_missing_is_not_reversed_by_listing() {
    let mut r = ThreadRegistry::new();
    r.register("w1", entry("s1", "/p", 10, Some("/")));
    r.mark_session_missing("s1");
    let (listed, dirty) = r.list_visible("w1");
    assert!(!dirty);
    assert_eq!(listed[0].status, SessionStatus::Missing);
}

#[test]
fn import_registers_and_shows_in_order() {
    let mut r = ThreadRegistry::new();
    r.register("w1", entry("s0", "/p", 1, None));
    r.import(
        "w1",
        vec!["s2".to_string(), "s1".to_string(), "s0".to_string(), "s2".to_string()],
        vec![entry("s1", "/p", 5, None), entry("s2", "/p", 6, None)],
    );
    assert_eq!(visible_ids(&r, "w1"), vec!["s0".to_string(), "s2".to_string(), "s1".to_string()]);
    r.import("w9", vec![], vec![]);
    assert!(r.workspace("w9").is_some());
}

#[test]
fn visible_ids_without_records_are_skipped() {
    let mut r = ThreadRegistry::new();
    r.import("w1", vec!["dangling".to_string()], vec![]);
    let (listed, dirty) = r.list_visible("w1");
    assert!(listed.is_empty());
    assert!(!dirty);
    assert!(r.visible_sessions("nowhere").is_empty());
}

#[test]
fn flag_absent_only_touches_shown_active_sessions_with_paths() {
    let mut r = ThreadRegistry::new();
    r.register("w1", entry("a", "/p", 1, Some("/t/a")));
    r.register("w1", entry("b", "/p", 1, None));
    r.register("w2", entry("c", "/p", 1, Some("/t/c")));
    r.register("w1", entry("d", "/p", 1, Some("/t/d")));
    let absent = vec!["a".to_string(), "b".to_string(), "c".to_string()];
    assert!(r.flag_absent_transcripts("w1", &absent));
    assert_eq!(r.session("a").unwrap().status, SessionStatus::Missing);
    assert_eq!(r.session("b").unwrap().status, SessionStatus::Active);
    assert_eq!(r.session("c").unwrap().status, SessionStatus::Active);
    assert_eq!(r.session("d").unwrap().status, SessionStatus::Active);
    assert!(!r.flag_absent_transcripts("w1", &absent));
}
