use codex_monitor::doctor::{agent_program, assess_probe, doctor_report, ProbeOutcome, Tool, PROBE_TIMEOUT_SECS};
use codex_monitor::history::{decimal_string, extract_text_from_message, parse_session_history};
use codex_monitor::json::Json;
use codex_monitor::paths::{get_bridge_candidates, AGENT_DIR};
use codex_monitor::registry::{SessionEntry, SessionStatus, ThreadRegistry, WorkspaceRegistry};
use codex_monitor::router::stderr_event;
use codex_monitor::table::OrderedMap;
use codex_monitor::text::trim;

fn s(t: &str) -> Json {
    Json::Str(t.to_string())
}

fn obj(members: Vec<(&str, Json)>) -> Json {
    Json::Object(members.into_iter().map(|(k, v)| (k.to_string(), v)).collect())
}

fn text_item(t: &str) -> Json {
    obj(vec![("type", s("text")), ("text", s(t))])
}

fn entry(id: &str, transcript: Option<&str>) -> SessionEntry {
    SessionEntry {
        session_id: id.to_string(),
        cwd: "/w".to_string(),
        preview: None,
        created_at: 1,
        last_activity: 1,
        transcript_path: transcript.map(|t| t.to_string()),
        project_path: None,
        status: SessionStatus::Active,
    }
}

#[test]
fn message_text_joins_text_items() {
    let m = obj(vec![("content", Json::Array(vec![text_item("a"), obj(vec![("type", s("image"))]), text_item(""), text_item("b")]))]);
    assert_eq!(extract_text_from_message(&m), "a\nb");
    assert_eq!(extract_text_from_message(&obj(vec![("text", s("plain"))])), "plain");
    assert_eq!(extract_text_from_message(&obj(vec![("content", s("not an array")), ("text", s("t"))])), "t");
    assert_eq!(extract_text_from_message(&Json::Null), "");
}

#[test]
fn decimal_digits() {
    assert_eq!(decimal_string(0), "0");
    assert_eq!(decimal_string(7), "7");
    assert_eq!(decimal_string(1203), "1203");
}

#[test]
fn history_lists_user_and_assistant_messages() {
    let lines = vec![
        Some(obj(vec![("type", s("system")), ("text", s("ignored"))])),
        None,
        Some(obj(vec![("type", s("assistant")), ("message", obj(vec![("content", Json::Array(vec![text_item("hi there")]))]))])),
        Some(obj(vec![("type", s("user")), ("uuid", s("u-1")), ("message", obj(vec![("text", s("question"))]))])),
        Some(obj(vec![("type", s("user")), ("message", obj(vec![("text", s(""))]))])),
    ];
    let h = parse_session_history("sess", &lines, 99);
    assert_eq!(h.last_activity, 99);
    assert_eq!(h.items.len(), 2);
    assert_eq!(
        h.items[0],
        obj(vec![("id", s("sess:2")), ("kind", s("message")), ("role", s("assistant")), ("text", s("hi there"))])
    );
    assert_eq!(
        h.items[1],
        obj(vec![("id", s("u-1")), ("kind", s("message")), ("role", s("user")), ("text", s("question"))])
    );
    assert_eq!(h.preview, Some("question".to_string()));
}

#[test]
fn history_preview_falls_back_to_first_message() {
    let lines = vec![Some(obj(vec![("type", s("assistant")), ("text", s("only reply"))]))];
    let h = parse_session_history("s", &lines, 0);
    assert_eq!(h.preview, Some("only reply".to_string()));
    let empty = parse_session_history("s", &vec![], 0);
    assert!(empty.items.is_empty());
    assert_eq!(empty.preview, None);
}

#[test]
fn history_path_derives_and_records_missing_paths() {
    let mut r = ThreadRegistry::new();
    r.register("w", entry("with", Some("/t.jsonl")));
    r.register("w", entry("without", None));
    assert_eq!(r.history_path("with", None), Ok(("/t.jsonl".to_string(), false)));
    assert_eq!(r.history_path("ghost", None), Err("Session ghost not found".to_string()));
    assert_eq!(r.history_path("without", None), Err("Session without has no transcript path".to_string()));
    let (path, changed) = r.history_path("without", Some("/h")).unwrap();
    assert!(changed);
    assert_eq!(path, format!("/h/{}/projects/-w/without.jsonl", AGENT_DIR));
    assert_eq!(r.session("without").unwrap().transcript_path, Some(path));
    assert_eq!(r.session("without").unwrap().project_path, Some(format!("/h/{}/projects/-w", AGENT_DIR)));
}

#[test]
fn confirm_transcript_flags_absent_file_once() {
    let mut r = ThreadRegistry::new();
    r.register("w", entry("s", Some("/no/such/file.jsonl")));
    let (res, changed) = r.confirm_transcript("s", "/no/such/file.jsonl");
    assert_eq!(res, Err("Transcript file not found: /no/such/file.jsonl".to_string()));
    assert!(changed);
    assert_eq!(r.session("s").unwrap().status, SessionStatus::Missing);
    let (_, again) = r.confirm_transcript("s", "/no/such/file.jsonl");
    assert!(!again);
    assert_eq!(r.confirm_transcript("s", "/"), (Ok(()), false));
}

#[test]
fn restore_keys_sessions_by_id_and_drops_repeats() {
    let mut r = ThreadRegistry::default();
    r.restore_session(entry("a", None));
    r.restore_session(entry("b", None));
    r.restore_workspace("w".to_string(), Some("/p".to_string()), vec!["a".to_string(), "b".to_string(), "a".to_string()]);
    let w = r.workspace("w").unwrap();
    assert_eq!(w.visible_session_ids, vec!["a".to_string(), "b".to_string()]);
    assert_eq!(w.project_path, Some("/p".to_string()));
    assert_eq!(r.visible_sessions("w").len(), 2);
    assert!(WorkspaceRegistry::default().visible_session_ids.is_empty());
    assert_eq!(SessionStatus::default(), SessionStatus::Active);
}

#[test]
fn ordered_map_remove() {
    let mut m: OrderedMap<u8> = OrderedMap::new();
    m.insert("a".to_string(), 1);
    m.insert("b".to_string(), 2);
    m.insert("a".to_string(), 3);
    assert_eq!(m.len(), 2);
    assert_eq!(m.get("a"), Some(&3));
    assert_eq!(m.remove("a"), Some(3));
    assert_eq!(m.remove("a"), None);
    assert_eq!(m.len(), 1);
    assert!(m.contains_key("b"));
}

#[test]
fn trim_both_ends() {
    assert_eq!(trim("  v1.2.3\n"), "v1.2.3");
    assert_eq!(trim("\u{3000}x y\t"), "x y");
    assert_eq!(trim(" \n "), "");
}

#[test]
fn probe_assessment() {
    assert_eq!(PROBE_TIMEOUT_SECS, 5);
    let ok = assess_probe(Tool::Node, ProbeOutcome::Exited { success: true, stdout: "v20.1.0\n".to_string(), stderr: String::new() });
    assert!(ok.ok);
    assert_eq!(ok.version, Some("v20.1.0".to_string()));
    let empty = assess_probe(Tool::Node, ProbeOutcome::Exited { success: true, stdout: " \n".to_string(), stderr: String::new() });
    assert!(!empty.ok);
    assert_eq!(empty.version, None);
    let failed = assess_probe(Tool::Agent, ProbeOutcome::Exited { success: false, stdout: String::new(), stderr: " boom \n".to_string() });
    assert_eq!(failed.details, Some("boom".to_string()));
    let missing = assess_probe(Tool::Node, ProbeOutcome::NotFound);
    assert_eq!(missing.details, Some("Node.js not found on PATH.".to_string()));
    let slow = assess_probe(Tool::Agent, ProbeOutcome::TimedOut);
    assert_eq!(slow.details, Some("Timed out while checking the agent CLI.".to_string()));
    let err = assess_probe(Tool::Agent, ProbeOutcome::Failed("denied".to_string()));
    assert_eq!(err.details, Some("denied".to_string()));
    let report = doctor_report(ok, slow, Some("/bin".to_string()));
    assert_eq!(report.get("ok"), Some(&Json::Bool(false)));
    assert_eq!(report.get("nodeVersion"), Some(&s("v20.1.0")));
    assert_eq!(report.get("path"), Some(&s("/bin")));
}

#[test]
fn agent_program_defaults_to_its_name() {
    assert_eq!(agent_program(Some("/opt/x")), "/opt/x");
    assert_eq!(agent_program(Some("  ")), &AGENT_DIR[1..]);
    assert_eq!(agent_program(None), &AGENT_DIR[1..]);
}

#[test]
fn stderr_lines_become_events() {
    assert!(stderr_event("   ", 1).is_none());
    let ev = stderr_event("warning: x", 8).unwrap();
    assert_eq!(ev.event_type, "bridge/stderr");
    assert_eq!(ev.timestamp, 8);
    assert_eq!(ev.payload, obj(vec![("message", s("warning: x"))]));
}

#[test]
fn restoring_own_records_gives_registry_back() {
    let mut r = ThreadRegistry::new();
    r.register("w1", entry("a", Some("/t/a.jsonl")));
    r.register("w1", entry("b", None));
    r.register("w2", entry("c", None));
    r.archive("w1", "a");
    r.update_activity_at("b", 77, Some("p".to_string()));

    let mut back = ThreadRegistry::new();
    back.version = r.version;
    for (_, s) in r.sessions.entries.iter().rev() {
        back.restore_session(s.clone());
    }
    for (id, w) in r.workspaces.entries.iter() {
        back.restore_workspace(id.clone(), w.project_path.clone(), w.visible_session_ids.clone());
    }
    assert_eq!(back.version, r.version);
    assert_eq!(back.sessions.len(), 3);
    assert_eq!(back.workspaces.len(), 2);
    for (id, s) in r.sessions.entries.iter() {
        let t = back.session(id).unwrap();
        assert_eq!(t.session_id, s.session_id);
        assert_eq!(t.preview, s.preview);
        assert_eq!(t.last_activity, s.last_activity);
        assert_eq!(t.transcript_path, s.transcript_path);
    }
    for (id, w) in r.workspaces.entries.iter() {
        assert_eq!(back.workspace(id).unwrap().visible_session_ids, w.visible_session_ids);
    }
}

#[test]
fn confirm_given_absence() {
    let mut r = ThreadRegistry::new();
    r.register("w", entry("s", Some("/x.jsonl")));
    assert_eq!(r.confirm_transcript_given("s", "/x.jsonl", true), (Ok(()), false));
    assert_eq!(r.session("s").unwrap().status, SessionStatus::Active);
    let (res, changed) = r.confirm_transcript_given("s", "/x.jsonl", false);
    assert_eq!(res, Err("Transcript file not found: /x.jsonl".to_string()));
    assert!(changed);
    assert_eq!(r.session("s").unwrap().status, SessionStatus::Missing);
    assert_eq!(r.confirm_transcript_given("ghost", "/y", false).1, false);
}

#[test]
fn bridge_script_candidates_in_order() {
    let bridge = format!("{}-bridge", &AGENT_DIR[1..]);
    let c = get_bridge_candidates("/res", &vec!["/res".to_string(), "/".to_string()], &vec!["/work".to_string()]);
    assert_eq!(
        c,
        vec![
            format!("/res/{}/index.ts", bridge),
            format!("/res/src/{}/index.ts", bridge),
            format!("/src/{}/index.ts", bridge),
            format!("/work/src/{}/index.ts", bridge),
            format!("src/{}/index.ts", bridge),
        ]
    );
}
