use codex_monitor::correlator::PendingRequests;
use codex_monitor::json::Json;
use codex_monitor::protocol::{notification_message, request_message, resolve_claude_bin, resolve_model_session, ClientRequest};
use codex_monitor::registry::{SessionStatus, ThreadRegistry};
use codex_monitor::router::{apply_follow_up, parse_error_event, reply_from, reply_result, route_message, started_session_entry, ClaudeSessionInfo, FollowUp, Routed};
use codex_monitor::supervisor::{handshake_result, BridgeSlot, InitError, InitOutcome, Started, Step, INIT_TIMEOUT_SECS};
use codex_monitor::table::OrderedMap;

fn s(t: &str) -> Json {
    Json::Str(t.to_string())
}

fn obj(members: Vec<(&str, Json)>) -> Json {
    Json::Object(members.into_iter().map(|(k, v)| (k.to_string(), v)).collect())
}

fn response(id: u64, body: Vec<(&str, Json)>) -> Json {
    let mut payload = vec![("id", Json::UInt(id))];
    payload.extend(body);
    obj(vec![("type", s("response")), ("payload", obj(payload))])
}

#[test]
fn ids_start_at_one_and_increase_by_one() {
    let mut p: PendingRequests<&str> = PendingRequests::new();
    assert_eq!(p.register("a"), Some(1));
    assert_eq!(p.register("b"), Some(2));
    assert_eq!(p.register("c"), Some(3));
    assert_eq!(p.take(2), Some("b"));
    assert_eq!(p.register("d"), Some(4));
    assert!(!p.is_waiting(2));
    assert!(p.is_waiting(4));
}

#[test]
fn replies_reach_their_callers_out_of_order() {
    let mut p: PendingRequests<&str> = PendingRequests::new();
    let a = p.register("caller-a").unwrap();
    let b = p.register("caller-b").unwrap();
    let c = p.register("caller-c").unwrap();
    for (id, who) in [(c, "caller-c"), (a, "caller-a"), (b, "caller-b")] {
        match route_message(&mut p, response(id, vec![("result", Json::UInt(id))]), 0, 0, None) {
            Routed::Reply { handle, reply } => {
                assert_eq!(handle, who);
                assert_eq!(reply, obj(vec![("result", Json::UInt(id))]));
            }
            Routed::Event { .. } => panic!("reply routed as event"),
        }
    }
    assert!(!p.is_waiting(a) && !p.is_waiting(b) && !p.is_waiting(c));
}

#[test]
fn cancel_all_hands_out_every_waiting_handle() {
    let mut p: PendingRequests<u8> = PendingRequests::new();
    p.register(10);
    p.register(20);
    let drained = p.cancel_all();
    assert_eq!(drained.len(), 2);
    assert_eq!(drained.get(&1), Some(&10));
    assert!(!p.is_waiting(1));
    assert_eq!(p.register(30), Some(3));
}

#[test]
fn reply_prefers_error_then_result_then_null() {
    assert_eq!(
        reply_from(obj(vec![("id", Json::UInt(1)), ("result", s("r")), ("error", s("e"))])),
        obj(vec![("error", s("e"))])
    );
    assert_eq!(reply_from(obj(vec![("result", s("r"))])), obj(vec![("result", s("r"))]));
    assert_eq!(reply_from(obj(vec![("id", Json::UInt(1))])), obj(vec![("result", Json::Null)]));
}

#[test]
fn response_without_waiting_request_is_an_event() {
    let mut p: PendingRequests<u8> = PendingRequests::new();
    match route_message(&mut p, response(7, vec![]), 5, 6, None) {
        Routed::Event { event, follow_up } => {
            assert_eq!(event.event_type, "response");
            assert_eq!(event.timestamp, 5);
            assert_eq!(event.payload, obj(vec![("id", Json::UInt(7))]));
            assert!(matches!(follow_up, FollowUp::Nothing));
        }
        Routed::Reply { .. } => panic!("no request was waiting"),
    }
}

#[test]
fn event_fields_default_when_absent() {
    let mut p: PendingRequests<u8> = PendingRequests::new();
    match route_message(&mut p, obj(vec![]), 77, 0, None) {
        Routed::Event { event, .. } => {
            assert_eq!(event.event_type, "unknown");
            assert_eq!(event.session_id, "");
            assert_eq!(event.workspace_id, "");
            assert_eq!(event.timestamp, 77);
            assert_eq!(event.payload, Json::Null);
        }
        Routed::Reply { .. } => panic!(),
    }
    let msg = obj(vec![
        ("type", s("message/delta")),
        ("sessionId", s("s1")),
        ("workspaceId", s("w1")),
        ("timestamp", Json::UInt(123)),
        ("payload", s("x")),
    ]);
    match route_message(&mut p, msg, 0, 0, None) {
        Routed::Event { event, follow_up } => {
            assert_eq!(event.event_type, "message/delta");
            assert_eq!(event.session_id, "s1");
            assert_eq!(event.workspace_id, "w1");
            assert_eq!(event.timestamp, 123);
            assert_eq!(event.payload, s("x"));
            assert!(matches!(follow_up, FollowUp::Nothing));
        }
        Routed::Reply { .. } => panic!(),
    }
}

#[test]
fn session_started_registers_and_tracks() {
    let mut p: PendingRequests<u8> = PendingRequests::new();
    let msg = obj(vec![
        ("type", s("session/started")),
        ("sessionId", s("s1")),
        ("workspaceId", s("w1")),
        ("payload", obj(vec![("cwd", s("/work/app"))])),
    ]);
    let routed = route_message(&mut p, msg, 1, 500, Some("/home/u"));
    let follow_up = match routed {
        Routed::Event { follow_up, .. } => follow_up,
        Routed::Reply { .. } => panic!(),
    };
    let mut registry = ThreadRegistry::new();
    let mut live: OrderedMap<ClaudeSessionInfo> = OrderedMap::new();
    assert!(apply_follow_up(&mut registry, &mut live, follow_up));
    let entry = registry.session("s1").unwrap();
    assert_eq!(entry.cwd, "/work/app");
    assert_eq!(entry.created_at, 500);
    assert_eq!(entry.status, SessionStatus::Active);
    assert!(entry.transcript_path.as_ref().unwrap().ends_with("/projects/-work-app/s1.jsonl"));
    assert_eq!(live.get("s1").unwrap().started_at, 500);
    assert_eq!(registry.visible_sessions("w1").len(), 1);
}

#[test]
fn session_started_keeps_given_paths_and_skips_tracking_without_ids() {
    let payload = obj(vec![("cwd", s("/a")), ("transcriptPath", s("/t.jsonl"))]);
    let e = started_session_entry("s2", &payload, 9, Some("/home/u"));
    assert_eq!(e.transcript_path, Some("/t.jsonl".to_string()));
    assert!(e.project_path.unwrap().ends_with("/projects/-a"));
    let given = obj(vec![("cwd", s("/a")), ("projectPath", s("/p"))]);
    let g = started_session_entry("s2", &given, 9, Some("/home/u"));
    assert_eq!(g.project_path, Some("/p".to_string()));
    assert!(g.transcript_path.unwrap().ends_with("/projects/-a/s2.jsonl"));
    let bare = started_session_entry("s2", &payload, 9, None);
    assert_eq!(bare.project_path, None);
    let mut p: PendingRequests<u8> = PendingRequests::new();
    let msg = obj(vec![("type", s("session/started")), ("sessionId", s("s2"))]);
    match route_message(&mut p, msg, 0, 0, None) {
        Routed::Event { follow_up: FollowUp::SessionStarted { info, workspace_id, .. }, .. } => {
            assert!(info.is_none());
            assert_eq!(workspace_id, "");
        }
        _ => panic!(),
    }
}

#[test]
fn result_event_records_activity() {
    let mut registry = ThreadRegistry::new();
    let mut live: OrderedMap<ClaudeSessionInfo> = OrderedMap::new();
    let e = started_session_entry("s1", &obj(vec![]), 1, None);
    registry.register("w", e);
    let mut p: PendingRequests<u8> = PendingRequests::new();
    let msg = obj(vec![("type", s("result")), ("sessionId", s("s1"))]);
    let follow_up = match route_message(&mut p, msg, 0, 4242, None) {
        Routed::Event { follow_up, .. } => follow_up,
        Routed::Reply { .. } => panic!(),
    };
    assert!(apply_follow_up(&mut registry, &mut live, follow_up));
    assert_eq!(registry.session("s1").unwrap().last_activity, 4242);
    assert!(!apply_follow_up(&mut registry, &mut live, FollowUp::Nothing));
}

#[test]
fn parse_error_event_is_recoverable() {
    let ev = parse_error_event("bad line", 3);
    assert_eq!(ev.event_type, "error");
    assert_eq!(ev.timestamp, 3);
    assert_eq!(ev.payload.get("code"), Some(&s("PARSE_ERROR")));
    assert_eq!(ev.payload.str_field("message"), Some("Failed to parse bridge output: bad line".to_string()));
    assert_eq!(ev.payload.get("recoverable"), Some(&Json::Bool(true)));
}

#[test]
fn handshake_success_connects_and_fills_slot() {
    let mut slot: BridgeSlot<&str> = BridgeSlot::new();
    assert_eq!(slot.step(), Step::Spawn);
    let reply = obj(vec![("result", obj(vec![("ok", Json::Bool(true))]))]);
    match slot.settle("proc-1", InitOutcome::Replied(reply), 11) {
        Started::Up(ev) => {
            assert_eq!(ev.event_type, "bridge/connected");
            assert_eq!(ev.payload, obj(vec![("ok", Json::Bool(true))]));
            assert_eq!(ev.timestamp, 11);
        }
        Started::Down { .. } => panic!(),
    }
    assert_eq!(slot.current, Some("proc-1"));
    assert_eq!(slot.step(), Step::Reuse);
    assert_eq!(slot.clear(), Some("proc-1"));
    assert_eq!(slot.step(), Step::Spawn);
}

#[test]
fn handshake_timeout_kills_and_next_call_spawns_again() {
    assert_eq!(INIT_TIMEOUT_SECS, 30);
    let mut slot: BridgeSlot<&str> = BridgeSlot::new();
    match slot.settle("proc-1", InitOutcome::TimedOut, 0) {
        Started::Down { bridge, error } => {
            assert_eq!(bridge, "proc-1");
            assert_eq!(
                error.message(),
                Some("Agent bridge did not respond to initialize within 30 seconds.".to_string())
            );
        }
        Started::Up(_) => panic!(),
    }
    assert!(slot.current.is_none());
    assert_eq!(slot.step(), Step::Spawn);
}

#[test]
fn handshake_error_reply_and_failure() {
    match handshake_result(InitOutcome::Replied(obj(vec![("error", s("nope"))])), 0) {
        Err(InitError::Rejected(e)) => assert_eq!(e, s("nope")),
        _ => panic!(),
    }
    match handshake_result(InitOutcome::Failed("broken pipe".to_string()), 0) {
        Err(e) => assert_eq!(e.message(), Some("Agent bridge initialization failed: broken pipe".to_string())),
        Ok(_) => panic!(),
    }
    match handshake_result(InitOutcome::Replied(obj(vec![])), 0) {
        Ok(ev) => assert_eq!(ev.payload, Json::Null),
        Err(_) => panic!(),
    }
}

#[test]
fn request_and_notification_lines() {
    let r = request_message(5, "model/list", obj(vec![]));
    assert_eq!(r, obj(vec![("id", Json::UInt(5)), ("method", s("model/list")), ("params", obj(vec![]))]));
    assert_eq!(notification_message("ping", None), obj(vec![("method", s("ping"))]));
    assert_eq!(
        notification_message("ping", Some(Json::Bool(false))),
        obj(vec![("method", s("ping")), ("params", Json::Bool(false))])
    );
}

#[test]
fn start_session_params_use_default_permission_mode() {
    let req = ClientRequest::StartSession {
        workspace_id: "w".to_string(),
        cwd: "/c".to_string(),
        model: None,
        permission_mode: None,
        default_permission_mode: "default".to_string(),
        claude_code_bin: Some("/bin/x".to_string()),
        enable_file_checkpointing: Some(true),
        mcp_servers: None,
        plugins: None,
        agents: None,
    };
    assert_eq!(req.method(), "session/start");
    let p = req.into_params();
    assert_eq!(p.get("permissionMode"), Some(&s("default")));
    assert_eq!(p.get("model"), Some(&Json::Null));
    assert_eq!(p.get("claudeCodeBin"), Some(&s("/bin/x")));
    assert_eq!(p.get("enableFileCheckpointing"), Some(&Json::Bool(true)));
}

#[test]
fn send_message_params_and_methods() {
    let req = ClientRequest::SendMessage {
        session_id: "s".to_string(),
        workspace_id: "w".to_string(),
        message: "hi".to_string(),
        images: Some(vec!["a.png".to_string()]),
        message_id: None,
    };
    assert_eq!(req.method(), "message/send");
    let p = req.into_params();
    assert_eq!(p.get("images"), Some(&Json::Array(vec![s("a.png")])));
    assert_eq!(p.get("messageId"), Some(&Json::Null));
    let init = ClientRequest::Initialize { name: "n".to_string(), version: "1".to_string() };
    assert_eq!(init.method(), "initialize");
    assert_eq!(init.into_params(), obj(vec![("clientInfo", obj(vec![("name", s("n")), ("version", s("1"))]))]));
    assert_eq!(ClientRequest::CloseSession { session_id: "s".to_string() }.method(), "session/close");
    assert_eq!(ClientRequest::RewindFiles { session_id: "s".to_string(), user_message_id: "u".to_string(), dry_run: None }.method(), "session/rewind");
    assert_eq!(ClientRequest::SetMcpServers { session_id: "s".to_string(), servers: Json::Null }.method(), "mcp/set");
}

#[test]
fn model_session_resolution() {
    let mut live: OrderedMap<ClaudeSessionInfo> = OrderedMap::new();
    assert_eq!(resolve_model_session(None, &live), Err("No active agent session found".to_string()));
    let info = |id: &str| ClaudeSessionInfo { session_id: id.to_string(), workspace_id: "w".to_string(), cwd: "/".to_string(), started_at: 0 };
    live.insert("first".to_string(), info("first"));
    live.insert("second".to_string(), info("second"));
    assert_eq!(resolve_model_session(Some("  ".to_string()), &live), Ok("first".to_string()));
    assert_eq!(resolve_model_session(Some("mine".to_string()), &live), Ok("mine".to_string()));
}

#[test]
fn claude_bin_resolution() {
    assert_eq!(resolve_claude_bin(Some(" ".to_string()), Some("cfg".to_string())), Some("cfg".to_string()));
    assert_eq!(resolve_claude_bin(Some("x".to_string()), Some("cfg".to_string())), Some("x".to_string()));
    assert_eq!(resolve_claude_bin(None, None), None);
}

#[test]
fn error_reply_fails_the_call() {
    assert_eq!(reply_result(obj(vec![("error", s("bad"))])), Err(s("bad")));
    assert_eq!(reply_result(obj(vec![("result", Json::UInt(4))])), Ok(Json::UInt(4)));
    assert_eq!(reply_result(obj(vec![])), Ok(Json::Null));
}
