//! The event router: each message that the agent writes is either the reply
//! to a waiting request or an event for the user interface, and some events
//! also change the session registry.

use vstd::prelude::*;
use crate::correlator::PendingRequests;
use crate::json::{Json, text_of, u64_of, i64_of};
use crate::paths::{project_paths_in, project_path_for, transcript_path_for};
use crate::registry::{SessionEntry, SessionStatus, ThreadRegistry, opt_view};
use crate::table::OrderedMap;
use crate::text::{str_eq, push_str, is_blank, blank};

verus! {

/// An event handed to the user interface.
#[derive(Debug)]
pub struct ClaudeEvent {
    pub event_type: String,
    pub session_id: String,
    pub workspace_id: String,
    /// Milliseconds since the Unix epoch.
    pub timestamp: i64,
    pub payload: Json,
}

/// A session of the agent that this run has seen start.
#[derive(Clone, Debug)]
pub struct ClaudeSessionInfo {
    pub session_id: String,
    pub workspace_id: String,
    pub cwd: String,
    pub started_at: u64,
}

/// Registry work that an event calls for.
#[derive(Debug)]
pub enum FollowUp {
    Nothing,
    /// Track the session (when both ids are known) and register `entry`.
    SessionStarted { workspace_id: String, entry: SessionEntry, info: Option<ClaudeSessionInfo> },
    /// A turn completed: record activity at time `at`.
    Activity { session_id: String, at: u64 },
}

/// Where one inbound message goes.
pub enum Routed<H> {
    /// The reply to a waiting request: hand `reply` to `handle`.
    Reply { handle: H, reply: Json },
    /// An event for the user interface, then the registry work it calls for.
    Event { event: ClaudeEvent, follow_up: FollowUp },
}

/// A text member, or `default` when it is absent or not a string.
pub open spec fn text_or(j: Json, key: Seq<char>, default: Seq<char>) -> Seq<char> {
    match text_of(j.field(key)) {
        Some(t) => t,
        None => default,
    }
}

/// The payload of a message; null when absent.
pub open spec fn payload_of(msg: Json) -> Json {
    match msg.field("payload"@) {
        Some(p) => p,
        None => Json::Null,
    }
}

/// The time of a message; `now` when it has none.
pub open spec fn timestamp_of(msg: Json, now: i64) -> i64 {
    match i64_of(msg.field("timestamp"@)) {
        Some(t) => t,
        None => now,
    }
}

/// A one-member object.
pub open spec fn is_single(j: Json, key: Seq<char>, value: Json) -> bool {
    &&& j is Object
    &&& j->Object_0@.len() == 1
    &&& j->Object_0@[0].0@ == key
    &&& j->Object_0@[0].1 == value
}

/// What a reply payload resolves its request with: its error if it has one,
/// else its result, else a null result.
pub open spec fn reply_for(payload: Json, reply: Json) -> bool {
    match payload.field("error"@) {
        Some(e) => is_single(reply, "error"@, e),
        None => match payload.field("result"@) {
            Some(r) => is_single(reply, "result"@, r),
            None => is_single(reply, "result"@, Json::Null),
        },
    }
}

/// The id of the waiting request that a message answers, if it is a reply
/// to one.
pub open spec fn answered_id<H>(msg: Json, waiting: Map<u64, H>) -> Option<u64> {
    let payload = payload_of(msg);
    if text_of(msg.field("type"@)) == Some("response"@) {
        match u64_of(payload.field("id"@)) {
            Some(id) => if waiting.contains_key(id) {
                Some(id)
            } else {
                None
            },
            None => None,
        }
    } else {
        None
    }
}

/// The record registered for a started session: the event's working
/// directory and paths, each path the event does not give being derived
/// under `home`.
pub open spec fn started_entry(
    s: SessionEntry,
    session_id: Seq<char>,
    payload: Json,
    now: u64,
    home: Option<Seq<char>>,
) -> bool {
    let cwd = text_or(payload, "cwd"@, Seq::empty());
    let t = text_of(payload.field("transcriptPath"@));
    let p = text_of(payload.field("projectPath"@));
    &&& s.session_id@ == session_id
    &&& s.cwd@ == cwd
    &&& s.preview is None
    &&& s.created_at == now
    &&& s.last_activity == now
    &&& s.status == SessionStatus::Active
    &&& opt_view(s.transcript_path) == if t is None && home is Some {
        Some(transcript_path_for(home->0, cwd, session_id))
    } else {
        t
    }
    &&& opt_view(s.project_path) == if p is None && home is Some {
        Some(project_path_for(home->0, cwd))
    } else {
        p
    }
}

/// The registry work for an event of type `ty`.
pub open spec fn follow_up_for(
    f: FollowUp,
    ty: Seq<char>,
    sid: Seq<char>,
    wid: Seq<char>,
    payload: Json,
    now_ms: u64,
    home: Option<Seq<char>>,
) -> bool {
    if ty == "session/started"@ {
        match f {
            FollowUp::SessionStarted { workspace_id, entry, info } => {
                &&& workspace_id@ == wid
                &&& started_entry(entry, sid, payload, now_ms, home)
                &&& if sid.len() > 0 && wid.len() > 0 {
                    info matches Some(i) && i.session_id@ == sid && i.workspace_id@ == wid
                        && i.cwd@ == text_or(payload, "cwd"@, Seq::empty()) && i.started_at
                        == now_ms
                } else {
                    info is None
                }
            },
            _ => false,
        }
    } else if ty == "result"@ {
        f matches FollowUp::Activity { session_id, at } && session_id@ == sid && at == now_ms
    } else {
        f is Nothing
    }
}

/// What routing `msg` gives when the time is `now` (`now_ms` for the
/// registry) and the home directory is `home`.
pub open spec fn routed_as<H>(
    r: Routed<H>,
    waiting: Map<u64, H>,
    msg: Json,
    now: i64,
    now_ms: u64,
    home: Option<Seq<char>>,
) -> bool {
    let payload = payload_of(msg);
    match answered_id(msg, waiting) {
        Some(id) => r matches Routed::Reply { handle, reply } && handle == waiting[id] && reply_for(
            payload,
            reply,
        ),
        None => match r {
            Routed::Event { event, follow_up } => {
                let ty = text_or(msg, "type"@, "unknown"@);
                let sid = text_or(msg, "sessionId"@, Seq::empty());
                let wid = text_or(msg, "workspaceId"@, Seq::empty());
                &&& event.event_type@ == ty
                &&& event.session_id@ == sid
                &&& event.workspace_id@ == wid
                &&& event.timestamp == timestamp_of(msg, now)
                &&& event.payload == payload
                &&& follow_up_for(follow_up, ty, sid, wid, payload, now_ms, home)
            },
            _ => false,
        },
    }
}

/// The text of member `key`, or `default`.
fn text_field_or(j: &Json, key: &str, default: &str) -> (r: String)
    ensures
        r@ == text_or(*j, key@, default@),
{
    match j.str_field(key) {
        Some(s) => s,
        None => default.to_string(),
    }
}

/// The record of a session that the agent reports started; see
/// `started_entry`.
pub fn started_session_entry(session_id: &str, payload: &Json, now: u64, home: Option<&str>) -> (r: SessionEntry)
    ensures
        started_entry(
            r,
            session_id@,
            *payload,
            now,
            match home {
                Some(h) => Some(h@),
                None => None,
            },
        ),
{
    proof {
        reveal_strlit("");
    }
    let cwd = text_field_or(payload, "cwd", "");
    assert(""@ =~= Seq::<char>::empty());
    let mut transcript_path = payload.str_field("transcriptPath");
    let mut project_path = payload.str_field("projectPath");
    if transcript_path.is_none() || project_path.is_none() {
        match home {
            Some(h) => {
                let (derived_project, derived_transcript) = project_paths_in(h, cwd.as_str(), session_id);
                if transcript_path.is_none() {
                    transcript_path = Some(derived_transcript);
                }
                if project_path.is_none() {
                    project_path = Some(derived_project);
                }
            },
            None => {},
        }
    }
    SessionEntry {
        session_id: session_id.to_string(),
        cwd,
        preview: None,
        created_at: now,
        last_activity: now,
        transcript_path,
        project_path,
        status: SessionStatus::Active,
    }
}

/// The resolution of a reply payload; see `reply_for`.
pub fn reply_from(payload: Json) -> (r: Json)
    ensures
        reply_for(payload, r),
{
    let mut payload = payload;
    match payload.take_field("error") {
        Some(e) => Json::single("error", e),
        None => match payload.take_field("result") {
            Some(v) => Json::single("result", v),
            None => Json::single("result", Json::Null),
        },
    }
}

/// Routes one parsed message at time `now` (`now_ms` for the registry), with
/// home directory `home`: a reply to a waiting request takes that request's
/// handle out of `pending`; anything else becomes an event, which leaves
/// `pending` as it was.
pub fn route_message<H>(
    pending: &mut PendingRequests<H>,
    msg: Json,
    now: i64,
    now_ms: u64,
    home: Option<&str>,
) -> (r: Routed<H>)
    requires
        old(pending).wf(),
    ensures
        final(pending).wf(),
        final(pending).next_id() == old(pending).next_id(),
        routed_as(
            r,
            old(pending).waiting(),
            msg,
            now,
            now_ms,
            match home {
                Some(h) => Some(h@),
                None => None,
            },
        ),
        match answered_id(msg, old(pending).waiting()) {
            Some(id) => final(pending).waiting() == old(pending).waiting().remove(id),
            None => final(pending).waiting() == old(pending).waiting(),
        },
{
    let ghost m0 = msg;
    proof {
        reveal_strlit("");
        assert(""@ =~= Seq::<char>::empty());
    }
    let mut msg = msg;
    let event_type = text_field_or(&msg, "type", "unknown");
    let session_id = text_field_or(&msg, "sessionId", "");
    let workspace_id = text_field_or(&msg, "workspaceId", "");
    let timestamp = match msg.get("timestamp") {
        Some(t) => match t.as_i64() {
            Some(v) => v,
            None => now,
        },
        None => now,
    };
    let is_response = match msg.str_field("type") {
        Some(t) => str_eq(t.as_str(), "response"),
        None => false,
    };
    let payload = match msg.take_field("payload") {
        Some(p) => p,
        None => Json::Null,
    };
    assert(payload == payload_of(m0));
    if is_response {
        let id = match payload.get("id") {
            Some(v) => v.as_u64(),
            None => None,
        };
        match id {
            Some(id) => {
                if pending.is_waiting(id) {
                    match pending.take(id) {
                        Some(handle) => {
                            let reply = reply_from(payload);
                            return Routed::Reply { handle, reply };
                        },
                        None => {},
                    }
                }
            },
            None => {},
        }
    }
    let follow_up = if str_eq(event_type.as_str(), "session/started") {
        let entry = started_session_entry(session_id.as_str(), &payload, now_ms, home);
        let info = if session_id.unicode_len() > 0 && workspace_id.unicode_len() > 0 {
            Some(
                ClaudeSessionInfo {
                    session_id: session_id.clone(),
                    workspace_id: workspace_id.clone(),
                    cwd: text_field_or(&payload, "cwd", ""),
                    started_at: now_ms,
                },
            )
        } else {
            None
        };
        FollowUp::SessionStarted { workspace_id: workspace_id.clone(), entry, info }
    } else if str_eq(event_type.as_str(), "result") {
        FollowUp::Activity { session_id: session_id.clone(), at: now_ms }
    } else {
        FollowUp::Nothing
    };
    let event = ClaudeEvent { event_type, session_id, workspace_id, timestamp, payload };
    Routed::Event { event, follow_up }
}

/// A reply reaches the caller whose request carried its id: once `handle`
/// waits under `id`, a reply that embeds `id` is routed to exactly that
/// handle, whatever else is waiting; a message that embeds another id never
/// takes it, and leaves it waiting.
pub proof fn law_reply_reaches_its_caller<H>(
    waiting: Map<u64, H>,
    id: u64,
    handle: H,
    reply: Json,
    other: Json,
)
    requires
        !waiting.contains_key(id),
        text_of(reply.field("type"@)) == Some("response"@),
        u64_of(payload_of(reply).field("id"@)) == Some(id),
        u64_of(payload_of(other).field("id"@)) != Some(id),
    ensures
        answered_id(reply, waiting.insert(id, handle)) == Some(id),
        waiting.insert(id, handle)[id] == handle,
        answered_id(other, waiting.insert(id, handle)) != Some(id),
        answered_id(other, waiting.insert(id, handle)) matches Some(j) ==> waiting.insert(
            id,
            handle,
        ).remove(j).contains_key(id) && waiting.insert(id, handle).remove(j)[id] == handle,
{
}

/// Carries out the registry work of an event: a started session is live_sessions
/// (when both its ids are known) and registered, a completed turn records
/// activity. Returns whether the registry changed and should be persisted.
pub fn apply_follow_up(
    registry: &mut ThreadRegistry,
    live_sessions: &mut OrderedMap<ClaudeSessionInfo>,
    follow_up: FollowUp,
) -> (persist: bool)
    requires
        old(registry).wf(),
        old(live_sessions).wf(),
    ensures
        final(registry).wf(),
        final(live_sessions).wf(),
        persist == !(follow_up is Nothing),
        match follow_up {
            FollowUp::Nothing => *final(registry) == *old(registry) && *final(live_sessions) == *old(live_sessions),
            FollowUp::SessionStarted { workspace_id, entry, info } => {
                &&& final(registry)@ == old(registry)@.register(workspace_id@, entry)
                &&& final(live_sessions)@ == match info {
                    Some(i) => old(live_sessions)@.insert(i.session_id@, i),
                    None => old(live_sessions)@,
                }
            },
            FollowUp::Activity { session_id, at } => {
                &&& final(registry)@ == old(registry)@.touch(session_id@, at, None)
                &&& *final(live_sessions) == *old(live_sessions)
            },
        },
{
    match follow_up {
        FollowUp::Nothing => false,
        FollowUp::SessionStarted { workspace_id, entry, info } => {
            match info {
                Some(i) => {
                    live_sessions.insert(i.session_id.clone(), i);
                },
                None => {},
            }
            registry.register(workspace_id.as_str(), entry);
            true
        },
        FollowUp::Activity { session_id, at } => {
            registry.update_activity_at(session_id.as_str(), at, None);
            true
        },
    }
}

/// The event announcing a line that could not be parsed, with the parser's
/// message.
pub fn parse_error_event(error: &str, now: i64) -> (r: ClaudeEvent)
    ensures
        r.event_type@ == "error"@,
        r.session_id@ == Seq::<char>::empty(),
        r.workspace_id@ == Seq::<char>::empty(),
        r.timestamp == now,
        r.payload is Object,
        r.payload->Object_0@.len() == 3,
        text_of(r.payload.field("code"@)) == Some("PARSE_ERROR"@),
        text_of(r.payload.field("message"@)) == Some("Failed to parse bridge output: "@ + error@),
        r.payload.field("recoverable"@) == Some(Json::Bool(true)),
{
    let mut message = String::new();
    push_str(&mut message, "Failed to parse bridge output: ");
    push_str(&mut message, error);
    let mut members: Vec<(String, Json)> = Vec::new();
    members.push(("code".to_string(), Json::Str("PARSE_ERROR".to_string())));
    members.push(("message".to_string(), Json::Str(message)));
    members.push(("recoverable".to_string(), Json::Bool(true)));
    proof {
        reveal_strlit("code");
        reveal_strlit("message");
        reveal_strlit("recoverable");
        reveal_with_fuel(crate::json::member, 4);
        let ms = members@;
        assert(ms[0].0@ == "code"@ && ms[1].0@ == "message"@);
        assert("code"@.len() == 4 && "message"@.len() == 7 && "recoverable"@.len() == 11);
        assert(ms[0].0@ != "message"@ && ms[0].0@ != "recoverable"@ && ms[1].0@ != "recoverable"@);
        assert(ms.drop_first()[0] == ms[1]);
        assert(ms.drop_first().drop_first()[0] == ms[2]);
        assert(crate::json::member(ms, "message"@) == Some(ms[1].1));
        assert(crate::json::member(ms, "recoverable"@) == Some(ms[2].1));
    }
    ClaudeEvent {
        event_type: "error".to_string(),
        session_id: String::new(),
        workspace_id: String::new(),
        timestamp: now,
        payload: Json::Object(members),
    }
}

/// The event for one line that the process wrote on its diagnostic stream;
/// blank lines give none.
pub fn stderr_event(line: &str, now: i64) -> (r: Option<ClaudeEvent>)
    ensures
        blank(line@) <==> r is None,
        r matches Some(ev) ==> {
            &&& ev.event_type@ == "bridge/stderr"@
            &&& ev.session_id@ == Seq::<char>::empty()
            &&& ev.workspace_id@ == Seq::<char>::empty()
            &&& ev.timestamp == now
            &&& ev.payload is Object
            &&& ev.payload->Object_0@.len() == 1
            &&& ev.payload->Object_0@[0].0@ == "message"@
            &&& ev.payload->Object_0@[0].1 is Str
            &&& ev.payload->Object_0@[0].1->Str_0@ == line@
        },
{
    if is_blank(line) {
        return None;
    }
    Some(
        ClaudeEvent {
            event_type: "bridge/stderr".to_string(),
            session_id: String::new(),
            workspace_id: String::new(),
            timestamp: now,
            payload: Json::single("message", Json::Str(line.to_string())),
        },
    )
}

/// What a request's resolution means to its caller: its error makes the
/// operation fail; otherwise its result (null when it has none) is the
/// answer.
pub fn reply_result(reply: Json) -> (r: Result<Json, Json>)
    ensures
        match reply.field("error"@) {
            Some(e) => r == Err::<Json, Json>(e),
            None => r == Ok::<Json, Json>(
                match reply.field("result"@) {
                    Some(v) => v,
                    None => Json::Null,
                },
            ),
        },
{
    let mut reply = reply;
    match reply.take_field("error") {
        Some(e) => Err(e),
        None => match reply.take_field("result") {
            Some(v) => Ok(v),
            None => Ok(Json::Null),
        },
    }
}

} // verus!
