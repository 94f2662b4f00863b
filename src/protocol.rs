//! The messages sent to the agent process: one variant per method, each with
//! the parameters the process expects.

use vstd::prelude::*;
use crate::json::Json;
use crate::router::ClaudeSessionInfo;
use crate::table::OrderedMap;
use crate::text::{is_blank, blank};

verus! {

/// A request to the agent process.
pub enum ClientRequest {
    Initialize { name: String, version: String },
    StartSession {
        workspace_id: String,
        cwd: String,
        model: Option<String>,
        permission_mode: Option<String>,
        default_permission_mode: String,
        claude_code_bin: Option<String>,
        enable_file_checkpointing: Option<bool>,
        mcp_servers: Option<Json>,
        plugins: Option<Json>,
        agents: Option<Json>,
    },
    ResumeSession { workspace_id: String, session_id: String, cwd: String, claude_code_bin: Option<String> },
    SendMessage {
        session_id: String,
        workspace_id: String,
        message: String,
        images: Option<Vec<String>>,
        message_id: Option<String>,
    },
    Interrupt { session_id: String },
    RespondPermission { session_id: String, tool_use_id: String, decision: String, message: Option<String> },
    ListModels { session_id: String },
    ListCommands { session_id: Option<String> },
    McpStatus { session_id: String },
    RewindFiles { session_id: String, user_message_id: String, dry_run: Option<bool> },
    SetMcpServers { session_id: String, servers: Json },
    CloseSession { session_id: String },
}

/// The method name of a request.
pub open spec fn method_of(r: ClientRequest) -> Seq<char> {
    match r {
        ClientRequest::Initialize { .. } => "initialize"@,
        ClientRequest::StartSession { .. } => "session/start"@,
        ClientRequest::ResumeSession { .. } => "session/resume"@,
        ClientRequest::SendMessage { .. } => "message/send"@,
        ClientRequest::Interrupt { .. } => "message/interrupt"@,
        ClientRequest::RespondPermission { .. } => "permission/respond"@,
        ClientRequest::ListModels { .. } => "model/list"@,
        ClientRequest::ListCommands { .. } => "command/list"@,
        ClientRequest::McpStatus { .. } => "mcp/status"@,
        ClientRequest::RewindFiles { .. } => "session/rewind"@,
        ClientRequest::SetMcpServers { .. } => "mcp/set"@,
        ClientRequest::CloseSession { .. } => "session/close"@,
    }
}

/// A string, or null.
pub open spec fn opt_str(o: Option<String>) -> Json {
    match o {
        Some(s) => Json::Str(s),
        None => Json::Null,
    }
}

/// A flag, or null.
pub open spec fn opt_bool(o: Option<bool>) -> Json {
    match o {
        Some(b) => Json::Bool(b),
        None => Json::Null,
    }
}

/// A value, or null.
pub open spec fn opt_json(o: Option<Json>) -> Json {
    match o {
        Some(j) => j,
        None => Json::Null,
    }
}

/// `j` is an object with exactly these members, in this order.
pub open spec fn has_members(j: Json, m: Seq<(Seq<char>, Json)>) -> bool {
    &&& j is Object
    &&& j->Object_0@.len() == m.len()
    &&& forall|i: int|
        0 <= i < m.len() ==> (#[trigger] j->Object_0@[i]).0@ == m[i].0 && j->Object_0@[i].1 == m[i].1
}

/// An array of strings, or null.
pub open spec fn strings_or_null(j: Json, o: Option<Vec<String>>) -> bool {
    match o {
        Some(v) => j is Array && j->Array_0@.len() == v@.len() && forall|i: int|
            0 <= i < v@.len() ==> #[trigger] j->Array_0@[i] == Json::Str(v@[i]),
        None => j == Json::Null,
    }
}

/// The parameters of a request, member by member.
pub open spec fn params_of(r: ClientRequest, p: Json) -> bool {
    match r {
        ClientRequest::Initialize { name, version } => p is Object && p->Object_0@.len() == 1
            && p->Object_0@[0].0@ == "clientInfo"@ && has_members(
            p->Object_0@[0].1,
            seq![("name"@, Json::Str(name)), ("version"@, Json::Str(version))],
        ),
        ClientRequest::StartSession {
            workspace_id,
            cwd,
            model,
            permission_mode,
            default_permission_mode,
            claude_code_bin,
            enable_file_checkpointing,
            mcp_servers,
            plugins,
            agents,
        } => has_members(
            p,
            seq![
                ("workspaceId"@, Json::Str(workspace_id)),
                ("cwd"@, Json::Str(cwd)),
                ("model"@, opt_str(model)),
                ("permissionMode"@, Json::Str(match permission_mode {
                    Some(m) => m,
                    None => default_permission_mode,
                })),
                ("claudeCodeBin"@, opt_str(claude_code_bin)),
                ("enableFileCheckpointing"@, opt_bool(enable_file_checkpointing)),
                ("mcpServers"@, opt_json(mcp_servers)),
                ("plugins"@, opt_json(plugins)),
                ("agents"@, opt_json(agents)),
            ],
        ),
        ClientRequest::ResumeSession { workspace_id, session_id, cwd, claude_code_bin } => has_members(
            p,
            seq![
                ("workspaceId"@, Json::Str(workspace_id)),
                ("sessionId"@, Json::Str(session_id)),
                ("cwd"@, Json::Str(cwd)),
                ("claudeCodeBin"@, opt_str(claude_code_bin)),
            ],
        ),
        ClientRequest::SendMessage { session_id, workspace_id, message, images, message_id } => {
            &&& p is Object
            &&& p->Object_0@.len() == 5
            &&& p->Object_0@[0].0@ == "sessionId"@ && p->Object_0@[0].1 == Json::Str(session_id)
            &&& p->Object_0@[1].0@ == "workspaceId"@ && p->Object_0@[1].1 == Json::Str(workspace_id)
            &&& p->Object_0@[2].0@ == "message"@ && p->Object_0@[2].1 == Json::Str(message)
            &&& p->Object_0@[3].0@ == "images"@ && strings_or_null(p->Object_0@[3].1, images)
            &&& p->Object_0@[4].0@ == "messageId"@ && p->Object_0@[4].1 == opt_str(message_id)
        },
        ClientRequest::Interrupt { session_id } => has_members(
            p,
            seq![("sessionId"@, Json::Str(session_id))],
        ),
        ClientRequest::RespondPermission { session_id, tool_use_id, decision, message } => has_members(
            p,
            seq![
                ("sessionId"@, Json::Str(session_id)),
                ("toolUseId"@, Json::Str(tool_use_id)),
                ("decision"@, Json::Str(decision)),
                ("message"@, opt_str(message)),
            ],
        ),
        ClientRequest::ListModels { session_id } => has_members(
            p,
            seq![("sessionId"@, Json::Str(session_id))],
        ),
        ClientRequest::ListCommands { session_id } => has_members(
            p,
            seq![("sessionId"@, opt_str(session_id))],
        ),
        ClientRequest::McpStatus { session_id } => has_members(
            p,
            seq![("sessionId"@, Json::Str(session_id))],
        ),
        ClientRequest::RewindFiles { session_id, user_message_id, dry_run } => has_members(
            p,
            seq![
                ("sessionId"@, Json::Str(session_id)),
                ("userMessageId"@, Json::Str(user_message_id)),
                ("dryRun"@, opt_bool(dry_run)),
            ],
        ),
        ClientRequest::SetMcpServers { session_id, servers } => has_members(
            p,
            seq![("sessionId"@, Json::Str(session_id)), ("servers"@, servers)],
        ),
        ClientRequest::CloseSession { session_id } => has_members(
            p,
            seq![("sessionId"@, Json::Str(session_id))],
        ),
    }
}

fn json_str(o: Option<String>) -> (r: Json)
    ensures
        r == opt_str(o),
{
    match o {
        Some(s) => Json::Str(s),
        None => Json::Null,
    }
}

fn json_bool(o: Option<bool>) -> (r: Json)
    ensures
        r == opt_bool(o),
{
    match o {
        Some(b) => Json::Bool(b),
        None => Json::Null,
    }
}

fn json_value(o: Option<Json>) -> (r: Json)
    ensures
        r == opt_json(o),
{
    match o {
        Some(j) => j,
        None => Json::Null,
    }
}

fn json_strings(o: Option<Vec<String>>) -> (r: Json)
    ensures
        strings_or_null(r, o),
{
    match o {
        Some(v) => {
            let mut items: Vec<Json> = Vec::new();
            let mut i: usize = 0;
            while i < v.len()
                invariant
                    i <= v@.len(),
                    items@.len() == i,
                    forall|k: int| 0 <= k < i ==> #[trigger] items@[k] == Json::Str(v@[k]),
                decreases v@.len() - i,
            {
                items.push(Json::Str(v[i].clone()));
                i = i + 1;
            }
            Json::Array(items)
        },
        None => Json::Null,
    }
}

fn put(m: &mut Vec<(String, Json)>, key: &str, value: Json)
    ensures
        final(m)@.len() == old(m)@.len() + 1,
        forall|i: int| 0 <= i < old(m)@.len() ==> #[trigger] final(m)@[i] == old(m)@[i],
        final(m)@[old(m)@.len() as int].0@ == key@,
        final(m)@[old(m)@.len() as int].1 == value,
{
    m.push((key.to_string(), value));
}

impl ClientRequest {
    /// The method name; see `method_of`.
    pub fn method(&self) -> (r: &'static str)
        ensures
            r@ == method_of(*self),
    {
        match self {
            ClientRequest::Initialize { .. } => "initialize",
            ClientRequest::StartSession { .. } => "session/start",
            ClientRequest::ResumeSession { .. } => "session/resume",
            ClientRequest::SendMessage { .. } => "message/send",
            ClientRequest::Interrupt { .. } => "message/interrupt",
            ClientRequest::RespondPermission { .. } => "permission/respond",
            ClientRequest::ListModels { .. } => "model/list",
            ClientRequest::ListCommands { .. } => "command/list",
            ClientRequest::McpStatus { .. } => "mcp/status",
            ClientRequest::RewindFiles { .. } => "session/rewind",
            ClientRequest::SetMcpServers { .. } => "mcp/set",
            ClientRequest::CloseSession { .. } => "session/close",
        }
    }

    /// The parameters; see `params_of`.
    pub fn into_params(self) -> (r: Json)
        ensures
            params_of(self, r),
    {
        let ghost me = self;
        let mut m: Vec<(String, Json)> = Vec::new();
        match self {
            ClientRequest::Initialize { name, version } => {
                let mut info: Vec<(String, Json)> = Vec::new();
                put(&mut info, "name", Json::Str(name));
                put(&mut info, "version", Json::Str(version));
                put(&mut m, "clientInfo", Json::Object(info));
            },
            ClientRequest::StartSession {
                workspace_id,
                cwd,
                model,
                permission_mode,
                default_permission_mode,
                claude_code_bin,
                enable_file_checkpointing,
                mcp_servers,
                plugins,
                agents,
            } => {
                put(&mut m, "workspaceId", Json::Str(workspace_id));
                put(&mut m, "cwd", Json::Str(cwd));
                put(&mut m, "model", json_str(model));
                let mode = match permission_mode {
                    Some(p) => p,
                    None => default_permission_mode,
                };
                put(&mut m, "permissionMode", Json::Str(mode));
                put(&mut m, "claudeCodeBin", json_str(claude_code_bin));
                put(&mut m, "enableFileCheckpointing", json_bool(enable_file_checkpointing));
                put(&mut m, "mcpServers", json_value(mcp_servers));
                put(&mut m, "plugins", json_value(plugins));
                put(&mut m, "agents", json_value(agents));
            },
            ClientRequest::ResumeSession { workspace_id, session_id, cwd, claude_code_bin } => {
                put(&mut m, "workspaceId", Json::Str(workspace_id));
                put(&mut m, "sessionId", Json::Str(session_id));
                put(&mut m, "cwd", Json::Str(cwd));
                put(&mut m, "claudeCodeBin", json_str(claude_code_bin));
            },
            ClientRequest::SendMessage { session_id, workspace_id, message, images, message_id } => {
                put(&mut m, "sessionId", Json::Str(session_id));
                put(&mut m, "workspaceId", Json::Str(workspace_id));
                put(&mut m, "message", Json::Str(message));
                put(&mut m, "images", json_strings(images));
                put(&mut m, "messageId", json_str(message_id));
            },
            ClientRequest::Interrupt { session_id } => {
                put(&mut m, "sessionId", Json::Str(session_id));
            },
            ClientRequest::RespondPermission { session_id, tool_use_id, decision, message } => {
                put(&mut m, "sessionId", Json::Str(session_id));
                put(&mut m, "toolUseId", Json::Str(tool_use_id));
                put(&mut m, "decision", Json::Str(decision));
                put(&mut m, "message", json_str(message));
            },
            ClientRequest::ListModels { session_id } => {
                put(&mut m, "sessionId", Json::Str(session_id));
            },
            ClientRequest::ListCommands { session_id } => {
                put(&mut m, "sessionId", json_str(session_id));
            },
            ClientRequest::McpStatus { session_id } => {
                put(&mut m, "sessionId", Json::Str(session_id));
            },
            ClientRequest::RewindFiles { session_id, user_message_id, dry_run } => {
                put(&mut m, "sessionId", Json::Str(session_id));
                put(&mut m, "userMessageId", Json::Str(user_message_id));
                put(&mut m, "dryRun", json_bool(dry_run));
            },
            ClientRequest::SetMcpServers { session_id, servers } => {
                put(&mut m, "sessionId", Json::Str(session_id));
                put(&mut m, "servers", servers);
            },
            ClientRequest::CloseSession { session_id } => {
                put(&mut m, "sessionId", Json::Str(session_id));
            },
        }
        Json::Object(m)
    }
}

/// The line sent for a request: its id, method and parameters.
pub fn request_message(id: u64, method: &str, params: Json) -> (r: Json)
    ensures
        r is Object,
        r->Object_0@.len() == 3,
        r->Object_0@[0].0@ == "id"@ && r->Object_0@[0].1 == Json::UInt(id),
        r->Object_0@[1].0@ == "method"@ && r->Object_0@[1].1 is Str && r->Object_0@[1].1->Str_0@
            == method@,
        r->Object_0@[2].0@ == "params"@ && r->Object_0@[2].1 == params,
{
    let mut m: Vec<(String, Json)> = Vec::new();
    put(&mut m, "id", Json::UInt(id));
    put(&mut m, "method", Json::Str(method.to_string()));
    put(&mut m, "params", params);
    Json::Object(m)
}

/// The line sent for a notification: its method and, when given, its
/// parameters; it carries no id and gets no reply.
pub fn notification_message(method: &str, params: Option<Json>) -> (r: Json)
    ensures
        r is Object,
        r->Object_0@[0].0@ == "method"@,
        r->Object_0@[0].1 is Str,
        r->Object_0@[0].1->Str_0@ == method@,
        match params {
            Some(p) => r->Object_0@.len() == 2 && r->Object_0@[1].0@ == "params"@ && r->Object_0@[1].1 == p,
            None => r->Object_0@.len() == 1,
        },
{
    let mut m: Vec<(String, Json)> = Vec::new();
    put(&mut m, "method", Json::Str(method.to_string()));
    match params {
        Some(p) => put(&mut m, "params", p),
        None => {},
    }
    Json::Object(m)
}

/// The message of the error when no session can be named.
pub open spec fn no_session_message() -> Seq<char> {
    "No active agent session found"@
}

/// The session that a model listing asks about: the one requested unless it
/// is blank, else the first session seen starting in this run.
pub fn resolve_model_session(requested: Option<String>, live: &OrderedMap<ClaudeSessionInfo>) -> (r: Result<String, String>)
    requires
        live.wf(),
    ensures
        match requested {
            Some(s) if !blank(s@) => r == Ok::<String, String>(s),
            _ => if live.entries@.len() > 0 {
                r matches Ok(s) && s@ == live.key_order()[0]
            } else {
                r matches Err(e) && e@ == no_session_message()
            },
        },
{
    match requested {
        Some(s) => {
            if !is_blank(s.as_str()) {
                return Ok(s);
            }
        },
        None => {},
    }
    if live.entries.len() > 0 {
        Ok(live.entries[0].0.clone())
    } else {
        Err("No active agent session found".to_string())
    }
}

/// The agent binary to check: the one requested unless it is blank, else
/// the configured one.
pub fn resolve_claude_bin(requested: Option<String>, configured: Option<String>) -> (r: Option<String>)
    ensures
        r == match requested {
            Some(s) if !blank(s@) => Some(s),
            _ => configured,
        },
{
    match requested {
        Some(s) => if !is_blank(s.as_str()) {
            Some(s)
        } else {
            configured
        },
        None => configured,
    }
}

} // verus!
