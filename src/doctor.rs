//! The installation check: what running `node --version` and the agent's
//! `--version` tells about the machine.

use vstd::prelude::*;
use crate::json::Json;
use crate::paths::AGENT_DIR;
use crate::text::{trim, trimmed, is_blank, blank};

verus! {

/// How long each probe may run, in seconds.
pub const PROBE_TIMEOUT_SECS: u64 = 5;

/// The programs that the check runs.
#[derive(Clone, Copy, Debug, PartialEq, Eq, Structural)]
pub enum Tool {
    Node,
    Agent,
}

/// How running `<tool> --version` ended.
pub enum ProbeOutcome {
    /// It ran, with this exit status and output.
    Exited { success: bool, stdout: String, stderr: String },
    /// The program was not found.
    NotFound,
    /// It could not be run, for this reason.
    Failed(String),
    /// It did not finish in time.
    TimedOut,
}

/// What the check concludes about one program.
#[derive(Debug)]
pub struct ProbeReport {
    pub ok: bool,
    pub version: Option<String>,
    pub details: Option<String>,
}

/// The text shown when a program is not found.
pub open spec fn not_found_text(t: Tool) -> Seq<char> {
    match t {
        Tool::Node => "Node.js not found on PATH."@,
        Tool::Agent => "Agent CLI not found. Install it and make sure it is on PATH."@,
    }
}

/// The text shown when a program took too long.
pub open spec fn timed_out_text(t: Tool) -> Seq<char> {
    match t {
        Tool::Node => "Timed out while checking Node.js."@,
        Tool::Agent => "Timed out while checking the agent CLI."@,
    }
}

/// The report of a probe: a successful run is fine when it printed a
/// version; a failed run reports its trimmed error output.
pub open spec fn report_of(t: Tool, o: ProbeOutcome, r: ProbeReport) -> bool {
    match o {
        ProbeOutcome::Exited { success, stdout, stderr } => if success {
            let v = trimmed(stdout@);
            &&& r.ok == (v.len() > 0)
            &&& if v.len() > 0 {
                r.version matches Some(x) && x@ == v
            } else {
                r.version is None
            }
            &&& r.details is None
        } else {
            !r.ok && r.version is None && (r.details matches Some(d) && d@ == trimmed(stderr@))
        },
        ProbeOutcome::NotFound => !r.ok && r.version is None && (r.details matches Some(d) && d@
            == not_found_text(t)),
        ProbeOutcome::Failed(e) => !r.ok && r.version is None && r.details == Some(e),
        ProbeOutcome::TimedOut => !r.ok && r.version is None && (r.details matches Some(d) && d@
            == timed_out_text(t)),
    }
}

/// Concludes about one program from how its probe ended.
pub fn assess_probe(tool: Tool, outcome: ProbeOutcome) -> (r: ProbeReport)
    ensures
        report_of(tool, outcome, r),
{
    match outcome {
        ProbeOutcome::Exited { success, stdout, stderr } => {
            if success {
                let v = trim(stdout.as_str());
                if v.unicode_len() > 0 {
                    ProbeReport { ok: true, version: Some(v.to_string()), details: None }
                } else {
                    ProbeReport { ok: false, version: None, details: None }
                }
            } else {
                ProbeReport { ok: false, version: None, details: Some(trim(stderr.as_str()).to_string()) }
            }
        },
        ProbeOutcome::NotFound => {
            let d = match tool {
                Tool::Node => "Node.js not found on PATH.".to_string(),
                Tool::Agent => "Agent CLI not found. Install it and make sure it is on PATH.".to_string(),
            };
            ProbeReport { ok: false, version: None, details: Some(d) }
        },
        ProbeOutcome::Failed(e) => ProbeReport { ok: false, version: None, details: Some(e) },
        ProbeOutcome::TimedOut => {
            let d = match tool {
                Tool::Node => "Timed out while checking Node.js.".to_string(),
                Tool::Agent => "Timed out while checking the agent CLI.".to_string(),
            };
            ProbeReport { ok: false, version: None, details: Some(d) }
        },
    }
}

/// The name of the agent's program when none is configured: its data
/// directory's name without the leading dot.
pub open spec fn default_agent_program() -> Seq<char> {
    AGENT_DIR@.drop_first()
}

/// The program to probe for the agent: the configured one unless blank.
pub fn agent_program(configured: Option<&str>) -> (r: String)
    ensures
        r@ == match configured {
            Some(c) if !blank(c@) => c@,
            _ => default_agent_program(),
        },
{
    match configured {
        Some(c) => {
            if !is_blank(c) {
                return c.to_string();
            }
        },
        None => {},
    }
    let n = AGENT_DIR.unicode_len();
    proof {
        reveal_strlit("\x2eclaude");
    }
    AGENT_DIR.substring_char(1, n).to_string()
}

fn opt_string(o: Option<String>) -> (r: Json)
    ensures
        r == match o {
            Some(s) => Json::Str(s),
            None => Json::Null,
        },
{
    match o {
        Some(s) => Json::Str(s),
        None => Json::Null,
    }
}

/// The check's result: both programs' reports and the search path used.
pub fn doctor_report(node: ProbeReport, agent: ProbeReport, path: Option<String>) -> (r: Json)
    ensures
        r is Object,
        r->Object_0@.len() == 8,
        r->Object_0@[0].0@ == "ok"@ && r->Object_0@[0].1 == Json::Bool(node.ok && agent.ok),
        r->Object_0@[1].0@ == "nodeOk"@ && r->Object_0@[1].1 == Json::Bool(node.ok),
        r->Object_0@[2].0@ == "nodeVersion"@ && r->Object_0@[2].1 == crate::protocol::opt_str(node.version),
        r->Object_0@[3].0@ == "nodeDetails"@ && r->Object_0@[3].1 == crate::protocol::opt_str(node.details),
        r->Object_0@[4].0@ == "claudeOk"@ && r->Object_0@[4].1 == Json::Bool(agent.ok),
        r->Object_0@[5].0@ == "claudeVersion"@ && r->Object_0@[5].1 == crate::protocol::opt_str(agent.version),
        r->Object_0@[6].0@ == "claudeDetails"@ && r->Object_0@[6].1 == crate::protocol::opt_str(agent.details),
        r->Object_0@[7].0@ == "path"@ && r->Object_0@[7].1 == crate::protocol::opt_str(path),
{
    let mut m: Vec<(String, Json)> = Vec::new();
    m.push(("ok".to_string(), Json::Bool(node.ok && agent.ok)));
    m.push(("nodeOk".to_string(), Json::Bool(node.ok)));
    m.push(("nodeVersion".to_string(), opt_string(node.version)));
    m.push(("nodeDetails".to_string(), opt_string(node.details)));
    m.push(("claudeOk".to_string(), Json::Bool(agent.ok)));
    m.push(("claudeVersion".to_string(), opt_string(agent.version)));
    m.push(("claudeDetails".to_string(), opt_string(agent.details)));
    m.push(("path".to_string(), opt_string(path)));
    Json::Object(m)
}

} // verus!
