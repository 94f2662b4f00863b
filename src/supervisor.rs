//! Decisions of the process supervisor: whether a bridge must be started,
//! and what the initialization handshake's outcome means.

use vstd::prelude::*;
use crate::json::Json;
use crate::router::ClaudeEvent;

verus! {

/// How long the initialization handshake may take, in seconds.
pub const INIT_TIMEOUT_SECS: u64 = 30;

/// What came of the initialization request.
pub enum InitOutcome {
    /// The process replied with this resolution.
    Replied(Json),
    /// Sending or waiting failed, with this message.
    Failed(String),
    /// No reply within the timeout.
    TimedOut,
}

/// Why a bridge could not be started; the process is to be killed.
#[derive(Debug)]
pub enum InitError {
    /// The reply carried this error.
    Rejected(Json),
    Failed(String),
    TimedOut,
}

/// The message of a failed handshake.
pub open spec fn failure_message(e: Seq<char>) -> Seq<char> {
    "Agent bridge initialization failed: "@ + e
}

/// The message of a handshake that timed out.
pub open spec fn timeout_message() -> Seq<char> {
    "Agent bridge did not respond to initialize within 30 seconds."@
}

impl InitError {
    /// The text shown for a failure or a timeout; a rejection has none of
    /// its own, as it carries the agent's error value.
    pub fn message(&self) -> (r: Option<String>)
        ensures
            match self {
                InitError::Rejected(_) => r is None,
                InitError::Failed(e) => r matches Some(m) && m@ == failure_message(e@),
                InitError::TimedOut => r matches Some(m) && m@ == timeout_message(),
            },
    {
        match self {
            InitError::Rejected(_) => None,
            InitError::Failed(e) => {
                let mut m = String::new();
                m.append("Agent bridge initialization failed: ");
                m.append(e.as_str());
                Some(m)
            },
            InitError::TimedOut => Some("Agent bridge did not respond to initialize within 30 seconds.".to_string()),
        }
    }
}

/// What the handshake's outcome means: a reply without an error connects
/// the bridge and announces it with the reply's result (null when it has
/// none); an error reply, a failure or a timeout is an error.
pub open spec fn handshake_means(outcome: InitOutcome, now: i64, r: Result<ClaudeEvent, InitError>) -> bool {
    match outcome {
        InitOutcome::Replied(reply) => match reply.field("error"@) {
            Some(e) => r matches Err(InitError::Rejected(x)) && x == e,
            None => r matches Ok(ev) && ev.event_type@ == "bridge/connected"@ && ev.session_id@
                == Seq::<char>::empty() && ev.workspace_id@ == Seq::<char>::empty() && ev.timestamp
                == now && ev.payload == match reply.field("result"@) {
                Some(v) => v,
                None => Json::Null,
            },
        },
        InitOutcome::Failed(m) => r matches Err(InitError::Failed(x)) && x == m,
        InitOutcome::TimedOut => r matches Err(InitError::TimedOut),
    }
}

/// Interprets the handshake's outcome at time `now`; see `handshake_means`.
pub fn handshake_result(outcome: InitOutcome, now: i64) -> (r: Result<ClaudeEvent, InitError>)
    ensures
        handshake_means(outcome, now, r),
{
    match outcome {
        InitOutcome::Replied(reply) => {
            let mut reply = reply;
            match reply.take_field("error") {
                Some(e) => Err(InitError::Rejected(e)),
                None => {
                    let payload = match reply.take_field("result") {
                        Some(v) => v,
                        None => Json::Null,
                    };
                    Ok(
                        ClaudeEvent {
                            event_type: "bridge/connected".to_string(),
                            session_id: String::new(),
                            workspace_id: String::new(),
                            timestamp: now,
                            payload,
                        },
                    )
                },
            }
        },
        InitOutcome::Failed(m) => Err(InitError::Failed(m)),
        InitOutcome::TimedOut => Err(InitError::TimedOut),
    }
}

/// What a call that needs the bridge must do first.
#[derive(Debug, PartialEq, Eq, Structural)]
pub enum Step {
    /// A bridge is up: use it.
    Reuse,
    /// None is up: spawn one and run the handshake.
    Spawn,
}

/// The single shared slot for the running bridge.
pub struct BridgeSlot<B> {
    pub current: Option<B>,
}

/// The result of starting a bridge: it is up and announced, or it is to be
/// killed, with the reason.
pub enum Started<B> {
    Up(ClaudeEvent),
    Down { bridge: B, error: InitError },
}

impl<B> BridgeSlot<B> {
    /// A slot with no bridge.
    pub fn new() -> (r: Self)
        ensures
            r.current is None,
    {
        BridgeSlot { current: None }
    }

    /// Whether a bridge is up.
    pub fn step(&self) -> (r: Step)
        ensures
            r == (if self.current is Some {
                Step::Reuse
            } else {
                Step::Spawn
            }),
    {
        match &self.current {
            Some(_) => Step::Reuse,
            None => Step::Spawn,
        }
    }

    /// Settles a freshly spawned `bridge` by its handshake's outcome: on
    /// success it fills the slot; otherwise the slot stays empty, so that the
    /// next call spawns a fresh process, and the bridge comes back to be
    /// killed.
    pub fn settle(&mut self, bridge: B, outcome: InitOutcome, now: i64) -> (r: Started<B>)
        requires
            old(self).current is None,
        ensures
            match r {
                Started::Up(ev) => final(self).current == Some(bridge) && handshake_means(
                    outcome,
                    now,
                    Ok(ev),
                ),
                Started::Down { bridge: b, error } => final(self).current is None && b == bridge
                    && handshake_means(outcome, now, Err(error)),
            },
    {
        match handshake_result(outcome, now) {
            Ok(ev) => {
                self.current = Some(bridge);
                Started::Up(ev)
            },
            Err(error) => Started::Down { bridge, error },
        }
    }

    /// Takes the bridge out, as when it is shut down.
    pub fn clear(&mut self) -> (r: Option<B>)
        ensures
            final(self).current is None,
            r == old(self).current,
    {
        let mut out: Option<B> = None;
        std::mem::swap(&mut out, &mut self.current);
        out
    }
}

} // verus!
