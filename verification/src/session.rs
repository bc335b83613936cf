//! The per-connection pipeline, as a state machine over plain values.
//!
//! One accepted connection walks these states in order: read the CONNECT
//! request into a bounded buffer, decide admission against the allowlist,
//! dial the approved target, then relay. The driver performs the reads,
//! writes and dialing that each [`SessionAction`] asks for and feeds the
//! outcome back in as the next [`SessionEvent`]; every decision along the
//! way is taken here.

use crate::config::Config;
use crate::parse::{ascii_chars, connect_target, ends_with_terminator, parse_http_connect};
use crate::parse::buffer_terminated;
use vstd::prelude::*;

verus! {

/// The most bytes a CONNECT request may occupy, headers included. A request
/// still unterminated at this ceiling is rejected, not truncated into a
/// valid parse.
pub const HTTP_BUFFER_SIZE: usize = 2048;

/// Where one connection stands in its pipeline.
pub enum SessionState {
    /// Reading the request; `buf` holds the bytes seen so far.
    Reading { buf: Vec<u8> },
    /// The target was admitted and is being dialed.
    Dialing,
    /// The tunnel is established; bytes are relayed.
    Relaying,
    /// The session is over; no further event is expected.
    Closed,
}

/// What the driver observed for this connection.
pub enum SessionEvent {
    /// Bytes read from the client while the request is being read; an empty
    /// chunk means end-of-stream or a full buffer, either of which ends the
    /// session.
    ClientBytes(Vec<u8>),
    /// Whether dialing the target succeeded.
    DialOutcome(bool),
}

/// What the driver must do next.
pub enum SessionAction {
    /// Keep reading client bytes into the remaining buffer capacity.
    ContinueReading,
    /// Close the connection without sending anything.
    AbortNoResponse,
    /// Send the `403 Forbidden` response, then close.
    RespondForbidden,
    /// Open a TCP connection to this target authority.
    Dial(String),
    /// Send the `200 Connection Established` response, then relay.
    RespondEstablished,
}

impl SessionState {
    /// The read buffer never outgrows the request ceiling.
    pub open spec fn wf(self) -> bool {
        self matches SessionState::Reading { buf } ==> buf@.len() <= HTTP_BUFFER_SIZE
    }
}

/// The allowlist decision, phrased over the target bytes of a parsed
/// request.
pub open spec fn allows_bytes(config: Config, target: Seq<u8>) -> bool {
    config.allows(ascii_chars(target))
}

/// Everything `session_step` decides, as a relation between the state and
/// event that went in and the state and action that came out.
pub open spec fn session_step_ok(
    config: Config,
    state: SessionState,
    event: SessionEvent,
    r: (SessionState, SessionAction),
) -> bool {
    match (state, event) {
        (SessionState::Reading { buf }, SessionEvent::ClientBytes(chunk)) => if chunk@.len()
            == 0 {
            // End-of-stream (or a full buffer) before the header block ends:
            // there is no request.
            r.0 is Closed && r.1 is AbortNoResponse
        } else {
            let grown = buf@ + chunk@;
            if !ends_with_terminator(grown) {
                (r.0 matches SessionState::Reading { buf: b } && b@ == grown)
                    && r.1 is ContinueReading
            } else {
                match connect_target(grown) {
                    None => r.0 is Closed && r.1 is AbortNoResponse,
                    Some(t) => if allows_bytes(config, t) {
                        r.0 is Dialing && (r.1 matches SessionAction::Dial(ts) && ts@
                            == ascii_chars(t))
                    } else {
                        r.0 is Closed && r.1 is RespondForbidden
                    },
                }
            }
        },
        (SessionState::Dialing, SessionEvent::DialOutcome(ok)) => if ok {
            r.0 is Relaying && r.1 is RespondEstablished
        } else {
            r.0 is Closed && r.1 is AbortNoResponse
        },
        _ => false,
    }
}

/// Advance one connection's pipeline by one observation.
pub fn session_step(config: &Config, state: SessionState, event: SessionEvent) -> (r: (
    SessionState,
    SessionAction,
))
    requires
        state.wf(),
        state matches SessionState::Reading { buf } ==> (event matches SessionEvent::ClientBytes(
            chunk,
        ) && buf@.len() + chunk@.len() <= HTTP_BUFFER_SIZE),
        state is Dialing ==> event is DialOutcome,
        state is Reading || state is Dialing,
    ensures
        session_step_ok(*config, state, event, r),
        r.0.wf(),
{
    match (state, event) {
        (SessionState::Reading { mut buf }, SessionEvent::ClientBytes(chunk)) => {
            if chunk.len() == 0 {
                return (SessionState::Closed, SessionAction::AbortNoResponse);
            }
            let mut chunk = chunk;
            buf.append(&mut chunk);
            if !buffer_terminated(buf.as_slice()) {
                return (SessionState::Reading { buf }, SessionAction::ContinueReading);
            }
            match parse_http_connect(buf.as_slice()) {
                Err(_) => (SessionState::Closed, SessionAction::AbortNoResponse),
                Ok(target) => {
                    if config.is_server_allowed(target.as_str()) {
                        (SessionState::Dialing, SessionAction::Dial(target))
                    } else {
                        (SessionState::Closed, SessionAction::RespondForbidden)
                    }
                },
            }
        },
        (SessionState::Dialing, SessionEvent::DialOutcome(ok)) => {
            if ok {
                (SessionState::Relaying, SessionAction::RespondEstablished)
            } else {
                (SessionState::Closed, SessionAction::AbortNoResponse)
            }
        },
        _ => (SessionState::Closed, SessionAction::AbortNoResponse),
    }
}

/// Admission is exactly the allowlist check. A step asks to dial only when a
/// complete, well-formed CONNECT request named a target the allowlist
/// admits, and the dialed string is that target verbatim; it answers `403`
/// exactly when the request named a target off the list; and it opens the
/// relay only after the admitted target was dialed successfully.
pub proof fn lemma_admission(
    config: Config,
    state: SessionState,
    event: SessionEvent,
    r: (SessionState, SessionAction),
)
    requires
        session_step_ok(config, state, event, r),
    ensures
        r.1 matches SessionAction::Dial(ts) ==> (state matches SessionState::Reading { buf }
            && event matches SessionEvent::ClientBytes(chunk) && ends_with_terminator(
            buf@ + chunk@,
        ) && (connect_target(buf@ + chunk@) matches Some(t) && allows_bytes(config, t) && ts@
            == ascii_chars(t))),
        r.1 is RespondForbidden ==> (state matches SessionState::Reading { buf }
            && event matches SessionEvent::ClientBytes(chunk) && (connect_target(buf@ + chunk@)
            matches Some(t) && !allows_bytes(config, t))),
        r.1 is RespondEstablished ==> state is Dialing && event == SessionEvent::DialOutcome(
            true,
        ) && r.0 is Relaying,
{
}

/// The response that tells the client the tunnel is open.
pub open spec fn established_response() -> Seq<char> {
    "HTTP/1.0 200 Connection Established\r\n\r\n"@
}

/// The response sent when the target is not on the allowlist.
pub open spec fn forbidden_response() -> Seq<char> {
    "HTTP/1.0 403 Forbidden\r\n\r\n"@
}

/// The bytes to send after a successful dial.
pub fn response_established() -> (r: &'static str)
    ensures
        r@ == established_response(),
{
    "HTTP/1.0 200 Connection Established\r\n\r\n"
}

/// The bytes to send when access is denied.
pub fn response_forbidden() -> (r: &'static str)
    ensures
        r@ == forbidden_response(),
{
    "HTTP/1.0 403 Forbidden\r\n\r\n"
}

} // verus!
