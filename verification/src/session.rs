//! The per-connection lifecycle: a state machine run once for every
//! accepted connection. The surrounding runtime performs the network work
//! (accept, handshake, send, receive) and feeds the outcome of each step
//! back as an event; this module decides the next state and what to do,
//! so the sequencing discipline itself is proved.

use vstd::prelude::*;
use crate::frame::Frame;

verus! {

/// Where a connection handler stands. `Closed` is terminal.
#[derive(Clone, Copy, Debug, PartialEq, Eq, Structural)]
pub enum SessionState {
    Connecting,
    Handshaking,
    Registered,
    Relaying,
    Closed,
}

/// The outcome of the most recent piece of outside work on a connection.
#[derive(Clone, Debug, PartialEq, Eq)]
pub enum SessionEvent {
    /// The TCP accept completed.
    Accepted,
    /// The protocol upgrade completed.
    HandshakeSucceeded,
    /// The protocol upgrade failed; the connection is dropped.
    HandshakeFailed,
    /// The identity announcement reached the peer.
    WelcomeSent,
    /// The identity announcement could not be sent.
    WelcomeSendFailed,
    /// An inbound frame arrived.
    FrameArrived(Frame),
    /// The peer ended the inbound stream.
    StreamEnded,
    /// Reading the next inbound frame failed.
    ReceiveFailed,
    /// Forwarding a frame onward failed.
    ForwardFailed,
}

/// What the handler must do next.
#[derive(Clone, Debug, PartialEq, Eq)]
pub enum SessionAction {
    /// Nothing beyond moving to the next state.
    Proceed,
    /// Under one exclusive scope: allocate an identity, insert the session
    /// into the registry, then announce the identity to the peer.
    Register,
    /// Forward this frame per the configured relay mode.
    Relay(Frame),
    /// A control frame: consumed by the protocol layer, never relayed.
    Discard,
    /// Remove this handler's own entry from the registry, then terminate.
    Deregister,
    /// Abandon the connection; no registry entry exists, none is touched.
    Abandon,
}

/// The transition relation of the handler. Any event that is out of place
/// in the current state closes the connection, deregistering exactly when
/// an entry may exist (at or after registration).
pub open spec fn spec_session_step(state: SessionState, event: SessionEvent) -> (
    SessionState,
    SessionAction,
) {
    match (state, event) {
        (SessionState::Connecting, SessionEvent::Accepted) => (
            SessionState::Handshaking,
            SessionAction::Proceed,
        ),
        (SessionState::Connecting, _) => (SessionState::Closed, SessionAction::Abandon),
        (SessionState::Handshaking, SessionEvent::HandshakeSucceeded) => (
            SessionState::Registered,
            SessionAction::Register,
        ),
        (SessionState::Handshaking, _) => (SessionState::Closed, SessionAction::Abandon),
        (SessionState::Registered, SessionEvent::WelcomeSent) => (
            SessionState::Relaying,
            SessionAction::Proceed,
        ),
        (SessionState::Registered, _) => (SessionState::Closed, SessionAction::Deregister),
        (SessionState::Relaying, SessionEvent::FrameArrived(f)) => if f.is_data() {
            (SessionState::Relaying, SessionAction::Relay(f))
        } else {
            (SessionState::Relaying, SessionAction::Discard)
        },
        (SessionState::Relaying, _) => (SessionState::Closed, SessionAction::Deregister),
        (SessionState::Closed, _) => (SessionState::Closed, SessionAction::Proceed),
    }
}

/// One step of the handler: from the current state and the latest event to
/// the next state and the action the runtime must perform.
pub fn session_step(state: SessionState, event: SessionEvent) -> (r: (SessionState, SessionAction))
    ensures
        r == spec_session_step(state, event),
{
    match (state, event) {
        (SessionState::Connecting, SessionEvent::Accepted) => (
            SessionState::Handshaking,
            SessionAction::Proceed,
        ),
        (SessionState::Connecting, _) => (SessionState::Closed, SessionAction::Abandon),
        (SessionState::Handshaking, SessionEvent::HandshakeSucceeded) => (
            SessionState::Registered,
            SessionAction::Register,
        ),
        (SessionState::Handshaking, _) => (SessionState::Closed, SessionAction::Abandon),
        (SessionState::Registered, SessionEvent::WelcomeSent) => (
            SessionState::Relaying,
            SessionAction::Proceed,
        ),
        (SessionState::Registered, _) => (SessionState::Closed, SessionAction::Deregister),
        (SessionState::Relaying, SessionEvent::FrameArrived(f)) => {
            if f.is_relayable() {
                (SessionState::Relaying, SessionAction::Relay(f))
            } else {
                (SessionState::Relaying, SessionAction::Discard)
            }
        },
        (SessionState::Relaying, _) => (SessionState::Closed, SessionAction::Deregister),
        (SessionState::Closed, _) => (SessionState::Closed, SessionAction::Proceed),
    }
}

/// `Closed` is terminal: no event leads out of it, and nothing more is done.
pub proof fn lemma_closed_terminal(event: SessionEvent)
    ensures
        spec_session_step(SessionState::Closed, event).0 == SessionState::Closed,
        spec_session_step(SessionState::Closed, event).1 == SessionAction::Proceed,
{
}

/// Filter correctness: while relaying, a text or binary frame is always
/// handed to the relay, and a control frame never is (it is discarded, and
/// the connection stays in the relaying state either way).
pub proof fn lemma_filter_correctness(f: Frame)
    ensures
        spec_session_step(SessionState::Relaying, SessionEvent::FrameArrived(f)).0
            == SessionState::Relaying,
        f.is_data() ==> spec_session_step(SessionState::Relaying, SessionEvent::FrameArrived(f)).1
            == SessionAction::Relay(f),
        !f.is_data() ==> spec_session_step(SessionState::Relaying, SessionEvent::FrameArrived(f)).1
            == SessionAction::Discard,
{
}

/// The cleanup discipline behind the no-leak property: every transition
/// into `Closed` from a state at or after registration deregisters the
/// handler's entry, and no transition before registration ever touches the
/// registry (neither deregistering nor relaying).
pub proof fn lemma_closure_cleanup(state: SessionState, event: SessionEvent)
    ensures
        (state == SessionState::Registered || state == SessionState::Relaying)
            && spec_session_step(state, event).0 == SessionState::Closed ==> spec_session_step(
            state,
            event,
        ).1 == SessionAction::Deregister,
        (state == SessionState::Connecting || state == SessionState::Handshaking) ==> {
            &&& spec_session_step(state, event).1 != SessionAction::Deregister
            &&& !(spec_session_step(state, event).1 matches SessionAction::Relay(_))
            &&& spec_session_step(state, event).1 != SessionAction::Register || state
                == SessionState::Handshaking
        },
{
}

} // verus!
