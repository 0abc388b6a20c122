//! The connection lifecycle and its relation to the registry.
//!
//! A connection moves through `Connecting`, `Active`, `Closing` and the
//! terminal `Closed`. It is registered exactly while it is `Active` or,
//! transiently, `Closing` (removal in progress); it is registered at most
//! once and its identity is never reinserted after removal.

use vstd::prelude::*;

verus! {

/// The lifecycle states of one connection.
#[derive(Clone, Copy, PartialEq, Eq, Structural, Debug)]
pub enum ConnState {
    /// Transport accepted, handshake in progress; no registry entry exists.
    Connecting,
    /// Handshake succeeded; entry present in the registry; the broadcast
    /// router loop is running.
    Active,
    /// Inbound stream ended or a fatal transport error was observed;
    /// registry removal is in progress.
    Closing,
    /// Registry entry absent; all resources released; terminal.
    Closed,
}

/// The events that move one connection through its lifecycle.
#[derive(Clone, Copy, PartialEq, Eq, Structural, Debug)]
pub enum ConnEvent {
    /// The transport accepted a new connection under a fresh identity.
    Accepted,
    /// The handshake completed; the connection must be registered.
    HandshakeOk,
    /// The handshake failed; the connection is discarded, never registered.
    HandshakeFailed,
    /// The inbound stream ended: peer close, protocol error or read error.
    StreamEnded,
    /// The registry entry has been removed; removal is terminal.
    Removed,
}

/// What the surrounding task must do on a transition.
#[derive(Clone, Copy, PartialEq, Eq, Structural, Debug)]
pub enum ConnAction {
    /// Insert the connection's identity and sink into the registry.
    Register,
    /// Remove the connection's identity from the registry.
    Deregister,
    /// Drop the connection without touching the registry.
    Discard,
    /// Nothing to do.
    Idle,
}

/// Whether `event` may happen to a connection in state `s`.
pub open spec fn event_allowed(s: ConnState, event: ConnEvent) -> bool {
    match event {
        ConnEvent::Accepted => false,  // creates a connection; never applies to one
        ConnEvent::HandshakeOk => s == ConnState::Connecting,
        ConnEvent::HandshakeFailed => s == ConnState::Connecting,
        ConnEvent::StreamEnded => s == ConnState::Active,
        ConnEvent::Removed => s == ConnState::Closing,
    }
}

/// The state a connection reaches when `event` happens in state `s`.
pub open spec fn next_state(s: ConnState, event: ConnEvent) -> ConnState {
    match event {
        ConnEvent::Accepted => s,
        ConnEvent::HandshakeOk => ConnState::Active,
        ConnEvent::HandshakeFailed => ConnState::Closed,
        ConnEvent::StreamEnded => ConnState::Closing,
        ConnEvent::Removed => ConnState::Closed,
    }
}

/// What the task owning the connection must do when `event` happens.
pub open spec fn step_action(event: ConnEvent) -> ConnAction {
    match event {
        ConnEvent::Accepted => ConnAction::Idle,
        ConnEvent::HandshakeOk => ConnAction::Register,
        ConnEvent::HandshakeFailed => ConnAction::Discard,
        ConnEvent::StreamEnded => ConnAction::Deregister,
        ConnEvent::Removed => ConnAction::Idle,
    }
}

/// Whether `event` may happen to a connection in state `s`. An event out of
/// turn is a programming error in the surrounding task, not a recoverable
/// condition.
pub fn conn_event_allowed(s: ConnState, event: ConnEvent) -> (r: bool)
    ensures
        r == event_allowed(s, event),
{
    match event {
        ConnEvent::Accepted => false,
        ConnEvent::HandshakeOk => matches!(s, ConnState::Connecting),
        ConnEvent::HandshakeFailed => matches!(s, ConnState::Connecting),
        ConnEvent::StreamEnded => matches!(s, ConnState::Active),
        ConnEvent::Removed => matches!(s, ConnState::Closing),
    }
}

/// One lifecycle transition: the state the connection reaches and what the
/// surrounding task must do. There is no reconnection: a failed or closed
/// connection is simply discarded.
pub fn conn_step(s: ConnState, event: ConnEvent) -> (r: (ConnState, ConnAction))
    requires
        event_allowed(s, event),
    ensures
        r.0 == next_state(s, event),
        r.1 == step_action(event),
{
    match event {
        ConnEvent::Accepted => (s, ConnAction::Idle),
        ConnEvent::HandshakeOk => (ConnState::Active, ConnAction::Register),
        ConnEvent::HandshakeFailed => (ConnState::Closed, ConnAction::Discard),
        ConnEvent::StreamEnded => (ConnState::Closing, ConnAction::Deregister),
        ConnEvent::Removed => (ConnState::Closed, ConnAction::Idle),
    }
}

/// Model of the whole server: every connection ever seen with its lifecycle
/// state, and the set of identities currently in the registry.
pub struct ServerModel {
    pub conns: Map<u64, ConnState>,
    pub registered: Set<u64>,
}

impl ServerModel {
    /// The server before any connection arrived.
    pub open spec fn init() -> ServerModel {
        ServerModel { conns: Map::empty(), registered: Set::empty() }
    }

    /// The identities of the connections currently in the `Active` state.
    pub open spec fn active(self) -> Set<u64> {
        self.conns.dom().filter(|id: u64| self.conns[id] == ConnState::Active)
    }

    /// Whether `event` may happen now to the connection `id`. An `Accepted`
    /// event must carry a fresh identity: identities are never reused.
    pub open spec fn step_allowed(self, id: u64, event: ConnEvent) -> bool {
        match event {
            ConnEvent::Accepted => !self.conns.dom().contains(id),
            _ => self.conns.dom().contains(id) && event_allowed(self.conns[id], event),
        }
    }

    /// The server after `event` happened to the connection `id`: the
    /// connection steps, and the registry gains the identity on successful
    /// handshake and loses it on removal.
    pub open spec fn step(self, id: u64, event: ConnEvent) -> ServerModel {
        let conns = match event {
            ConnEvent::Accepted => self.conns.insert(id, ConnState::Connecting),
            _ => self.conns.insert(id, next_state(self.conns[id], event)),
        };
        let registered = match event {
            ConnEvent::HandshakeOk => self.registered.insert(id),
            ConnEvent::Removed => self.registered.remove(id),
            _ => self.registered,
        };
        ServerModel { conns, registered }
    }

    /// The registry invariant: an identity is registered exactly while its
    /// connection is `Active` or its removal is still in progress.
    pub open spec fn inv(self) -> bool {
        &&& self.conns.dom().finite()
        &&& forall|id: u64|
            self.registered.contains(id) <==> (self.conns.dom().contains(id)
                && (self.conns[id] == ConnState::Active || self.conns[id] == ConnState::Closing))
    }

    /// No removal is in progress: every ended connection has already left
    /// the registry.
    pub open spec fn quiescent(self) -> bool {
        forall|id: u64|
            self.conns.dom().contains(id) ==> self.conns[id] != ConnState::Closing
    }
}

/// The initial server satisfies the registry invariant.
pub proof fn lemma_init_inv()
    ensures
        ServerModel::init().inv(),
{
}

/// Every allowed event preserves the registry invariant.
pub proof fn lemma_step_preserves_inv(m: ServerModel, id: u64, event: ConnEvent)
    requires
        m.inv(),
        m.step_allowed(id, event),
    ensures
        m.step(id, event).inv(),
{
}

/// At any quiescent point the registry holds exactly the identities of the
/// `Active` connections — in particular, its size equals their number.
pub proof fn lemma_registry_matches_active(m: ServerModel)
    requires
        m.inv(),
        m.quiescent(),
    ensures
        m.registered =~= m.active(),
        m.registered.len() == m.active().len(),
{
    assert(m.registered =~= m.active());
}

/// `Closed` is terminal: no further event applies to a closed connection.
pub proof fn lemma_closed_is_terminal(event: ConnEvent)
    ensures
        !event_allowed(ConnState::Closed, event),
{
}

/// Removal is permanent: a closed connection stays closed and unregistered
/// whatever happens next, so its identity is never reinserted.
pub proof fn lemma_closed_stays_closed(m: ServerModel, id: u64, other: u64, event: ConnEvent)
    requires
        m.inv(),
        m.conns.dom().contains(id),
        m.conns[id] == ConnState::Closed,
        m.step_allowed(other, event),
    ensures
        m.step(other, event).conns[id] == ConnState::Closed,
        !m.step(other, event).registered.contains(id),
{
}

/// A run of the server: the model after a sequence of events, each applied
/// to its connection in order.
pub open spec fn run(events: Seq<(u64, ConnEvent)>) -> ServerModel
    decreases events.len(),
{
    if events.len() == 0 {
        ServerModel::init()
    } else {
        run(events.drop_last()).step(events.last().0, events.last().1)
    }
}

/// Whether every event of a run is allowed when it happens.
pub open spec fn run_allowed(events: Seq<(u64, ConnEvent)>) -> bool
    decreases events.len(),
{
    if events.len() == 0 {
        true
    } else {
        run_allowed(events.drop_last())
            && run(events.drop_last()).step_allowed(events.last().0, events.last().1)
    }
}

/// After any allowed sequence of connection events the registry invariant
/// holds; at a quiescent point the registry size therefore equals the number
/// of `Active` connections.
pub proof fn lemma_run_registry_counts_active(events: Seq<(u64, ConnEvent)>)
    requires
        run_allowed(events),
    ensures
        run(events).inv(),
        run(events).quiescent() ==> run(events).registered.len() == run(events).active().len(),
    decreases events.len(),
{
    if events.len() == 0 {
    } else {
        lemma_run_registry_counts_active(events.drop_last());
        lemma_step_preserves_inv(run(events.drop_last()), events.last().0, events.last().1);
    }
    if run(events).quiescent() {
        lemma_registry_matches_active(run(events));
    }
}

} // verus!
