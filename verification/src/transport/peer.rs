//! One peer connection: its address, its direction, and where it stands in its life.

use vstd::prelude::*;
use vstd::string::*;
use super::message::PeerAddr;

verus! {

/// The connection was closed.
#[derive(Debug)]
pub struct ErrConnClose;

impl ErrConnClose {
    /// The text shown for this error.
    pub fn to_string(&self) -> (text: String)
        ensures
            text@ == "connection closed"@,
    {
        String::from_str("connection closed")
    }
}

/// Where a connection stands. It moves forward only, and from anywhere to `Closed`.
#[derive(Clone, Copy, Debug, PartialEq, Eq, Structural)]
pub enum PeerState {
    /// The stream exists; nothing was exchanged yet.
    Accepted,
    /// The handshake passed, or none is configured.
    Handshaken,
    /// The admission callback accepted the peer; it is in the registry.
    Admitted,
    /// The reader task runs.
    Reading,
    /// The connection is closed and out of the registry.
    Closed,
}

/// What happened to a connection.
#[derive(Clone, Copy, Debug, PartialEq, Eq, Structural)]
pub enum PeerEvent {
    /// The handshake ended; where none is configured it counts as passed.
    Handshake { passed: bool },
    /// The admission callback answered; where none is installed it counts as accepted.
    Admission { accepted: bool },
    /// The reader task was spawned.
    ReaderSpawned,
    /// The reader has enqueued the frames that had arrived, and the stream goes on.
    Frame,
    /// The decoder failed or the stream ended.
    ReadFailed,
    /// The transport shuts down.
    Shutdown,
}

/// What the transport does next with a connection.
#[derive(Clone, Copy, Debug, PartialEq, Eq, Structural)]
pub enum PeerAction {
    /// Ask the admission callback.
    Admit,
    /// Put the peer into the registry, closing a peer it supersedes, and spawn the reader.
    Register,
    /// Read on: decode what arrives and enqueue each message under the peer's address.
    Read,
    /// Close the connection; it never reached the registry.
    Close,
    /// Take the peer out of the registry and close the connection.
    Evict,
    /// The connection is closed already.
    Ignore,
}

/// Whether a connection in this state may be in the registry.
pub open spec fn registered(state: PeerState) -> bool {
    state == PeerState::Admitted || state == PeerState::Reading
}

/// The state that follows `state` on `event`. An event that the state does not expect is an
/// error and closes the connection.
pub open spec fn next_state(state: PeerState, event: PeerEvent) -> PeerState {
    match (state, event) {
        (PeerState::Accepted, PeerEvent::Handshake { passed: true }) => PeerState::Handshaken,
        (PeerState::Handshaken, PeerEvent::Admission { accepted: true }) => PeerState::Admitted,
        (PeerState::Admitted, PeerEvent::ReaderSpawned) => PeerState::Reading,
        (PeerState::Reading, PeerEvent::Frame) => PeerState::Reading,
        _ => PeerState::Closed,
    }
}

/// What the transport does when `event` meets a connection in `state`.
pub open spec fn action_on(state: PeerState, event: PeerEvent) -> PeerAction {
    match (state, event) {
        (PeerState::Closed, _) => PeerAction::Ignore,
        (PeerState::Accepted, PeerEvent::Handshake { passed: true }) => PeerAction::Admit,
        (PeerState::Handshaken, PeerEvent::Admission { accepted: true }) => PeerAction::Register,
        (PeerState::Handshaken, PeerEvent::Admission { accepted: false }) => PeerAction::Evict,
        (PeerState::Admitted, PeerEvent::ReaderSpawned) => PeerAction::Read,
        (PeerState::Reading, PeerEvent::Frame) => PeerAction::Read,
        (PeerState::Accepted, _) => PeerAction::Close,
        (PeerState::Handshaken, _) => PeerAction::Close,
        _ => PeerAction::Evict,
    }
}

/// A peer: the connection `conn`, the remote address, and the direction, which is
/// outbound exactly where this node dialled.
pub struct TcpPeer<C> {
    conn: C,
    remote_addr: PeerAddr,
    outbound: bool,
    state: PeerState,
}

impl<C> TcpPeer<C> {
    /// The connection handle.
    pub closed spec fn spec_conn(&self) -> C {
        self.conn
    }

    /// The remote address.
    pub closed spec fn spec_addr(&self) -> PeerAddr {
        self.remote_addr
    }

    /// Whether this node dialled.
    pub closed spec fn spec_is_outbound(&self) -> bool {
        self.outbound
    }

    /// Where the connection stands.
    pub closed spec fn spec_state(&self) -> PeerState {
        self.state
    }

    /// A peer around a fresh connection.
    pub fn new(conn: C, remote_addr: PeerAddr, outbound: bool) -> (peer: TcpPeer<C>)
        ensures
            peer.spec_conn() == conn,
            peer.spec_addr() == remote_addr,
            peer.spec_is_outbound() == outbound,
            peer.spec_state() == PeerState::Accepted,
    {
        TcpPeer { conn, remote_addr, outbound, state: PeerState::Accepted }
    }

    /// The connection handle.
    pub fn conn(&self) -> (conn: &C)
        ensures
            *conn == self.spec_conn(),
    {
        &self.conn
    }

    /// The remote address.
    pub fn addr(&self) -> (addr: PeerAddr)
        ensures
            addr == self.spec_addr(),
    {
        self.remote_addr
    }

    /// Whether this node dialled.
    pub fn is_outbound(&self) -> (outbound: bool)
        ensures
            outbound == self.spec_is_outbound(),
    {
        self.outbound
    }

    /// Where the connection stands.
    pub fn state(&self) -> (state: PeerState)
        ensures
            state == self.spec_state(),
    {
        self.state
    }

    /// Takes note of `event` and says what the transport does next. Address, direction
    /// and connection stay as they are.
    pub fn on_event(&mut self, event: PeerEvent) -> (action: PeerAction)
        ensures
            final(self).spec_state() == next_state(old(self).spec_state(), event),
            action == action_on(old(self).spec_state(), event),
            final(self).spec_conn() == old(self).spec_conn(),
            final(self).spec_addr() == old(self).spec_addr(),
            final(self).spec_is_outbound() == old(self).spec_is_outbound(),
    {
        let (next, action) = match self.state {
            PeerState::Closed => (PeerState::Closed, PeerAction::Ignore),
            PeerState::Accepted => match event {
                PeerEvent::Handshake { passed: true } => (PeerState::Handshaken, PeerAction::Admit),
                _ => (PeerState::Closed, PeerAction::Close),
            },
            PeerState::Handshaken => match event {
                PeerEvent::Admission { accepted: true } => (
                    PeerState::Admitted,
                    PeerAction::Register,
                ),
                PeerEvent::Admission { accepted: false } => (PeerState::Closed, PeerAction::Evict),
                _ => (PeerState::Closed, PeerAction::Close),
            },
            PeerState::Admitted => match event {
                PeerEvent::ReaderSpawned => (PeerState::Reading, PeerAction::Read),
                _ => (PeerState::Closed, PeerAction::Evict),
            },
            PeerState::Reading => match event {
                PeerEvent::Frame => (PeerState::Reading, PeerAction::Read),
                _ => (PeerState::Closed, PeerAction::Evict),
            },
        };
        self.state = next;
        action
    }
}

/// The rank of a state along the life of a connection.
pub open spec fn stage(state: PeerState) -> nat {
    match state {
        PeerState::Accepted => 0,
        PeerState::Handshaken => 1,
        PeerState::Admitted => 2,
        PeerState::Reading => 3,
        PeerState::Closed => 4,
    }
}

/// A connection never moves backward, and a closed one stays closed and asks for nothing.
pub proof fn lemma_life_moves_forward(state: PeerState, event: PeerEvent)
    ensures
        stage(state) <= stage(next_state(state, event)),
        state == PeerState::Closed ==> next_state(state, event) == PeerState::Closed && action_on(
            state,
            event,
        ) == PeerAction::Ignore,
{
}

/// A peer enters the registry only by passing handshake and admission in turn, is
/// evicted whenever it closes after the admission callback has seen it, and is read
/// only while it is in the registry.
pub proof fn lemma_registry_discipline(state: PeerState, event: PeerEvent)
    ensures
        action_on(state, event) == PeerAction::Register <==> state == PeerState::Handshaken
            && event == (PeerEvent::Admission { accepted: true }),
        registered(next_state(state, event)) && !registered(state) ==> action_on(state, event)
            == PeerAction::Register,
        registered(state) && !registered(next_state(state, event)) ==> action_on(state, event)
            == PeerAction::Evict,
        action_on(state, event) == PeerAction::Read ==> registered(state) && next_state(
            state,
            event,
        ) == PeerState::Reading,
        event == PeerEvent::ReadFailed && state != PeerState::Closed ==> next_state(state, event)
            == PeerState::Closed,
{
}

} // verus!
