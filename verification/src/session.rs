//! The life of one connection, from handshake to cleanup, as a machine that
//! takes what happened on the connection and says what to do next. The
//! caller performs the input and output; every decision is taken here.

use crate::envelope::{decoded, encoded};
use crate::message::{Message, MessageView};
use crate::queue::{OutboundQueue, QueueView};
use crate::registry::{
    advanced, audience, broadcasted, distinct, hung_up, lemma_broadcast_reaches_the_others,
    lemma_ids_stay, lemma_unregister_idempotent, listed, queue_of, registered, unregistered,
    PeerId, PeerView, Registry,
};
use vstd::prelude::*;

verus! {

/// Where a session stands. The states follow one another in this order and
/// none is entered twice.
#[derive(Clone, Copy, PartialEq, Eq, Structural, Debug)]
pub enum SessionState {
    /// The connection is being upgraded to a stream of frames.
    Handshaking,
    /// The peer is registered and both pumps run.
    Active,
    /// A pump has ended; the other is being stopped.
    Terminating,
    /// The peer is unregistered. Nothing follows.
    Closed,
}

/// What happened on the connection.
#[derive(Debug)]
pub enum Event {
    /// The upgrade succeeded.
    HandshakeDone,
    /// The upgrade failed.
    HandshakeFailed,
    /// The inbound pump read a text frame.
    Frame(String),
    /// The inbound pump ended: the transport failed or the peer closed.
    InboundClosed,
    /// The outbound pump can write.
    OutboundReady,
    /// The outbound pump ended: a write failed.
    OutboundClosed,
    /// Both pumps have stopped.
    Stopped,
}

/// An [`Event`] as plain values.
pub enum EventView {
    HandshakeDone,
    HandshakeFailed,
    Frame(Seq<char>),
    InboundClosed,
    OutboundReady,
    OutboundClosed,
    Stopped,
}

impl View for Event {
    type V = EventView;

    open spec fn view(&self) -> EventView {
        match self {
            Event::HandshakeDone => EventView::HandshakeDone,
            Event::HandshakeFailed => EventView::HandshakeFailed,
            Event::Frame(text) => EventView::Frame(text@),
            Event::InboundClosed => EventView::InboundClosed,
            Event::OutboundReady => EventView::OutboundReady,
            Event::OutboundClosed => EventView::OutboundClosed,
            Event::Stopped => EventView::Stopped,
        }
    }
}

/// What the caller is to do next.
#[derive(Debug)]
pub enum Action {
    /// Nothing: the event means nothing in this state.
    Nothing,
    /// Start the inbound and the outbound pump.
    Run,
    /// Drop the connection: the session ended before it was registered.
    Drop,
    /// A message went to this many peers: wake their outbound pumps.
    Relayed(usize),
    /// Write this text frame to the peer, then report `OutboundReady` again.
    Write(String),
    /// Nothing waits for the peer: sleep until its pump is woken.
    Wait,
    /// Stop both pumps, then report `Stopped`.
    Halt,
    /// The session is over and its peer unregistered.
    Done,
}

/// An [`Action`] as plain values.
pub enum ActionView {
    Nothing,
    Run,
    Drop,
    Relayed(nat),
    Write(Seq<char>),
    Wait,
    Halt,
    Done,
}

impl View for Action {
    type V = ActionView;

    open spec fn view(&self) -> ActionView {
        match self {
            Action::Nothing => ActionView::Nothing,
            Action::Run => ActionView::Run,
            Action::Drop => ActionView::Drop,
            Action::Relayed(n) => ActionView::Relayed(*n as nat),
            Action::Write(text) => ActionView::Write(text@),
            Action::Wait => ActionView::Wait,
            Action::Halt => ActionView::Halt,
            Action::Done => ActionView::Done,
        }
    }
}

/// The outcome of one step: the state the session is in afterwards, the
/// registry afterwards, and what the caller is to do.
pub struct Outcome {
    pub state: SessionState,
    pub registry: Seq<PeerView>,
    pub action: ActionView,
}

/// The queue that a session registers with: empty, its consumer there.
pub open spec fn fresh_queue() -> QueueView {
    QueueView { pending: Seq::<MessageView>::empty(), open: true }
}

/// The session of `peer` ends its active life: its consumer is gone and both
/// pumps are to stop.
pub open spec fn terminating(peer: PeerId, registry: Seq<PeerView>) -> Outcome {
    Outcome {
        state: SessionState::Terminating,
        registry: hung_up(registry, peer),
        action: ActionView::Halt,
    }
}

/// An event that means nothing in the state it comes in.
pub open spec fn ignored(state: SessionState, registry: Seq<PeerView>) -> Outcome {
    Outcome { state: state, registry: registry, action: ActionView::Nothing }
}

/// What one event does to the session of `peer` in `state`, and to the
/// registry.
///
/// - Handshaking: a failed handshake closes the session and never touches the
///   registry. A handshake that succeeds registers the peer with a fresh
///   queue and makes the session active; where the id is live already the
///   session closes unregistered.
/// - Active: a frame that decodes is broadcast to all others; one that does
///   not, like the end of either pump, makes the session terminating. When
///   the outbound pump is ready it is handed the oldest message that waits,
///   in its wire form.
/// - Terminating: once both pumps have stopped the peer is unregistered and
///   the session closed.
/// - Closed: nothing happens any more.
pub open spec fn step_of(
    state: SessionState,
    peer: PeerId,
    registry: Seq<PeerView>,
    event: EventView,
) -> Outcome {
    match (state, event) {
        (SessionState::Handshaking, EventView::HandshakeFailed) => Outcome {
            state: SessionState::Closed,
            registry: registry,
            action: ActionView::Drop,
        },
        (SessionState::Handshaking, EventView::HandshakeDone) => if listed(registry, peer) {
            Outcome { state: SessionState::Closed, registry: registry, action: ActionView::Drop }
        } else {
            Outcome {
                state: SessionState::Active,
                registry: registered(registry, peer, fresh_queue()),
                action: ActionView::Run,
            }
        },
        (SessionState::Active, EventView::Frame(text)) => match decoded(text) {
            Ok(message) => Outcome {
                state: SessionState::Active,
                registry: broadcasted(registry, peer, message),
                action: ActionView::Relayed(audience(registry, peer)),
            },
            Err(_) => terminating(peer, registry),
        },
        (SessionState::Active, EventView::InboundClosed) => terminating(peer, registry),
        (SessionState::Active, EventView::OutboundClosed) => terminating(peer, registry),
        (SessionState::Active, EventView::OutboundReady) => if listed(registry, peer) && queue_of(
            registry,
            peer,
        ).pending.len() > 0 {
            Outcome {
                state: SessionState::Active,
                registry: advanced(registry, peer),
                action: ActionView::Write(encoded(queue_of(registry, peer).pending[0])),
            }
        } else {
            Outcome { state: SessionState::Active, registry: registry, action: ActionView::Wait }
        },
        (SessionState::Terminating, EventView::Stopped) => Outcome {
            state: SessionState::Closed,
            registry: unregistered(registry, peer),
            action: ActionView::Done,
        },
        _ => ignored(state, registry),
    }
}

/// One connection and where it stands.
#[derive(Debug)]
pub struct Session {
    peer: PeerId,
    state: SessionState,
}

/// What a [`Session`] holds.
pub struct SessionView {
    pub peer: PeerId,
    pub state: SessionState,
}

impl View for Session {
    type V = SessionView;

    closed spec fn view(&self) -> SessionView {
        SessionView { peer: self.peer, state: self.state }
    }
}

impl Session {
    /// The session of a connection that was just accepted.
    pub fn new(peer: PeerId) -> (session: Session)
        ensures
            session@ == (SessionView { peer: peer, state: SessionState::Handshaking }),
    {
        Session { peer: peer, state: SessionState::Handshaking }
    }

    /// The peer whose connection this is.
    pub fn peer(&self) -> (peer: PeerId)
        ensures
            peer == self@.peer,
    {
        self.peer
    }

    /// Where the session stands.
    pub fn state(&self) -> (state: SessionState)
        ensures
            state == self@.state,
    {
        self.state
    }

    /// Takes one event, changes the session and the registry as `step_of`
    /// says, and returns what the caller is to do. Call it with the lock of
    /// the registry held.
    pub fn step(&mut self, registry: &mut Registry, event: Event) -> (action: Action)
        requires
            old(registry).wf(),
        ensures
            final(registry).wf(),
            final(self)@.peer == old(self)@.peer,
            (Outcome {
                state: final(self)@.state,
                registry: final(registry)@,
                action: action@,
            }) == step_of(old(self)@.state, old(self)@.peer, old(registry)@, event@),
    {
        match self.state {
            SessionState::Handshaking => match event {
                Event::HandshakeFailed => {
                    self.state = SessionState::Closed;
                    Action::Drop
                },
                Event::HandshakeDone => match registry.register(self.peer, OutboundQueue::new()) {
                    Ok(_) => {
                        self.state = SessionState::Active;
                        Action::Run
                    },
                    Err(_) => {
                        self.state = SessionState::Closed;
                        Action::Drop
                    },
                },
                _ => Action::Nothing,
            },
            SessionState::Active => match event {
                Event::Frame(text) => match Message::from_json(text.as_str()) {
                    Ok(message) => Action::Relayed(registry.broadcast(self.peer, &message)),
                    Err(_) => self.terminate(registry),
                },
                Event::InboundClosed => self.terminate(registry),
                Event::OutboundClosed => self.terminate(registry),
                Event::OutboundReady => match registry.next_outbound(self.peer) {
                    Some(message) => Action::Write(message.to_json().unwrap()),
                    None => Action::Wait,
                },
                _ => Action::Nothing,
            },
            SessionState::Terminating => match event {
                Event::Stopped => {
                    registry.unregister(self.peer);
                    self.state = SessionState::Closed;
                    Action::Done
                },
                _ => Action::Nothing,
            },
            SessionState::Closed => Action::Nothing,
        }
    }

    fn terminate(&mut self, registry: &mut Registry) -> (action: Action)
        requires
            old(registry).wf(),
        ensures
            final(registry).wf(),
            final(self)@.peer == old(self)@.peer,
            (Outcome {
                state: final(self)@.state,
                registry: final(registry)@,
                action: action@,
            }) == terminating(old(self)@.peer, old(registry)@),
    {
        registry.hang_up(self.peer);
        self.state = SessionState::Terminating;
        Action::Halt
    }
}

/// Where a state stands in the order of a session's life.
pub open spec fn rank(state: SessionState) -> nat {
    match state {
        SessionState::Handshaking => 0,
        SessionState::Active => 1,
        SessionState::Terminating => 2,
        SessionState::Closed => 3,
    }
}

/// The states in which the session's peer is registered.
pub open spec fn live(state: SessionState) -> bool {
    state is Active || state is Terminating
}

/// A session moves forward only: no event takes it back to a state it has
/// left, and once closed it stays closed and touches nothing.
pub proof fn lemma_states_never_go_back(
    state: SessionState,
    peer: PeerId,
    registry: Seq<PeerView>,
    event: EventView,
)
    ensures
        rank(step_of(state, peer, registry, event).state) >= rank(state),
        state is Closed ==> step_of(state, peer, registry, event) == ignored(state, registry),
        step_of(state, peer, registry, event).state is Active ==> state is Handshaking
            || state is Active,
        step_of(state, peer, registry, event).state is Terminating ==> state is Active
            || state is Terminating,
{
}

/// The registry holds a peer exactly while its session is active or
/// terminating: where that holds before a step it holds after it.
pub proof fn lemma_registered_while_live(
    state: SessionState,
    peer: PeerId,
    registry: Seq<PeerView>,
    event: EventView,
)
    requires
        distinct(registry),
        live(state) <==> listed(registry, peer),
    ensures
        distinct(step_of(state, peer, registry, event).registry),
        live(step_of(state, peer, registry, event).state) <==> listed(
            step_of(state, peer, registry, event).registry,
            peer,
        ),
{
    lemma_registry_changes(state, peer, registry, event);
}

/// A session registers its peer once, on becoming active, and unregisters it
/// once, on closing after it was live; no other step adds or removes an
/// entry, and none ever touches the entry of another peer.
pub proof fn lemma_registry_changes(
    state: SessionState,
    peer: PeerId,
    registry: Seq<PeerView>,
    event: EventView,
)
    requires
        distinct(registry),
    ensures
        distinct(step_of(state, peer, registry, event).registry),
        forall|other: PeerId|
            other != peer ==> listed(step_of(state, peer, registry, event).registry, other)
                == #[trigger] listed(registry, other),
        (state is Handshaking && step_of(state, peer, registry, event).state is Active) ==> !listed(
            registry,
            peer,
        ) && listed(step_of(state, peer, registry, event).registry, peer),
        (state is Terminating && step_of(state, peer, registry, event).state is Closed) ==> !listed(
            step_of(state, peer, registry, event).registry,
            peer,
        ),
        !(state is Handshaking && step_of(state, peer, registry, event).state is Active) && !(
        state is Terminating && step_of(state, peer, registry, event).state is Closed) ==> listed(
            step_of(state, peer, registry, event).registry,
            peer,
        ) == listed(registry, peer),
{
    let message = arbitrary::<MessageView>();
    lemma_ids_stay(registry, peer, message);
    lemma_unregister_idempotent(registry, peer);
    match (state, event) {
        (SessionState::Active, EventView::Frame(text)) => {
            if decoded(text) is Ok {
                lemma_broadcast_reaches_the_others(registry, peer, decoded(text)->Ok_0);
            }
        },
        _ => {},
    }
}

/// When the inbound pump fails, or reads a frame that is no envelope, an
/// active session becomes terminating at once, whatever still waits in its
/// queue, and the next report that the pumps have stopped closes it and
/// leaves its peer unregistered.
pub proof fn lemma_failed_inbound_pump_ends_the_session(
    peer: PeerId,
    registry: Seq<PeerView>,
    event: EventView,
)
    requires
        distinct(registry),
        event is InboundClosed || event is OutboundClosed || (event matches EventView::Frame(text)
            && decoded(text) is Err),
    ensures
        step_of(SessionState::Active, peer, registry, event) == terminating(peer, registry),
        step_of(
            SessionState::Terminating,
            peer,
            terminating(peer, registry).registry,
            EventView::Stopped,
        ).state is Closed,
        !listed(
            step_of(
                SessionState::Terminating,
                peer,
                terminating(peer, registry).registry,
                EventView::Stopped,
            ).registry,
            peer,
        ),
        forall|other: PeerId|
            other != peer ==> listed(
                step_of(
                    SessionState::Terminating,
                    peer,
                    terminating(peer, registry).registry,
                    EventView::Stopped,
                ).registry,
                other,
            ) == #[trigger] listed(registry, other),
{
    let message = arbitrary::<MessageView>();
    lemma_ids_stay(registry, peer, message);
    lemma_unregister_idempotent(hung_up(registry, peer), peer);
}

} // verus!
