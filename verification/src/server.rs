//! The whole server: one listener and a handler for every connection.
//!
//! This module is a mathematical model only. It numbers the connections,
//! lets the events of the listening socket and of all connections arrive in
//! any order, and proves that what happens to one connection depends on the
//! events of that connection alone.

use vstd::prelude::*;
use crate::echo::{admissible, echoed, lemma_echo_fidelity, received, run};
use crate::handler::{CloseReason, EventView, HandlerView, PhaseView};
use crate::listener::{ListenerEvent, ListenerState};

verus! {

/// A server as a mathematical value.
pub struct ServerView {
    /// The buffer size that every handler is made with.
    pub buffer_size: nat,
    /// Where the listener stands.
    pub listener: ListenerState,
    /// The handler of every connection that was ever accepted, by the
    /// connection's number.
    pub handlers: Map<nat, HandlerView>,
}

/// Something that happened in the server.
pub enum ServerEvent {
    /// An event of the listening socket; an accepted connection comes with
    /// its number.
    Listener(ListenerEvent<nat>),
    /// An event of the connection with this number.
    Connection(nat, EventView),
}

impl ServerView {
    /// The server before it binds its endpoint: no connection yet.
    pub open spec fn initial(buffer_size: nat) -> ServerView {
        ServerView { buffer_size, listener: ListenerState::Starting, handlers: Map::empty() }
    }

    /// The event can happen in this state. An accepted connection is a new
    /// one, and an event of a connection needs that connection's handler to
    /// accept it.
    pub open spec fn accepts(self, event: ServerEvent) -> bool {
        match event {
            ServerEvent::Listener(inner) => {
                &&& self.listener.accepts(inner)
                &&& (inner matches ListenerEvent::Accepted(id) ==> !self.handlers.contains_key(id))
            },
            ServerEvent::Connection(id, inner) => {
                &&& self.handlers.contains_key(id)
                &&& self.handlers[id].accepts(inner)
            },
        }
    }

    /// The server after the event. An accepted connection gets a fresh
    /// handler; an event of a connection moves that connection's handler.
    pub open spec fn next(self, event: ServerEvent) -> ServerView {
        match event {
            ServerEvent::Listener(inner) => ServerView {
                buffer_size: self.buffer_size,
                listener: self.listener.next(inner),
                handlers: match inner {
                    ListenerEvent::Accepted(id) => self.handlers.insert(
                        id,
                        HandlerView::fresh(self.buffer_size),
                    ),
                    _ => self.handlers,
                },
            },
            ServerEvent::Connection(id, inner) => ServerView {
                buffer_size: self.buffer_size,
                listener: self.listener,
                handlers: self.handlers.insert(id, self.handlers[id].next(inner)),
            },
        }
    }
}

/// The server that `start` becomes by taking `events` in order.
pub open spec fn serve(start: ServerView, events: Seq<ServerEvent>) -> ServerView
    decreases events.len(),
{
    if events.len() == 0 {
        start
    } else {
        serve(start, events.drop_last()).next(events.last())
    }
}

/// Each event of the history could happen when it did.
pub open spec fn servable(start: ServerView, events: Seq<ServerEvent>) -> bool
    decreases events.len(),
{
    events.len() == 0 || (servable(start, events.drop_last()) && serve(
        start,
        events.drop_last(),
    ).accepts(events.last()))
}

/// The events of connection `id` within the history of the server, in order.
pub open spec fn history_of(events: Seq<ServerEvent>, id: nat) -> Seq<EventView>
    decreases events.len(),
{
    if events.len() == 0 {
        Seq::empty()
    } else {
        let before = history_of(events.drop_last(), id);
        match events.last() {
            ServerEvent::Connection(owner, inner) => if owner == id {
                before.push(inner)
            } else {
                before
            },
            _ => before,
        }
    }
}

/// Isolation of connections.
///
/// An event of connection `id`, be it data, a close or a failure, leaves the
/// listener where it stands and every other connection `other` as it was:
/// the other handler is the same, it accepts the same events afterwards, and
/// it answers them in the same way.
pub proof fn lemma_connections_are_isolated(
    server: ServerView,
    id: nat,
    event: EventView,
    other: nat,
)
    requires
        server.accepts(ServerEvent::Connection(id, event)),
        other != id,
    ensures
        server.next(ServerEvent::Connection(id, event)).listener == server.listener,
        server.next(ServerEvent::Connection(id, event)).handlers.contains_key(other)
            == server.handlers.contains_key(other),
        server.next(ServerEvent::Connection(id, event)).handlers[other] == server.handlers[other],
        forall|later: EventView|
            server.next(ServerEvent::Connection(id, event)).accepts(
                ServerEvent::Connection(other, later),
            ) == #[trigger] server.accepts(ServerEvent::Connection(other, later)),
        forall|later: EventView|
            server.next(ServerEvent::Connection(id, event)).next(
                ServerEvent::Connection(other, later),
            ).handlers[other] == (#[trigger] server.next(
                ServerEvent::Connection(other, later),
            )).handlers[other],
{
}

/// Events of two different connections can happen in either order: the
/// server ends in the same state.
pub proof fn lemma_connections_commute(
    server: ServerView,
    id: nat,
    event: EventView,
    other: nat,
    other_event: EventView,
)
    requires
        other != id,
        server.handlers.contains_key(id),
        server.handlers.contains_key(other),
    ensures
        server.next(ServerEvent::Connection(id, event)).next(
            ServerEvent::Connection(other, other_event),
        ) == server.next(ServerEvent::Connection(other, other_event)).next(
            ServerEvent::Connection(id, event),
        ),
{
    let one = server.next(ServerEvent::Connection(id, event)).next(
        ServerEvent::Connection(other, other_event),
    );
    let two = server.next(ServerEvent::Connection(other, other_event)).next(
        ServerEvent::Connection(id, event),
    );
    assert(one.handlers =~= two.handlers);
}

/// The listener leaves connections alone after it handed them over: no
/// event of the listening socket changes the handler of a connection that
/// exists.
pub proof fn lemma_listener_keeps_nothing(
    server: ServerView,
    event: ListenerEvent<nat>,
    id: nat,
)
    requires
        server.accepts(ServerEvent::Listener(event)),
        server.handlers.contains_key(id),
    ensures
        server.next(ServerEvent::Listener(event)).handlers.contains_key(id),
        server.next(ServerEvent::Listener(event)).handlers[id] == server.handlers[id],
{
}

/// Resilience of the accept loop.
///
/// A failed accept leaves the server exactly as it was, so it goes on
/// accepting, and the next new connection `later` gets its fresh handler.
pub proof fn lemma_server_survives_accept_failure(server: ServerView, later: nat)
    requires
        server.listener == ListenerState::Accepting,
        !server.handlers.contains_key(later),
    ensures
        server.accepts(ServerEvent::Listener(ListenerEvent::AcceptFailed)),
        server.next(ServerEvent::Listener(ListenerEvent::AcceptFailed)) == server,
        server.next(ServerEvent::Listener(ListenerEvent::AcceptFailed)).accepts(
            ServerEvent::Listener(ListenerEvent::Accepted(later)),
        ),
        server.next(ServerEvent::Listener(ListenerEvent::AcceptFailed)).next(
            ServerEvent::Listener(ListenerEvent::Accepted(later)),
        ).handlers[later] == HandlerView::fresh(server.buffer_size),
{
}

/// Once the server accepts, nothing that a connection does and no failed
/// accept stops it from accepting.
pub proof fn lemma_server_keeps_accepting(start: ServerView, events: Seq<ServerEvent>)
    requires
        start.listener == ListenerState::Accepting,
        servable(start, events),
    ensures
        serve(start, events).listener == ListenerState::Accepting,
        serve(start, events).buffer_size == start.buffer_size,
    decreases events.len(),
{
    if events.len() > 0 {
        lemma_servable_prefix(start, events);
        lemma_server_keeps_accepting(start, events.drop_last());
    }
}

/// A servable history without its last event is servable.
proof fn lemma_servable_prefix(start: ServerView, events: Seq<ServerEvent>)
    requires
        servable(start, events),
        events.len() > 0,
    ensures
        servable(start, events.drop_last()),
        serve(start, events.drop_last()).accepts(events.last()),
{
}

/// Independence of connections under any interleaving.
///
/// Let a server start without connections and take a servable history in
/// which the events of all connections are mixed in any order. Then a
/// connection that was never accepted has no events, and the handler of
/// every connection that was accepted is where a handler, run alone, gets on
/// that connection's own events.
pub proof fn lemma_interleaving(buffer_size: nat, events: Seq<ServerEvent>, id: nat)
    requires
        servable(ServerView::initial(buffer_size), events),
    ensures
        serve(ServerView::initial(buffer_size), events).buffer_size == buffer_size,
        !serve(ServerView::initial(buffer_size), events).handlers.contains_key(id) ==> history_of(
            events,
            id,
        ) == Seq::<EventView>::empty(),
        serve(ServerView::initial(buffer_size), events).handlers.contains_key(id) ==> {
            &&& admissible(HandlerView::fresh(buffer_size), history_of(events, id))
            &&& serve(ServerView::initial(buffer_size), events).handlers[id] == run(
                HandlerView::fresh(buffer_size),
                history_of(events, id),
            )
        },
    decreases events.len(),
{
    let start = ServerView::initial(buffer_size);
    if events.len() > 0 {
        let before = events.drop_last();
        lemma_servable_prefix(start, events);
        lemma_interleaving(buffer_size, before, id);
        let server = serve(start, before);
        match events.last() {
            ServerEvent::Connection(owner, inner) => {
                if owner == id {
                    let own = history_of(before, id);
                    assert(history_of(events, id) == own.push(inner));
                    assert(own.push(inner).drop_last() == own);
                    assert(own.push(inner).last() == inner);
                }
            },
            ServerEvent::Listener(inner) => {},
        }
    }
}

/// Echo fidelity for every connection of a busy server.
///
/// Whatever servable history a server with a buffer of at least one byte
/// takes, with any number of connections whose events are mixed in any
/// order, each connection gets back a prefix of its own bytes and of no
/// other's; and whenever its handler waits for a read, or stopped because
/// the peer closed or a read failed, it got back exactly what it sent.
pub proof fn lemma_every_connection_is_echoed(
    buffer_size: nat,
    events: Seq<ServerEvent>,
    id: nat,
)
    requires
        buffer_size > 0,
        servable(ServerView::initial(buffer_size), events),
        serve(ServerView::initial(buffer_size), events).handlers.contains_key(id),
    ensures
        echoed(HandlerView::fresh(buffer_size), history_of(events, id)).is_prefix_of(
            received(history_of(events, id)),
        ),
        ({
            let end = serve(ServerView::initial(buffer_size), events).handlers[id];
            !(end.phase == PhaseView::Closed(CloseReason::WriteFailed) || end.phase
                == PhaseView::Closed(CloseReason::ShortWrite)) ==> echoed(
                HandlerView::fresh(buffer_size),
                history_of(events, id),
            ) + end.pending() == received(history_of(events, id))
        }),
{
    lemma_interleaving(buffer_size, events, id);
    lemma_echo_fidelity(buffer_size, history_of(events, id));
}

} // verus!
