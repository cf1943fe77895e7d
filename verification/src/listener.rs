//! The listener of the echo server.
//!
//! The listener owns the listening socket. It binds once, then accepts
//! connections for as long as the process lives and hands each one to a
//! handler of its own. Failing to bind is fatal; failing to accept one
//! connection is reported and forgotten. As with the handler, the caller owns
//! the socket and reports what happened on it.

use vstd::prelude::*;

verus! {

/// The port that [`Endpoint::default_endpoint`] listens on.
pub const DEFAULT_PORT: u16 = 8080;

/// The exit code of a server that could not bind its endpoint.
pub const BIND_FAILURE_EXIT_CODE: i32 = 1;

/// An IPv4 address and a port to listen on.
#[derive(Clone, Copy, Debug, PartialEq, Eq, Structural)]
pub struct Endpoint {
    /// The first byte of the address.
    pub a: u8,
    /// The second byte of the address.
    pub b: u8,
    /// The third byte of the address.
    pub c: u8,
    /// The last byte of the address.
    pub d: u8,
    /// The port.
    pub port: u16,
}

impl Endpoint {
    /// The endpoint `127.0.0.1:port`.
    pub fn loopback(port: u16) -> (endpoint: Endpoint)
        ensures
            endpoint == (Endpoint { a: 127, b: 0, c: 0, d: 1, port }),
    {
        Endpoint { a: 127, b: 0, c: 0, d: 1, port }
    }

    /// The endpoint that the server listens on unless told otherwise:
    /// `127.0.0.1:8080`.
    pub fn default_endpoint() -> (endpoint: Endpoint)
        ensures
            endpoint == (Endpoint { a: 127, b: 0, c: 0, d: 1, port: DEFAULT_PORT }),
    {
        Endpoint::loopback(DEFAULT_PORT)
    }

    /// The four bytes of the address, first byte first.
    pub fn octets(&self) -> (octets: [u8; 4])
        ensures
            octets@ == seq![self.a, self.b, self.c, self.d],
    {
        [self.a, self.b, self.c, self.d]
    }
}

/// Where the listener stands.
#[derive(Clone, Copy, Debug, PartialEq, Eq, Structural)]
pub enum ListenerState {
    /// The endpoint has not been bound yet.
    Starting,
    /// The socket is bound and connections are being accepted.
    Accepting,
    /// The endpoint could not be bound: the server is over.
    Failed,
}

/// What happened on the listening socket. `C` is the caller's connection.
#[derive(Debug, PartialEq, Eq)]
pub enum ListenerEvent<C> {
    /// The endpoint was bound.
    Bound,
    /// The endpoint could not be bound.
    BindFailed,
    /// A connection was accepted.
    Accepted(C),
    /// An attempt to accept a connection failed.
    AcceptFailed,
}

/// What the caller is to do next with the listening socket.
#[derive(Debug, PartialEq, Eq)]
pub enum ListenerAction<C> {
    /// Say that the server listens, then accept.
    Announce,
    /// Give this connection to a new handler that runs on its own, do not
    /// wait for it, and accept again.
    Spawn(C),
    /// Report that an accept failed, then accept again.
    ReportAcceptFailure,
    /// Report that the endpoint could not be bound and end the process with
    /// this exit code.
    Exit(i32),
}

impl ListenerState {
    /// The event can happen in this state: the outcome of binding while
    /// starting, the outcome of an accept while accepting, nothing after the
    /// bind failed.
    pub open spec fn accepts<C>(self, event: ListenerEvent<C>) -> bool {
        match (self, event) {
            (ListenerState::Starting, ListenerEvent::Bound) => true,
            (ListenerState::Starting, ListenerEvent::BindFailed) => true,
            (ListenerState::Accepting, ListenerEvent::Accepted(_)) => true,
            (ListenerState::Accepting, ListenerEvent::AcceptFailed) => true,
            _ => false,
        }
    }

    /// The state after the event. Once it accepts, the listener accepts for
    /// good: neither a connection nor a failed accept changes that.
    pub open spec fn next<C>(self, event: ListenerEvent<C>) -> ListenerState {
        match (self, event) {
            (ListenerState::Starting, ListenerEvent::Bound) => ListenerState::Accepting,
            (ListenerState::Starting, ListenerEvent::BindFailed) => ListenerState::Failed,
            _ => self,
        }
    }

    /// What the caller is to do after the event happened in this state.
    pub open spec fn reaction<C>(self, event: ListenerEvent<C>) -> ListenerAction<C> {
        match event {
            ListenerEvent::Bound => ListenerAction::Announce,
            ListenerEvent::BindFailed => ListenerAction::Exit(BIND_FAILURE_EXIT_CODE),
            ListenerEvent::Accepted(connection) => ListenerAction::Spawn(connection),
            ListenerEvent::AcceptFailed => ListenerAction::ReportAcceptFailure,
        }
    }
}

/// The listener of one server.
pub struct Listener {
    endpoint: Endpoint,
    state: ListenerState,
}

impl Listener {
    /// The endpoint that the listener was made for.
    pub closed spec fn spec_endpoint(&self) -> Endpoint {
        self.endpoint
    }

    /// Where the listener stands.
    pub closed spec fn spec_state(&self) -> ListenerState {
        self.state
    }

    /// A listener that is to bind `endpoint`.
    pub fn start(endpoint: Endpoint) -> (listener: Listener)
        ensures
            listener.spec_endpoint() == endpoint,
            listener.spec_state() == ListenerState::Starting,
    {
        Listener { endpoint, state: ListenerState::Starting }
    }

    /// The endpoint that the listener was made for.
    #[verifier::when_used_as_spec(spec_endpoint)]
    pub fn endpoint(&self) -> (endpoint: Endpoint)
        ensures
            endpoint == self.spec_endpoint(),
    {
        self.endpoint
    }

    /// Where the listener stands.
    #[verifier::when_used_as_spec(spec_state)]
    pub fn state(&self) -> (state: ListenerState)
        ensures
            state == self.spec_state(),
    {
        self.state
    }

    /// Whether `event` can happen where the listener stands.
    pub fn accepts<C>(&self, event: &ListenerEvent<C>) -> (ok: bool)
        ensures
            ok == self.spec_state().accepts(*event),
    {
        match (self.state, event) {
            (ListenerState::Starting, ListenerEvent::Bound) => true,
            (ListenerState::Starting, ListenerEvent::BindFailed) => true,
            (ListenerState::Accepting, ListenerEvent::Accepted(_)) => true,
            (ListenerState::Accepting, ListenerEvent::AcceptFailed) => true,
            _ => false,
        }
    }

    /// Takes what happened on the listening socket and says what to do next.
    ///
    /// An accepted connection leaves with the action: the listener keeps
    /// nothing of it.
    pub fn step<C>(&mut self, event: ListenerEvent<C>) -> (action: ListenerAction<C>)
        requires
            old(self).spec_state().accepts(event),
        ensures
            final(self).spec_state() == old(self).spec_state().next(event),
            final(self).spec_endpoint() == old(self).spec_endpoint(),
            action == old(self).spec_state().reaction(event),
    {
        match event {
            ListenerEvent::Bound => {
                self.state = ListenerState::Accepting;
                ListenerAction::Announce
            },
            ListenerEvent::BindFailed => {
                self.state = ListenerState::Failed;
                ListenerAction::Exit(BIND_FAILURE_EXIT_CODE)
            },
            ListenerEvent::Accepted(connection) => ListenerAction::Spawn(connection),
            ListenerEvent::AcceptFailed => ListenerAction::ReportAcceptFailure,
        }
    }
    /// Takes what happened on the listening socket, where it can happen in
    /// the listener's state, and says what to do next. An event that cannot
    /// happen there comes back, with its connection, and leaves the listener
    /// as it was.
    pub fn try_step<C>(&mut self, event: ListenerEvent<C>) -> (outcome: Result<
        ListenerAction<C>,
        ListenerEvent<C>,
    >)
        ensures
            final(self).spec_endpoint() == old(self).spec_endpoint(),
            outcome is Ok <==> old(self).spec_state().accepts(event),
            outcome matches Ok(action) ==> final(self).spec_state() == old(
                self,
            ).spec_state().next(event) && action == old(self).spec_state().reaction(event),
            outcome matches Err(refused) ==> final(self).spec_state() == old(self).spec_state()
                && refused == event,
    {
        if self.accepts(&event) {
            Ok(self.step(event))
        } else {
            Err(event)
        }
    }
}

/// The state that a listener reaches from `start` over `events`.
pub open spec fn listen<C>(start: ListenerState, events: Seq<ListenerEvent<C>>) -> ListenerState
    decreases events.len(),
{
    if events.len() == 0 {
        start
    } else {
        listen(start, events.drop_last()).next(events.last())
    }
}

/// A failed accept changes nothing: the listener accepts as before, and a
/// connection that arrives afterwards is handed to a handler.
pub proof fn lemma_accept_failure_is_survived<C>(state: ListenerState, later: C)
    requires
        state == ListenerState::Accepting,
    ensures
        state.accepts(ListenerEvent::<C>::AcceptFailed),
        state.next(ListenerEvent::<C>::AcceptFailed) == ListenerState::Accepting,
        state.reaction(ListenerEvent::<C>::AcceptFailed) == ListenerAction::<
            C,
        >::ReportAcceptFailure,
        state.next(ListenerEvent::<C>::AcceptFailed).accepts(ListenerEvent::Accepted(later)),
        state.next(ListenerEvent::<C>::AcceptFailed).reaction(ListenerEvent::Accepted(later))
            == ListenerAction::Spawn(later),
{
}

/// Once the socket is bound, no run of accepted connections and failed
/// accepts, however long and in whatever order, ends the listener: it still
/// accepts afterwards, and nothing it does asks the process to exit.
pub proof fn lemma_accept_loop_never_ends<C>(events: Seq<ListenerEvent<C>>)
    requires
        forall|i: int|
            0 <= i < events.len() ==> (#[trigger] events[i]) is Accepted || events[i]
                is AcceptFailed,
    ensures
        listen(ListenerState::Accepting, events) == ListenerState::Accepting,
        forall|i: int|
            0 <= i < events.len() ==> {
                &&& listen(ListenerState::Accepting, events.take(i)).accepts(#[trigger] events[i])
                &&& !(listen(ListenerState::Accepting, events.take(i)).reaction(events[i])
                    is Exit)
            },
    decreases events.len(),
{
    if events.len() > 0 {
        let before = events.drop_last();
        lemma_accept_loop_never_ends(before);
        assert forall|i: int| 0 <= i < events.len() implies {
            &&& listen(ListenerState::Accepting, events.take(i)).accepts(#[trigger] events[i])
            &&& !(listen(ListenerState::Accepting, events.take(i)).reaction(events[i]) is Exit)
        } by {
            if i < before.len() {
                assert(before.take(i) == events.take(i));
                assert(before[i] == events[i]);
            } else {
                assert(events.take(i) == before);
            }
        }
    }
}

} // verus!
