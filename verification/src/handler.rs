//! The connection handler of the echo server.
//!
//! A handler owns one accepted connection. It asks for a read, asks for the
//! bytes that the read gave to be written back, and so on until the peer closes
//! or the connection fails. The handler never touches the socket: the caller
//! does what an [`Action`] says and reports the outcome as an [`Event`].

use vstd::prelude::*;

verus! {

/// Size in bytes of the read buffer of a handler made by [`Handler::new`].
pub const DEFAULT_BUFFER_SIZE: usize = 256;

/// Why a handler stopped serving its connection.
#[derive(Clone, Copy, Debug, PartialEq, Eq, Structural)]
pub enum CloseReason {
    /// A read gave no bytes: the peer closed its side in good order.
    PeerClosed,
    /// A read failed.
    ReadFailed,
    /// A write failed.
    WriteFailed,
    /// A write took fewer bytes than it was given.
    ShortWrite,
}

impl CloseReason {
    /// The connection ended by a failure, not by the peer's orderly close.
    pub open spec fn spec_is_failure(self) -> bool {
        self != CloseReason::PeerClosed
    }

    /// Whether the connection ended by a failure, which is worth a report,
    /// and not by the peer's orderly close.
    #[verifier::when_used_as_spec(spec_is_failure)]
    pub fn is_failure(self) -> (failure: bool)
        ensures
            failure == self.spec_is_failure(),
    {
        match self {
            CloseReason::PeerClosed => false,
            _ => true,
        }
    }
}

/// What a handler is waiting for, as a mathematical value.
pub enum PhaseView {
    /// A read has been asked for.
    Reading,
    /// These bytes have been read and their write has been asked for.
    Writing(Seq<u8>),
    /// The handler has stopped.
    Closed(CloseReason),
}

/// The outcome of a read or a write, as a mathematical value.
pub enum EventView {
    /// A read gave these bytes; none means that the peer closed.
    Read(Seq<u8>),
    /// A read failed.
    ReadFailed,
    /// A write took this many of the bytes it was given.
    Wrote(nat),
    /// A write failed.
    WriteFailed,
}

/// What the caller is to do next, as a mathematical value.
pub enum ActionView {
    /// Read at most this many bytes.
    Read(nat),
    /// Write these bytes.
    Write(Seq<u8>),
    /// Stop and release the connection.
    Close(CloseReason),
}

/// A handler as a mathematical value.
pub struct HandlerView {
    /// The most bytes that one read may give.
    pub buffer_size: nat,
    /// What the handler is waiting for.
    pub phase: PhaseView,
}

impl HandlerView {
    /// The handler that has just been given a connection.
    pub open spec fn fresh(buffer_size: nat) -> HandlerView {
        HandlerView { buffer_size, phase: PhaseView::Reading }
    }

    /// The buffer holds at least one byte, and bytes that wait to be written
    /// came from one read that gave at least one byte.
    pub open spec fn wf(self) -> bool {
        &&& self.buffer_size > 0
        &&& (self.phase matches PhaseView::Writing(pending) ==> 0 < pending.len()
            <= self.buffer_size)
    }

    /// The handler has stopped.
    pub open spec fn closed(self) -> bool {
        self.phase is Closed
    }

    /// The bytes that were read and whose write has not been reported yet.
    pub open spec fn pending(self) -> Seq<u8> {
        match self.phase {
            PhaseView::Writing(pending) => pending,
            _ => Seq::empty(),
        }
    }

    /// The event can follow the action that this handler gave last: a read
    /// outcome after a read, a write outcome after a write, nothing after the
    /// handler stopped. A read gives no more than the buffer holds and a write
    /// takes no more than it was given.
    pub open spec fn accepts(self, event: EventView) -> bool {
        match (self.phase, event) {
            (PhaseView::Reading, EventView::Read(data)) => data.len() <= self.buffer_size,
            (PhaseView::Reading, EventView::ReadFailed) => true,
            (PhaseView::Writing(pending), EventView::Wrote(count)) => count <= pending.len(),
            (PhaseView::Writing(_), EventView::WriteFailed) => true,
            _ => false,
        }
    }

    /// The handler after the event.
    ///
    /// A read that gave bytes leads to their write, a read that gave none to a
    /// clean stop. A write that took all its bytes leads to the next read.
    /// Every failure, and a write that took too few bytes, stops the handler;
    /// nothing is tried twice.
    pub open spec fn next(self, event: EventView) -> HandlerView {
        let phase = match (self.phase, event) {
            (PhaseView::Reading, EventView::Read(data)) => if data.len() == 0 {
                PhaseView::Closed(CloseReason::PeerClosed)
            } else {
                PhaseView::Writing(data)
            },
            (PhaseView::Reading, EventView::ReadFailed) => PhaseView::Closed(
                CloseReason::ReadFailed,
            ),
            (PhaseView::Writing(pending), EventView::Wrote(count)) => if count == pending.len() {
                PhaseView::Reading
            } else {
                PhaseView::Closed(CloseReason::ShortWrite)
            },
            (PhaseView::Writing(_), EventView::WriteFailed) => PhaseView::Closed(
                CloseReason::WriteFailed,
            ),
            _ => self.phase,
        };
        HandlerView { buffer_size: self.buffer_size, phase }
    }

    /// What the caller is to do while the handler is in this state.
    pub open spec fn action(self) -> ActionView {
        match self.phase {
            PhaseView::Reading => ActionView::Read(self.buffer_size),
            PhaseView::Writing(pending) => ActionView::Write(pending),
            PhaseView::Closed(reason) => ActionView::Close(reason),
        }
    }
}

/// The outcome of a read or a write on the connection.
#[derive(Debug, PartialEq, Eq)]
pub enum Event {
    /// A read gave these bytes; none means that the peer closed.
    Read(Vec<u8>),
    /// A read failed.
    ReadFailed,
    /// A write took this many of the bytes it was given.
    Wrote(usize),
    /// A write failed.
    WriteFailed,
}

impl View for Event {
    type V = EventView;

    open spec fn view(&self) -> EventView {
        match *self {
            Event::Read(data) => EventView::Read(data@),
            Event::ReadFailed => EventView::ReadFailed,
            Event::Wrote(count) => EventView::Wrote(count as nat),
            Event::WriteFailed => EventView::WriteFailed,
        }
    }
}

/// What the caller is to do next with the connection.
#[derive(Debug, PartialEq, Eq)]
pub enum Action {
    /// Read at most this many bytes, then report [`Event::Read`] or
    /// [`Event::ReadFailed`].
    Read(usize),
    /// Write these bytes in one call, then report [`Event::Wrote`] or
    /// [`Event::WriteFailed`].
    Write(Vec<u8>),
    /// Stop and release the connection: the handler takes no further event.
    Close(CloseReason),
}

impl View for Action {
    type V = ActionView;

    open spec fn view(&self) -> ActionView {
        match *self {
            Action::Read(limit) => ActionView::Read(limit as nat),
            Action::Write(data) => ActionView::Write(data@),
            Action::Close(reason) => ActionView::Close(reason),
        }
    }
}

enum Phase {
    Reading,
    Writing(Vec<u8>),
    Closed(CloseReason),
}

/// The handler of one connection.
pub struct Handler {
    buffer_size: usize,
    phase: Phase,
}

impl View for Handler {
    type V = HandlerView;

    closed spec fn view(&self) -> HandlerView {
        HandlerView {
            buffer_size: self.buffer_size as nat,
            phase: match self.phase {
                Phase::Reading => PhaseView::Reading,
                Phase::Writing(pending) => PhaseView::Writing(pending@),
                Phase::Closed(reason) => PhaseView::Closed(reason),
            },
        }
    }
}

impl Handler {
    #[verifier::type_invariant]
    spec fn inv(self) -> bool {
        self@.wf()
    }

    /// A handler for a connection that was just accepted, with a read buffer
    /// of [`DEFAULT_BUFFER_SIZE`] bytes.
    pub fn new() -> (handler: Handler)
        ensures
            handler@ == HandlerView::fresh(DEFAULT_BUFFER_SIZE as nat),
            handler@.wf(),
    {
        Handler { buffer_size: DEFAULT_BUFFER_SIZE, phase: Phase::Reading }
    }

    /// A handler for a connection that was just accepted, with a read buffer
    /// of `buffer_size` bytes. A buffer without room for a byte is refused.
    pub fn with_buffer_size(buffer_size: usize) -> (made: Option<Handler>)
        ensures
            made is Some <==> buffer_size > 0,
            made matches Some(handler) ==> handler@ == HandlerView::fresh(buffer_size as nat)
                && handler@.wf(),
    {
        if buffer_size == 0 {
            None
        } else {
            Some(Handler { buffer_size, phase: Phase::Reading })
        }
    }

    /// The most bytes that one read may give.
    pub fn buffer_size(&self) -> (size: usize)
        ensures
            size == self@.buffer_size,
            size > 0,
    {
        proof {
            use_type_invariant(self);
        }
        self.buffer_size
    }

    /// Why the handler stopped, where it has.
    pub fn close_reason(&self) -> (reason: Option<CloseReason>)
        ensures
            reason is Some <==> self@.closed(),
            reason matches Some(why) ==> self@.phase == PhaseView::Closed(why),
    {
        match &self.phase {
            Phase::Closed(reason) => Some(*reason),
            _ => None,
        }
    }

    /// Whether the handler has stopped.
    pub fn is_closed(&self) -> (closed: bool)
        ensures
            closed == self@.closed(),
    {
        self.close_reason().is_some()
    }

    /// What the caller is to do now.
    pub fn action(&self) -> (action: Action)
        ensures
            action@ == self@.action(),
            self@.wf(),
    {
        proof {
            use_type_invariant(self);
        }
        match &self.phase {
            Phase::Reading => Action::Read(self.buffer_size),
            Phase::Writing(pending) => Action::Write(copy_bytes(pending)),
            Phase::Closed(reason) => Action::Close(*reason),
        }
    }

    /// Whether `event` can follow the action that the handler gave last.
    pub fn accepts(&self, event: &Event) -> (ok: bool)
        ensures
            ok == self@.accepts(event@),
    {
        match (&self.phase, event) {
            (Phase::Reading, Event::Read(data)) => data.len() <= self.buffer_size,
            (Phase::Reading, Event::ReadFailed) => true,
            (Phase::Writing(pending), Event::Wrote(count)) => *count <= pending.len(),
            (Phase::Writing(_), Event::WriteFailed) => true,
            _ => false,
        }
    }

    /// Takes the outcome of the action that the handler gave last and says
    /// what to do next.
    pub fn step(&mut self, event: Event) -> (action: Action)
        requires
            old(self)@.accepts(event@),
        ensures
            final(self)@ == old(self)@.next(event@),
            final(self)@.wf(),
            action@ == final(self)@.action(),
    {
        proof {
            use_type_invariant(&*self);
        }
        let phase = match event {
            Event::Read(data) => {
                if data.len() == 0 {
                    Phase::Closed(CloseReason::PeerClosed)
                } else {
                    Phase::Writing(data)
                }
            },
            Event::ReadFailed => Phase::Closed(CloseReason::ReadFailed),
            Event::Wrote(count) => {
                if count == self.pending_len() {
                    Phase::Reading
                } else {
                    Phase::Closed(CloseReason::ShortWrite)
                }
            },
            Event::WriteFailed => Phase::Closed(CloseReason::WriteFailed),
        };
        self.phase = phase;
        self.action()
    }

    /// Takes the outcome of the action that the handler gave last, where it
    /// can follow that action, and says what to do next. An event that
    /// cannot follow it comes back and leaves the handler as it was.
    pub fn try_step(&mut self, event: Event) -> (outcome: Result<Action, Event>)
        ensures
            outcome is Ok <==> old(self)@.accepts(event@),
            outcome matches Ok(action) ==> final(self)@ == old(self)@.next(event@) && action@
                == final(self)@.action(),
            outcome matches Err(refused) ==> final(self)@ == old(self)@ && refused == event,
            final(self)@.wf(),
    {
        proof {
            use_type_invariant(&*self);
        }
        if self.accepts(&event) {
            Ok(self.step(event))
        } else {
            Err(event)
        }
    }

    fn pending_len(&self) -> (len: usize)
        ensures
            len == self@.pending().len(),
    {
        match &self.phase {
            Phase::Writing(pending) => pending.len(),
            _ => 0,
        }
    }
}

/// A copy of `bytes`.
fn copy_bytes(bytes: &Vec<u8>) -> (copy: Vec<u8>)
    ensures
        copy@ == bytes@,
{
    let mut copy: Vec<u8> = Vec::with_capacity(bytes.len());
    let mut at: usize = 0;
    while at < bytes.len()
        invariant
            at <= bytes.len(),
            copy@ == bytes@.take(at as int),
        decreases bytes.len() - at,
    {
        copy.push(bytes[at]);
        at += 1;
    }
    copy
}

} // verus!
