//! What a handler does over the whole life of a connection.
//!
//! A connection's history is the sequence of events that its handler took.
//! The functions here say what such a history received and what it echoed,
//! and the proofs show that the echo is the received stream itself, byte for
//! byte, however the transport cut it into reads.

use vstd::prelude::*;
use crate::handler::{CloseReason, EventView, HandlerView, PhaseView};

verus! {

/// The handler that `start` becomes by taking `events` in order.
pub open spec fn run(start: HandlerView, events: Seq<EventView>) -> HandlerView
    decreases events.len(),
{
    if events.len() == 0 {
        start
    } else {
        run(start, events.drop_last()).next(events.last())
    }
}

/// Each event of the history could follow the action before it.
pub open spec fn admissible(start: HandlerView, events: Seq<EventView>) -> bool
    decreases events.len(),
{
    events.len() == 0 || (admissible(start, events.drop_last()) && run(
        start,
        events.drop_last(),
    ).accepts(events.last()))
}

/// The bytes that the event says the peer sent.
pub open spec fn read_by(event: EventView) -> Seq<u8> {
    match event {
        EventView::Read(data) => data,
        _ => Seq::empty(),
    }
}

/// The bytes that the event says went back to the peer, when it reaches a
/// handler in this state: as many of the waiting bytes as the write took.
pub open spec fn written_by(state: HandlerView, event: EventView) -> Seq<u8> {
    match event {
        EventView::Wrote(count) => state.pending().take(count as int),
        _ => Seq::empty(),
    }
}

/// All bytes that the peer sent over the history, in order.
pub open spec fn received(events: Seq<EventView>) -> Seq<u8>
    decreases events.len(),
{
    if events.len() == 0 {
        Seq::empty()
    } else {
        received(events.drop_last()) + read_by(events.last())
    }
}

/// All bytes that went back to the peer over the history, in order.
pub open spec fn echoed(start: HandlerView, events: Seq<EventView>) -> Seq<u8>
    decreases events.len(),
{
    if events.len() == 0 {
        Seq::empty()
    } else {
        echoed(start, events.drop_last()) + written_by(
            run(start, events.drop_last()),
            events.last(),
        )
    }
}

/// The events of a connection on which every read and write succeeds: the
/// reads give `chunks` one after the other and each write takes its chunk
/// whole.
pub open spec fn exchange(chunks: Seq<Seq<u8>>) -> Seq<EventView>
    decreases chunks.len(),
{
    if chunks.len() == 0 {
        Seq::empty()
    } else {
        exchange(chunks.drop_last()).push(EventView::Read(chunks.last())).push(
            EventView::Wrote(chunks.last().len()),
        )
    }
}

/// An [`exchange`] of `chunks` that the peer ends by closing its side.
pub open spec fn session(chunks: Seq<Seq<u8>>) -> Seq<EventView> {
    exchange(chunks).push(EventView::Read(Seq::empty()))
}

/// A well-formed handler stays well-formed under every event it accepts, and
/// keeps its buffer size.
pub proof fn lemma_next_wf(state: HandlerView, event: EventView)
    requires
        state.wf(),
        state.accepts(event),
    ensures
        state.next(event).wf(),
        state.next(event).buffer_size == state.buffer_size,
{
}

/// A well-formed handler stays well-formed over every admissible history.
pub proof fn lemma_run_wf(start: HandlerView, events: Seq<EventView>)
    requires
        start.wf(),
        admissible(start, events),
    ensures
        run(start, events).wf(),
        run(start, events).buffer_size == start.buffer_size,
    decreases events.len(),
{
    if events.len() > 0 {
        lemma_run_wf(start, events.drop_last());
        lemma_next_wf(run(start, events.drop_last()), events.last());
    }
}

/// A handler that has stopped takes no further event: nothing is retried and
/// nothing more is asked of the connection.
pub proof fn lemma_closed_is_final(state: HandlerView, event: EventView)
    requires
        state.closed(),
    ensures
        !state.accepts(event),
{
}

/// A failed read or write, and a write that took too few bytes, stop the
/// handler at once.
pub proof fn lemma_failure_is_terminal(state: HandlerView, event: EventView)
    requires
        state.accepts(event),
        event is ReadFailed || event is WriteFailed || (event matches EventView::Wrote(count)
            && count < state.pending().len()),
    ensures
        state.next(event).closed(),
        state.next(event).phase != PhaseView::Closed(CloseReason::PeerClosed),
{
}

/// Orderly close: when the last event of an admissible history is a read
/// that gave no bytes, the handler has stopped, names the peer's close as the
/// reason, and accepts no further event.
pub proof fn lemma_orderly_close_terminates(start: HandlerView, events: Seq<EventView>)
    requires
        admissible(start, events),
        events.len() > 0,
        events.last() == EventView::Read(Seq::empty()),
    ensures
        run(start, events).phase == PhaseView::Closed(CloseReason::PeerClosed),
        forall|event: EventView| !run(start, events).accepts(event),
{
}

/// Echo fidelity, for every history of a connection.
///
/// Whatever admissible events a freshly made handler takes, the bytes that
/// went back are a prefix of the bytes that came in. While bytes wait to be
/// written, they are exactly what is missing. Whenever the handler waits for
/// a read, or stopped because the peer closed or a read failed, the two
/// streams are equal.
pub proof fn lemma_echo_fidelity(buffer_size: nat, events: Seq<EventView>)
    requires
        buffer_size > 0,
        admissible(HandlerView::fresh(buffer_size), events),
    ensures
        echoed(HandlerView::fresh(buffer_size), events).is_prefix_of(received(events)),
        ({
            let end = run(HandlerView::fresh(buffer_size), events);
            !(end.phase == PhaseView::Closed(CloseReason::WriteFailed) || end.phase
                == PhaseView::Closed(CloseReason::ShortWrite)) ==> echoed(
                HandlerView::fresh(buffer_size),
                events,
            ) + end.pending() == received(events)
        }),
    decreases events.len(),
{
    let start = HandlerView::fresh(buffer_size);
    if events.len() > 0 {
        let before = events.drop_last();
        let last = events.last();
        let state = run(start, before);
        lemma_echo_fidelity(buffer_size, before);
        lemma_run_wf(start, before);
        let sent = echoed(start, before);
        let got = received(before);
        match (state.phase, last) {
            (PhaseView::Reading, EventView::Read(data)) => {
                assert(sent + Seq::<u8>::empty() == sent);
                assert(written_by(state, last) == Seq::<u8>::empty());
                assert(sent + Seq::<u8>::empty() + data == got + data);
                if data.len() == 0 {
                    assert(echoed(start, events) + Seq::<u8>::empty() == received(events));
                }
            },
            (PhaseView::Reading, EventView::ReadFailed) => {
                assert(sent + Seq::<u8>::empty() == sent);
                assert(got + Seq::<u8>::empty() == got);
            },
            (PhaseView::Writing(pending), EventView::Wrote(count)) => {
                assert(got + Seq::<u8>::empty() == got);
                assert(sent + pending == got);
                if count == pending.len() {
                    assert(pending.take(count as int) == pending);
                    assert(sent + pending + Seq::<u8>::empty() == got);
                }
            },
            (PhaseView::Writing(pending), EventView::WriteFailed) => {
                assert(got + Seq::<u8>::empty() == got);
                assert(sent + Seq::<u8>::empty() == sent);
                assert(sent + pending == got);
            },
            _ => {},
        }
    }
}

/// The bytes of an [`exchange`] go through whole, and leave the handler
/// waiting for the next read.
pub proof fn lemma_exchange(buffer_size: nat, chunks: Seq<Seq<u8>>)
    requires
        buffer_size > 0,
        forall|i: int| 0 <= i < chunks.len() ==> 0 < (#[trigger] chunks[i]).len() <= buffer_size,
    ensures
        admissible(HandlerView::fresh(buffer_size), exchange(chunks)),
        run(HandlerView::fresh(buffer_size), exchange(chunks)) == HandlerView::fresh(buffer_size),
        received(exchange(chunks)) == chunks.flatten(),
        echoed(HandlerView::fresh(buffer_size), exchange(chunks)) == chunks.flatten(),
    decreases chunks.len(),
{
    let start = HandlerView::fresh(buffer_size);
    if chunks.len() == 0 {
        assert(chunks.flatten() == Seq::<u8>::empty());
    } else {
        let chunk = chunks.last();
        let before = exchange(chunks.drop_last());
        let read = EventView::Read(chunk);
        let wrote = EventView::Wrote(chunk.len());
        lemma_exchange(buffer_size, chunks.drop_last());
        assert(before.push(read).drop_last() == before);
        assert(before.push(read).push(wrote).drop_last() == before.push(read));
        assert(run(start, before.push(read)).phase == PhaseView::Writing(chunk));
        assert(admissible(start, before.push(read)));
        assert(admissible(start, exchange(chunks)));
        assert(chunk.take(chunk.len() as int) == chunk);
        let flat = chunks.drop_last().flatten();
        assert(chunks.drop_last().push(chunk) == chunks);
        chunks.drop_last().lemma_flatten_push(chunk);
        assert(received(before.push(read)) == flat + chunk);
        assert(flat + chunk + Seq::<u8>::empty() == flat + chunk);
        assert(received(exchange(chunks)) == flat + chunk);
        assert(echoed(start, before.push(read)) == flat + Seq::<u8>::empty());
        assert(flat + Seq::<u8>::empty() == flat);
        assert(echoed(start, exchange(chunks)) == flat + chunk);
    }
}

/// Echo fidelity, for a stream cut into reads.
///
/// Let the peer send a byte stream and close, and let the transport hand the
/// stream over as `chunks`, each of at least one byte and no more than the
/// buffer holds. However the stream was cut, the bytes that went back are the
/// stream, the handler has stopped, and it names the peer's close as the
/// reason.
pub proof fn lemma_session_echoes_stream(buffer_size: nat, chunks: Seq<Seq<u8>>)
    requires
        buffer_size > 0,
        forall|i: int| 0 <= i < chunks.len() ==> 0 < (#[trigger] chunks[i]).len() <= buffer_size,
    ensures
        admissible(HandlerView::fresh(buffer_size), session(chunks)),
        received(session(chunks)) == chunks.flatten(),
        echoed(HandlerView::fresh(buffer_size), session(chunks)) == chunks.flatten(),
        run(HandlerView::fresh(buffer_size), session(chunks)).phase == PhaseView::Closed(
            CloseReason::PeerClosed,
        ),
{
    let start = HandlerView::fresh(buffer_size);
    let close = EventView::Read(Seq::empty());
    lemma_exchange(buffer_size, chunks);
    assert(session(chunks).drop_last() == exchange(chunks));
    assert(chunks.flatten() + Seq::<u8>::empty() == chunks.flatten());
    assert(read_by(close) == Seq::<u8>::empty());
    assert(written_by(start, close) == Seq::<u8>::empty());
}

} // verus!
