//! The event ring is bounded, ordered, and tells what it lost.

use vstd::prelude::*;

use crate::controller::{
    self, StateView, MAX_DEBUG_EVENTS, MAX_DEBUG_EVENT_BYTES,
};
use crate::dispatch;
use crate::dispatch::{ActionView, OperationView};
use crate::json::JsonView;
use crate::operation::StepView;
use crate::policy;
use crate::records::EventView;
use crate::reports;
use crate::text::Chars;

verus! {

/// Bytes of JSON text of some events.
pub open spec fn total_size(events: Seq<EventView>) -> nat
    decreases events.len(),
{
    if events.len() == 0 {
        0
    } else {
        total_size(events.drop_last()) + controller::event_size(events.last())
    }
}

/// Highest sequence that the ring dropped.
pub open spec fn floor(state: StateView) -> nat {
    match state.dropped_through_sequence {
        Some(n) => n as nat,
        None => 0,
    }
}

/// The ring keeps its bounds and its byte count is that of its events.
pub open spec fn bounded(state: StateView) -> bool {
    &&& state.events.len() <= MAX_DEBUG_EVENTS
    &&& state.event_bytes <= MAX_DEBUG_EVENT_BYTES
    &&& state.event_bytes == total_size(state.events)
}

/// The events carry consecutive numbers up to the latest one, all above the
/// number through which events were dropped.
pub open spec fn numbered(state: StateView) -> bool {
    &&& floor(state) + state.events.len() <= state.latest_sequence
    &&& forall|i: int|
        0 <= i < state.events.len() ==> (#[trigger] state.events[i]).sequence
            == state.latest_sequence - (state.events.len() - 1 - i)
}

/// The ring holds every event above the number through which it dropped events.
pub open spec fn gapless(state: StateView) -> bool {
    numbered(state) && floor(state) + state.events.len() == state.latest_sequence
}

/// The size of some events is that of the first and of the others.
pub proof fn lemma_total_first(events: Seq<EventView>)
    requires
        events.len() > 0,
    ensures
        total_size(events) == controller::event_size(events[0]) + total_size(events.skip(1)),
    decreases events.len(),
{
    if events.len() == 1 {
        assert(events.drop_last() =~= events.skip(1));
    } else {
        lemma_total_first(events.drop_last());
        assert(events.drop_last().skip(1) =~= events.skip(1).drop_last());
        assert(events.skip(1).last() == events.last());
    }
}

/// The byte count is that of the events, or the newest event alone made it
/// saturate.
spec fn countable(state: StateView) -> bool {
    ||| state.event_bytes == total_size(state.events)
    ||| {
        &&& state.events.len() > 0
        &&& state.event_bytes < total_size(state.events)
        &&& state.event_bytes > total_size(state.events.drop_last()) + MAX_DEBUG_EVENT_BYTES
    }
}

spec fn without_oldest(state: StateView) -> StateView {
    StateView {
        events: state.events.skip(1),
        event_bytes: controller::bytes_minus(
            state.event_bytes,
            controller::event_size(state.events[0]),
        ),
        dropped_through_sequence: Some(state.events[0].sequence),
        ..state
    }
}

proof fn lemma_evict_bounded(state: StateView)
    requires
        countable(state),
    ensures
        bounded(state.evict()),
    decreases state.events.len(),
{
    if state.ring_full() && state.events.len() > 0 {
        let next = without_oldest(state);
        lemma_total_first(state.events);
        if state.event_bytes != total_size(state.events) && state.events.len() > 1 {
            lemma_total_first(state.events.drop_last());
            assert(state.events.drop_last().skip(1) =~= state.events.skip(1).drop_last());
        }
        if state.events.len() == 1 {
            assert(state.events.skip(1) =~= Seq::empty());
        }
        assert(countable(next));
        lemma_evict_bounded(next);
    }
}

proof fn lemma_evict_numbered(state: StateView)
    requires
        numbered(state),
    ensures
        numbered(state.evict()),
        gapless(state) ==> gapless(state.evict()),
        state.evict().latest_sequence == state.latest_sequence,
    decreases state.events.len(),
{
    if state.ring_full() && state.events.len() > 0 {
        let next = without_oldest(state);
        assert forall|i: int| 0 <= i < next.events.len() implies (
        #[trigger] next.events[i]).sequence == next.latest_sequence - (next.events.len() - 1
            - i) by {
            assert(next.events[i] == state.events[i + 1]);
        }
        assert(state.events[0].sequence == state.latest_sequence - (state.events.len() - 1));
        assert(numbered(next));
        lemma_evict_numbered(next);
    }
}

spec fn grown(
    state: StateView,
    now: u64,
    kind: Chars,
    session: Option<Chars>,
    data: JsonView,
) -> StateView {
    let event = state.next_event(now, kind, session, data);
    StateView {
        latest_sequence: event.sequence,
        events: state.events.push(event),
        event_bytes: controller::bytes_plus(state.event_bytes, controller::event_size(event)),
        ..state
    }
}

/// A ring that was never used is bounded, and so is one after any event: it
/// holds at most ten thousand events of at most eight mebibytes of JSON text,
/// whatever the events hold.
pub proof fn law_ring_stays_bounded(
    state: StateView,
    now: u64,
    kind: Chars,
    session: Option<Chars>,
    data: JsonView,
)
    requires
        bounded(state),
    ensures
        bounded(StateView::initial()),
        bounded(state.push_event(now, kind, session, data)),
{
    let grown = grown(state, now, kind, session, data);
    assert(grown.events.drop_last() =~= state.events);
    assert(usize::MAX >= 0xffff_ffff) by {
        assert(usize::BITS == 32 || usize::BITS == 64);
    }
    assert(countable(grown));
    lemma_evict_bounded(grown);
}

/// Every event takes the next number, and the ring holds consecutive numbers up
/// to the latest one. A ring that was never cleared holds every event above the
/// number through which it dropped events.
pub proof fn law_events_are_numbered(
    state: StateView,
    now: u64,
    kind: Chars,
    session: Option<Chars>,
    data: JsonView,
)
    requires
        numbered(state),
        state.latest_sequence < u64::MAX,
    ensures
        gapless(StateView::initial()),
        numbered(state.push_event(now, kind, session, data)),
        gapless(state) ==> gapless(state.push_event(now, kind, session, data)),
        state.push_event(now, kind, session, data).latest_sequence == state.latest_sequence + 1,
{
    let grown = grown(state, now, kind, session, data);
    assert(numbered(grown));
    lemma_evict_numbered(grown);
}

/// Reading the ring keeps it bounded and numbered, cleared or not.
pub proof fn law_clearing_keeps_the_ring_bounded(state: StateView, command: JsonView)
    requires
        bounded(state),
    ensures
        bounded(state.after_events(command)),
        numbered(state) ==> numbered(state.after_events(command)),
        state.after_events(command).latest_sequence == state.latest_sequence,
{
}

/// A reader of a ring that was never cleared sees every event behind its
/// cursor, unless the answer reports a gap in the buffer.
pub proof fn law_no_gap_means_nothing_was_missed(state: StateView, since: u64, sequence: u64)
    requires
        gapless(state),
        !state.buffer_gap(since),
        since < sequence <= state.latest_sequence,
    ensures
        exists|i: int|
            0 <= i < state.events.len() && (#[trigger] state.events[i]).sequence == sequence,
{
    let i = sequence - floor(state) - 1;
    assert(state.events[i].sequence == sequence);
}

/// Once an event was dropped, a reader whose cursor stands before it is told of
/// the gap.
pub proof fn law_dropped_events_are_reported(state: StateView, since: u64, sequence: u64)
    requires
        gapless(state),
        since < sequence <= state.latest_sequence,
        forall|i: int| 0 <= i < state.events.len() ==> (#[trigger] state.events[i]).sequence
            != sequence,
    ensures
        state.buffer_gap(since),
{
    if !state.buffer_gap(since) {
        law_no_gap_means_nothing_was_missed(state, since, sequence);
    }
}

/// A loss in the transport takes a number of its own. Readers whose cursor
/// stands before that number are told of the loss; readers behind it are not.
pub proof fn law_transport_loss_has_its_own_cursor(
    state: StateView,
    now: u64,
    generation: u64,
    count: u64,
    since: u64,
)
    requires
        state.latest_sequence < u64::MAX,
        state.connection_generation == generation,
    ensures
        ({
            let after = state.transport_gap(now, generation, count);
            &&& after.last_transport_gap_sequence == Some((state.latest_sequence + 1) as u64)
            &&& after.lost_after(since) == (since <= state.latest_sequence)
        }),
{
    controller::lemma_push_event_frame(
        state,
        now,
        "transport-gap"@,
        None,
        JsonView::object().with("gapReason"@, JsonView::Str("broadcast-lag"@)).with(
            "droppedEventCount"@,
            JsonView::Uint(count),
        ),
    );
}

/// An events command waits only where it is asked to and there is nothing new
/// behind its cursor. It then changes nothing until it is woken or its time is
/// up, and is answered with what stands there by then.
pub proof fn law_events_commands_wait_for_news(
    state: StateView,
    now: u64,
    command: JsonView,
    later: StateView,
    number: u64,
    woken: Result<JsonView, Chars>,
)
    requires
        policy::action_of(command) == "debug_events"@,
    ensures
        ({
            let since = reports::number_or(command, "since"@, 0);
            let wait = reports::number_or(command, "wait"@, 0);
            let (after, step) = dispatch::authorized(state, now, command);
            &&& step is Wait <==> wait > 0 && state.latest_sequence <= since
            &&& match step {
                StepView::Wait(operation) => {
                    &&& after == state
                    &&& operation.action() == ActionView::Listen(wait)
                    &&& operation.advance(later, number, now, woken) == (
                        later.after_events(command),
                        number,
                        StepView::<OperationView>::Done(Ok(later.events_answer(command))),
                    )
                },
                StepView::Done(answer) => answer == Ok::<JsonView, Chars>(
                    state.events_answer(command),
                ),
            }
        }),
{
    reveal_strlit("debug_events");
    reveal_strlit("debug_enable");
    reveal_strlit("debug_disable");
    reveal_strlit("debug_status");
    reveal_strlit("debug_stack");
    reveal_strlit("debug_eval");
    reveal_strlit("debug_pause");
    reveal_strlit("debug_resume");
    reveal_strlit("debug_step_over");
    reveal_strlit("debug_step_into");
    reveal_strlit("debug_step_out");
    assert("debug_events"@[7] == 'v');
    assert("debug_enable"@[7] == 'n');
    assert("debug_status"@[7] == 't');
    assert("debug_resume"@[7] == 'e');
}

} // verus!
