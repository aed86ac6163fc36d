//! What the event ring tells: the newest event, and what a reader gets.

use vstd::prelude::*;

use crate::collections;
use crate::controller;
use crate::controller::StateView;
use crate::interop;
use crate::json::JsonView;
use crate::laws::ring;
use crate::laws::tables;
use crate::records::EventView;
use crate::reports;
use crate::text;
use crate::text::Chars;

verus! {

proof fn lemma_evict_suffix(state: StateView)
    ensures
        state.evict().events.len() <= state.events.len(),
        state.evict().events == state.events.skip(
            state.events.len() - state.evict().events.len(),
        ),
    decreases state.events.len(),
{
    if state.ring_full() && state.events.len() > 0 {
        let next = StateView {
            events: state.events.skip(1),
            event_bytes: controller::bytes_minus(
                state.event_bytes,
                controller::event_size(state.events[0]),
            ),
            dropped_through_sequence: Some(state.events[0].sequence),
            ..state
        };
        lemma_evict_suffix(next);
        let left = state.evict().events.len();
        assert(next.events.skip(next.events.len() - left) =~= state.events.skip(
            state.events.len() - left,
        ));
    } else {
        assert(state.events.skip(0) =~= state.events);
    }
}

/// The newest event of a ring is the one that was pushed last.
pub proof fn lemma_newest(
    state: StateView,
    now: u64,
    kind: Chars,
    session: Option<Chars>,
    data: JsonView,
)
    ensures
        state.push_event(now, kind, session, data).events.len() > 0 ==> state.push_event(
            now,
            kind,
            session,
            data,
        ).events.last() == state.next_event(now, kind, session, data),
{
    let event = state.next_event(now, kind, session, data);
    lemma_evict_suffix(
        StateView {
            latest_sequence: event.sequence,
            events: state.events.push(event),
            event_bytes: controller::bytes_plus(state.event_bytes, controller::event_size(event)),
            ..state
        },
    );
}

/// Whether a state has told of something as its newest event: the event has the
/// kind, session and data, the time and the next number, and says which tab,
/// page and document the session has.
pub open spec fn told(
    before: StateView,
    after: StateView,
    now: u64,
    kind: Chars,
    session: Option<Chars>,
    data: JsonView,
) -> bool {
    let known = match session {
        Some(id) => collections::lookup(before.sessions, id),
        None => None,
    };
    let news = after.events.last();
    after.events.len() > 0 ==> {
        &&& news.kind == kind
        &&& news.session_id == session
        &&& news.data == data
        &&& news.timestamp == now
        &&& before.latest_sequence < u64::MAX ==> news.sequence == before.latest_sequence + 1
        &&& news.connection_generation == before.connection_generation
        &&& known is Some ==> news.tab_id == Some(known->Some_0.tab_id) && news.target_id == Some(
            known->Some_0.target_id,
        ) && news.document_generation == Some(known->Some_0.document_generation)
        &&& known is None ==> news.tab_id is None && news.target_id is None
            && news.document_generation is None
    }
}

/// The newest event of a ring is the one that was told last, and the others are
/// the last ones of before, in their order. A ring loses its newest event only
/// where that event alone is longer than eight mebibytes.
pub proof fn law_the_newest_event_is_what_was_told(
    state: StateView,
    now: u64,
    kind: Chars,
    session: Option<Chars>,
    data: JsonView,
)
    ensures
        ({
            let after = state.push_event(now, kind, session, data);
            &&& told(state, after, now, kind, session, data)
            &&& after.events.len() <= state.events.len() + 1
            &&& after.events.len() > 0 ==> after.events.drop_last() == state.events.skip(
                state.events.len() + 1 - after.events.len(),
            )
        }),
{
    let event = state.next_event(now, kind, session, data);
    let grown = StateView {
        latest_sequence: event.sequence,
        events: state.events.push(event),
        event_bytes: controller::bytes_plus(state.event_bytes, controller::event_size(event)),
        ..state
    };
    lemma_evict_suffix(grown);
    let after = state.push_event(now, kind, session, data);
    if after.events.len() > 0 {
        assert(after.events.last() == event);
        assert(after.events.drop_last() =~= state.events.skip(
            state.events.len() + 1 - after.events.len(),
        ));
    }
}

proof fn lemma_evict_keeps_last(state: StateView)
    requires
        state.events.len() > 0,
        state.event_bytes == ring::total_size(state.events),
        controller::event_size(state.events.last()) <= controller::MAX_DEBUG_EVENT_BYTES,
    ensures
        state.evict().events.len() > 0,
    decreases state.events.len(),
{
    if state.ring_full() {
        ring::lemma_total_first(state.events);
        if state.events.len() == 1 {
            assert(state.events.skip(1) =~= Seq::empty());
            assert(ring::total_size(state.events.skip(1)) == 0);
        } else {
            let next = StateView {
                events: state.events.skip(1),
                event_bytes: controller::bytes_minus(
                    state.event_bytes,
                    controller::event_size(state.events[0]),
                ),
                dropped_through_sequence: Some(state.events[0].sequence),
                ..state
            };
            lemma_evict_keeps_last(next);
        }
    }
}

/// An event of at most eight mebibytes of JSON text is kept when it is told, and
/// no older one is dropped while there are at most ten thousand of them, of
/// eight mebibytes together.
pub proof fn law_news_are_kept(
    state: StateView,
    now: u64,
    kind: Chars,
    session: Option<Chars>,
    data: JsonView,
)
    requires
        ring::bounded(state),
        text::utf8_len(
            interop::compact_json(state.next_event(now, kind, session, data).to_json()),
        ) <= 8_388_608,
    ensures
        state.push_event(now, kind, session, data).events.len() > 0,
        state.push_event(now, kind, session, data).events.len() <= 10_000,
        state.push_event(now, kind, session, data).event_bytes <= 8_388_608,
        state.events.len() < 10_000 && state.event_bytes + text::utf8_len(
            interop::compact_json(state.next_event(now, kind, session, data).to_json()),
        ) <= 8_388_608 ==> state.push_event(now, kind, session, data).events
            == state.events.push(state.next_event(now, kind, session, data)),
{
    let event = state.next_event(now, kind, session, data);
    let grown = StateView {
        latest_sequence: event.sequence,
        events: state.events.push(event),
        event_bytes: controller::bytes_plus(state.event_bytes, controller::event_size(event)),
        ..state
    };
    assert(usize::MAX >= 0xffff_ffff) by {
        assert(usize::BITS == 32 || usize::BITS == 64);
    }
    assert(grown.events.drop_last() =~= state.events);
    assert(grown.events.last() == event);
    lemma_evict_keeps_last(grown);
    ring::law_ring_stays_bounded(state, now, kind, session, data);
}

/// An event is told with its number, time, kind and data, and with what is known
/// of its session.
pub proof fn law_events_tell_what_they_hold(event: EventView)
    ensures
        event.to_json().get_u64("sequence"@) == Some(event.sequence),
        event.to_json().get_u64("timestamp"@) == Some(event.timestamp),
        event.to_json().get_str("type"@) == Some(event.kind),
        event.to_json().get_u64("connectionGeneration"@) == Some(event.connection_generation),
        event.to_json().get_str("tabId"@) == event.tab_id,
        event.to_json().get_str("targetId"@) == event.target_id,
        event.to_json().get_str("sessionId"@) == event.session_id,
        event.to_json().get_u64("documentGeneration"@) == event.document_generation,
        event.to_json().get("data"@) == Some(event.data),
{
    reveal_strlit("sequence");
    reveal_strlit("timestamp");
    reveal_strlit("type");
    reveal_strlit("connectionGeneration");
    reveal_strlit("tabId");
    reveal_strlit("targetId");
    reveal_strlit("sessionId");
    reveal_strlit("documentGeneration");
    reveal_strlit("data");
    assert("sequence"@.len() == 8);
    assert("timestamp"@.len() == 9);
    assert("type"@.len() == 4);
    assert("connectionGeneration"@.len() == 20);
    assert("tabId"@.len() == 5);
    assert("targetId"@.len() == 8);
    assert("sessionId"@.len() == 9);
    assert("documentGeneration"@.len() == 18);
    assert("data"@.len() == 4);
    assert("data"@[0] == 'd');
    assert("sequence"@[0] == 's');
    assert("sessionId"@[0] == 's');
    assert("targetId"@[0] == 't');
    assert("timestamp"@[0] == 't');
    assert("type"@[0] == 't');
}

/// Whether a JSON value tells an event behind a cursor.
pub open spec fn comes_from(events: Seq<EventView>, since: u64, value: JsonView) -> bool {
    exists|i: int|
        0 <= i < events.len() && (#[trigger] events[i]).sequence > since && events[i].to_json()
            == value
}

/// Whether a list of JSON values holds what is told of an event.
pub open spec fn lists(list: Seq<JsonView>, event: EventView) -> bool {
    list.contains(event.to_json())
}

proof fn lemma_events_after(events: Seq<EventView>, since: u64)
    ensures
        ({
            let list = reports::events_after(events, since);
            &&& forall|i: int|
                0 <= i < events.len() && (#[trigger] events[i]).sequence > since ==> lists(
                    list,
                    events[i],
                )
            &&& forall|k: int|
                0 <= k < list.len() ==> comes_from(events, since, #[trigger] list[k])
        }),
{
    broadcast use tables::lemma_filter_holds;

    let keep = |e: EventView| e.sequence > since;
    let kept = events.filter(keep);
    let list = reports::events_after(events, since);
    assert(list == kept.map_values(|e: EventView| e.to_json()));
    assert forall|i: int| 0 <= i < events.len() && (#[trigger] events[i]).sequence > since implies lists(
        list,
        events[i],
    ) by {
        assert(kept.contains(events[i]));
        let k = choose|k: int| 0 <= k < kept.len() && kept[k] == events[i];
        assert(list[k] == events[i].to_json());
    }
    assert forall|k: int| 0 <= k < list.len() implies comes_from(
        events,
        since,
        #[trigger] list[k],
    ) by {
        assert(kept.contains(kept[k]));
        assert(events.contains(kept[k]));
        let i = choose|i: int| 0 <= i < events.len() && events[i] == kept[k];
        assert(events[i].to_json() == list[k]);
    }
}

/// A reader gets every kept event whose number is larger than its cursor, and no
/// other; without a cursor it gets them all, for numbers begin with one. It is
/// told the oldest and the latest number, and whether something may be missing:
/// a gap of the buffer or one of the transport, each with the number up to which
/// it goes.
pub proof fn law_readers_get_what_is_behind_their_cursor(state: StateView, command: JsonView)
    ensures
        ({
            let since = match command.get("since"@) {
                Some(JsonView::Uint(n)) => n,
                _ => 0,
            };
            let answer = state.events_answer(command);
            let list = answer.get_array("events"@);
            let buffer = match state.dropped_through_sequence {
                Some(n) => since <= n,
                None => false,
            };
            let transport = match state.last_transport_gap_sequence {
                Some(n) => since < n,
                None => false,
            };
            &&& list is Some
            &&& forall|i: int|
                0 <= i < state.events.len() && (#[trigger] state.events[i]).sequence > since
                    ==> lists(list->Some_0, state.events[i])
            &&& forall|k: int|
                0 <= k < list->Some_0.len() ==> comes_from(
                    state.events,
                    since,
                    #[trigger] list->Some_0[k],
                )
            &&& answer.get_u64("latestSequence"@) == Some(state.latest_sequence)
            &&& answer.get_u64("oldestSequence"@) == (if state.events.len() > 0 {
                Some(state.events[0].sequence)
            } else {
                None
            })
            &&& answer.get_bool("bufferGap"@) == Some(buffer)
            &&& answer.get_bool("transportGap"@) == Some(transport)
            &&& answer.get_bool("gap"@) == Some(buffer || transport)
            &&& answer.get_u64("droppedThroughSequence"@) == state.dropped_through_sequence
            &&& answer.get_u64("lastTransportGapSequence"@) == state.last_transport_gap_sequence
        }),
{
    reveal_strlit("events");
    reveal_strlit("oldestSequence");
    reveal_strlit("latestSequence");
    reveal_strlit("gap");
    reveal_strlit("bufferGap");
    reveal_strlit("transportGap");
    reveal_strlit("droppedThroughSequence");
    reveal_strlit("lastTransportGapSequence");
    assert("events"@.len() == 6);
    assert("oldestSequence"@.len() == 14);
    assert("latestSequence"@.len() == 14);
    assert("gap"@.len() == 3);
    assert("bufferGap"@.len() == 9);
    assert("transportGap"@.len() == 12);
    assert("droppedThroughSequence"@.len() == 22);
    assert("lastTransportGapSequence"@.len() == 24);
    assert("latestSequence"@[0] == 'l');
    assert("oldestSequence"@[0] == 'o');
    let since = reports::number_or(command, "since"@, 0);
    lemma_events_after(state.events, since);
}

/// A reader empties the ring if and only if it asks for that, and nothing else
/// changes: the numbers go on.
pub proof fn law_the_ring_is_emptied_on_demand(state: StateView, command: JsonView)
    ensures
        command.get("clear"@) == Some(JsonView::Bool(true)) ==> state.after_events(command)
            == (StateView { events: Seq::empty(), event_bytes: 0, ..state }),
        command.get("clear"@) != Some(JsonView::Bool(true)) ==> state.after_events(command)
            == state,
{
}

/// A loss in the transport is told once, with the number of lost events, and is
/// that of the present connection only.
pub proof fn law_transport_losses_are_told(
    state: StateView,
    now: u64,
    generation: u64,
    count: u64,
)
    requires
        state.latest_sequence < u64::MAX,
    ensures
        ({
            let after = state.transport_gap(now, generation, count);
            let news = after.events.last();
            &&& generation != state.connection_generation ==> after == state
            &&& generation == state.connection_generation && after.events.len() > 0 ==> {
                &&& news.kind == "transport-gap"@
                &&& news.session_id is None
                &&& news.data.get_str("gapReason"@) == Some("broadcast-lag"@)
                &&& news.data.get_u64("droppedEventCount"@) == Some(count)
                &&& after.last_transport_gap_sequence == Some(news.sequence)
            }
        }),
{
    reveal_strlit("gapReason");
    reveal_strlit("droppedEventCount");
    assert("gapReason"@.len() == 9);
    assert("droppedEventCount"@.len() == 17);
    let data = JsonView::object().with("gapReason"@, JsonView::Str("broadcast-lag"@)).with(
        "droppedEventCount"@,
        JsonView::Uint(count),
    );
    law_the_newest_event_is_what_was_told(state, now, "transport-gap"@, None, data);
    controller::lemma_push_event_frame(state, now, "transport-gap"@, None, data);
}

/// The ring is full with more than ten thousand events, or with more than eight
/// mebibytes of them.
pub proof fn law_the_ring_has_two_bounds(state: StateView)
    ensures
        state.ring_full() <==> state.events.len() > 10_000 || state.event_bytes > 8_388_608,
{
}

/// A controller begins without a connection, for the Chrome engine, and with
/// nothing that was told.
pub proof fn law_controllers_begin_without_a_connection(key: Chars)
    ensures
        ({
            let state = StateView::initial();
            &&& state.engine == "chrome"@
            &&& !state.connected
            &&& state.connection_generation == 0
            &&& state.active_session is None
            &&& collections::lookup(state.sessions, key) is None
            &&& collections::lookup(state.logical_probes, key) is None
            &&& collections::lookup(state.physical_probes, key) is None
            &&& !state.enabled_sessions.contains(key)
            &&& state.scripts.len() == 0
            &&& state.events.len() == 0
            &&& state.latest_sequence == 0
            &&& state.dropped_through_sequence is None
            &&& state.last_transport_gap_sequence is None
        }),
{
}

} // verus!
