//! Reading of the event ring, the scripts and the probes.

use std::collections::VecDeque;

use vstd::prelude::*;

use crate::collections;
use crate::controller::{ControllerState, StateView};
use crate::json::{Json, JsonView};
use crate::queries;
use crate::queries::{has_session_selector, resolve_session_id, sort_values};
use crate::records::{EventView, LogicalView, ProbeKind, ScriptRecord, ScriptView};
use crate::text;
use crate::text::{contains, Chars};

verus! {

/// A number of a command, or a default.
pub open spec fn number_or(command: JsonView, key: Chars, default: u64) -> u64 {
    match command.get_u64(key) {
        Some(n) => n,
        None => default,
    }
}

/// A number of a command, or a default.
pub fn get_number(command: &Json, key: &str, default: u64) -> (r: u64)
    ensures
        r == number_or(command@, key@, default),
{
    match command.get_u64(key) {
        Some(n) => n,
        None => default,
    }
}

/// Events behind a cursor.
pub open spec fn events_after(events: Seq<EventView>, since: u64) -> Seq<JsonView> {
    events.filter(|e: EventView| e.sequence > since).map_values(|e: EventView| e.to_json())
}

impl StateView {
    /// Whether events behind a cursor were dropped from the ring.
    pub open spec fn buffer_gap(self, since: u64) -> bool {
        self.dropped_through_sequence is Some && since <= self.dropped_through_sequence->Some_0
    }

    /// Whether the transport lost events behind a cursor.
    pub open spec fn lost_after(self, since: u64) -> bool {
        self.last_transport_gap_sequence is Some && self.last_transport_gap_sequence->Some_0
            > since
    }

    /// Answer to an events command.
    pub open spec fn events_answer(self, command: JsonView) -> JsonView {
        let since = number_or(command, "since"@, 0);
        JsonView::object().with(
            "events"@,
            JsonView::Array(events_after(self.events, since)),
        ).with(
            "oldestSequence"@,
            if self.events.len() > 0 {
                JsonView::Uint(self.events[0].sequence)
            } else {
                JsonView::Null
            },
        ).with("latestSequence"@, JsonView::Uint(self.latest_sequence)).with(
            "gap"@,
            JsonView::Bool(self.buffer_gap(since) || self.lost_after(since)),
        ).with("bufferGap"@, JsonView::Bool(self.buffer_gap(since))).with(
            "transportGap"@,
            JsonView::Bool(self.lost_after(since)),
        ).with(
            "droppedThroughSequence"@,
            JsonView::opt_uint(self.dropped_through_sequence),
        ).with(
            "lastTransportGapSequence"@,
            JsonView::opt_uint(self.last_transport_gap_sequence),
        )
    }

    /// The state after an events command, which may clear the ring.
    pub open spec fn after_events(self, command: JsonView) -> StateView {
        if command.flag("clear"@) {
            StateView { events: Seq::empty(), event_bytes: 0, ..self }
        } else {
            self
        }
    }
}

/// How long an events command waits for an event, in milliseconds; it does not
/// wait where there is one already.
pub open spec fn events_wait(state: StateView, command: JsonView) -> Option<u64> {
    let wait = number_or(command, "wait"@, 0);
    if wait > 0 && state.latest_sequence <= number_or(command, "since"@, 0) {
        Some(wait)
    } else {
        None
    }
}

/// Whether the address of a script holds a text, where one is asked for.
pub open spec fn address_matches(record: JsonView, filter: Option<Chars>) -> bool {
    match filter {
        None => true,
        Some(needle) => match record.get_str("url"@) {
            Some(url) => text::occurs(url, needle),
            None => false,
        },
    }
}

/// Whether the address of a script holds a text, where one is asked for.
pub fn matches_address(record: &Json, filter: Option<&str>) -> (r: bool)
    ensures
        r == address_matches(record@, filter.deep_view()),
{
    match filter {
        None => true,
        Some(needle) => match record.get_str("url") {
            Some(url) => contains(url, needle),
            None => false,
        },
    }
}

/// The session that a command restricts itself to.
pub open spec fn restricted_session(state: StateView, command: JsonView) -> Result<
    Option<Chars>,
    Chars,
> {
    if queries::selects_session(command) {
        match queries::session_for(state, command) {
            Ok(id) => Ok(Some(id)),
            Err(e) => Err(e),
        }
    } else {
        Ok(None)
    }
}

/// The session that a command restricts itself to.
pub fn restrict_session(state: &ControllerState, command: &Json) -> (r: Result<
    Option<String>,
    String,
>)
    ensures
        text::outcome(r) == restricted_session(state@, command@),
{
    if has_session_selector(command) {
        match resolve_session_id(state, command) {
            Ok(id) => Ok(Some(id)),
            Err(e) => Err(e),
        }
    } else {
        Ok(None)
    }
}

/// The scripts of a session, or of all, whose address matches, by identifier.
pub open spec fn selected_scripts(
    scripts: Seq<ScriptView>,
    session: Option<Chars>,
    filter: Option<Chars>,
) -> Seq<ScriptView> {
    let chosen = scripts.filter(|x: ScriptView| script_chosen(x, session, filter));
    text::sorted_by(chosen, chosen.map_values(|x: ScriptView| x.script_id))
}

/// Whether a script is of the session and its address matches.
pub open spec fn script_chosen(
    script: ScriptView,
    session: Option<Chars>,
    filter: Option<Chars>,
) -> bool {
    (session is None || session == Some(script.session_id)) && address_matches(
        script.record,
        filter,
    )
}

/// Answer to a scripts command.
pub open spec fn scripts_answer(state: StateView, command: JsonView) -> Result<JsonView, Chars> {
    match restricted_session(state, command) {
        Err(e) => Err(e),
        Ok(session) => Ok(
            JsonView::object().with(
                "connectionGeneration"@,
                JsonView::Uint(state.connection_generation),
            ).with(
                "scripts"@,
                JsonView::Array(
                    selected_scripts(
                        state.scripts,
                        session,
                        command.get_str("filter"@),
                    ).map_values(|x: ScriptView| x.record),
                ),
            ),
        ),
    }
}

/// Answer to a list command.
pub open spec fn probes_answer(state: StateView, kind: ProbeKind) -> JsonView {
    let probes = collections::values(state.logical_probes).filter(
        |p: LogicalView| p.kind == kind,
    );
    JsonView::object().with("kind"@, JsonView::Str(kind.name())).with(
        "probes"@,
        JsonView::Array(
            text::sorted_by(
                probes.map_values(|p: LogicalView| p.to_json(state.physical_probes)),
                probes.map_values(|p: LogicalView| p.probe_id),
            ),
        ),
    )
}

/// Picks the scripts of a session, or of all, whose address matches, by
/// identifier.
pub fn select_scripts(
    scripts: &Vec<ScriptRecord>,
    session: Option<&str>,
    filter: Option<&str>,
) -> (r: Vec<ScriptRecord>)
    ensures
        r.deep_view() == selected_scripts(
            scripts.deep_view(),
            session.deep_view(),
            filter.deep_view(),
        ),
{
    let ghost all = scripts.deep_view();
    let ghost pred = |x: ScriptView| script_chosen(x, session.deep_view(), filter.deep_view());
    let ghost g = |x: ScriptView| x.script_id;
    let mut chosen: Vec<ScriptRecord> = Vec::new();
    let mut keys: Vec<String> = Vec::new();
    let mut i: usize = 0;
    proof {
        reveal(Seq::filter);
        assert(chosen.deep_view() =~= all.take(0).filter(pred));
        assert(keys.deep_view() =~= all.take(0).filter(pred).map_values(g));
    }
    while i < scripts.len()
        invariant
            all == scripts.deep_view(),
            pred == (|x: ScriptView| script_chosen(x, session.deep_view(), filter.deep_view())),
            g == (|x: ScriptView| x.script_id),
            i <= scripts.len(),
            chosen.deep_view() == all.take(i as int).filter(pred),
            keys.deep_view() == all.take(i as int).filter(pred).map_values(g),
        decreases scripts.len() - i,
    {
        let script = &scripts[i];
        let ghost item = script.deep_view();
        let ghost was = chosen.deep_view();
        let ghost keys_before = keys.deep_view();
        proof {
            assert(all[i as int] == item);
            assert(all.take(i + 1) == all.take(i as int).push(item));
            all.take(i as int).lemma_filter_push(item, pred);
        }
        let here = match session {
            Some(id) => text::str_eq(id, script.session_id.as_str()),
            None => true,
        };
        if here && matches_address(&script.record, filter) {
            chosen.push(script.clone());
            keys.push(script.script_id.clone());
            proof {
                assert(chosen.deep_view() =~= was.push(item));
                assert(keys.deep_view() =~= keys_before.push(g(item)));
                assert(was.push(item).map_values(g) =~= was.map_values(g).push(g(item)));
            }
        }
        i = i + 1;
    }
    assert(all.take(i as int) == all);
    assert(chosen.deep_view().len() == keys.deep_view().len());
    let order = text::sort_order(&keys);
    let mut sorted: Vec<ScriptRecord> = Vec::new();
    let mut k: usize = 0;
    while k < order.len()
        invariant
            k == sorted.len() <= order.len(),
            chosen.len() == keys.len(),
            forall|j: int| 0 <= j < order.len() ==> (#[trigger] order@[j]) < keys.len(),
            forall|j: int|
                0 <= j < k ==> (#[trigger] sorted@[j]).deep_view()
                    == chosen.deep_view()[order@[j] as int],
        decreases order.len() - k,
    {
        assert(order@[k as int] < keys.len());
        sorted.push(chosen[order[k]].clone());
        k = k + 1;
    }
    assert(sorted.deep_view() =~= text::sorted_by(chosen.deep_view(), keys.deep_view()));
    sorted
}

impl ControllerState {
    /// How long an events command waits for an event, in milliseconds.
    pub fn wait_for_events(&self, command: &Json) -> (r: Option<u64>)
        ensures
            r == events_wait(self@, command@),
    {
        let wait = get_number(command, "wait", 0);
        if wait > 0 && !self.has_event_after(get_number(command, "since", 0)) {
            Some(wait)
        } else {
            None
        }
    }

    /// Whether an event stands behind a cursor.
    pub fn has_event_after(&self, since: u64) -> (r: bool)
        ensures
            r == (self@.latest_sequence > since),
    {
        self.latest_sequence > since
    }

    fn later_events(&self, since: u64) -> (r: Vec<Json>)
        ensures
            r.deep_view() == events_after(self@.events, since),
    {
        let ghost all = self@.events;
        let ghost pred = |e: EventView| e.sequence > since;
        let ghost f = |e: EventView| e.to_json();
        let mut items: Vec<Json> = Vec::new();
        let mut i: usize = 0;
        assert(items.deep_view() =~= all.take(0).filter(pred).map_values(f)) by {
            reveal(Seq::filter);
        }
        while i < self.events.len()
            invariant
                all == self.events.deep_view(),
                pred == (|e: EventView| e.sequence > since),
                f == (|e: EventView| e.to_json()),
                i <= self.events.len(),
                items.deep_view() == all.take(i as int).filter(pred).map_values(f),
            decreases self.events.len() - i,
        {
            let event = &self.events[i];
            let ghost item = event.deep_view();
            let ghost was = all.take(i as int).filter(pred);
            let ghost before = items.deep_view();
            proof {
                assert(all[i as int] == item);
                assert(all.take(i + 1) == all.take(i as int).push(item));
                all.take(i as int).lemma_filter_push(item, pred);
            }
            if event.sequence > since {
                items.push(event.to_json());
                proof {
                    assert(items.deep_view() =~= before.push(f(item)));
                    assert(was.push(item).map_values(f) =~= was.map_values(f).push(f(item)));
                }
            }
            i = i + 1;
        }
        assert(all.take(i as int) == all);
        items
    }

    /// Answers an events command, and clears the ring where it asks for that.
    pub fn events(&mut self, command: &Json) -> (r: Json)
        ensures
            r@ == old(self)@.events_answer(command@),
            final(self)@ == old(self)@.after_events(command@),
    {
        let since = get_number(command, "since", 0);
        let items = self.later_events(since);
        let oldest = if self.events.len() > 0 {
            assert(self@.events[0] == self.events@[0].deep_view());
            Some(self.events[0].sequence)
        } else {
            None
        };
        let buffer_gap = match self.dropped_through_sequence {
            Some(dropped) => since <= dropped,
            None => false,
        };
        let transport_gap = match self.last_transport_gap_sequence {
            Some(sequence) => sequence > since,
            None => false,
        };
        let answer = Json::object().with("events", Json::array(items)).with(
            "oldestSequence",
            Json::opt_uint(oldest),
        ).with("latestSequence", Json::Uint(self.latest_sequence)).with(
            "gap",
            Json::Bool(buffer_gap || transport_gap),
        ).with("bufferGap", Json::Bool(buffer_gap)).with(
            "transportGap",
            Json::Bool(transport_gap),
        ).with("droppedThroughSequence", Json::opt_uint(self.dropped_through_sequence)).with(
            "lastTransportGapSequence",
            Json::opt_uint(self.last_transport_gap_sequence),
        );
        if command.flag("clear") {
            self.events = VecDeque::new();
            self.event_bytes = 0;
            assert(self@.events =~= Seq::<EventView>::empty());
        }
        answer
    }

    /// Answers a scripts command.
    pub fn list_scripts(&self, command: &Json) -> (r: Result<Json, String>)
        ensures
            text::outcome(r) == scripts_answer(self@, command@),
    {
        let session = match restrict_session(self, command) {
            Ok(session) => session,
            Err(e) => {
                return Err(e);
            },
        };
        let chosen = select_scripts(
            &self.scripts,
            collections::optional_str(&session),
            command.get_str("filter"),
        );
        let mut records: Vec<Json> = Vec::new();
        let mut i: usize = 0;
        while i < chosen.len()
            invariant
                i == records.len() <= chosen.len(),
                forall|j: int|
                    0 <= j < i ==> (#[trigger] records@[j])@ == chosen.deep_view()[j].record,
            decreases chosen.len() - i,
        {
            assert(chosen.deep_view()[i as int] == chosen@[i as int].deep_view());
            records.push(chosen[i].record.clone());
            i = i + 1;
        }
        assert(records.deep_view() =~= chosen.deep_view().map_values(|x: ScriptView| x.record));
        Ok(
            Json::object().with(
                "connectionGeneration",
                Json::Uint(self.connection_generation),
            ).with("scripts", Json::array(records)),
        )
    }

    /// Answers a list command.
    pub fn list_probes(&self, kind: ProbeKind) -> (r: Json)
        ensures
            r@ == probes_answer(self@, kind),
    {
        let ghost list = collections::values(self@.logical_probes);
        let ghost pred = |p: LogicalView| p.kind == kind;
        let ghost f = |p: LogicalView| p.to_json(self@.physical_probes);
        let ghost g = |p: LogicalView| p.probe_id;
        let mut items: Vec<Json> = Vec::new();
        let mut keys: Vec<String> = Vec::new();
        let mut i: usize = 0;
        proof {
            reveal(Seq::filter);
            assert(items.deep_view() =~= list.take(0).filter(pred).map_values(f));
            assert(keys.deep_view() =~= list.take(0).filter(pred).map_values(g));
        }
        while i < self.logical_probes.entries.len()
            invariant
                list == collections::values(self@.logical_probes),
                pred == (|p: LogicalView| p.kind == kind),
                f == (|p: LogicalView| p.to_json(self@.physical_probes)),
                g == (|p: LogicalView| p.probe_id),
                i <= self.logical_probes.entries.len() == list.len(),
                items.deep_view() == list.take(i as int).filter(pred).map_values(f),
                keys.deep_view() == list.take(i as int).filter(pred).map_values(g),
            decreases self.logical_probes.entries.len() - i,
        {
            let probe = &self.logical_probes.entries[i].1;
            let ghost item = probe.deep_view();
            let ghost was = list.take(i as int).filter(pred);
            let ghost items_before = items.deep_view();
            let ghost keys_before = keys.deep_view();
            proof {
                assert(self@.logical_probes[i as int].1 == item);
                assert(list[i as int] == item);
                assert(list.take(i + 1) == list.take(i as int).push(item));
                list.take(i as int).lemma_filter_push(item, pred);
            }
            if probe.kind == kind {
                items.push(probe.to_json(&self.physical_probes));
                keys.push(probe.probe_id.clone());
                proof {
                    assert(items.deep_view() =~= items_before.push(f(item)));
                    assert(keys.deep_view() =~= keys_before.push(g(item)));
                    assert(was.push(item).map_values(f) =~= was.map_values(f).push(f(item)));
                    assert(was.push(item).map_values(g) =~= was.map_values(g).push(g(item)));
                }
            }
            i = i + 1;
        }
        assert(list.take(i as int) == list);
        assert(items.deep_view().len() == keys.deep_view().len());
        let sorted = sort_values(&items, &keys);
        Json::object().with("kind", Json::text(kind.as_str())).with(
            "probes",
            Json::array(sorted),
        )
    }
}

} // verus!
