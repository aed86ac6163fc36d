//! State of the debugger control plane: sessions, probes and the event ring.

use std::collections::VecDeque;

use vstd::prelude::*;

use crate::collections;
use crate::collections::{keep_marked, set_remove, StrMap};
use crate::interop;
use crate::interop::json_text;
use crate::json::{Json, JsonView};
use crate::records::{
    DebugEvent, DebugSession, EventView, LogicalProbe, LogicalView, PauseRecord, PauseView,
    PhysicalProbe, PhysicalTable, PhysicalView, ScriptRecord, ScriptView, SessionView,
};
use crate::text;
use crate::text::{byte_len, str_eq, Chars};

verus! {

/// The ring never holds more events than this.
pub const MAX_DEBUG_EVENTS: usize = 10_000;

/// The ring never holds events of more JSON text than this, in bytes.
pub const MAX_DEBUG_EVENT_BYTES: usize = 8_388_608;

/// Everything the control plane knows.
pub struct ControllerState {
    pub engine: String,
    pub connection_generation: u64,
    pub connected: bool,
    pub sessions: StrMap<DebugSession>,
    pub active_session: Option<String>,
    pub enabled_sessions: Vec<String>,
    pub execution_contexts: StrMap<Vec<u64>>,
    pub binding_sessions: Vec<String>,
    pub paused_sessions: StrMap<PauseRecord>,
    pub scripts: Vec<ScriptRecord>,
    pub logical_probes: StrMap<LogicalProbe>,
    pub physical_probes: StrMap<PhysicalProbe>,
    pub physical_by_cdp_breakpoint: StrMap<String>,
    pub binding_name: String,
    pub binding_nonce: String,
    pub event_bytes: usize,
    pub events: VecDeque<DebugEvent>,
    pub latest_sequence: u64,
    pub dropped_through_sequence: Option<u64>,
    pub last_transport_gap_sequence: Option<u64>,
}

/// Model of the state.
#[verifier::ext_equal]
pub struct StateView {
    pub engine: Chars,
    pub connection_generation: u64,
    pub connected: bool,
    pub sessions: Seq<(Chars, SessionView)>,
    pub active_session: Option<Chars>,
    pub enabled_sessions: Seq<Chars>,
    pub execution_contexts: Seq<(Chars, Seq<u64>)>,
    pub binding_sessions: Seq<Chars>,
    pub paused_sessions: Seq<(Chars, PauseView)>,
    pub scripts: Seq<ScriptView>,
    pub logical_probes: Seq<(Chars, LogicalView)>,
    pub physical_probes: PhysicalTable,
    pub physical_by_cdp_breakpoint: Seq<(Chars, Chars)>,
    pub binding_name: Chars,
    pub binding_nonce: Chars,
    pub event_bytes: usize,
    pub events: Seq<EventView>,
    pub latest_sequence: u64,
    pub dropped_through_sequence: Option<u64>,
    pub last_transport_gap_sequence: Option<u64>,
}

impl View for ControllerState {
    type V = StateView;

    open spec fn view(&self) -> StateView {
        StateView {
            engine: self.engine@,
            connection_generation: self.connection_generation,
            connected: self.connected,
            sessions: self.sessions@,
            active_session: self.active_session.deep_view(),
            enabled_sessions: self.enabled_sessions.deep_view(),
            execution_contexts: self.execution_contexts@,
            binding_sessions: self.binding_sessions.deep_view(),
            paused_sessions: self.paused_sessions@,
            scripts: self.scripts.deep_view(),
            logical_probes: self.logical_probes@,
            physical_probes: self.physical_probes@,
            physical_by_cdp_breakpoint: self.physical_by_cdp_breakpoint@,
            binding_name: self.binding_name@,
            binding_nonce: self.binding_nonce@,
            event_bytes: self.event_bytes,
            events: self.events.deep_view(),
            latest_sequence: self.latest_sequence,
            dropped_through_sequence: self.dropped_through_sequence,
            last_transport_gap_sequence: self.last_transport_gap_sequence,
        }
    }
}

/// One more, up to the largest number.
pub open spec fn next_number(n: u64) -> u64 {
    if n == u64::MAX {
        n
    } else {
        (n + 1) as u64
    }
}

/// Bytes that an event takes in the ring: the length of its JSON text.
pub open spec fn event_size(event: EventView) -> nat {
    text::utf8_len(interop::compact_json(event.to_json()))
}

/// Sum of two byte counts, up to the largest count.
pub open spec fn bytes_plus(a: usize, b: nat) -> usize {
    if a + b > usize::MAX {
        usize::MAX
    } else {
        (a + b) as usize
    }
}

/// Difference of two byte counts, down to zero.
pub open spec fn bytes_minus(a: usize, b: nat) -> usize {
    if b > a {
        0
    } else {
        (a - b) as usize
    }
}

impl StateView {
    /// The state of a control plane that was never connected.
    pub open spec fn initial() -> StateView {
        StateView {
            engine: "chrome"@,
            connection_generation: 0,
            connected: false,
            sessions: Seq::empty(),
            active_session: None,
            enabled_sessions: Seq::empty(),
            execution_contexts: Seq::empty(),
            binding_sessions: Seq::empty(),
            paused_sessions: Seq::empty(),
            scripts: Seq::empty(),
            logical_probes: Seq::empty(),
            physical_probes: Seq::empty(),
            physical_by_cdp_breakpoint: Seq::empty(),
            binding_name: Seq::empty(),
            binding_nonce: Seq::empty(),
            event_bytes: 0,
            events: Seq::empty(),
            latest_sequence: 0,
            dropped_through_sequence: None,
            last_transport_gap_sequence: None,
        }
    }

    /// Whether the ring is over one of its bounds.
    pub open spec fn ring_full(self) -> bool {
        self.events.len() > MAX_DEBUG_EVENTS || self.event_bytes > MAX_DEBUG_EVENT_BYTES
    }

    /// The state without its oldest events, as many as the bounds demand.
    pub open spec fn evict(self) -> StateView
        decreases self.events.len(),
    {
        if self.ring_full() && self.events.len() > 0 {
            StateView {
                events: self.events.skip(1),
                event_bytes: bytes_minus(self.event_bytes, event_size(self.events[0])),
                dropped_through_sequence: Some(self.events[0].sequence),
                ..self
            }.evict()
        } else {
            self
        }
    }

    /// The event that the next push appends.
    pub open spec fn next_event(
        self,
        now: u64,
        kind: Chars,
        session: Option<Chars>,
        data: JsonView,
    ) -> EventView {
        let known = match session {
            Some(id) => collections::lookup(self.sessions, id),
            None => None,
        };
        EventView {
            sequence: next_number(self.latest_sequence),
            timestamp: now,
            kind,
            connection_generation: self.connection_generation,
            tab_id: match known {
                Some(s) => Some(s.tab_id),
                None => None,
            },
            target_id: match known {
                Some(s) => Some(s.target_id),
                None => None,
            },
            session_id: session,
            document_generation: match known {
                Some(s) => Some(s.document_generation),
                None => None,
            },
            data,
        }
    }

    /// The state with one more event in the ring.
    pub open spec fn push_event(
        self,
        now: u64,
        kind: Chars,
        session: Option<Chars>,
        data: JsonView,
    ) -> StateView {
        let event = self.next_event(now, kind, session, data);
        StateView {
            latest_sequence: event.sequence,
            events: self.events.push(event),
            event_bytes: bytes_plus(self.event_bytes, event_size(event)),
            ..self
        }.evict()
    }

    /// Status of a probe that lost an installation.
    pub open spec fn unbound_status(self, binding: PhysicalView, reason: Chars) -> Chars {
        match collections::lookup(self.logical_probes, binding.probe_id) {
            Some(probe) => if probe.persistent {
                reason + "-awaiting-rebind"@
            } else {
                reason
            },
            None => reason,
        }
    }

    /// The state without one installation.
    pub open spec fn without_physical(self, id: Chars, reason: Chars) -> StateView {
        let binding = collections::lookup(self.physical_probes, id)->Some_0;
        StateView {
            physical_probes: collections::del(self.physical_probes, id),
            physical_by_cdp_breakpoint: collections::del(
                self.physical_by_cdp_breakpoint,
                binding.cdp_breakpoint_id,
            ),
            logical_probes: match collections::lookup(self.logical_probes, binding.probe_id) {
                Some(probe) => collections::put(
                    self.logical_probes,
                    binding.probe_id,
                    LogicalView {
                        physical_ids: collections::set_without(probe.physical_ids, id),
                        status: self.unbound_status(binding, reason),
                        ..probe
                    },
                ),
                None => self.logical_probes,
            },
            ..self
        }
    }

    /// The state after one installation was invalidated and reported.
    pub open spec fn unbind(
        self,
        now: u64,
        session: Chars,
        id: Chars,
        reason: Chars,
        context: Option<u64>,
    ) -> StateView {
        match collections::lookup(self.physical_probes, id) {
            None => self,
            Some(binding) => self.without_physical(id, reason).push_event(
                now,
                "probe-unbound"@,
                Some(session),
                unbound_data(binding, reason, self.unbound_status(binding, reason), context),
            ),
        }
    }

    /// The state after several installations were invalidated in turn.
    pub open spec fn unbind_all(
        self,
        now: u64,
        session: Chars,
        ids: Seq<Chars>,
        reason: Chars,
        context: Option<u64>,
    ) -> StateView
        decreases ids.len(),
    {
        if ids.len() == 0 {
            self
        } else {
            self.unbind_all(now, session, ids.drop_last(), reason, context).unbind(
                now,
                session,
                ids.last(),
                reason,
                context,
            )
        }
    }

    /// Installations of a session, in one document generation or in all.
    pub open spec fn session_bindings(self, session: Chars, generation: u64) -> Seq<Chars> {
        collections::values(self.physical_probes).filter(
            |b: PhysicalView|
                b.session_id == session && (generation == u64::MAX || b.document_generation
                    == generation),
        ).map_values(|b: PhysicalView| b.physical_id)
    }

    /// Installations of a session in one execution context.
    pub open spec fn context_bindings(self, session: Chars, context: u64) -> Seq<Chars> {
        collections::values(self.physical_probes).filter(
            |b: PhysicalView| b.session_id == session && b.execution_context_id == Some(context),
        ).map_values(|b: PhysicalView| b.physical_id)
    }

    /// The state after the installations of a session were invalidated; a
    /// generation of `u64::MAX` stands for all generations.
    pub open spec fn invalidate_session(
        self,
        now: u64,
        session: Chars,
        generation: u64,
        reason: Chars,
    ) -> StateView {
        self.unbind_all(now, session, self.session_bindings(session, generation), reason, None)
    }

    /// The state after the installations of an execution context were
    /// invalidated.
    pub open spec fn invalidate_context(
        self,
        now: u64,
        session: Chars,
        context: u64,
        reason: Chars,
    ) -> StateView {
        self.unbind_all(
            now,
            session,
            self.context_bindings(session, context),
            reason,
            Some(context),
        )
    }

    /// The state after the loss of installations of a probe was reported.
    pub open spec fn report_stale(
        self,
        now: u64,
        probe: Chars,
        ids: Seq<Chars>,
        reason: Chars,
    ) -> StateView
        decreases ids.len(),
    {
        if ids.len() == 0 {
            self
        } else {
            self.report_stale(now, probe, ids.drop_last(), reason).push_event(
                now,
                "probe-unbound"@,
                None,
                stale_data(probe, ids.last(), reason),
            )
        }
    }

    /// The state after a probe was marked stale.
    pub open spec fn mark_stale(
        self,
        now: u64,
        probe: Chars,
        ids: Seq<Chars>,
        reason: Chars,
    ) -> StateView {
        match collections::lookup(self.logical_probes, probe) {
            Some(p) => StateView {
                logical_probes: collections::put(
                    self.logical_probes,
                    probe,
                    LogicalView { physical_ids: Seq::empty(), status: "stale"@, ..p },
                ),
                ..self
            },
            None => self,
        }.report_stale(now, probe, ids, reason)
    }

    /// The state after the given probes were marked stale in turn.
    pub open spec fn mark_each_stale(
        self,
        now: u64,
        probes: Seq<(Chars, LogicalView)>,
        reason: Chars,
    ) -> StateView
        decreases probes.len(),
    {
        if probes.len() == 0 {
            self
        } else {
            self.mark_each_stale(now, probes.drop_last(), reason).mark_stale(
                now,
                probes.last().1.probe_id,
                probes.last().1.physical_ids,
                reason,
            )
        }
    }

    /// The state after every probe was marked stale.
    pub open spec fn mark_all_stale(self, now: u64, reason: Chars) -> StateView {
        self.mark_each_stale(now, self.logical_probes, reason)
    }
}

/// Data of the event that reports an invalidated installation.
pub open spec fn unbound_data(
    binding: PhysicalView,
    reason: Chars,
    status: Chars,
    context: Option<u64>,
) -> JsonView {
    let ids = JsonView::object().with("probeId"@, JsonView::Str(binding.probe_id)).with(
        "physicalBindingId"@,
        JsonView::Str(binding.physical_id),
    );
    let place = match context {
        Some(id) => ids.with("executionContextId"@, JsonView::Uint(id)),
        None => ids,
    };
    place.with("reason"@, JsonView::Str(reason)).with("status"@, JsonView::Str(status))
}

/// Data of the event that reports a stale installation.
pub open spec fn stale_data(probe: Chars, id: Chars, reason: Chars) -> JsonView {
    JsonView::object().with("probeId"@, JsonView::Str(probe)).with(
        "physicalBindingId"@,
        JsonView::Str(id),
    ).with("reason"@, JsonView::Str(reason)).with("status"@, JsonView::Str("stale"@))
}

/// The latest script with the given identifiers.
pub open spec fn find_script(scripts: Seq<ScriptView>, session: Chars, script: Chars) -> Option<
    ScriptView,
>
    decreases scripts.len(),
{
    if scripts.len() == 0 {
        None
    } else if scripts.last().session_id == session && scripts.last().script_id == script {
        Some(scripts.last())
    } else {
        find_script(scripts.drop_last(), session, script)
    }
}

/// The scripts with one entry for the identifiers of `script`, as the last.
pub open spec fn put_script(scripts: Seq<ScriptView>, script: ScriptView) -> Seq<ScriptView> {
    scripts.filter(
        |x: ScriptView| !(x.session_id == script.session_id && x.script_id == script.script_id),
    ).push(script)
}

/// The scripts of other sessions.
pub open spec fn without_session(scripts: Seq<ScriptView>, session: Chars) -> Seq<ScriptView> {
    scripts.filter(|x: ScriptView| x.session_id != session)
}

/// The scripts that do not belong to an execution context of a session.
pub open spec fn without_context(scripts: Seq<ScriptView>, session: Chars, context: u64) -> Seq<
    ScriptView,
> {
    scripts.filter(
        |x: ScriptView|
            !(x.session_id == session && x.record.get_u64("executionContextId"@) == Some(context)),
    )
}

/// One more, up to the largest number.
pub fn increment(n: u64) -> (r: u64)
    ensures
        r == next_number(n),
{
    if n == u64::MAX {
        n
    } else {
        n + 1
    }
}

fn size_of_event(event: &DebugEvent) -> (r: usize)
    ensures
        r == event_size(event.deep_view()),
{
    byte_len(json_text(&event.to_json()).as_str())
}

impl ControllerState {
    /// The state of a control plane that was never connected.
    pub fn initial() -> (r: Self)
        ensures
            r@ == StateView::initial(),
    {
        let r = ControllerState {
            engine: "chrome".to_owned(),
            connection_generation: 0,
            connected: false,
            sessions: StrMap::new(),
            active_session: None,
            enabled_sessions: Vec::new(),
            execution_contexts: StrMap::new(),
            binding_sessions: Vec::new(),
            paused_sessions: StrMap::new(),
            scripts: Vec::new(),
            logical_probes: StrMap::new(),
            physical_probes: StrMap::new(),
            physical_by_cdp_breakpoint: StrMap::new(),
            binding_name: String::new(),
            binding_nonce: String::new(),
            event_bytes: 0,
            events: VecDeque::new(),
            latest_sequence: 0,
            dropped_through_sequence: None,
            last_transport_gap_sequence: None,
        };
        assert(r@ =~= StateView::initial());
        r
    }

    /// Appends an event to the ring and drops the oldest ones where the ring is
    /// over a bound.
    pub fn push_event(&mut self, now: u64, event_type: &str, session_id: Option<&str>, data: Json)
        ensures
            final(self)@ == old(self)@.push_event(
                now,
                event_type@,
                session_id.deep_view(),
                data@,
            ),
    {
        let known = match session_id {
            Some(id) => self.sessions.get(id),
            None => None,
        };
        let event = DebugEvent {
            sequence: increment(self.latest_sequence),
            timestamp: now,
            kind: event_type.to_owned(),
            connection_generation: self.connection_generation,
            tab_id: match known {
                Some(s) => Some(s.tab_id.clone()),
                None => None,
            },
            target_id: match known {
                Some(s) => Some(s.target_id.clone()),
                None => None,
            },
            session_id: match session_id {
                Some(id) => Some(id.to_owned()),
                None => None,
            },
            document_generation: match known {
                Some(s) => Some(s.document_generation),
                None => None,
            },
            data,
        };
        assert(event.deep_view() =~= self@.next_event(
            now,
            event_type@,
            session_id.deep_view(),
            data@,
        ));
        let size = size_of_event(&event);
        let ghost before = self@;
        self.latest_sequence = event.sequence;
        self.event_bytes = self.event_bytes.saturating_add(size);
        self.events.push_back(event);
        assert(self@.events =~= before.events.push(event.deep_view()));
        self.trim_ring();
    }

    fn trim_ring(&mut self)
        ensures
            final(self)@ == old(self)@.evict(),
    {
        while self.events.len() > MAX_DEBUG_EVENTS || self.event_bytes > MAX_DEBUG_EVENT_BYTES
            invariant_except_break
                self@.evict() == old(self)@.evict(),
            ensures
                self@ == old(self)@.evict(),
            decreases self.events.len(),
        {
            let ghost was = self@;
            match self.events.pop_front() {
                Some(removed) => {
                    let size = size_of_event(&removed);
                    self.event_bytes = if size > self.event_bytes {
                        0
                    } else {
                        self.event_bytes - size
                    };
                    self.dropped_through_sequence = Some(removed.sequence);
                    assert(self@.events =~= was.events.skip(1));
                    assert(removed.deep_view() == was.events[0]);
                },
                None => {
                    break;
                },
            }
        }
    }

    fn unbind(
        &mut self,
        now: u64,
        session_id: &str,
        physical_id: &str,
        reason: &str,
        context: Option<u64>,
    )
        ensures
            final(self)@ == old(self)@.unbind(
                now,
                session_id@,
                physical_id@,
                reason@,
                context,
            ),
    {
        match self.physical_probes.remove(physical_id) {
            Some(binding) => {
                let _ = self.physical_by_cdp_breakpoint.remove(binding.cdp_breakpoint_id.as_str());
                let mut status = reason.to_owned();
                match self.logical_probes.remove(binding.probe_id.as_str()) {
                    Some(probe) => {
                        let mut probe = probe;
                        set_remove(&mut probe.physical_ids, physical_id);
                        status = if probe.persistent {
                            reason.to_owned().concat("-awaiting-rebind")
                        } else {
                            reason.to_owned()
                        };
                        probe.status = status.clone();
                        proof {
                            let table = old(self)@.logical_probes;
                            collections::lemma_del_twice(table, binding.probe_id@);
                        }
                        self.logical_probes.insert(binding.probe_id.clone(), probe);
                    },
                    None => {
                        proof {
                            collections::lemma_del_absent(old(self)@.logical_probes, binding.probe_id@);
                        }
                    },
                }
                assert(self@ =~= old(self)@.without_physical(physical_id@, reason@));
                let ids = Json::object().with(
                    "probeId",
                    Json::text(binding.probe_id.as_str()),
                ).with("physicalBindingId", Json::text(binding.physical_id.as_str()));
                let place = match context {
                    Some(id) => ids.with("executionContextId", Json::Uint(id)),
                    None => ids,
                };
                self.push_event(
                    now,
                    "probe-unbound",
                    Some(session_id),
                    place.with("reason", Json::text(reason)).with(
                        "status",
                        Json::text(status.as_str()),
                    ),
                );
            },
            None => {
                proof {
                    collections::lemma_del_absent(old(self)@.physical_probes, physical_id@);
                }
                assert(self@ =~= old(self)@);
            },
        }
    }

    fn unbind_all(
        &mut self,
        now: u64,
        session_id: &str,
        ids: &Vec<String>,
        reason: &str,
        context: Option<u64>,
    )
        ensures
            final(self)@ == old(self)@.unbind_all(
                now,
                session_id@,
                ids.deep_view(),
                reason@,
                context,
            ),
    {
        let ghost all = ids.deep_view();
        let mut i: usize = 0;
        while i < ids.len()
            invariant
                all == ids.deep_view(),
                i <= ids.len(),
                self@ == old(self)@.unbind_all(
                    now,
                    session_id@,
                    all.take(i as int),
                    reason@,
                    context,
                ),
            decreases ids.len() - i,
        {
            assert(all.take(i + 1).drop_last() == all.take(i as int));
            assert(all.take(i + 1).last() == ids@[i as int]@);
            self.unbind(now, session_id, ids[i].as_str(), reason, context);
            i = i + 1;
        }
        assert(all.take(i as int) == all);
    }

    /// Invalidates the installations of a session: those of one document
    /// generation, or all of them where the generation is `u64::MAX`.
    pub fn invalidate_session_probes(
        &mut self,
        now: u64,
        session_id: &str,
        document_generation: u64,
        reason: &str,
    )
        ensures
            final(self)@ == old(self)@.invalidate_session(
                now,
                session_id@,
                document_generation,
                reason@,
            ),
    {
        let ghost table = self@.physical_probes;
        let ghost list = collections::values(table);
        let ghost keep = |b: PhysicalView|
            b.session_id == session_id@ && (document_generation == u64::MAX
                || b.document_generation == document_generation);
        let ghost f = |b: PhysicalView| b.physical_id;
        let mut ids: Vec<String> = Vec::new();
        let mut i: usize = 0;
        assert(ids.deep_view() =~= list.take(0).filter(keep).map_values(f)) by {
            reveal(Seq::filter);
        }
        while i < self.physical_probes.entries.len()
            invariant
                table == self@.physical_probes,
                self@ == old(self)@,
                list == collections::values(table),
                keep == (|b: PhysicalView|
                    b.session_id == session_id@ && (document_generation == u64::MAX
                        || b.document_generation == document_generation)),
                f == (|b: PhysicalView| b.physical_id),
                i <= self.physical_probes.entries.len() == table.len(),
                ids.deep_view() == list.take(i as int).filter(keep).map_values(f),
            decreases self.physical_probes.entries.len() - i,
        {
            let binding = &self.physical_probes.entries[i].1;
            let ghost was = ids.deep_view();
            proof {
                assert(table[i as int].1 == binding.deep_view());
                assert(list.take(i + 1) == list.take(i as int).push(list[i as int]));
                list.take(i as int).lemma_filter_push(list[i as int], keep);
            }
            if str_eq(binding.session_id.as_str(), session_id) && (document_generation == u64::MAX
                || binding.document_generation == document_generation) {
                ids.push(binding.physical_id.clone());
                assert(ids.deep_view() =~= was.push(list[i as int].physical_id));
            }
            assert(ids.deep_view() =~= list.take(i + 1).filter(keep).map_values(f));
            i = i + 1;
        }
        assert(list.take(i as int) == list);
        self.unbind_all(now, session_id, &ids, reason, None);
    }

    /// Invalidates the installations of one execution context.
    pub fn invalidate_context_probes(
        &mut self,
        now: u64,
        session_id: &str,
        execution_context_id: u64,
        reason: &str,
    )
        ensures
            final(self)@ == old(self)@.invalidate_context(
                now,
                session_id@,
                execution_context_id,
                reason@,
            ),
    {
        let ghost table = self@.physical_probes;
        let ghost list = collections::values(table);
        let ghost keep = |b: PhysicalView|
            b.session_id == session_id@ && b.execution_context_id == Some(execution_context_id);
        let ghost f = |b: PhysicalView| b.physical_id;
        let mut ids: Vec<String> = Vec::new();
        let mut i: usize = 0;
        assert(ids.deep_view() =~= list.take(0).filter(keep).map_values(f)) by {
            reveal(Seq::filter);
        }
        while i < self.physical_probes.entries.len()
            invariant
                table == self@.physical_probes,
                self@ == old(self)@,
                list == collections::values(table),
                keep == (|b: PhysicalView|
                    b.session_id == session_id@ && b.execution_context_id == Some(
                        execution_context_id,
                    )),
                f == (|b: PhysicalView| b.physical_id),
                i <= self.physical_probes.entries.len() == table.len(),
                ids.deep_view() == list.take(i as int).filter(keep).map_values(f),
            decreases self.physical_probes.entries.len() - i,
        {
            let binding = &self.physical_probes.entries[i].1;
            let ghost was = ids.deep_view();
            proof {
                assert(table[i as int].1 == binding.deep_view());
                assert(list.take(i + 1) == list.take(i as int).push(list[i as int]));
                list.take(i as int).lemma_filter_push(list[i as int], keep);
            }
            let here = match binding.execution_context_id {
                Some(id) => id == execution_context_id,
                None => false,
            };
            if str_eq(binding.session_id.as_str(), session_id) && here {
                ids.push(binding.physical_id.clone());
                assert(ids.deep_view() =~= was.push(list[i as int].physical_id));
            }
            assert(ids.deep_view() =~= list.take(i + 1).filter(keep).map_values(f));
            i = i + 1;
        }
        assert(list.take(i as int) == list);
        self.unbind_all(now, session_id, &ids, reason, Some(execution_context_id));
    }

    fn report_stale(&mut self, now: u64, probe_id: &str, ids: &Vec<String>, reason: &str)
        ensures
            final(self)@ == old(self)@.report_stale(now, probe_id@, ids.deep_view(), reason@),
    {
        let ghost all = ids.deep_view();
        let mut i: usize = 0;
        while i < ids.len()
            invariant
                all == ids.deep_view(),
                i <= ids.len(),
                self@ == old(self)@.report_stale(now, probe_id@, all.take(i as int), reason@),
            decreases ids.len() - i,
        {
            assert(all.take(i + 1).drop_last() == all.take(i as int));
            assert(all.take(i + 1).last() == ids@[i as int]@);
            self.push_event(
                now,
                "probe-unbound",
                None,
                Json::object().with("probeId", Json::text(probe_id)).with(
                    "physicalBindingId",
                    Json::text(ids[i].as_str()),
                ).with("reason", Json::text(reason)).with("status", Json::text("stale")),
            );
            i = i + 1;
        }
        assert(all.take(i as int) == all);
    }

    /// Takes every installation from every probe.
    pub fn mark_all_probes_stale(&mut self, now: u64, reason: &str)
        ensures
            final(self)@ == old(self)@.mark_all_stale(now, reason@),
    {
        let ghost table = self@.logical_probes;
        let mut stale: Vec<(String, Vec<String>)> = Vec::new();
        let mut i: usize = 0;
        while i < self.logical_probes.entries.len()
            invariant
                self@ == old(self)@,
                table == self@.logical_probes,
                i == stale.len() <= self.logical_probes.entries.len() == table.len(),
                forall|j: int|
                    0 <= j < i ==> (#[trigger] stale@[j]).0@ == table[j].1.probe_id
                        && stale@[j].1.deep_view() == table[j].1.physical_ids,
            decreases self.logical_probes.entries.len() - i,
        {
            let probe = &self.logical_probes.entries[i].1;
            assert(table[i as int].1 == probe.deep_view());
            stale.push((
                probe.probe_id.clone(),
                collections::copy_texts(&probe.physical_ids),
            ));
            i = i + 1;
        }
        let mut k: usize = 0;
        while k < stale.len()
            invariant
                k <= stale.len() == table.len(),
                forall|j: int|
                    0 <= j < stale.len() ==> (#[trigger] stale@[j]).0@ == table[j].1.probe_id
                        && stale@[j].1.deep_view() == table[j].1.physical_ids,
                self@ == old(self)@.mark_each_stale(now, table.take(k as int), reason@),
            decreases stale.len() - k,
        {
            let ghost was = self@;
            assert(table.take(k + 1).drop_last() == table.take(k as int));
            assert(table.take(k + 1).last() == table[k as int]);
            let probe_id = &stale[k].0;
            match self.logical_probes.remove(probe_id.as_str()) {
                Some(probe) => {
                    let mut probe = probe;
                    probe.physical_ids = Vec::new();
                    probe.status = "stale".to_owned();
                    assert(probe.physical_ids.deep_view() =~= Seq::<Chars>::empty());
                    proof {
                        collections::lemma_del_twice(was.logical_probes, probe_id@);
                    }
                    self.logical_probes.insert(probe_id.clone(), probe);
                },
                None => {
                    proof {
                        collections::lemma_del_absent(was.logical_probes, probe_id@);
                    }
                },
            }
            self.report_stale(now, probe_id.as_str(), &stale[k].1, reason);
            k = k + 1;
        }
        assert(table.take(k as int) == table);
    }

    /// Position of a script.
    pub fn script_position(&self, session_id: &str, script_id: &str) -> (r: Option<usize>)
        ensures
            match r {
                Some(i) => i < self.scripts.len() && find_script(
                    self@.scripts,
                    session_id@,
                    script_id@,
                ) == Some(self.scripts@[i as int].deep_view()),
                None => find_script(self@.scripts, session_id@, script_id@) is None,
            },
    {
        let ghost all = self@.scripts;
        let mut i: usize = self.scripts.len();
        assert(all.take(i as int) == all);
        while i > 0
            invariant
                all == self.scripts.deep_view(),
                i <= self.scripts.len(),
                find_script(all, session_id@, script_id@) == find_script(
                    all.take(i as int),
                    session_id@,
                    script_id@,
                ),
            decreases i,
        {
            i = i - 1;
            assert(all.take(i + 1).drop_last() == all.take(i as int));
            assert(all.take(i + 1).last() == all[i as int]);
            if str_eq(self.scripts[i].session_id.as_str(), session_id) && str_eq(
                self.scripts[i].script_id.as_str(),
                script_id,
            ) {
                return Some(i);
            }
        }
        None
    }

    /// Records a script in place of an earlier one with the same identifiers.
    pub fn insert_script(&mut self, script: ScriptRecord)
        ensures
            final(self)@ == (StateView {
                scripts: put_script(old(self)@.scripts, script.deep_view()),
                ..old(self)@
            }),
    {
        let ghost all = self@.scripts;
        let ghost keep = |x: ScriptView|
            !(x.session_id == script.session_id@ && x.script_id == script.script_id@);
        let mut marks: Vec<bool> = Vec::new();
        let mut i: usize = 0;
        while i < self.scripts.len()
            invariant
                self@ == old(self)@,
                all == self.scripts.deep_view(),
                keep == (|x: ScriptView|
                    !(x.session_id == script.session_id@ && x.script_id == script.script_id@)),
                i == marks.len() <= self.scripts.len(),
                forall|j: int| 0 <= j < i ==> marks@[j] == keep(#[trigger] all[j]),
            decreases self.scripts.len() - i,
        {
            let x = &self.scripts[i];
            assert(all[i as int] == x.deep_view());
            marks.push(
                !(str_eq(x.session_id.as_str(), script.session_id.as_str()) && str_eq(
                    x.script_id.as_str(),
                    script.script_id.as_str(),
                )),
            );
            i = i + 1;
        }
        proof {
            collections::lemma_marked(all, marks@, keep);
        }
        keep_marked(&mut self.scripts, &marks);
        let ghost was = self.scripts.deep_view();
        self.scripts.push(script);
        assert(self.scripts.deep_view() =~= was.push(script.deep_view()));
        assert(script.deep_view().session_id == script.session_id@);
        assert(all.filter(keep) == all.filter(
            |x: ScriptView|
                !(x.session_id == script.deep_view().session_id && x.script_id
                    == script.deep_view().script_id),
        ));
    }

    /// Forgets the scripts of a session.
    pub fn drop_session_scripts(&mut self, session_id: &str)
        ensures
            final(self)@ == (StateView {
                scripts: without_session(old(self)@.scripts, session_id@),
                ..old(self)@
            }),
    {
        let ghost all = self@.scripts;
        let ghost keep = |x: ScriptView| x.session_id != session_id@;
        let mut marks: Vec<bool> = Vec::new();
        let mut i: usize = 0;
        while i < self.scripts.len()
            invariant
                self@ == old(self)@,
                all == self.scripts.deep_view(),
                keep == (|x: ScriptView| x.session_id != session_id@),
                i == marks.len() <= self.scripts.len(),
                forall|j: int| 0 <= j < i ==> marks@[j] == keep(#[trigger] all[j]),
            decreases self.scripts.len() - i,
        {
            assert(all[i as int] == self.scripts@[i as int].deep_view());
            marks.push(!str_eq(self.scripts[i].session_id.as_str(), session_id));
            i = i + 1;
        }
        proof {
            collections::lemma_marked(all, marks@, keep);
        }
        keep_marked(&mut self.scripts, &marks);
    }

    /// Forgets the scripts of an execution context.
    pub fn drop_context_scripts(&mut self, session_id: &str, context: u64)
        ensures
            final(self)@ == (StateView {
                scripts: without_context(old(self)@.scripts, session_id@, context),
                ..old(self)@
            }),
    {
        let ghost all = self@.scripts;
        let ghost keep = |x: ScriptView|
            !(x.session_id == session_id@ && x.record.get_u64("executionContextId"@) == Some(
                context,
            ));
        let mut marks: Vec<bool> = Vec::new();
        let mut i: usize = 0;
        while i < self.scripts.len()
            invariant
                self@ == old(self)@,
                all == self.scripts.deep_view(),
                keep == (|x: ScriptView|
                    !(x.session_id == session_id@ && x.record.get_u64("executionContextId"@)
                        == Some(context))),
                i == marks.len() <= self.scripts.len(),
                forall|j: int| 0 <= j < i ==> marks@[j] == keep(#[trigger] all[j]),
            decreases self.scripts.len() - i,
        {
            let x = &self.scripts[i];
            assert(all[i as int] == x.deep_view());
            let here = match x.record.get_u64("executionContextId") {
                Some(id) => id == context,
                None => false,
            };
            marks.push(!(str_eq(x.session_id.as_str(), session_id) && here));
            i = i + 1;
        }
        proof {
            collections::lemma_marked(all, marks@, keep);
        }
        keep_marked(&mut self.scripts, &marks);
    }
}

proof fn lemma_evict_frame(state: StateView)
    ensures
        state.evict() == (StateView {
            events: state.evict().events,
            event_bytes: state.evict().event_bytes,
            dropped_through_sequence: state.evict().dropped_through_sequence,
            ..state
        }),
    decreases state.events.len(),
{
    if state.ring_full() && state.events.len() > 0 {
        lemma_evict_frame(
            StateView {
                events: state.events.skip(1),
                event_bytes: bytes_minus(state.event_bytes, event_size(state.events[0])),
                dropped_through_sequence: Some(state.events[0].sequence),
                ..state
            },
        );
    }
}

/// An event changes the ring, its counters and nothing else.
pub proof fn lemma_push_event_frame(
    state: StateView,
    now: u64,
    kind: Chars,
    session: Option<Chars>,
    data: JsonView,
)
    ensures
        ({
            let after = state.push_event(now, kind, session, data);
            after == StateView {
                latest_sequence: next_number(state.latest_sequence),
                events: after.events,
                event_bytes: after.event_bytes,
                dropped_through_sequence: after.dropped_through_sequence,
                ..state
            }
        }),
{
    let event = state.next_event(now, kind, session, data);
    lemma_evict_frame(
        StateView {
            latest_sequence: event.sequence,
            events: state.events.push(event),
            event_bytes: bytes_plus(state.event_bytes, event_size(event)),
            ..state
        },
    );
}

} // verus!
