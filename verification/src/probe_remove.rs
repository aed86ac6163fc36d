//! Removal of a probe, and of the binding with the last logpoint of a session.

use vstd::prelude::*;

use crate::collections;
use crate::collections::{same_text, set_remove};
use crate::controller::{ControllerState, StateView};
use crate::events;
use crate::json::{Json, JsonView};
use crate::operation::{
    Request, RequestView, Step, StepView, Unbind, UnbindStep, UnbindStepView, UnbindView,
};
use crate::records::{LogicalProbe, LogicalView, PhysicalProbe, PhysicalTable, PhysicalView, ProbeKind};
use crate::text;
use crate::text::Chars;

verus! {

/// What a removal waits for.
pub enum RemoveStage {
    Breakpoint(PhysicalProbe),
    Unbind(Unbind),
}

/// Model of what a removal waits for.
pub enum RemoveStageView {
    Breakpoint(PhysicalView),
    Unbind(UnbindView),
}

impl DeepView for RemoveStage {
    type V = RemoveStageView;

    open spec fn deep_view(&self) -> RemoveStageView {
        match *self {
            RemoveStage::Breakpoint(binding) => RemoveStageView::Breakpoint(binding.deep_view()),
            RemoveStage::Unbind(machine) => RemoveStageView::Unbind(machine.deep_view()),
        }
    }
}

/// What is known of a removal: the probe, its installations, and what failed.
pub struct Removal {
    pub probe: LogicalProbe,
    pub physical: Vec<PhysicalProbe>,
    pub binding_name: String,
    pub connected: bool,
    pub errors: Vec<String>,
}

/// Model of what is known of a removal.
#[verifier::ext_equal]
pub struct RemovalView {
    pub probe: LogicalView,
    pub physical: Seq<PhysicalView>,
    pub binding_name: Chars,
    pub connected: bool,
    pub errors: Seq<Chars>,
}

impl DeepView for Removal {
    type V = RemovalView;

    open spec fn deep_view(&self) -> RemovalView {
        RemovalView {
            probe: self.probe.deep_view(),
            physical: self.physical.deep_view(),
            binding_name: self.binding_name@,
            connected: self.connected,
            errors: self.errors.deep_view(),
        }
    }
}

/// The removal of a probe.
pub struct RemoveProbe {
    pub removal: Removal,
    pub rest: Vec<PhysicalProbe>,
    pub stage: RemoveStage,
}

/// Model of the removal of a probe.
pub struct RemoveProbeView {
    pub removal: RemovalView,
    pub rest: Seq<PhysicalView>,
    pub stage: RemoveStageView,
}

impl DeepView for RemoveProbe {
    type V = RemoveProbeView;

    open spec fn deep_view(&self) -> RemoveProbeView {
        RemoveProbeView {
            removal: self.removal.deep_view(),
            rest: self.rest.deep_view(),
            stage: self.stage.deep_view(),
        }
    }
}

/// Installations of a probe.
pub open spec fn installations(physical: PhysicalTable, ids: Seq<Chars>) -> Seq<PhysicalView> {
    ids.filter_map(|id: Chars| collections::lookup(physical, id))
}

impl StateView {
    /// The state without the given installations.
    pub open spec fn without_installations(self, physical: Seq<PhysicalView>) -> StateView
        decreases physical.len(),
    {
        if physical.len() == 0 {
            self
        } else {
            let before = self.without_installations(physical.drop_last());
            StateView {
                physical_probes: collections::del(
                    before.physical_probes,
                    physical.last().physical_id,
                ),
                physical_by_cdp_breakpoint: collections::del(
                    before.physical_by_cdp_breakpoint,
                    physical.last().cdp_breakpoint_id,
                ),
                ..before
            }
        }
    }

    /// Whether a logpoint is set in a session.
    pub open spec fn has_logpoint(self, session: Chars) -> bool {
        exists|i: int|
            0 <= i < self.logical_probes.len() && logpoint_in(
                #[trigger] self.logical_probes[i].1,
                session,
            )
    }
}

/// Whether a probe is a logpoint of a session.
pub open spec fn logpoint_in(probe: LogicalView, session: Chars) -> bool {
    probe.kind == ProbeKind::Logpoint && probe.target.get_str("sessionId"@) == Some(session)
}

impl RemovalView {
    /// Session in which the probe was set.
    pub open spec fn session(self) -> Option<Chars> {
        if self.physical.len() > 0 {
            Some(self.physical[0].session_id)
        } else {
            self.probe.target.get_str("sessionId"@)
        }
    }

    /// The answer.
    pub open spec fn answer(self) -> JsonView {
        JsonView::object().with("removed"@, JsonView::Bool(true)).with(
            "probeId"@,
            JsonView::Str(self.probe.probe_id),
        ).with("cleanupErrors"@, JsonView::texts(self.errors))
    }

    /// The state without the probe and its installations.
    pub open spec fn forget(self, state: StateView) -> StateView {
        StateView {
            logical_probes: collections::del(state.logical_probes, self.probe.probe_id),
            ..state
        }.without_installations(self.physical)
    }

    /// The probe is forgotten and reported. With the last logpoint of a
    /// session goes the binding.
    pub open spec fn commit(self, state: StateView, now: u64) -> (
        StateView,
        StepView<RemoveProbeView>,
    ) {
        let gone = self.forget(state);
        let told = gone.push_event(
            now,
            "probe-removed"@,
            self.session(),
            JsonView::object().with("probe"@, self.probe.to_json(gone.physical_probes)).with(
                "cleanupErrors"@,
                JsonView::texts(self.errors),
            ),
        );
        match self.session() {
            Some(session) => if self.probe.kind == ProbeKind::Logpoint && !told.has_logpoint(
                session,
            ) {
                if self.connected {
                    (
                        told,
                        StepView::Wait(
                            RemoveProbeView {
                                removal: self,
                                rest: Seq::empty(),
                                stage: RemoveStageView::Unbind(
                                    UnbindView::start(
                                        session,
                                        self.binding_name,
                                        events::contexts_of(told, session),
                                    ),
                                ),
                            },
                        ),
                    )
                } else {
                    (told.without_binding(session), StepView::Done(Ok(self.answer())))
                }
            } else {
                (told, StepView::Done(Ok(self.answer())))
            },
            None => (told, StepView::Done(Ok(self.answer()))),
        }
    }

    /// Goes on with the first installation that is left.
    pub open spec fn next(self, state: StateView, now: u64, left: Seq<PhysicalView>) -> (
        StateView,
        StepView<RemoveProbeView>,
    ) {
        if self.connected && left.len() > 0 {
            (
                state,
                StepView::Wait(
                    RemoveProbeView {
                        removal: self,
                        rest: left.skip(1),
                        stage: RemoveStageView::Breakpoint(left[0]),
                    },
                ),
            )
        } else {
            self.commit(state, now)
        }
    }
}

impl StateView {
    /// The state in which a session no longer has the binding.
    pub open spec fn without_binding(self, session: Chars) -> StateView {
        StateView {
            binding_sessions: collections::set_without(self.binding_sessions, session),
            ..self
        }
    }
}

impl RemoveProbeView {
    /// What a remove command comes to before its first request.
    pub open spec fn start(state: StateView, now: u64, command: JsonView, kind: ProbeKind) -> (
        StateView,
        StepView<RemoveProbeView>,
    ) {
        match command.get_str("probeId"@) {
            None => (state, StepView::Done(Err("Missing probe ID"@))),
            Some(id) => {
                let found = collections::lookup(state.logical_probes, id);
                if found is Some && found->Some_0.kind == kind {
                    let probe = found->Some_0;
                    let physical = installations(state.physical_probes, probe.physical_ids);
                    RemovalView {
                        probe: LogicalView { probe_id: id, ..probe },
                        physical,
                        binding_name: state.binding_name,
                        connected: state.connected,
                        errors: Seq::empty(),
                    }.next(state, now, physical)
                } else {
                    (
                        state,
                        StepView::Done(Err("Unknown "@ + kind.name() + " '"@ + id + "'"@)),
                    )
                }
            },
        }
    }

    /// The request that the removal waits for.
    pub open spec fn request(self) -> RequestView {
        match self.stage {
            RemoveStageView::Breakpoint(binding) => RequestView::with_params(
                "Debugger.removeBreakpoint"@,
                JsonView::object().with(
                    "breakpointId"@,
                    JsonView::Str(binding.cdp_breakpoint_id),
                ),
                binding.session_id,
            ),
            RemoveStageView::Unbind(machine) => machine.request(),
        }
    }

    /// What the removal comes to with a reply. Failures are reported and do
    /// not keep the probe.
    pub open spec fn advance(
        self,
        state: StateView,
        now: u64,
        reply: Result<JsonView, Chars>,
    ) -> (StateView, StepView<RemoveProbeView>) {
        match self.stage {
            RemoveStageView::Breakpoint(_) => RemovalView {
                errors: match reply {
                    Ok(_) => self.removal.errors,
                    Err(e) => self.removal.errors.push(e),
                },
                ..self.removal
            }.next(state, now, self.rest),
            RemoveStageView::Unbind(machine) => match machine.advance(reply) {
                UnbindStepView::Wait(rest) => (
                    state,
                    StepView::Wait(
                        RemoveProbeView { stage: RemoveStageView::Unbind(rest), ..self },
                    ),
                ),
                UnbindStepView::Done(errors) => (
                    state.without_binding(machine.session_id).report_residue(
                        now,
                        machine.session_id,
                        self.removal.binding_name,
                        errors,
                    ),
                    StepView::Done(
                        Ok(
                            RemovalView {
                                errors: self.removal.errors + errors,
                                ..self.removal
                            }.answer(),
                        ),
                    ),
                ),
            },
        }
    }
}

impl ControllerState {
    fn installations(&self, ids: &Vec<String>) -> (r: Vec<PhysicalProbe>)
        ensures
            r.deep_view() == installations(self@.physical_probes, ids.deep_view()),
    {
        let ghost all = ids.deep_view();
        let ghost f = |id: Chars| collections::lookup(self@.physical_probes, id);
        let mut found: Vec<PhysicalProbe> = Vec::new();
        let mut i: usize = 0;
        assert(found.deep_view() =~= all.take(0).filter_map(f)) by {
            reveal(Seq::filter_map);
        }
        while i < ids.len()
            invariant
                all == ids.deep_view(),
                f == (|id: Chars| collections::lookup(self@.physical_probes, id)),
                i <= ids.len(),
                found.deep_view() == all.take(i as int).filter_map(f),
            decreases ids.len() - i,
        {
            let ghost was = found.deep_view();
            proof {
                all.lemma_filter_map_take_succ(f, i as int);
                assert(all[i as int] == ids@[i as int]@);
            }
            match self.physical_probes.get(ids[i].as_str()) {
                Some(binding) => {
                    let copy = binding.clone();
                    found.push(copy);
                    assert(found.deep_view() =~= was + seq![copy.deep_view()]);
                },
                None => {
                    assert(was + Seq::<PhysicalView>::empty() =~= was);
                },
            }
            i = i + 1;
        }
        assert(all.take(i as int) == all);
        found
    }

    fn drop_installations(&mut self, physical: &Vec<PhysicalProbe>)
        ensures
            final(self)@ == old(self)@.without_installations(physical.deep_view()),
    {
        let ghost all = physical.deep_view();
        let mut i: usize = 0;
        while i < physical.len()
            invariant
                all == physical.deep_view(),
                i <= physical.len(),
                self@ == old(self)@.without_installations(all.take(i as int)),
            decreases physical.len() - i,
        {
            assert(all.take(i + 1).drop_last() == all.take(i as int));
            assert(all.take(i + 1).last() == physical@[i as int].deep_view());
            let _ = self.physical_probes.remove(physical[i].physical_id.as_str());
            let _ = self.physical_by_cdp_breakpoint.remove(
                physical[i].cdp_breakpoint_id.as_str(),
            );
            i = i + 1;
        }
        assert(all.take(i as int) == all);
    }

    fn has_logpoint(&self, session_id: &str) -> (r: bool)
        ensures
            r == self@.has_logpoint(session_id@),
    {
        let ghost table = self@.logical_probes;
        let mut i: usize = 0;
        while i < self.logical_probes.entries.len()
            invariant
                table == self@.logical_probes,
                i <= self.logical_probes.entries.len() == table.len(),
                forall|j: int|
                    0 <= j < i ==> !logpoint_in(#[trigger] table[j].1, session_id@),
            decreases self.logical_probes.entries.len() - i,
        {
            let probe = &self.logical_probes.entries[i].1;
            assert(table[i as int].1 == probe.deep_view());
            if probe.kind == ProbeKind::Logpoint && same_text(
                probe.target.get_str("sessionId"),
                Some(session_id),
            ) {
                return true;
            }
            i = i + 1;
        }
        false
    }
}

impl Removal {
    fn answer(&self) -> (r: Json)
        ensures
            r@ == self.deep_view().answer(),
    {
        Json::object().with("removed", Json::Bool(true)).with(
            "probeId",
            Json::text(self.probe.probe_id.as_str()),
        ).with("cleanupErrors", Json::texts(&self.errors))
    }

    fn session(&self) -> (r: Option<&str>)
        ensures
            r.deep_view() == self.deep_view().session(),
    {
        if self.physical.len() > 0 {
            assert(self.physical.deep_view()[0] == self.physical@[0].deep_view());
            Some(self.physical[0].session_id.as_str())
        } else {
            self.probe.target.get_str("sessionId")
        }
    }

    fn commit(self, state: &mut ControllerState, now: u64) -> (r: Step<RemoveProbe>)
        ensures
            (final(state)@, r.deep_view()) == self.deep_view().commit(old(state)@, now),
    {
        let _ = state.logical_probes.remove(self.probe.probe_id.as_str());
        state.drop_installations(&self.physical);
        let removed = self.probe.to_json(&state.physical_probes);
        state.push_event(
            now,
            "probe-removed",
            self.session(),
            Json::object().with("probe", removed).with(
                "cleanupErrors",
                Json::texts(&self.errors),
            ),
        );
        let session_id = match self.session() {
            Some(id) => id.to_owned(),
            None => {
                return Step::Done(Ok(self.answer()));
            },
        };
        if self.probe.kind == ProbeKind::Logpoint && !state.has_logpoint(session_id.as_str()) {
            if self.connected {
                let contexts = state.contexts(session_id.as_str());
                let machine = Unbind::start(
                    session_id.as_str(),
                    self.binding_name.as_str(),
                    &contexts,
                );
                let rest: Vec<PhysicalProbe> = Vec::new();
                assert(rest.deep_view() =~= Seq::<PhysicalView>::empty());
                return Step::Wait(
                    RemoveProbe { removal: self, rest, stage: RemoveStage::Unbind(machine) },
                );
            }
            set_remove(&mut state.binding_sessions, session_id.as_str());
        }
        Step::Done(Ok(self.answer()))
    }

    fn next(self, state: &mut ControllerState, now: u64, left: Vec<PhysicalProbe>) -> (r: Step<
        RemoveProbe,
    >)
        ensures
            (final(state)@, r.deep_view()) == self.deep_view().next(
                old(state)@,
                now,
                left.deep_view(),
            ),
    {
        let ghost all = left.deep_view();
        if self.connected && left.len() > 0 {
            let mut rest = left;
            let binding = rest.remove(0);
            assert(rest.deep_view() =~= all.skip(1));
            assert(all[0] == binding.deep_view());
            Step::Wait(RemoveProbe { removal: self, rest, stage: RemoveStage::Breakpoint(binding) })
        } else {
            self.commit(state, now)
        }
    }
}

impl RemoveProbe {
    /// Starts a remove command.
    pub fn start(state: &mut ControllerState, now: u64, command: &Json, kind: ProbeKind) -> (r:
        Step<RemoveProbe>)
        ensures
            (final(state)@, r.deep_view()) == RemoveProbeView::start(
                old(state)@,
                now,
                command@,
                kind,
            ),
    {
        let probe_id = match command.get_str("probeId") {
            Some(id) => id,
            None => {
                return Step::Done(Err("Missing probe ID".to_owned()));
            },
        };
        let mut probe = match state.logical_probes.get(probe_id) {
            Some(found) => if found.kind == kind {
                found.clone()
            } else {
                return Step::Done(Err(unknown_probe(kind, probe_id)));
            },
            None => {
                return Step::Done(Err(unknown_probe(kind, probe_id)));
            },
        };
        let physical = state.installations(&probe.physical_ids);
        let left = state.installations(&probe.physical_ids);
        probe.probe_id = probe_id.to_owned();
        let errors: Vec<String> = Vec::new();
        assert(errors.deep_view() =~= Seq::<Chars>::empty());
        let removal = Removal {
            probe,
            physical,
            binding_name: state.binding_name.clone(),
            connected: state.connected,
            errors,
        };
        removal.next(state, now, left)
    }

    /// The request that the removal waits for.
    pub fn request(&self) -> (r: Request)
        ensures
            r@ == self.deep_view().request(),
    {
        match &self.stage {
            RemoveStage::Breakpoint(binding) => Request::with_params(
                "Debugger.removeBreakpoint",
                Json::object().with(
                    "breakpointId",
                    Json::text(binding.cdp_breakpoint_id.as_str()),
                ),
                binding.session_id.as_str(),
            ),
            RemoveStage::Unbind(machine) => machine.request(),
        }
    }

    /// Takes the reply to the request.
    pub fn advance(
        self,
        state: &mut ControllerState,
        now: u64,
        reply: &Result<Json, String>,
    ) -> (r: Step<RemoveProbe>)
        ensures
            (final(state)@, r.deep_view()) == self.deep_view().advance(
                old(state)@,
                now,
                text::outcome(*reply),
            ),
    {
        let RemoveProbe { removal, rest, stage } = self;
        let mut removal = removal;
        let ghost before = removal.deep_view();
        match stage {
            RemoveStage::Breakpoint(_) => {
                if let Err(e) = reply {
                    removal.errors.push(e.clone());
                    assert(removal.deep_view() =~= RemovalView {
                        errors: before.errors.push(e@),
                        ..before
                    });
                }
                removal.next(state, now, rest)
            },
            RemoveStage::Unbind(machine) => {
                let session_id = machine.session_id.clone();
                match machine.advance(reply) {
                    UnbindStep::Wait(more) => Step::Wait(
                        RemoveProbe { removal, rest, stage: RemoveStage::Unbind(more) },
                    ),
                    UnbindStep::Done(errors) => {
                        set_remove(&mut state.binding_sessions, session_id.as_str());
                        state.report_residue(
                            now,
                            session_id.as_str(),
                            removal.binding_name.as_str(),
                            &errors,
                        );
                        let ghost more = errors.deep_view();
                        let mut errors = errors;
                        removal.errors.append(&mut errors);
                        assert(removal.deep_view() =~= RemovalView {
                            errors: before.errors + more,
                            ..before
                        });
                        Step::Done(Ok(removal.answer()))
                    },
                }
            },
        }
    }
}

fn unknown_probe(kind: ProbeKind, probe_id: &str) -> (r: String)
    ensures
        r@ == "Unknown "@ + kind.name() + " '"@ + probe_id@ + "'"@,
{
    "Unknown ".to_owned().concat(kind.as_str()).concat(" '").concat(probe_id).concat("'")
}

} // verus!
