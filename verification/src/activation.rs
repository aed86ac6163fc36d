//! Enabling and disabling of the debugger in page sessions.

use vstd::prelude::*;

use crate::collections;
use crate::collections::{copy_texts, keep_marked, set_contains, set_insert, set_remove};
use crate::controller;
use crate::controller::{ControllerState, StateView};
use crate::events;
use crate::json::{Json, JsonView};
use crate::operation::{
    Request, RequestView, Step, StepView, Unbind, UnbindStep, UnbindStepView, UnbindView,
};
use crate::queries;
use crate::queries::{has_session_selector, resolve_session_id};
use crate::records::{LogicalView, SessionView};
use crate::text;
use crate::text::{sort_order, str_eq, u64_text, Chars};

verus! {

/// What is being enabled in a session.
#[derive(Clone, Copy, PartialEq, Eq, Structural)]
pub enum EnableStage {
    Runtime,
    Debugger,
    Page,
}

/// Enabling of the debugger in sessions, one after the other.
pub struct Enable {
    pub generation: u64,
    pub session_id: String,
    pub tab_id: String,
    pub rest: Vec<(String, String)>,
    pub enabled: Vec<Json>,
    pub stage: EnableStage,
}

/// Model of an enabling.
#[verifier::ext_equal]
pub struct EnableView {
    pub generation: u64,
    pub session_id: Chars,
    pub tab_id: Chars,
    pub rest: Seq<(Chars, Chars)>,
    pub enabled: Seq<JsonView>,
    pub stage: EnableStage,
}

impl DeepView for Enable {
    type V = EnableView;

    open spec fn deep_view(&self) -> EnableView {
        EnableView {
            generation: self.generation,
            session_id: self.session_id@,
            tab_id: self.tab_id@,
            rest: self.rest.deep_view(),
            enabled: self.enabled.deep_view(),
            stage: self.stage,
        }
    }
}

/// Sessions and their tabs, by tab.
pub open spec fn sessions_by_tab(state: StateView) -> Seq<(Chars, Chars)> {
    let sessions = collections::values(state.sessions);
    text::sorted_by(
        sessions.map_values(|s: SessionView| (s.session_id, s.tab_id)),
        sessions.map_values(|s: SessionView| s.tab_id),
    )
}

/// The sessions that an enable command is about, with their tabs.
pub open spec fn enable_targets(state: StateView, command: JsonView) -> Result<
    Seq<(Chars, Chars)>,
    Chars,
> {
    if command.flag("allTabs"@) {
        Ok(sessions_by_tab(state))
    } else {
        match queries::session_for(state, command) {
            Err(e) => Err(e),
            Ok(id) => match collections::lookup(state.sessions, id) {
                None => Err("Unknown CDP session '"@ + id + "'"@),
                Some(session) => Ok(seq![(id, session.tab_id)]),
            },
        }
    }
}

impl EnableView {
    /// What an enable command comes to before its first request.
    pub open spec fn start(state: StateView, command: JsonView) -> (
        StateView,
        StepView<EnableView>,
    ) {
        if command.flag("allTabs"@) && queries::selects_session(command) {
            (state, StepView::Done(Err("Use --all-tabs or one page selector, not both"@)))
        } else if state.engine != "chrome"@ {
            (
                state,
                StepView::Done(
                    Err(
                        "Compiled JavaScript debugging is only supported with the Chrome engine; current engine is "@
                            + state.engine,
                    ),
                ),
            )
        } else if !state.connected {
            (state, StepView::Done(Err("Browser not launched"@)))
        } else {
            match enable_targets(state, command) {
                Err(e) => (state, StepView::Done(Err(e))),
                Ok(targets) => if targets.len() == 0 {
                    (state, StepView::Done(Err("No debuggable page sessions"@)))
                } else {
                    EnableView::next(
                        state,
                        state.connection_generation,
                        targets,
                        Seq::empty(),
                    )
                },
            }
        }
    }

    /// Goes on with the first of the sessions that are left; it counts as
    /// enabled from its first request on.
    pub open spec fn next(
        state: StateView,
        generation: u64,
        left: Seq<(Chars, Chars)>,
        enabled: Seq<JsonView>,
    ) -> (StateView, StepView<EnableView>) {
        if left.len() == 0 {
            (
                state,
                StepView::Done(
                    Ok(
                        JsonView::object().with("enabled"@, JsonView::Bool(true)).with(
                            "connectionGeneration"@,
                            JsonView::Uint(generation),
                        ).with("sessions"@, JsonView::Array(enabled)),
                    ),
                ),
            )
        } else {
            (
                StateView {
                    enabled_sessions: collections::set_with(state.enabled_sessions, left[0].0),
                    ..state
                },
                StepView::Wait(
                    EnableView {
                        generation,
                        session_id: left[0].0,
                        tab_id: left[0].1,
                        rest: left.skip(1),
                        enabled,
                        stage: EnableStage::Runtime,
                    },
                ),
            )
        }
    }

    /// The request that the enabling waits for.
    pub open spec fn request(self) -> RequestView {
        RequestView::plain(
            match self.stage {
                EnableStage::Runtime => "Runtime.enable"@,
                EnableStage::Debugger => "Debugger.enable"@,
                EnableStage::Page => "Page.enable"@,
            },
            self.session_id,
        )
    }

    /// What the enabling comes to with a reply. A session in which it fails is
    /// no longer enabled; whether page events can be had does not matter.
    pub open spec fn advance(self, state: StateView, reply: Result<JsonView, Chars>) -> (
        StateView,
        StepView<EnableView>,
    ) {
        match self.stage {
            EnableStage::Page => EnableView::next(state, self.generation, self.rest, self.enabled),
            _ => match reply {
                Err(e) => (
                    StateView {
                        enabled_sessions: collections::set_without(
                            state.enabled_sessions,
                            self.session_id,
                        ),
                        ..state
                    },
                    StepView::Done(Err(e)),
                ),
                Ok(result) => if self.stage == EnableStage::Runtime {
                    (
                        state,
                        StepView::Wait(EnableView { stage: EnableStage::Debugger, ..self }),
                    )
                } else {
                    (
                        state,
                        StepView::Wait(
                            EnableView {
                                stage: EnableStage::Page,
                                enabled: self.enabled.push(
                                    JsonView::object().with(
                                        "tabId"@,
                                        JsonView::Str(self.tab_id),
                                    ).with("sessionId"@, JsonView::Str(self.session_id)).with(
                                        "debuggerId"@,
                                        result.get_or_null("debuggerId"@),
                                    ),
                                ),
                                ..self
                            },
                        ),
                    )
                },
            },
        }
    }
}

fn list_by_tab(state: &ControllerState) -> (r: Vec<(String, String)>)
    ensures
        r.deep_view() == sessions_by_tab(state@),
{
    let ghost list = collections::values(state@.sessions);
    let mut keys: Vec<String> = Vec::new();
    let mut i: usize = 0;
    while i < state.sessions.entries.len()
        invariant
            list == collections::values(state@.sessions),
            i == keys.len() <= state.sessions.entries.len() == list.len(),
            forall|j: int| 0 <= j < i ==> (#[trigger] keys@[j])@ == list[j].tab_id,
        decreases state.sessions.entries.len() - i,
    {
        let session = &state.sessions.entries[i].1;
        assert(state@.sessions[i as int].1 == session.deep_view());
        keys.push(session.tab_id.clone());
        i = i + 1;
    }
    assert(keys.deep_view() =~= list.map_values(|s: SessionView| s.tab_id));
    let order = sort_order(&keys);
    let mut sorted: Vec<(String, String)> = Vec::new();
    let mut k: usize = 0;
    while k < order.len()
        invariant
            list == collections::values(state@.sessions),
            keys.len() == state.sessions.entries.len() == list.len(),
            k == sorted.len() <= order.len(),
            forall|j: int| 0 <= j < order.len() ==> (#[trigger] order@[j]) < keys.len(),
            forall|j: int|
                0 <= j < k ==> (#[trigger] sorted@[j]).deep_view() == (
                    list[order@[j] as int].session_id,
                    list[order@[j] as int].tab_id,
                ),
        decreases order.len() - k,
    {
        assert(order@[k as int] < keys.len());
        let session = &state.sessions.entries[order[k]].1;
        assert(state@.sessions[order@[k as int] as int].1 == session.deep_view());
        sorted.push((session.session_id.clone(), session.tab_id.clone()));
        k = k + 1;
    }
    assert(sorted.deep_view() =~= sessions_by_tab(state@));
    sorted
}

impl Enable {
    /// Starts an enable command.
    pub fn start(state: &mut ControllerState, command: &Json) -> (r: Step<Enable>)
        ensures
            (final(state)@, r.deep_view()) == EnableView::start(old(state)@, command@),
    {
        let all_tabs = command.flag("allTabs");
        if all_tabs && has_session_selector(command) {
            return Step::Done(Err("Use --all-tabs or one page selector, not both".to_owned()));
        }
        if !str_eq(state.engine.as_str(), "chrome") {
            return Step::Done(
                Err(
                    "Compiled JavaScript debugging is only supported with the Chrome engine; current engine is ".to_owned().concat(
                        state.engine.as_str(),
                    ),
                ),
            );
        }
        if !state.connected {
            return Step::Done(Err("Browser not launched".to_owned()));
        }
        let targets = if all_tabs {
            list_by_tab(state)
        } else {
            match resolve_session_id(state, command) {
                Err(e) => {
                    return Step::Done(Err(e));
                },
                Ok(id) => match state.sessions.get(id.as_str()) {
                    None => {
                        return Step::Done(
                            Err("Unknown CDP session '".to_owned().concat(id.as_str()).concat("'")),
                        );
                    },
                    Some(session) => {
                        let tab = session.tab_id.clone();
                        let mut one: Vec<(String, String)> = Vec::new();
                        one.push((id, tab));
                        assert(one.deep_view() =~= seq![(id@, tab@)]);
                        one
                    },
                },
            }
        };
        if targets.len() == 0 {
            return Step::Done(Err("No debuggable page sessions".to_owned()));
        }
        let generation = state.connection_generation;
        let none: Vec<Json> = Vec::new();
        assert(none.deep_view() =~= Seq::<JsonView>::empty());
        Enable::next(state, generation, targets, none)
    }

    fn next(
        state: &mut ControllerState,
        generation: u64,
        left: Vec<(String, String)>,
        enabled: Vec<Json>,
    ) -> (r: Step<Enable>)
        ensures
            (final(state)@, r.deep_view()) == EnableView::next(
                old(state)@,
                generation,
                left.deep_view(),
                enabled.deep_view(),
            ),
    {
        let ghost all = left.deep_view();
        if left.len() == 0 {
            return Step::Done(
                Ok(
                    Json::object().with("enabled", Json::Bool(true)).with(
                        "connectionGeneration",
                        Json::Uint(generation),
                    ).with("sessions", Json::array(enabled)),
                ),
            );
        }
        let mut rest = left;
        let (session_id, tab_id) = rest.remove(0);
        assert(rest.deep_view() =~= all.skip(1));
        assert(all[0] == (session_id@, tab_id@));
        set_insert(&mut state.enabled_sessions, session_id.as_str());
        Step::Wait(
            Enable { generation, session_id, tab_id, rest, enabled, stage: EnableStage::Runtime },
        )
    }

    /// The request that the enabling waits for.
    pub fn request(&self) -> (r: Request)
        ensures
            r@ == self.deep_view().request(),
    {
        let method = match self.stage {
            EnableStage::Runtime => "Runtime.enable",
            EnableStage::Debugger => "Debugger.enable",
            EnableStage::Page => "Page.enable",
        };
        Request::plain(method, self.session_id.as_str())
    }

    /// Takes the reply to the request.
    pub fn advance(self, state: &mut ControllerState, reply: &Result<Json, String>) -> (r: Step<
        Enable,
    >)
        ensures
            (final(state)@, r.deep_view()) == self.deep_view().advance(
                old(state)@,
                text::outcome(*reply),
            ),
    {
        let ghost start = self.deep_view();
        if let EnableStage::Page = self.stage {
            return Enable::next(state, self.generation, self.rest, self.enabled);
        }
        match reply {
            Err(e) => {
                set_remove(&mut state.enabled_sessions, self.session_id.as_str());
                Step::Done(Err(e.clone()))
            },
            Ok(result) => {
                let mut machine = self;
                if let EnableStage::Runtime = machine.stage {
                    machine.stage = EnableStage::Debugger;
                } else {
                    machine.enabled.push(
                        Json::object().with("tabId", Json::text(machine.tab_id.as_str())).with(
                            "sessionId",
                            Json::text(machine.session_id.as_str()),
                        ).with("debuggerId", result.get_or_null("debuggerId")),
                    );
                    machine.stage = EnableStage::Page;
                    assert(machine.deep_view().enabled =~= start.enabled.push(
                        JsonView::object().with("tabId"@, JsonView::Str(start.tab_id)).with(
                            "sessionId"@,
                            JsonView::Str(start.session_id),
                        ).with("debuggerId"@, result@.get_or_null("debuggerId"@)),
                    ));
                }
                Step::Wait(machine)
            },
        }
    }
}

/// A session that is to be disabled: whether it has the binding of the
/// logpoints, and its execution contexts.
pub struct DisableTarget {
    pub session_id: String,
    pub bound: bool,
    pub contexts: Vec<u64>,
}

/// Model of a session that is to be disabled.
#[verifier::ext_equal]
pub struct TargetView {
    pub session_id: Chars,
    pub bound: bool,
    pub contexts: Seq<u64>,
}

impl DeepView for DisableTarget {
    type V = TargetView;

    open spec fn deep_view(&self) -> TargetView {
        TargetView {
            session_id: self.session_id@,
            bound: self.bound,
            contexts: self.contexts.deep_view(),
        }
    }
}

/// What a disabling waits for.
pub enum DisableStage {
    Resume(String),
    Unbind(Unbind),
    Disable(String),
}

/// Model of what a disabling waits for.
pub enum DisableStageView {
    Resume(Chars),
    Unbind(UnbindView),
    Disable(Chars),
}

impl DeepView for DisableStage {
    type V = DisableStageView;

    open spec fn deep_view(&self) -> DisableStageView {
        match *self {
            DisableStage::Resume(id) => DisableStageView::Resume(id@),
            DisableStage::Unbind(machine) => DisableStageView::Unbind(machine.deep_view()),
            DisableStage::Disable(id) => DisableStageView::Disable(id@),
        }
    }
}

/// Disabling of the debugger in sessions: pauses are resumed, bindings are
/// removed, then the debugger is disabled.
pub struct Disable {
    pub sessions: Vec<String>,
    pub paused: Vec<String>,
    pub binding_name: String,
    pub resumes: Vec<String>,
    pub targets: Vec<DisableTarget>,
    pub stage: DisableStage,
}

/// Model of a disabling.
#[verifier::ext_equal]
pub struct DisableView {
    pub sessions: Seq<Chars>,
    pub paused: Seq<Chars>,
    pub binding_name: Chars,
    pub resumes: Seq<Chars>,
    pub targets: Seq<TargetView>,
    pub stage: DisableStageView,
}

impl DeepView for Disable {
    type V = DisableView;

    open spec fn deep_view(&self) -> DisableView {
        DisableView {
            sessions: self.sessions.deep_view(),
            paused: self.paused.deep_view(),
            binding_name: self.binding_name@,
            resumes: self.resumes.deep_view(),
            targets: self.targets.deep_view(),
            stage: self.stage.deep_view(),
        }
    }
}

/// What has to be known of a session before it is disabled.
pub open spec fn target_of(state: StateView, session: Chars) -> TargetView {
    TargetView {
        session_id: session,
        bound: state.binding_sessions.contains(session),
        contexts: events::contexts_of(state, session),
    }
}

/// Whether a probe was set in one of the sessions.
pub open spec fn probe_in(probe: LogicalView, sessions: Seq<Chars>) -> bool {
    match probe.target.get_str("sessionId"@) {
        Some(id) => sessions.contains(id),
        None => false,
    }
}

impl StateView {
    /// The state after the debugger was disabled in a session.
    pub open spec fn disable_session(self, now: u64, session: Chars) -> StateView {
        let told = self.invalidate_session(now, session, u64::MAX, "debugger-disabled"@);
        StateView {
            enabled_sessions: collections::set_without(told.enabled_sessions, session),
            execution_contexts: collections::del(told.execution_contexts, session),
            binding_sessions: collections::set_without(told.binding_sessions, session),
            paused_sessions: collections::del(told.paused_sessions, session),
            scripts: controller::without_session(told.scripts, session),
            ..told
        }
    }

    /// The state after the debugger was disabled in several sessions in turn.
    pub open spec fn disable_sessions(self, now: u64, sessions: Seq<Chars>) -> StateView
        decreases sessions.len(),
    {
        if sessions.len() == 0 {
            self
        } else {
            self.disable_sessions(now, sessions.drop_last()).disable_session(now, sessions.last())
        }
    }

    /// The state without the probes that were set in the sessions.
    pub open spec fn without_probes_of(self, sessions: Seq<Chars>) -> StateView {
        StateView {
            logical_probes: self.logical_probes.filter(
                |e: (Chars, LogicalView)| !probe_in(e.1, sessions),
            ),
            ..self
        }
    }
}

/// The sessions that a disable command is about.
pub open spec fn disable_targets(state: StateView, command: JsonView) -> Result<
    Seq<Chars>,
    Chars,
> {
    if command.flag("allTabs"@) {
        Ok(state.enabled_sessions)
    } else {
        match queries::session_for(state, command) {
            Ok(id) => Ok(seq![id]),
            Err(e) => Err(e),
        }
    }
}

/// The sessions that are paused.
pub open spec fn paused_among(state: StateView, sessions: Seq<Chars>) -> Seq<Chars> {
    sessions.filter(|id: Chars| collections::lookup(state.paused_sessions, id) is Some)
}

impl DisableView {
    /// What a disable command comes to before its first request.
    pub open spec fn start(state: StateView, now: u64, command: JsonView) -> (
        StateView,
        StepView<DisableView>,
    ) {
        if command.flag("allTabs"@) && queries::selects_session(command) {
            (state, StepView::Done(Err("Use --all-tabs or one page selector, not both"@)))
        } else if !state.connected {
            (state, StepView::Done(Err("Browser not launched"@)))
        } else {
            match disable_targets(state, command) {
                Err(e) => (state, StepView::Done(Err(e))),
                Ok(sessions) => {
                    let paused = paused_among(state, sessions);
                    if paused.len() > 0 && !command.flag("resume"@) {
                        (
                            state,
                            StepView::Done(
                                Err(
                                    "Cannot disable Debugger while "@ + text::decimal(paused.len())
                                        + " session(s) are paused; resume them first or use `debug disable --resume`"@,
                                ),
                            ),
                        )
                    } else {
                        DisableView {
                            sessions,
                            paused,
                            binding_name: state.binding_name,
                            resumes: paused,
                            targets: sessions.map_values(|id: Chars| target_of(state, id)),
                            stage: DisableStageView::Resume(Seq::empty()),
                        }.next(state, now)
                    }
                },
            }
        }
    }

    /// Goes on with the first pause that is left, else with the first session.
    pub open spec fn next(self, state: StateView, now: u64) -> (StateView, StepView<DisableView>) {
        if self.resumes.len() > 0 {
            (
                state,
                StepView::Wait(
                    DisableView {
                        resumes: self.resumes.skip(1),
                        stage: DisableStageView::Resume(self.resumes[0]),
                        ..self
                    },
                ),
            )
        } else if self.targets.len() > 0 {
            let target = self.targets[0];
            (
                state,
                StepView::Wait(
                    DisableView {
                        targets: self.targets.skip(1),
                        stage: if target.bound {
                            DisableStageView::Unbind(
                                UnbindView::start(
                                    target.session_id,
                                    self.binding_name,
                                    target.contexts,
                                ),
                            )
                        } else {
                            DisableStageView::Disable(target.session_id)
                        },
                        ..self
                    },
                ),
            )
        } else {
            (
                state.disable_sessions(now, self.sessions).without_probes_of(self.sessions),
                StepView::Done(
                    Ok(
                        JsonView::object().with("disabled"@, JsonView::Bool(true)).with(
                            "sessions"@,
                            JsonView::texts(self.sessions),
                        ).with("resumed"@, JsonView::texts(self.paused)),
                    ),
                ),
            )
        }
    }

    /// The request that the disabling waits for.
    pub open spec fn request(self) -> RequestView {
        match self.stage {
            DisableStageView::Resume(id) => RequestView::plain("Debugger.resume"@, id),
            DisableStageView::Unbind(machine) => machine.request(),
            DisableStageView::Disable(id) => RequestView::plain("Debugger.disable"@, id),
        }
    }

    /// What the disabling comes to with a reply. Only what is left of a binding
    /// is reported; other failures do not matter.
    pub open spec fn advance(
        self,
        state: StateView,
        now: u64,
        reply: Result<JsonView, Chars>,
    ) -> (StateView, StepView<DisableView>) {
        match self.stage {
            DisableStageView::Unbind(machine) => match machine.advance(reply) {
                UnbindStepView::Wait(rest) => (
                    state,
                    StepView::Wait(DisableView { stage: DisableStageView::Unbind(rest), ..self }),
                ),
                UnbindStepView::Done(errors) => (
                    state.report_residue(now, machine.session_id, self.binding_name, errors),
                    StepView::Wait(
                        DisableView {
                            stage: DisableStageView::Disable(machine.session_id),
                            ..self
                        },
                    ),
                ),
            },
            _ => self.next(state, now),
        }
    }
}

impl StateView {
    /// The state after it was reported what is left of a binding, if anything.
    pub open spec fn report_residue(
        self,
        now: u64,
        session: Chars,
        binding: Chars,
        errors: Seq<Chars>,
    ) -> StateView {
        if errors.len() > 0 {
            self.push_event(
                now,
                "binding-residue"@,
                Some(session),
                JsonView::object().with("bindingName"@, JsonView::Str(binding)).with(
                    "errors"@,
                    JsonView::texts(errors),
                ),
            )
        } else {
            self
        }
    }
}

/// Copies numbers.
pub fn copy_ids(ids: &Vec<u64>) -> (r: Vec<u64>)
    ensures
        r.deep_view() == ids.deep_view(),
{
    let mut copy: Vec<u64> = Vec::new();
    let mut i: usize = 0;
    while i < ids.len()
        invariant
            i == copy.len() <= ids.len(),
            forall|j: int| 0 <= j < i ==> copy@[j] == ids@[j],
        decreases ids.len() - i,
    {
        copy.push(ids[i]);
        i = i + 1;
    }
    assert(copy.deep_view() =~= ids.deep_view());
    copy
}

impl ControllerState {
    /// Execution contexts of a session.
    pub fn contexts(&self, session_id: &str) -> (r: Vec<u64>)
        ensures
            r.deep_view() == events::contexts_of(self@, session_id@),
    {
        match self.execution_contexts.get(session_id) {
            Some(ids) => copy_ids(ids),
            None => {
                let none: Vec<u64> = Vec::new();
                assert(none.deep_view() =~= Seq::<u64>::empty());
                none
            },
        }
    }

    /// Reports what is left of a binding, if anything.
    pub fn report_residue(
        &mut self,
        now: u64,
        session_id: &str,
        binding_name: &str,
        errors: &Vec<String>,
    )
        ensures
            final(self)@ == old(self)@.report_residue(
                now,
                session_id@,
                binding_name@,
                errors.deep_view(),
            ),
    {
        if errors.len() > 0 {
            self.push_event(
                now,
                "binding-residue",
                Some(session_id),
                Json::object().with("bindingName", Json::text(binding_name)).with(
                    "errors",
                    Json::texts(errors),
                ),
            );
        }
    }

    fn disable_session(&mut self, now: u64, session_id: &str)
        ensures
            final(self)@ == old(self)@.disable_session(now, session_id@),
    {
        self.invalidate_session_probes(now, session_id, u64::MAX, "debugger-disabled");
        set_remove(&mut self.enabled_sessions, session_id);
        let _ = self.execution_contexts.remove(session_id);
        set_remove(&mut self.binding_sessions, session_id);
        let _ = self.paused_sessions.remove(session_id);
        self.drop_session_scripts(session_id);
    }

    fn drop_probes_of(&mut self, sessions: &Vec<String>)
        ensures
            final(self)@ == old(self)@.without_probes_of(sessions.deep_view()),
    {
        let ghost all = self@.logical_probes;
        let ghost keep = |e: (Chars, LogicalView)| !probe_in(e.1, sessions.deep_view());
        let mut marks: Vec<bool> = Vec::new();
        let mut i: usize = 0;
        while i < self.logical_probes.entries.len()
            invariant
                self@ == old(self)@,
                all == self@.logical_probes,
                keep == (|e: (Chars, LogicalView)| !probe_in(e.1, sessions.deep_view())),
                i == marks.len() <= self.logical_probes.entries.len() == all.len(),
                forall|j: int| 0 <= j < i ==> marks@[j] == keep(#[trigger] all[j]),
            decreases self.logical_probes.entries.len() - i,
        {
            let probe = &self.logical_probes.entries[i].1;
            assert(all[i as int].1 == probe.deep_view());
            let gone = match probe.target.get_str("sessionId") {
                Some(id) => set_contains(sessions, id),
                None => false,
            };
            marks.push(!gone);
            i = i + 1;
        }
        proof {
            collections::lemma_marked(all, marks@, keep);
        }
        keep_marked(&mut self.logical_probes.entries, &marks);
    }
}

impl Disable {
    /// Starts a disable command.
    pub fn start(state: &mut ControllerState, now: u64, command: &Json) -> (r: Step<Disable>)
        ensures
            (final(state)@, r.deep_view()) == DisableView::start(old(state)@, now, command@),
    {
        let all_tabs = command.flag("allTabs");
        if all_tabs && has_session_selector(command) {
            return Step::Done(Err("Use --all-tabs or one page selector, not both".to_owned()));
        }
        if !state.connected {
            return Step::Done(Err("Browser not launched".to_owned()));
        }
        let sessions = if all_tabs {
            copy_texts(&state.enabled_sessions)
        } else {
            match resolve_session_id(state, command) {
                Err(e) => {
                    return Step::Done(Err(e));
                },
                Ok(id) => {
                    let mut one: Vec<String> = Vec::new();
                    one.push(id);
                    assert(one.deep_view() =~= seq![id@]);
                    one
                },
            }
        };
        let ghost all = sessions.deep_view();
        let ghost pred = |id: Chars| collections::lookup(state@.paused_sessions, id) is Some;
        let mut paused: Vec<String> = Vec::new();
        let mut targets: Vec<DisableTarget> = Vec::new();
        let mut i: usize = 0;
        assert(paused.deep_view() =~= all.take(0).filter(pred)) by {
            reveal(Seq::filter);
        }
        while i < sessions.len()
            invariant
                all == sessions.deep_view(),
                pred == (|id: Chars| collections::lookup(state@.paused_sessions, id) is Some),
                i == targets.len() <= sessions.len(),
                paused.deep_view() == all.take(i as int).filter(pred),
                forall|j: int|
                    0 <= j < i ==> (#[trigger] targets@[j]).deep_view() == target_of(state@, all[j]),
            decreases sessions.len() - i,
        {
            let id = &sessions[i];
            let ghost was = paused.deep_view();
            proof {
                assert(all[i as int] == id@);
                assert(all.take(i + 1) == all.take(i as int).push(id@));
                all.take(i as int).lemma_filter_push(id@, pred);
            }
            if state.paused_sessions.contains(id.as_str()) {
                paused.push(id.clone());
                assert(paused.deep_view() =~= was.push(id@));
            }
            let target = DisableTarget {
                session_id: id.clone(),
                bound: set_contains(&state.binding_sessions, id.as_str()),
                contexts: state.contexts(id.as_str()),
            };
            assert(target.deep_view() == target_of(state@, id@));
            targets.push(target);
            i = i + 1;
        }
        assert(all.take(i as int) == all);
        assert(targets.deep_view() =~= all.map_values(|id: Chars| target_of(state@, id)));
        if paused.len() > 0 && !command.flag("resume") {
            return Step::Done(
                Err(
                    "Cannot disable Debugger while ".to_owned().concat(
                        u64_text(paused.len() as u64).as_str(),
                    ).concat(
                        " session(s) are paused; resume them first or use `debug disable --resume`",
                    ),
                ),
            );
        }
        let resumes = copy_texts(&paused);
        let nobody = String::new();
        assert(nobody@ =~= Seq::<char>::empty());
        let machine = Disable {
            sessions,
            paused,
            binding_name: state.binding_name.clone(),
            resumes,
            targets,
            stage: DisableStage::Resume(nobody),
        };
        machine.next(state, now)
    }

    fn next(self, state: &mut ControllerState, now: u64) -> (r: Step<Disable>)
        ensures
            (final(state)@, r.deep_view()) == self.deep_view().next(old(state)@, now),
    {
        let ghost start = self.deep_view();
        let mut machine = self;
        if machine.resumes.len() > 0 {
            let id = machine.resumes.remove(0);
            assert(machine.deep_view().resumes =~= start.resumes.skip(1));
            assert(start.resumes[0] == id@);
            machine.stage = DisableStage::Resume(id);
            return Step::Wait(machine);
        }
        if machine.targets.len() > 0 {
            let target = machine.targets.remove(0);
            assert(machine.deep_view().targets =~= start.targets.skip(1));
            assert(start.targets[0] == target.deep_view());
            machine.stage = if target.bound {
                DisableStage::Unbind(
                    Unbind::start(
                        target.session_id.as_str(),
                        machine.binding_name.as_str(),
                        &target.contexts,
                    ),
                )
            } else {
                DisableStage::Disable(target.session_id)
            };
            return Step::Wait(machine);
        }
        let ghost all = machine.sessions.deep_view();
        let mut i: usize = 0;
        while i < machine.sessions.len()
            invariant
                all == machine.sessions.deep_view(),
                i <= machine.sessions.len(),
                state@ == old(state)@.disable_sessions(now, all.take(i as int)),
            decreases machine.sessions.len() - i,
        {
            assert(all.take(i + 1).drop_last() == all.take(i as int));
            assert(all.take(i + 1).last() == machine.sessions@[i as int]@);
            state.disable_session(now, machine.sessions[i].as_str());
            i = i + 1;
        }
        assert(all.take(i as int) == all);
        state.drop_probes_of(&machine.sessions);
        Step::Done(
            Ok(
                Json::object().with("disabled", Json::Bool(true)).with(
                    "sessions",
                    Json::texts(&machine.sessions),
                ).with("resumed", Json::texts(&machine.paused)),
            ),
        )
    }

    /// The request that the disabling waits for.
    pub fn request(&self) -> (r: Request)
        ensures
            r@ == self.deep_view().request(),
    {
        match &self.stage {
            DisableStage::Resume(id) => Request::plain("Debugger.resume", id.as_str()),
            DisableStage::Unbind(machine) => machine.request(),
            DisableStage::Disable(id) => Request::plain("Debugger.disable", id.as_str()),
        }
    }

    /// Takes the reply to the request.
    pub fn advance(
        self,
        state: &mut ControllerState,
        now: u64,
        reply: &Result<Json, String>,
    ) -> (r: Step<Disable>)
        ensures
            (final(state)@, r.deep_view()) == self.deep_view().advance(
                old(state)@,
                now,
                text::outcome(*reply),
            ),
    {
        let Disable { sessions, paused, binding_name, resumes, targets, stage } = self;
        match stage {
            DisableStage::Unbind(machine) => {
                let session_id = machine.session_id.clone();
                match machine.advance(reply) {
                    UnbindStep::Wait(rest) => Step::Wait(
                        Disable {
                            sessions,
                            paused,
                            binding_name,
                            resumes,
                            targets,
                            stage: DisableStage::Unbind(rest),
                        },
                    ),
                    UnbindStep::Done(errors) => {
                        state.report_residue(
                            now,
                            session_id.as_str(),
                            binding_name.as_str(),
                            &errors,
                        );
                        Step::Wait(
                            Disable {
                                sessions,
                                paused,
                                binding_name,
                                resumes,
                                targets,
                                stage: DisableStage::Disable(session_id),
                            },
                        )
                    },
                }
            },
            other => {
                let machine = Disable {
                    sessions,
                    paused,
                    binding_name,
                    resumes,
                    targets,
                    stage: other,
                };
                machine.next(state, now)
            },
        }
    }
}

} // verus!
