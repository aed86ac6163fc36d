//! Setting of a probe: the location is looked up, then the breakpoint is
//! installed, then the probe is recorded.

use vstd::prelude::*;

use crate::breakpoint;
use crate::breakpoint::{
    one_based_location, outside_script_message, same_cdp_location, select_breakpoint_location,
    BreakpointResolutionRequest, ResolutionView,
};
use crate::collections;
use crate::collections::{optional_str, set_insert, set_remove};
use crate::controller;
use crate::controller::{ControllerState, StateView};
use crate::events;
use crate::inspect;
use crate::inspect::request_source;
use crate::json::{Json, JsonView};
use crate::logpoint;
use crate::logpoint::build_logpoint_condition;
use crate::operation::{
    Request, RequestView, Step, StepView, Unbind, UnbindStep, UnbindStepView, UnbindView,
};
use crate::probe_request;
use crate::probe_request::{
    Prepared, PreparedView, ProbeRequest, ProbeRequestView, SyntaxCheck, SyntaxCheckView,
};
use crate::records::{
    copy_values, LogicalProbe, LogicalView, PhysicalProbe, PhysicalView, ProbeKind,
};
use crate::source;
use crate::source::{javascript_source_lines, utf16_offset_at};
use crate::text;
use crate::text::{join, str_eq, u64_text, unit_len, Chars};

verus! {

/// Locations before the requested one that are tried at most.
pub const MAX_BREAKPOINT_VERIFICATION_CANDIDATES: usize = 128;

/// Numbers for the identifiers of probes, each handed out once.
pub struct ProbeNumbers {
    pub next: u64,
}

/// The number behind `n`; after the largest comes zero.
pub open spec fn following(n: u64) -> u64 {
    if n == u64::MAX {
        0
    } else {
        (n + 1) as u64
    }
}

impl ProbeNumbers {
    /// Numbers from one on.
    pub fn new() -> (r: ProbeNumbers)
        ensures
            r.next == 1,
    {
        ProbeNumbers { next: 1 }
    }

    /// Hands out a number.
    pub fn take(&mut self) -> (r: u64)
        ensures
            r == old(self).next,
            final(self).next == following(old(self).next),
    {
        let n = self.next;
        self.next = if n == u64::MAX {
            0
        } else {
            n + 1
        };
        n
    }
}

/// Identifier of a probe or of an installation.
pub open spec fn numbered(prefix: Chars, generation: u64, n: u64) -> Chars {
    prefix + text::decimal(generation as nat) + "-"@ + text::decimal(n as nat)
}

fn number_text(prefix: &str, generation: u64, n: u64) -> (r: String)
    ensures
        r@ == numbered(prefix@, generation, n),
{
    prefix.to_owned().concat(u64_text(generation).as_str()).concat("-").concat(
        u64_text(n).as_str(),
    )
}

/// What a lookup of the location knows: the source, the end of the range that
/// is searched, and the locations that qualify so far.
pub struct Lookup {
    pub source: String,
    pub end: Json,
    pub locations: Vec<Json>,
}

/// Model of a lookup.
#[verifier::ext_equal]
pub struct LookupView {
    pub source: Chars,
    pub end: JsonView,
    pub locations: Seq<JsonView>,
}

impl DeepView for Lookup {
    type V = LookupView;

    open spec fn deep_view(&self) -> LookupView {
        LookupView {
            source: self.source@,
            end: self.end@,
            locations: self.locations.deep_view(),
        }
    }
}

/// Locations before the requested one that are left to try: each has to reach
/// the anchor without leaving its function.
pub struct Pending {
    pub anchor: Json,
    pub candidate: Json,
    pub rest: Vec<Json>,
}

/// Model of what is left to try.
#[verifier::ext_equal]
pub struct PendingView {
    pub anchor: JsonView,
    pub candidate: JsonView,
    pub rest: Seq<JsonView>,
}

impl DeepView for Pending {
    type V = PendingView;

    open spec fn deep_view(&self) -> PendingView {
        PendingView {
            anchor: self.anchor@,
            candidate: self.candidate@,
            rest: self.rest.deep_view(),
        }
    }
}

/// What is going to be installed.
pub struct Plan {
    pub location: Json,
    pub reason: String,
    pub distance: u64,
    pub probe_id: String,
    pub physical_id: String,
    pub condition: String,
}

/// Model of what is going to be installed.
#[verifier::ext_equal]
pub struct PlanView {
    pub location: JsonView,
    pub reason: Chars,
    pub distance: u64,
    pub probe_id: Chars,
    pub physical_id: Chars,
    pub condition: Chars,
}

impl DeepView for Plan {
    type V = PlanView;

    open spec fn deep_view(&self) -> PlanView {
        PlanView {
            location: self.location@,
            reason: self.reason@,
            distance: self.distance,
            probe_id: self.probe_id@,
            physical_id: self.physical_id@,
            condition: self.condition@,
        }
    }
}

/// What the setting of a probe waits for.
pub enum ProbeStage {
    Compile(SyntaxCheck, Vec<SyntaxCheck>),
    Source,
    Forward(Lookup),
    Backward(Lookup),
    Verify(Lookup, Pending),
    Bind(Plan),
    Install(Plan),
    CleanFailed(String, Unbind),
    CleanNameless(Unbind),
    RemoveStale(String),
    CleanStale(Unbind),
}

/// Model of what the setting of a probe waits for.
pub enum ProbeStageView {
    Compile(SyntaxCheckView, Seq<SyntaxCheckView>),
    Source,
    Forward(LookupView),
    Backward(LookupView),
    Verify(LookupView, PendingView),
    Bind(PlanView),
    Install(PlanView),
    CleanFailed(Chars, UnbindView),
    CleanNameless(UnbindView),
    RemoveStale(Chars),
    CleanStale(UnbindView),
}

impl DeepView for ProbeStage {
    type V = ProbeStageView;

    open spec fn deep_view(&self) -> ProbeStageView {
        match *self {
            ProbeStage::Compile(check, rest) => ProbeStageView::Compile(
                check.deep_view(),
                rest.deep_view(),
            ),
            ProbeStage::Source => ProbeStageView::Source,
            ProbeStage::Forward(lookup) => ProbeStageView::Forward(lookup.deep_view()),
            ProbeStage::Backward(lookup) => ProbeStageView::Backward(lookup.deep_view()),
            ProbeStage::Verify(lookup, pending) => ProbeStageView::Verify(
                lookup.deep_view(),
                pending.deep_view(),
            ),
            ProbeStage::Bind(plan) => ProbeStageView::Bind(plan.deep_view()),
            ProbeStage::Install(plan) => ProbeStageView::Install(plan.deep_view()),
            ProbeStage::CleanFailed(e, machine) => ProbeStageView::CleanFailed(
                e@,
                machine.deep_view(),
            ),
            ProbeStage::CleanNameless(machine) => ProbeStageView::CleanNameless(
                machine.deep_view(),
            ),
            ProbeStage::RemoveStale(id) => ProbeStageView::RemoveStale(id@),
            ProbeStage::CleanStale(machine) => ProbeStageView::CleanStale(machine.deep_view()),
        }
    }
}

/// The setting of a probe.
pub struct SetProbe {
    pub request: ProbeRequest,
    pub prepared: Prepared,
    pub stage: ProbeStage,
}

/// Model of the setting of a probe.
pub struct SetProbeView {
    pub request: ProbeRequestView,
    pub prepared: PreparedView,
    pub stage: ProbeStageView,
}

impl DeepView for SetProbe {
    type V = SetProbeView;

    open spec fn deep_view(&self) -> SetProbeView {
        SetProbeView {
            request: self.request.deep_view(),
            prepared: self.prepared.deep_view(),
            stage: self.stage.deep_view(),
        }
    }
}

/// A location of a script.
pub open spec fn location_json(script: Chars, line: u64, column: u64) -> JsonView {
    JsonView::object().with("scriptId"@, JsonView::Str(script)).with(
        "lineNumber"@,
        JsonView::Uint(line),
    ).with("columnNumber"@, JsonView::Uint(column))
}

/// End of the range that is searched: behind the lines that the request
/// allows, or the end of the source.
pub open spec fn range_end(request: ProbeRequestView, s: Chars) -> JsonView {
    let last = source::lines_of(s).len() - 1;
    let bound = request.line - 1 + request.max_lines;
    if bound < last {
        location_json(request.script_id, (bound + 1) as u64, 0)
    } else {
        location_json(
            request.script_id,
            last as u64,
            text::utf16_len(source::line_text(s, last)) as u64,
        )
    }
}

/// Whether locations before the requested one are wanted.
pub open spec fn looks_back(mode: Chars) -> bool {
    mode == "before"@ || mode == "nearest"@
}

/// A request for the locations at which a script can be broken at.
pub open spec fn locations_request(
    start: JsonView,
    end: JsonView,
    within_function: bool,
    session: Chars,
) -> RequestView {
    RequestView::with_params(
        "Debugger.getPossibleBreakpoints"@,
        JsonView::object().with("start"@, start).with("end"@, end).with(
            "restrictToFunction"@,
            JsonView::Bool(within_function),
        ),
        session,
    )
}

/// First line that is searched for locations before the requested one.
pub open spec fn first_line(request: ProbeRequestView) -> u64 {
    if request.line - 1 < request.max_lines {
        0
    } else {
        (request.line - 1 - request.max_lines) as u64
    }
}

/// Whether a location stands before the requested one and within the bounds.
pub open spec fn stands_before(request: ProbeRequestView, s: Chars, location: JsonView) -> bool {
    let line = match location.get_u64("lineNumber"@) {
        Some(n) => n,
        None => u64::MAX,
    };
    let requested = source::utf16_offset(s, request.line - 1, request.column - 1);
    match source::utf16_offset(s, line as int, breakpoint::location_column(location) as int) {
        None => false,
        Some(offset) => requested is Some && offset < requested->Some_0
            && requested->Some_0 - offset <= request.max_utf16_distance && breakpoint::distance(
            line as int,
            request.line - 1,
        ) <= request.max_lines,
    }
}

/// Locations before the requested one that are tried: the last ones first.
pub open spec fn tried(request: ProbeRequestView, s: Chars, locations: Seq<JsonView>) -> Seq<
    JsonView,
> {
    let near = locations.filter(|l: JsonView| stands_before(request, s, l)).reverse();
    if near.len() > MAX_BREAKPOINT_VERIFICATION_CANDIDATES {
        near.take(MAX_BREAKPOINT_VERIFICATION_CANDIDATES as int)
    } else {
        near
    }
}

/// Whether a place is among the locations.
pub open spec fn reaches(locations: Seq<JsonView>, place: JsonView) -> bool {
    exists|i: int|
        0 <= i < locations.len() && breakpoint::same_place(#[trigger] locations[i], place)
}

impl ProbeRequestView {
    /// The part of the request that chooses among locations.
    pub open spec fn resolution(self) -> ResolutionView {
        ResolutionView {
            line: self.line,
            column: self.column,
            column_explicit: self.column_explicit,
            mode: self.mode,
            max_lines: self.max_lines,
            max_utf16_distance: self.max_utf16_distance,
        }
    }
}

impl PreparedView {
    /// Execution context of the script.
    pub open spec fn context(self) -> Option<u64> {
        self.script.get_u64("executionContextId"@)
    }

    /// Who runs the script.
    pub open spec fn owner(self) -> JsonView {
        self.script.get_or_null("runtimeOwner"@)
    }
}

/// Status of a probe that was just installed. A persistent one waits for
/// evidence of its owner where there is none.
pub open spec fn bound_status(persistent: bool, owner: JsonView) -> Chars {
    let status = owner.get_str("status"@);
    if persistent && (status == Some("unknown"@) || status == Some("ambiguous"@)) {
        "bound-awaiting-owner-evidence"@
    } else {
        "bound"@
    }
}

/// What a probe is set on, as its record tells.
pub open spec fn target_json(
    request: ProbeRequestView,
    prepared: PreparedView,
    plan: PlanView,
) -> JsonView {
    JsonView::object().with("connectionGeneration"@, JsonView::Uint(prepared.generation)).with(
        "sessionId"@,
        JsonView::Str(prepared.session_id),
    ).with("documentGeneration"@, JsonView::Uint(prepared.document_generation)).with(
        "scriptId"@,
        JsonView::Str(request.script_id),
    ).with("url"@, prepared.script.get_or_null("url"@)).with(
        "executionContextId"@,
        JsonView::opt_uint(prepared.context()),
    ).with("runtimeOwner"@, prepared.owner()).with(
        "requestedLine"@,
        JsonView::Uint(request.line),
    ).with("requestedColumn"@, JsonView::Uint(request.column)).with(
        "columnExplicit"@,
        JsonView::Bool(request.column_explicit),
    ).with("mode"@, JsonView::Str(request.mode)).with(
        "maxLines"@,
        JsonView::Uint(request.max_lines),
    ).with("maxUtf16Distance"@, JsonView::Uint(request.max_utf16_distance)).with(
        "resolutionReason"@,
        JsonView::Str(plan.reason),
    ).with("utf16Distance"@, JsonView::Uint(plan.distance))
}

/// Record of the installation.
pub open spec fn physical_of(
    request: ProbeRequestView,
    prepared: PreparedView,
    plan: PlanView,
    breakpoint_id: Chars,
    actual: JsonView,
) -> PhysicalView {
    PhysicalView {
        physical_id: plan.physical_id,
        cdp_breakpoint_id: breakpoint_id,
        probe_id: plan.probe_id,
        connection_generation: prepared.generation,
        session_id: prepared.session_id,
        document_generation: prepared.document_generation,
        script_id: request.script_id,
        execution_context_id: prepared.context(),
        requested_location: breakpoint::external_location(request.location()),
        actual_location: breakpoint::external_location(actual),
    }
}

/// Record of the probe.
pub open spec fn logical_of(
    request: ProbeRequestView,
    prepared: PreparedView,
    plan: PlanView,
) -> LogicalView {
    LogicalView {
        probe_id: plan.probe_id,
        kind: request.kind,
        enabled: true,
        persistent: request.persistent,
        status: bound_status(request.persistent, prepared.owner()),
        condition: request.condition,
        when: request.when,
        expressions: request.expressions,
        tags: request.tags,
        target: target_json(request, prepared, plan),
        physical_ids: seq![plan.physical_id],
    }
}

impl StateView {
    /// Whether the page has moved on since the setting of the probe began.
    pub open spec fn moved_on(self, request: ProbeRequestView, prepared: PreparedView) -> bool {
        let session = collections::lookup(self.sessions, prepared.session_id);
        self.connection_generation != prepared.generation || session is None
            || session->Some_0.document_generation != prepared.document_generation
            || controller::find_script(
            self.scripts,
            prepared.session_id,
            request.script_id,
        ) is None
    }

    /// The state with one more installation, of a new probe or of one that is
    /// bound again.
    pub open spec fn with_probe(self, physical: PhysicalView, logical: LogicalView) -> StateView {
        StateView {
            physical_by_cdp_breakpoint: collections::put(
                self.physical_by_cdp_breakpoint,
                physical.cdp_breakpoint_id,
                physical.physical_id,
            ),
            physical_probes: collections::put(
                self.physical_probes,
                physical.physical_id,
                physical,
            ),
            logical_probes: collections::put(
                self.logical_probes,
                logical.probe_id,
                match collections::lookup(self.logical_probes, logical.probe_id) {
                    Some(existing) => LogicalView {
                        physical_ids: existing.physical_ids.push(physical.physical_id),
                        status: "rebound"@,
                        ..existing
                    },
                    None => logical,
                },
            ),
            ..self
        }
    }

    /// Contexts from which a binding has to be removed.
    pub open spec fn contexts_to_clean(self, prepared: PreparedView) -> Seq<u64> {
        if self.owns_binding(prepared) {
            events::contexts_of(self, prepared.session_id)
        } else {
            Seq::empty()
        }
    }

    /// Whether the binding still belongs to this connection.
    pub open spec fn owns_binding(self, prepared: PreparedView) -> bool {
        self.connection_generation == prepared.generation && self.binding_name
            == prepared.binding_name
    }

    /// The state after a binding was taken back.
    pub open spec fn after_cleanup(self, prepared: PreparedView) -> StateView {
        if self.owns_binding(prepared) {
            StateView {
                binding_sessions: collections::set_without(
                    self.binding_sessions,
                    prepared.session_id,
                ),
                ..self
            }
        } else {
            self
        }
    }
}

/// State, next number for an identifier, and what the setting came to.
pub type ProbeOutcome = (StateView, u64, StepView<SetProbeView>);

impl SetProbeView {
    /// What a set command comes to before its first request.
    pub open spec fn start(state: StateView, command: JsonView, kind: ProbeKind) -> StepView<
        SetProbeView,
    > {
        match probe_request::probe_request(command, kind) {
            Err(e) => StepView::Done(Err(e)),
            Ok(request) => match probe_request::prepared_for(
                state,
                command,
                kind,
                request.script_id,
            ) {
                Err(e) => StepView::Done(Err(e)),
                Ok(prepared) => StepView::Wait(
                    SetProbeView {
                        request,
                        prepared,
                        stage: compile_stage(probe_request::checks_of(request)),
                    },
                ),
            },
        }
    }

    /// The request that the setting waits for.
    pub open spec fn request(self) -> RequestView {
        let session = self.prepared.session_id;
        match self.stage {
            ProbeStageView::Compile(check, _) => check.request(session, self.prepared.context()),
            ProbeStageView::Source => inspect::source_request(session, self.request.script_id),
            ProbeStageView::Forward(lookup) => locations_request(
                self.request.location(),
                lookup.end,
                true,
                session,
            ),
            ProbeStageView::Backward(_) => locations_request(
                location_json(self.request.script_id, first_line(self.request), 0),
                self.request.location(),
                false,
                session,
            ),
            ProbeStageView::Verify(lookup, pending) => locations_request(
                pending.candidate,
                lookup.end,
                true,
                session,
            ),
            ProbeStageView::Bind(_) => RequestView::with_params(
                "Runtime.addBinding"@,
                JsonView::object().with("name"@, JsonView::Str(self.prepared.binding_name)),
                session,
            ),
            ProbeStageView::Install(plan) => RequestView::with_params(
                "Debugger.setBreakpoint"@,
                JsonView::object().with("location"@, plan.location).with(
                    "condition"@,
                    JsonView::Str(plan.condition),
                ),
                session,
            ),
            ProbeStageView::CleanFailed(_, machine) => machine.request(),
            ProbeStageView::CleanNameless(machine) => machine.request(),
            ProbeStageView::RemoveStale(id) => RequestView::with_params(
                "Debugger.removeBreakpoint"@,
                JsonView::object().with("breakpointId"@, JsonView::Str(id)),
                session,
            ),
            ProbeStageView::CleanStale(machine) => machine.request(),
        }
    }

    /// The setting in another stage.
    pub open spec fn at(self, stage: ProbeStageView) -> SetProbeView {
        SetProbeView { stage, ..self }
    }

    /// What the setting comes to with a reply.
    pub open spec fn advance(
        self,
        state: StateView,
        number: u64,
        now: u64,
        reply: Result<JsonView, Chars>,
    ) -> ProbeOutcome {
        match self.stage {
            ProbeStageView::Compile(check, rest) => (
                state,
                number,
                match check.fault(reply) {
                    Some(e) => StepView::Done(Err(e)),
                    None => StepView::Wait(self.at(compile_stage(rest))),
                },
            ),
            ProbeStageView::Source => (state, number, self.after_source(reply)),
            ProbeStageView::Forward(lookup) => self.after_forward(state, number, lookup, reply),
            ProbeStageView::Backward(lookup) => self.after_backward(state, number, lookup, reply),
            ProbeStageView::Verify(lookup, pending) => self.after_verify(
                state,
                number,
                lookup,
                pending,
                reply,
            ),
            ProbeStageView::Bind(plan) => match reply {
                Err(e) => (state, number, StepView::Done(Err(e))),
                Ok(_) => (
                    StateView {
                        binding_sessions: collections::set_with(
                            state.binding_sessions,
                            self.prepared.session_id,
                        ),
                        ..state
                    },
                    number,
                    StepView::Wait(self.at(ProbeStageView::Install(plan))),
                ),
            },
            ProbeStageView::Install(plan) => {
                let (after, step) = self.after_install(state, now, plan, reply);
                (after, number, step)
            },
            ProbeStageView::CleanFailed(e, machine) => match machine.advance(reply) {
                UnbindStepView::Wait(rest) => (
                    state,
                    number,
                    StepView::Wait(self.at(ProbeStageView::CleanFailed(e, rest))),
                ),
                UnbindStepView::Done(errors) => (
                    state.after_cleanup(self.prepared),
                    number,
                    StepView::Done(
                        Err(
                            if errors.len() > 0 {
                                e + "; Runtime binding cleanup also failed: "@ + text::joined(
                                    errors,
                                    "; "@,
                                )
                            } else {
                                e
                            },
                        ),
                    ),
                ),
            },
            ProbeStageView::CleanNameless(machine) => match machine.advance(reply) {
                UnbindStepView::Wait(rest) => (
                    state,
                    number,
                    StepView::Wait(self.at(ProbeStageView::CleanNameless(rest))),
                ),
                UnbindStepView::Done(_) => (
                    state.after_cleanup(self.prepared),
                    number,
                    StepView::Done(Err(nameless_message())),
                ),
            },
            ProbeStageView::RemoveStale(_) => (
                state,
                number,
                if self.prepared.install_binding {
                    StepView::Wait(self.at(ProbeStageView::CleanStale(self.cleanup(state))))
                } else {
                    StepView::Done(Err(stale_message()))
                },
            ),
            ProbeStageView::CleanStale(machine) => match machine.advance(reply) {
                UnbindStepView::Wait(rest) => (
                    state,
                    number,
                    StepView::Wait(self.at(ProbeStageView::CleanStale(rest))),
                ),
                UnbindStepView::Done(_) => (
                    state.after_cleanup(self.prepared),
                    number,
                    StepView::Done(Err(stale_message())),
                ),
            },
        }
    }

    /// The removal of the binding that this setting brought.
    pub open spec fn cleanup(self, state: StateView) -> UnbindView {
        UnbindView::start(
            self.prepared.session_id,
            self.prepared.binding_name,
            state.contexts_to_clean(self.prepared),
        )
    }

    /// The source came.
    pub open spec fn after_source(self, reply: Result<JsonView, Chars>) -> StepView<SetProbeView> {
        match reply {
            Err(e) => StepView::Done(Err(e)),
            Ok(result) => match result.get_str("scriptSource"@) {
                None => StepView::Done(Err("Chrome did not return compiled script source"@)),
                Some(s) => StepView::Wait(
                    self.at(
                        ProbeStageView::Forward(
                            LookupView {
                                source: s,
                                end: range_end(self.request, s),
                                locations: Seq::empty(),
                            },
                        ),
                    ),
                ),
            },
        }
    }

    /// The locations at and behind the requested one came.
    pub open spec fn after_forward(
        self,
        state: StateView,
        number: u64,
        lookup: LookupView,
        reply: Result<JsonView, Chars>,
    ) -> ProbeOutcome {
        match reply {
            Err(e) => (state, number, StepView::Done(Err(e))),
            Ok(result) => match result.get_array("locations"@) {
                None => (
                    state,
                    number,
                    StepView::Done(
                        Err("Chrome did not return possible breakpoint locations"@),
                    ),
                ),
                Some(locations) => {
                    let found = LookupView { locations, ..lookup };
                    if !looks_back(self.request.mode) {
                        self.pick(state, number, found)
                    } else if self.request.resolution().requested_offset(lookup.source) is None {
                        (
                            state,
                            number,
                            StepView::Done(
                                Err(
                                    breakpoint::outside_script(
                                        self.request.line,
                                        self.request.column,
                                    ),
                                ),
                            ),
                        )
                    } else {
                        (state, number, StepView::Wait(self.at(ProbeStageView::Backward(found))))
                    }
                },
            },
        }
    }

    /// The locations before the requested one came. Where nothing is known to
    /// stand in the requested function, none of them is taken.
    pub open spec fn after_backward(
        self,
        state: StateView,
        number: u64,
        lookup: LookupView,
        reply: Result<JsonView, Chars>,
    ) -> ProbeOutcome {
        match reply {
            Err(e) => (state, number, StepView::Done(Err(e))),
            Ok(result) => if lookup.locations.len() == 0 {
                self.pick(state, number, lookup)
            } else {
                let found = match result.get_array("locations"@) {
                    Some(locations) => locations,
                    None => Seq::empty(),
                };
                self.try_next(
                    state,
                    number,
                    lookup,
                    lookup.locations[0],
                    tried(self.request, lookup.source, found),
                )
            },
        }
    }

    /// Goes on with the first location that is left to try.
    pub open spec fn try_next(
        self,
        state: StateView,
        number: u64,
        lookup: LookupView,
        anchor: JsonView,
        left: Seq<JsonView>,
    ) -> ProbeOutcome {
        if left.len() == 0 {
            self.pick(state, number, lookup)
        } else {
            (
                state,
                number,
                StepView::Wait(
                    self.at(
                        ProbeStageView::Verify(
                            lookup,
                            PendingView { anchor, candidate: left[0], rest: left.skip(1) },
                        ),
                    ),
                ),
            )
        }
    }

    /// It came what can be reached from a location that was tried.
    pub open spec fn after_verify(
        self,
        state: StateView,
        number: u64,
        lookup: LookupView,
        pending: PendingView,
        reply: Result<JsonView, Chars>,
    ) -> ProbeOutcome {
        match reply {
            Err(e) => (state, number, StepView::Done(Err(e))),
            Ok(result) => {
                let reached = match result.get_array("locations"@) {
                    Some(locations) => reaches(locations, pending.anchor),
                    None => false,
                };
                let found = if reached {
                    LookupView {
                        locations: lookup.locations.push(pending.candidate),
                        ..lookup
                    }
                } else {
                    lookup
                };
                self.try_next(state, number, found, pending.anchor, pending.rest)
            },
        }
    }

    /// A location is chosen and identifiers are given. Nothing is installed
    /// where no location qualifies.
    pub open spec fn pick(
        self,
        state: StateView,
        number: u64,
        lookup: LookupView,
    ) -> ProbeOutcome {
        match self.request.resolution().select(lookup.locations, lookup.source) {
            Err(e) => (state, number, StepView::Done(Err(e))),
            Ok((location, reason, distance)) => {
                let generation = self.prepared.generation;
                let (probe_id, next) = match self.request.rebind {
                    Some(id) => (id, number),
                    None => (numbered("probe-"@, generation, number), following(number)),
                };
                let physical_id = numbered("physical-"@, generation, next);
                let plan = PlanView {
                    location,
                    reason,
                    distance,
                    probe_id,
                    physical_id,
                    condition: self.condition_for(probe_id, physical_id),
                };
                (
                    state,
                    following(next),
                    StepView::Wait(
                        self.at(
                            if self.prepared.install_binding {
                                ProbeStageView::Bind(plan)
                            } else {
                                ProbeStageView::Install(plan)
                            },
                        ),
                    ),
                )
            },
        }
    }

    /// The condition that the breakpoint gets.
    pub open spec fn condition_for(self, probe_id: Chars, physical_id: Chars) -> Chars {
        if self.request.kind == ProbeKind::Logpoint {
            logpoint::logpoint_script(
                self.prepared.binding_name,
                self.prepared.nonce,
                probe_id,
                physical_id,
                self.request.when,
                self.request.expressions,
            )
        } else {
            match self.request.condition {
                Some(condition) => condition,
                None => Seq::empty(),
            }
        }
    }

    /// The breakpoint was set, or could not be.
    pub open spec fn after_install(
        self,
        state: StateView,
        now: u64,
        plan: PlanView,
        reply: Result<JsonView, Chars>,
    ) -> (StateView, StepView<SetProbeView>) {
        match reply {
            Err(e) => (
                state,
                if self.prepared.install_binding {
                    StepView::Wait(self.at(ProbeStageView::CleanFailed(e, self.cleanup(state))))
                } else {
                    StepView::Done(Err(e))
                },
            ),
            Ok(result) => match result.get_str("breakpointId"@) {
                None => (
                    state,
                    if self.prepared.install_binding {
                        StepView::Wait(self.at(ProbeStageView::CleanNameless(self.cleanup(state))))
                    } else {
                        StepView::Done(Err(nameless_message()))
                    },
                ),
                Some(id) => if state.moved_on(self.request, self.prepared) {
                    (state, StepView::Wait(self.at(ProbeStageView::RemoveStale(id))))
                } else {
                    let actual = match result.get("actualLocation"@) {
                        Some(location) => location,
                        None => plan.location,
                    };
                    self.commit(state, now, plan, id, actual)
                },
            },
        }
    }

    /// The probe is recorded and reported.
    pub open spec fn commit(
        self,
        state: StateView,
        now: u64,
        plan: PlanView,
        breakpoint_id: Chars,
        actual: JsonView,
    ) -> (StateView, StepView<SetProbeView>) {
        let bound = state.with_probe(
            physical_of(self.request, self.prepared, plan, breakpoint_id, actual),
            logical_of(self.request, self.prepared, plan),
        );
        let answer = collections::lookup(bound.logical_probes, plan.probe_id)->Some_0.to_json(
            bound.physical_probes,
        );
        (
            bound.push_event(
                now,
                "probe-bound"@,
                Some(self.prepared.session_id),
                JsonView::object().with("probe"@, answer).with(
                    "resolutionReason"@,
                    JsonView::Str(plan.reason),
                ).with("utf16Distance"@, JsonView::Uint(plan.distance)),
            ),
            StepView::Done(Ok(answer)),
        )
    }
}

/// The stage in which the first check is made; without checks the source is
/// next.
pub open spec fn compile_stage(checks: Seq<SyntaxCheckView>) -> ProbeStageView {
    if checks.len() > 0 {
        ProbeStageView::Compile(checks[0], checks.skip(1))
    } else {
        ProbeStageView::Source
    }
}

/// The message that the browser gave no identifier.
pub open spec fn nameless_message() -> Chars {
    "Chrome did not return a breakpoint ID"@
}

/// The message that the page has moved on.
pub open spec fn stale_message() -> Chars {
    "Browser connection changed while setting the probe"@
}

fn make_location(script_id: &str, line: u64, column: u64) -> (r: Json)
    ensures
        r@ == location_json(script_id@, line, column),
{
    Json::object().with("scriptId", Json::text(script_id)).with(
        "lineNumber",
        Json::Uint(line),
    ).with("columnNumber", Json::Uint(column))
}

fn request_locations(start: Json, end: Json, within_function: bool, session_id: &str) -> (r:
    Request)
    ensures
        r@ == locations_request(start@, end@, within_function, session_id@),
{
    Request::with_params(
        "Debugger.getPossibleBreakpoints",
        Json::object().with("start", start).with("end", end).with(
            "restrictToFunction",
            Json::Bool(within_function),
        ),
        session_id,
    )
}

fn mode_looks_back(mode: &str) -> (r: bool)
    ensures
        r == looks_back(mode@),
{
    str_eq(mode, "before") || str_eq(mode, "nearest")
}

fn place_among(locations: &Vec<Json>, place: &Json) -> (r: bool)
    ensures
        r == reaches(locations.deep_view(), place@),
{
    let ghost all = locations.deep_view();
    let mut i: usize = 0;
    while i < locations.len()
        invariant
            all == locations.deep_view(),
            i <= locations.len(),
            forall|j: int| 0 <= j < i ==> !breakpoint::same_place(#[trigger] all[j], place@),
        decreases locations.len() - i,
    {
        assert(all[i as int] == locations@[i as int].deep_view());
        if same_cdp_location(&locations[i], place) {
            return true;
        }
        i = i + 1;
    }
    false
}

impl ProbeRequest {
    fn resolution(&self) -> (r: BreakpointResolutionRequest)
        ensures
            r@ == self.deep_view().resolution(),
    {
        BreakpointResolutionRequest {
            line: self.line,
            column: self.column,
            column_explicit: self.column_explicit,
            mode: self.mode.clone(),
            max_lines: self.max_lines,
            max_utf16_distance: self.max_utf16_distance,
        }
    }

    fn range_end(&self, source: &str) -> (r: Json)
        requires
            self.deep_view().located(),
        ensures
            r@ == range_end(self.deep_view(), source@),
    {
        let lines = javascript_source_lines(source);
        proof {
            source::lemma_lines_of(source@);
        }
        let last: usize = lines.len() - 1;
        let zero_based: u64 = self.line - 1;
        if zero_based < last as u64 && self.max_lines < last as u64 - zero_based {
            make_location(self.script_id.as_str(), zero_based + self.max_lines + 1, 0)
        } else {
            make_location(
                self.script_id.as_str(),
                last as u64,
                unit_len(lines[last].as_str()) as u64,
            )
        }
    }

    fn first_line(&self) -> (r: u64)
        requires
            self.deep_view().located(),
        ensures
            r == first_line(self.deep_view()),
    {
        let zero_based: u64 = self.line - 1;
        if zero_based < self.max_lines {
            0
        } else {
            zero_based - self.max_lines
        }
    }

    fn stands_before(&self, source: &str, requested: u64, location: &Json) -> (r: bool)
        requires
            self.deep_view().located(),
            source::utf16_offset(source@, self.line - 1, self.column - 1) == Some(
                requested as nat,
            ),
        ensures
            r == stands_before(self.deep_view(), source@, location@),
    {
        let line = match location.get_u64("lineNumber") {
            Some(n) => n,
            None => u64::MAX,
        };
        match utf16_offset_at(source, line, breakpoint::column_of(location)) {
            None => false,
            Some(offset) => offset < requested && requested - offset <= self.max_utf16_distance
                && breakpoint::abs_diff(line, self.line - 1) <= self.max_lines,
        }
    }

    fn tried(&self, source: &str, requested: u64, locations: &Vec<Json>) -> (r: Vec<Json>)
        requires
            self.deep_view().located(),
            source::utf16_offset(source@, self.line - 1, self.column - 1) == Some(
                requested as nat,
            ),
        ensures
            r.deep_view() == tried(self.deep_view(), source@, locations.deep_view()),
    {
        let ghost all = locations.deep_view();
        let ghost pred = |l: JsonView| stands_before(self.deep_view(), source@, l);
        let mut near: Vec<usize> = Vec::new();
        let ghost f = |i: usize| all[i as int];
        let mut i: usize = 0;
        assert(near@.map_values(f) =~= all.take(0).filter(pred)) by {
            reveal(Seq::filter);
        }
        while i < locations.len()
            invariant
                self.deep_view().located(),
                source::utf16_offset(source@, self.line - 1, self.column - 1) == Some(
                    requested as nat,
                ),
                all == locations.deep_view(),
                pred == (|l: JsonView| stands_before(self.deep_view(), source@, l)),
                f == (|i: usize| all[i as int]),
                i <= locations.len(),
                forall|j: int| 0 <= j < near.len() ==> (#[trigger] near@[j]) < i,
                near@.map_values(f) == all.take(i as int).filter(pred),
            decreases locations.len() - i,
        {
            let ghost was = near@;
            proof {
                assert(all[i as int] == locations@[i as int].deep_view());
                assert(all.take(i + 1) == all.take(i as int).push(all[i as int]));
                all.take(i as int).lemma_filter_push(all[i as int], pred);
            }
            if self.stands_before(source, requested, &locations[i]) {
                near.push(i);
                assert(near@.map_values(f) =~= was.map_values(f).push(all[i as int]));
            }
            i = i + 1;
        }
        assert(all.take(i as int) == all);
        let ghost back = all.filter(pred).reverse();
        let mut list: Vec<Json> = Vec::new();
        let mut k: usize = near.len();
        while k > 0 && list.len() < MAX_BREAKPOINT_VERIFICATION_CANDIDATES
            invariant
                all == locations.deep_view(),
                f == (|i: usize| all[i as int]),
                back == near@.map_values(f).reverse(),
                k + list.len() == near.len(),
                list.len() <= MAX_BREAKPOINT_VERIFICATION_CANDIDATES,
                forall|j: int| 0 <= j < near.len() ==> (#[trigger] near@[j]) < locations.len(),
                forall|j: int| 0 <= j < list.len() ==> (#[trigger] list@[j])@ == back[j],
            decreases k,
        {
            k = k - 1;
            assert(near@[k as int] < locations.len());
            let location = locations[near[k]].clone();
            assert(back[list.len() as int] == near@.map_values(f)[k as int]);
            list.push(location);
        }
        assert(list.deep_view() =~= tried(self.deep_view(), source@, locations.deep_view()));
        list
    }
}

impl Prepared {
    fn context(&self) -> (r: Option<u64>)
        ensures
            r == self.deep_view().context(),
    {
        self.script.get_u64("executionContextId")
    }
}

fn status_when_bound(persistent: bool, owner: &Json) -> (r: &'static str)
    ensures
        r@ == bound_status(persistent, owner@),
{
    let status = owner.get_str("status");
    if persistent && (collections::same_text(status, Some("unknown")) || collections::same_text(
        status,
        Some("ambiguous"),
    )) {
        "bound-awaiting-owner-evidence"
    } else {
        "bound"
    }
}

impl ControllerState {
    /// Whether the page has moved on since the setting of a probe began.
    pub fn moved_on(&self, request: &ProbeRequest, prepared: &Prepared) -> (r: bool)
        ensures
            r == self@.moved_on(request.deep_view(), prepared.deep_view()),
    {
        let same_document = match self.sessions.get(prepared.session_id.as_str()) {
            Some(session) => session.document_generation == prepared.document_generation,
            None => false,
        };
        self.connection_generation != prepared.generation || !same_document
            || self.script_position(
            prepared.session_id.as_str(),
            request.script_id.as_str(),
        ).is_none()
    }

    fn owns_binding(&self, prepared: &Prepared) -> (r: bool)
        ensures
            r == self@.owns_binding(prepared.deep_view()),
    {
        self.connection_generation == prepared.generation && str_eq(
            self.binding_name.as_str(),
            prepared.binding_name.as_str(),
        )
    }

    /// Records an installation, of a new probe or of one that is bound again.
    pub fn add_probe(&mut self, physical: PhysicalProbe, logical: LogicalProbe)
        ensures
            final(self)@ == old(self)@.with_probe(physical.deep_view(), logical.deep_view()),
    {
        let physical_id = physical.physical_id.clone();
        let ghost table = self@.logical_probes;
        self.physical_by_cdp_breakpoint.insert(
            physical.cdp_breakpoint_id.clone(),
            physical_id.clone(),
        );
        self.physical_probes.insert(physical_id.clone(), physical);
        let probe_id = logical.probe_id.clone();
        match self.logical_probes.remove(probe_id.as_str()) {
            Some(existing) => {
                let mut probe = existing;
                let ghost ids = probe.physical_ids.deep_view();
                probe.physical_ids.push(physical_id);
                probe.status = "rebound".to_owned();
                proof {
                    collections::lemma_del_twice(table, probe_id@);
                    assert(probe.physical_ids.deep_view() =~= ids.push(physical_id@));
                }
                self.logical_probes.insert(probe_id, probe);
            },
            None => {
                proof {
                    collections::lemma_del_twice(table, probe_id@);
                }
                self.logical_probes.insert(probe_id, logical);
            },
        }
    }

    fn after_cleanup(&mut self, prepared: &Prepared)
        ensures
            final(self)@ == old(self)@.after_cleanup(prepared.deep_view()),
    {
        if self.owns_binding(prepared) {
            set_remove(&mut self.binding_sessions, prepared.session_id.as_str());
        }
    }
}

fn first_check(checks: Vec<SyntaxCheck>) -> (r: ProbeStage)
    ensures
        r.deep_view() == compile_stage(checks.deep_view()),
{
    let ghost all = checks.deep_view();
    if checks.len() == 0 {
        return ProbeStage::Source;
    }
    let mut rest = checks;
    let check = rest.remove(0);
    assert(rest.deep_view() =~= all.skip(1));
    assert(all[0] == check.deep_view());
    ProbeStage::Compile(check, rest)
}

fn no_name() -> (r: String)
    ensures
        r@ == nameless_message(),
{
    "Chrome did not return a breakpoint ID".to_owned()
}

fn page_moved() -> (r: String)
    ensures
        r@ == stale_message(),
{
    "Browser connection changed while setting the probe".to_owned()
}

impl SetProbe {
    /// Starts a set command.
    pub fn start(state: &ControllerState, command: &Json, kind: ProbeKind) -> (r: Step<SetProbe>)
        ensures
            r.deep_view() == SetProbeView::start(state@, command@, kind),
            r matches Step::Wait(machine) ==> machine.deep_view().request.located(),
    {
        let request = match ProbeRequest::read(command, kind) {
            Ok(request) => request,
            Err(e) => {
                return Step::Done(Err(e));
            },
        };
        let prepared = match Prepared::find(state, command, kind, request.script_id.as_str()) {
            Ok(prepared) => prepared,
            Err(e) => {
                return Step::Done(Err(e));
            },
        };
        let stage = first_check(request.checks());
        Step::Wait(SetProbe { request, prepared, stage })
    }

    /// The request that the setting waits for.
    pub fn request(&self) -> (r: Request)
        requires
            self.deep_view().request.located(),
        ensures
            r@ == self.deep_view().request(),
    {
        let session_id = self.prepared.session_id.as_str();
        match &self.stage {
            ProbeStage::Compile(check, _) => check.request(session_id, self.prepared.context()),
            ProbeStage::Source => request_source(session_id, self.request.script_id.as_str()),
            ProbeStage::Forward(lookup) => request_locations(
                self.request.location(),
                lookup.end.clone(),
                true,
                session_id,
            ),
            ProbeStage::Backward(_) => request_locations(
                make_location(self.request.script_id.as_str(), self.request.first_line(), 0),
                self.request.location(),
                false,
                session_id,
            ),
            ProbeStage::Verify(lookup, pending) => request_locations(
                pending.candidate.clone(),
                lookup.end.clone(),
                true,
                session_id,
            ),
            ProbeStage::Bind(_) => Request::with_params(
                "Runtime.addBinding",
                Json::object().with("name", Json::text(self.prepared.binding_name.as_str())),
                session_id,
            ),
            ProbeStage::Install(plan) => Request::with_params(
                "Debugger.setBreakpoint",
                Json::object().with("location", plan.location.clone()).with(
                    "condition",
                    Json::text(plan.condition.as_str()),
                ),
                session_id,
            ),
            ProbeStage::CleanFailed(_, machine) => machine.request(),
            ProbeStage::CleanNameless(machine) => machine.request(),
            ProbeStage::RemoveStale(id) => Request::with_params(
                "Debugger.removeBreakpoint",
                Json::object().with("breakpointId", Json::text(id.as_str())),
                session_id,
            ),
            ProbeStage::CleanStale(machine) => machine.request(),
        }
    }

    fn cleanup(prepared: &Prepared, state: &ControllerState) -> (r: Unbind)
        ensures
            forall|machine: SetProbeView|
                machine.prepared == prepared.deep_view() ==> r.deep_view() == #[trigger]
                    machine.cleanup(state@),
    {
        let contexts = if state.owns_binding(prepared) {
            state.contexts(prepared.session_id.as_str())
        } else {
            let none: Vec<u64> = Vec::new();
            assert(none.deep_view() =~= Seq::<u64>::empty());
            none
        };
        Unbind::start(
            prepared.session_id.as_str(),
            prepared.binding_name.as_str(),
            &contexts,
        )
    }

    fn after_source(
        request: ProbeRequest,
        prepared: Prepared,
        reply: &Result<Json, String>,
    ) -> (r: Step<SetProbe>)
        requires
            request.deep_view().located(),
        ensures
            r.deep_view() == (SetProbeView {
                request: request.deep_view(),
                prepared: prepared.deep_view(),
                stage: ProbeStageView::Source,
            }).after_source(text::outcome(*reply)),
            r matches Step::Wait(machine) ==> machine.deep_view().request.located(),
    {
        let result = match reply {
            Ok(result) => result,
            Err(e) => {
                return Step::Done(Err(e.clone()));
            },
        };
        match result.get_str("scriptSource") {
            None => Step::Done(Err("Chrome did not return compiled script source".to_owned())),
            Some(source) => {
                let end = request.range_end(source);
                let locations: Vec<Json> = Vec::new();
                assert(locations.deep_view() =~= Seq::<JsonView>::empty());
                Step::Wait(
                    SetProbe {
                        request,
                        prepared,
                        stage: ProbeStage::Forward(
                            Lookup { source: source.to_owned(), end, locations },
                        ),
                    },
                )
            },
        }
    }

    fn condition_for(
        request: &ProbeRequest,
        prepared: &Prepared,
        probe_id: &str,
        physical_id: &str,
    ) -> (r: String)
        ensures
            forall|machine: SetProbeView|
                machine.prepared == prepared.deep_view() && machine.request == request.deep_view()
                    ==> r@ == #[trigger] machine.condition_for(probe_id@, physical_id@),
    {
        if request.kind == ProbeKind::Logpoint {
            build_logpoint_condition(
                prepared.binding_name.as_str(),
                prepared.nonce.as_str(),
                probe_id,
                physical_id,
                optional_str(&request.when),
                &request.expressions,
            )
        } else {
            match &request.condition {
                Some(condition) => condition.clone(),
                None => {
                    let none = String::new();
                    assert(none@ =~= Seq::<char>::empty());
                    none
                },
            }
        }
    }

    fn pick(
        request: ProbeRequest,
        prepared: Prepared,
        numbers: &mut ProbeNumbers,
        lookup: &Lookup,
    ) -> (r: Step<SetProbe>)
        requires
            request.deep_view().located(),
        ensures
            forall|machine: SetProbeView, state: StateView|
                machine.prepared == prepared.deep_view() && machine.request == request.deep_view()
                    ==> (state, final(numbers).next, r.deep_view()) == #[trigger] machine.pick(
                    state,
                    old(numbers).next,
                    lookup.deep_view(),
                ),
            r matches Step::Wait(machine) ==> machine.deep_view().request.located(),
    {
        let choice = select_breakpoint_location(
            &lookup.locations,
            &request.resolution(),
            lookup.source.as_str(),
        );
        let (location, reason, distance) = match choice {
            Ok(found) => found,
            Err(e) => {
                return Step::Done(Err(e));
            },
        };
        let generation = prepared.generation;
        let probe_id = match &request.rebind {
            Some(id) => id.clone(),
            None => number_text("probe-", generation, numbers.take()),
        };
        let physical_id = number_text("physical-", generation, numbers.take());
        let condition = SetProbe::condition_for(
            &request,
            &prepared,
            probe_id.as_str(),
            physical_id.as_str(),
        );
        let plan = Plan { location, reason, distance, probe_id, physical_id, condition };
        let stage = if prepared.install_binding {
            ProbeStage::Bind(plan)
        } else {
            ProbeStage::Install(plan)
        };
        Step::Wait(SetProbe { request, prepared, stage })
    }

    fn after_forward(
        request: ProbeRequest,
        prepared: Prepared,
        numbers: &mut ProbeNumbers,
        lookup: Lookup,
        reply: &Result<Json, String>,
    ) -> (r: Step<SetProbe>)
        requires
            request.deep_view().located(),
        ensures
            forall|machine: SetProbeView, state: StateView|
                machine.prepared == prepared.deep_view() && machine.request == request.deep_view()
                    ==> (state, final(numbers).next, r.deep_view())
                    == #[trigger] machine.after_forward(
                    state,
                    old(numbers).next,
                    lookup.deep_view(),
                    text::outcome(*reply),
                ),
            r matches Step::Wait(machine) ==> machine.deep_view().request.located(),
    {
        let result = match reply {
            Ok(result) => result,
            Err(e) => {
                return Step::Done(Err(e.clone()));
            },
        };
        let locations = match result.get_array("locations") {
            Some(locations) => copy_values(locations),
            None => {
                return Step::Done(
                    Err("Chrome did not return possible breakpoint locations".to_owned()),
                );
            },
        };
        let ghost before = lookup.deep_view();
        let found = Lookup { source: lookup.source, end: lookup.end, locations };
        assert(found.deep_view() =~= LookupView { locations: locations.deep_view(), ..before });
        if !mode_looks_back(request.mode.as_str()) {
            return SetProbe::pick(request, prepared, numbers, &found);
        }
        if utf16_offset_at(
            found.source.as_str(),
            request.line - 1,
            request.column - 1,
        ).is_none() {
            return Step::Done(Err(outside_script_message(request.line, request.column)));
        }
        Step::Wait(SetProbe { request, prepared, stage: ProbeStage::Backward(found) })
    }

    fn try_next(
        request: ProbeRequest,
        prepared: Prepared,
        numbers: &mut ProbeNumbers,
        lookup: Lookup,
        anchor: Json,
        left: Vec<Json>,
    ) -> (r: Step<SetProbe>)
        requires
            request.deep_view().located(),
        ensures
            forall|machine: SetProbeView, state: StateView|
                machine.prepared == prepared.deep_view() && machine.request == request.deep_view()
                    ==> (state, final(numbers).next, r.deep_view()) == #[trigger] machine.try_next(
                    state,
                    old(numbers).next,
                    lookup.deep_view(),
                    anchor@,
                    left.deep_view(),
                ),
            r matches Step::Wait(machine) ==> machine.deep_view().request.located(),
    {
        let ghost all = left.deep_view();
        if left.len() == 0 {
            return SetProbe::pick(request, prepared, numbers, &lookup);
        }
        let mut rest = left;
        let candidate = rest.remove(0);
        assert(rest.deep_view() =~= all.skip(1));
        assert(all[0] == candidate@);
        Step::Wait(
            SetProbe {
                request,
                prepared,
                stage: ProbeStage::Verify(lookup, Pending { anchor, candidate, rest }),
            },
        )
    }

    fn after_backward(
        request: ProbeRequest,
        prepared: Prepared,
        numbers: &mut ProbeNumbers,
        lookup: Lookup,
        reply: &Result<Json, String>,
    ) -> (r: Step<SetProbe>)
        requires
            request.deep_view().located(),
        ensures
            forall|machine: SetProbeView, state: StateView|
                machine.prepared == prepared.deep_view() && machine.request == request.deep_view()
                    ==> (state, final(numbers).next, r.deep_view())
                    == #[trigger] machine.after_backward(
                    state,
                    old(numbers).next,
                    lookup.deep_view(),
                    text::outcome(*reply),
                ),
            r matches Step::Wait(machine) ==> machine.deep_view().request.located(),
    {
        let result = match reply {
            Ok(result) => result,
            Err(e) => {
                return Step::Done(Err(e.clone()));
            },
        };
        if lookup.locations.len() == 0 {
            return SetProbe::pick(request, prepared, numbers, &lookup);
        }
        let anchor = lookup.locations[0].clone();
        assert(anchor@ == lookup.locations.deep_view()[0]);
        let requested = utf16_offset_at(
            lookup.source.as_str(),
            request.line - 1,
            request.column - 1,
        );
        let left = match (result.get_array("locations"), requested) {
            (Some(locations), Some(offset)) => request.tried(
                lookup.source.as_str(),
                offset,
                locations,
            ),
            _ => {
                let none: Vec<Json> = Vec::new();
                proof {
                    let found = match result@.get_array("locations"@) {
                        Some(locations) => locations,
                        None => Seq::empty(),
                    };
                    lemma_none_tried(request.deep_view(), lookup.source@, found);
                    assert(none.deep_view() =~= Seq::<JsonView>::empty());
                }
                none
            },
        };
        SetProbe::try_next(request, prepared, numbers, lookup, anchor, left)
    }

    fn after_verify(
        request: ProbeRequest,
        prepared: Prepared,
        numbers: &mut ProbeNumbers,
        lookup: Lookup,
        pending: Pending,
        reply: &Result<Json, String>,
    ) -> (r: Step<SetProbe>)
        requires
            request.deep_view().located(),
        ensures
            forall|machine: SetProbeView, state: StateView|
                machine.prepared == prepared.deep_view() && machine.request == request.deep_view()
                    ==> (state, final(numbers).next, r.deep_view())
                    == #[trigger] machine.after_verify(
                    state,
                    old(numbers).next,
                    lookup.deep_view(),
                    pending.deep_view(),
                    text::outcome(*reply),
                ),
            r matches Step::Wait(machine) ==> machine.deep_view().request.located(),
    {
        let result = match reply {
            Ok(result) => result,
            Err(e) => {
                return Step::Done(Err(e.clone()));
            },
        };
        let reached = match result.get_array("locations") {
            Some(locations) => place_among(locations, &pending.anchor),
            None => false,
        };
        let ghost before = lookup.deep_view();
        let mut found = lookup;
        if reached {
            found.locations.push(pending.candidate);
            assert(found.deep_view() =~= LookupView {
                locations: before.locations.push(pending.candidate@),
                ..before
            });
        }
        SetProbe::try_next(request, prepared, numbers, found, pending.anchor, pending.rest)
    }

    fn commit(
        request: ProbeRequest,
        prepared: Prepared,
        state: &mut ControllerState,
        now: u64,
        plan: Plan,
        breakpoint_id: &str,
        actual: &Json,
    ) -> (r: Step<SetProbe>)
        requires
            request.deep_view().located(),
        ensures
            forall|machine: SetProbeView|
                machine.prepared == prepared.deep_view() && machine.request == request.deep_view()
                    ==> (final(state)@, r.deep_view()) == #[trigger] machine.commit(
                    old(state)@,
                    now,
                    plan.deep_view(),
                    breakpoint_id@,
                    actual@,
                ),
            r is Done,
    {
        let ghost asked = request.deep_view();
        let ghost place = prepared.deep_view();
        let ghost planned = plan.deep_view();
        let context = prepared.context();
        let owner = prepared.script.get_or_null("runtimeOwner");
        let status = status_when_bound(request.persistent, &owner);
        let requested_location = one_based_location(&request.location());
        let target = Json::object().with(
            "connectionGeneration",
            Json::Uint(prepared.generation),
        ).with("sessionId", Json::text(prepared.session_id.as_str())).with(
            "documentGeneration",
            Json::Uint(prepared.document_generation),
        ).with("scriptId", Json::text(request.script_id.as_str())).with(
            "url",
            prepared.script.get_or_null("url"),
        ).with("executionContextId", Json::opt_uint(context)).with("runtimeOwner", owner).with(
            "requestedLine",
            Json::Uint(request.line),
        ).with("requestedColumn", Json::Uint(request.column)).with(
            "columnExplicit",
            Json::Bool(request.column_explicit),
        ).with("mode", Json::text(request.mode.as_str())).with(
            "maxLines",
            Json::Uint(request.max_lines),
        ).with("maxUtf16Distance", Json::Uint(request.max_utf16_distance)).with(
            "resolutionReason",
            Json::text(plan.reason.as_str()),
        ).with("utf16Distance", Json::Uint(plan.distance));
        let physical = PhysicalProbe {
            physical_id: plan.physical_id.clone(),
            cdp_breakpoint_id: breakpoint_id.to_owned(),
            probe_id: plan.probe_id.clone(),
            connection_generation: prepared.generation,
            session_id: prepared.session_id.clone(),
            document_generation: prepared.document_generation,
            script_id: request.script_id.clone(),
            execution_context_id: context,
            requested_location,
            actual_location: one_based_location(actual),
        };
        assert(physical.deep_view() == physical_of(
            asked,
            place,
            planned,
            breakpoint_id@,
            actual@,
        ));
        let mut physical_ids: Vec<String> = Vec::new();
        physical_ids.push(plan.physical_id.clone());
        assert(physical_ids.deep_view() =~= seq![plan.physical_id@]);
        let logical = LogicalProbe {
            probe_id: plan.probe_id.clone(),
            kind: request.kind,
            enabled: true,
            persistent: request.persistent,
            status: status.to_owned(),
            condition: request.condition,
            when: request.when,
            expressions: request.expressions,
            tags: request.tags,
            target,
            physical_ids,
        };
        assert(logical.deep_view() == logical_of(asked, place, planned));
        state.add_probe(physical, logical);
        proof {
            collections::lemma_put_found(
                old(state)@.logical_probes,
                plan.probe_id@,
                match collections::lookup(old(state)@.logical_probes, plan.probe_id@) {
                    Some(existing) => LogicalView {
                        physical_ids: existing.physical_ids.push(plan.physical_id@),
                        status: "rebound"@,
                        ..existing
                    },
                    None => logical_of(asked, place, planned),
                },
            );
        }
        let answer = match state.logical_probes.get(plan.probe_id.as_str()) {
            Some(probe) => probe.to_json(&state.physical_probes),
            None => Json::Null,
        };
        state.push_event(
            now,
            "probe-bound",
            Some(prepared.session_id.as_str()),
            Json::object().with("probe", answer.clone()).with(
                "resolutionReason",
                Json::text(plan.reason.as_str()),
            ).with("utf16Distance", Json::Uint(plan.distance)),
        );
        Step::Done(Ok(answer))
    }

    fn after_install(
        request: ProbeRequest,
        prepared: Prepared,
        state: &mut ControllerState,
        now: u64,
        plan: Plan,
        reply: &Result<Json, String>,
    ) -> (r: Step<SetProbe>)
        requires
            request.deep_view().located(),
        ensures
            forall|machine: SetProbeView|
                machine.prepared == prepared.deep_view() && machine.request == request.deep_view()
                    ==> (final(state)@, r.deep_view()) == #[trigger] machine.after_install(
                    old(state)@,
                    now,
                    plan.deep_view(),
                    text::outcome(*reply),
                ),
            r matches Step::Wait(machine) ==> machine.deep_view().request.located(),
    {
        let result = match reply {
            Ok(result) => result,
            Err(e) => {
                if prepared.install_binding {
                    let machine = SetProbe::cleanup(&prepared, state);
                    return Step::Wait(
                        SetProbe {
                            request,
                            prepared,
                            stage: ProbeStage::CleanFailed(e.clone(), machine),
                        },
                    );
                }
                return Step::Done(Err(e.clone()));
            },
        };
        match result.get_str("breakpointId") {
            None => {
                if prepared.install_binding {
                    let machine = SetProbe::cleanup(&prepared, state);
                    return Step::Wait(
                        SetProbe { request, prepared, stage: ProbeStage::CleanNameless(machine) },
                    );
                }
                Step::Done(Err(no_name()))
            },
            Some(id) => {
                if state.moved_on(&request, &prepared) {
                    return Step::Wait(
                        SetProbe { request, prepared, stage: ProbeStage::RemoveStale(id.to_owned()) },
                    );
                }
                let actual = match result.get("actualLocation") {
                    Some(location) => location.clone(),
                    None => plan.location.clone(),
                };
                SetProbe::commit(request, prepared, state, now, plan, id, &actual)
            },
        }
    }

    /// Takes the reply to the request.
    pub fn advance(
        self,
        state: &mut ControllerState,
        numbers: &mut ProbeNumbers,
        now: u64,
        reply: &Result<Json, String>,
    ) -> (r: Step<SetProbe>)
        requires
            self.deep_view().request.located(),
        ensures
            (final(state)@, final(numbers).next, r.deep_view()) == self.deep_view().advance(
                old(state)@,
                old(numbers).next,
                now,
                text::outcome(*reply),
            ),
            r matches Step::Wait(machine) ==> machine.deep_view().request.located(),
    {
        let ghost start = self.deep_view();
        let SetProbe { request, prepared, stage } = self;
        match stage {
            ProbeStage::Compile(check, rest) => match check.fault(reply) {
                Some(e) => Step::Done(Err(e)),
                None => Step::Wait(SetProbe { request, prepared, stage: first_check(rest) }),
            },
            ProbeStage::Source => SetProbe::after_source(request, prepared, reply),
            ProbeStage::Forward(lookup) => SetProbe::after_forward(
                request,
                prepared,
                numbers,
                lookup,
                reply,
            ),
            ProbeStage::Backward(lookup) => SetProbe::after_backward(
                request,
                prepared,
                numbers,
                lookup,
                reply,
            ),
            ProbeStage::Verify(lookup, pending) => SetProbe::after_verify(
                request,
                prepared,
                numbers,
                lookup,
                pending,
                reply,
            ),
            ProbeStage::Bind(plan) => match reply {
                Err(e) => Step::Done(Err(e.clone())),
                Ok(_) => {
                    set_insert(&mut state.binding_sessions, prepared.session_id.as_str());
                    Step::Wait(SetProbe { request, prepared, stage: ProbeStage::Install(plan) })
                },
            },
            ProbeStage::Install(plan) => SetProbe::after_install(
                request,
                prepared,
                state,
                now,
                plan,
                reply,
            ),
            ProbeStage::CleanFailed(e, machine) => match machine.advance(reply) {
                UnbindStep::Wait(rest) => Step::Wait(
                    SetProbe { request, prepared, stage: ProbeStage::CleanFailed(e, rest) },
                ),
                UnbindStep::Done(errors) => {
                    state.after_cleanup(&prepared);
                    if errors.len() > 0 {
                        Step::Done(
                            Err(
                                e.concat("; Runtime binding cleanup also failed: ").concat(
                                    join(&errors, "; ").as_str(),
                                ),
                            ),
                        )
                    } else {
                        Step::Done(Err(e))
                    }
                },
            },
            ProbeStage::CleanNameless(machine) => match machine.advance(reply) {
                UnbindStep::Wait(rest) => Step::Wait(
                    SetProbe { request, prepared, stage: ProbeStage::CleanNameless(rest) },
                ),
                UnbindStep::Done(_) => {
                    state.after_cleanup(&prepared);
                    Step::Done(Err(no_name()))
                },
            },
            ProbeStage::RemoveStale(_) => {
                if prepared.install_binding {
                    let machine = SetProbe::cleanup(&prepared, state);
                    assert(machine.deep_view() == start.cleanup(state@));
                    Step::Wait(
                        SetProbe { request, prepared, stage: ProbeStage::CleanStale(machine) },
                    )
                } else {
                    Step::Done(Err(page_moved()))
                }
            },
            ProbeStage::CleanStale(machine) => match machine.advance(reply) {
                UnbindStep::Wait(rest) => Step::Wait(
                    SetProbe { request, prepared, stage: ProbeStage::CleanStale(rest) },
                ),
                UnbindStep::Done(_) => {
                    state.after_cleanup(&prepared);
                    Step::Done(Err(page_moved()))
                },
            },
        }
    }
}

proof fn lemma_none_tried(request: ProbeRequestView, s: Chars, locations: Seq<JsonView>)
    requires
        locations.len() == 0 || source::utf16_offset(
            s,
            request.line - 1,
            request.column - 1,
        ) is None,
    ensures
        tried(request, s, locations) == Seq::<JsonView>::empty(),
{
    let pred = |l: JsonView| stands_before(request, s, l);
    let near = locations.filter(pred);
    locations.lemma_filter_len(pred);
    if near.len() > 0 {
        locations.lemma_filter_pred(pred, 0);
        assert(false);
    }
    assert(near.reverse() =~= Seq::<JsonView>::empty());
}

} // verus!
