//! The steps of commands that change the debugger: what is sent, in which order,
//! and what is answered in the end.

use vstd::prelude::*;

use crate::activation;
use crate::activation::{DisableStageView, DisableView, EnableStage, EnableView};
use crate::collections;
use crate::controller;
use crate::controller::StateView;
use crate::events;
use crate::interop;
use crate::json::JsonView;
use crate::laws::inspection;
use crate::laws::news;
use crate::laws::tables;
use crate::operation::{StepView, UnbindStepView, UnbindView};
use crate::probe_remove;
use crate::probe_remove::{RemovalView, RemoveProbeView, RemoveStageView};
use crate::queries;
use crate::records::{LogicalView, PhysicalView, ProbeKind, SessionView};
use crate::text;
use crate::text::Chars;

verus! {

/// Debugging is enabled for the session that the command means, or for every
/// session where it asks for all tabs. It needs Chrome, a connection, and at
/// least one session.
pub proof fn law_enabling_reaches_what_is_meant(state: StateView, command: JsonView, i: int)
    requires
        0 <= i < state.sessions.len(),
    ensures
        ({
            let all = command.get("allTabs"@) == Some(JsonView::Bool(true));
            let (after, step) = EnableView::start(state, command);
            match step {
                StepView::Wait(machine) => {
                    &&& state.engine == "chrome"@
                    &&& state.connected
                    &&& machine.generation == state.connection_generation
                    &&& machine.enabled.len() == 0
                    &&& machine.stage == EnableStage::Runtime
                    &&& after.enabled_sessions.contains(machine.session_id)
                    &&& after == StateView { enabled_sessions: after.enabled_sessions, ..state }
                    &&& all ==> {
                        let session = state.sessions[i].1;
                        &&& command.get("sessionId"@) is None
                        &&& command.get("tabId"@) is None
                        &&& (machine.session_id == session.session_id && machine.tab_id
                            == session.tab_id) || machine.rest.contains(
                            (session.session_id, session.tab_id),
                        )
                        &&& machine.rest.len() + 1 == state.sessions.len()
                    }
                    &&& !all ==> {
                        &&& queries::session_for(state, command) == Ok::<Chars, Chars>(
                            machine.session_id,
                        )
                        &&& collections::lookup(state.sessions, machine.session_id) is Some
                        &&& collections::lookup(
                            state.sessions,
                            machine.session_id,
                        )->Some_0.tab_id == machine.tab_id
                        &&& machine.rest.len() == 0
                    }
                },
                StepView::Done(outcome) => outcome is Err && after == state,
            }
        }),
{
    let sessions = collections::values(state.sessions);
    let items = sessions.map_values(|s: SessionView| (s.session_id, s.tab_id));
    let keys = sessions.map_values(|s: SessionView| s.tab_id);
    let targets = text::sorted_by(items, keys);
    let session = state.sessions[i].1;
    assert(items[i] == (session.session_id, session.tab_id));
    inspection::lemma_sorted_holds(items, keys, items[i]);
    let (_, step) = EnableView::start(state, command);
    if let StepView::Wait(machine) = step {
        if !state.enabled_sessions.contains(machine.session_id) {
            let set = state.enabled_sessions.push(machine.session_id);
            assert(set[state.enabled_sessions.len() as int] == machine.session_id);
        }
        if command.get("allTabs"@) == Some(JsonView::Bool(true)) {
            let k = choose|k: int| 0 <= k < targets.len() && targets[k] == items[i];
            if k > 0 {
                assert(targets.skip(1)[k - 1] == items[i]);
            }
        }
    }
}

/// A session is enabled by three requests, one after the other: its runtime, its
/// debugger and its page. Once the debugger is enabled the session is listed
/// with its tab and the identifier that came. Behind the last request comes the
/// next session, and when none is left the answer lists them all.
pub proof fn law_sessions_are_enabled_step_by_step(
    machine: EnableView,
    state: StateView,
    result: JsonView,
    error: Chars,
)
    ensures
        machine.request().session_id == machine.session_id,
        machine.request().params is None,
        machine.stage == EnableStage::Runtime ==> {
            &&& machine.request().method == "Runtime.enable"@
            &&& machine.advance(state, Ok(result)) == (
                state,
                StepView::Wait(EnableView { stage: EnableStage::Debugger, ..machine }),
            )
        },
        machine.stage == EnableStage::Debugger ==> {
            &&& machine.request().method == "Debugger.enable"@
            &&& match machine.advance(state, Ok(result)) {
                (after, StepView::Wait(next)) => {
                    let told = next.enabled.last();
                    &&& after == state
                    &&& next.stage == EnableStage::Page
                    &&& next.session_id == machine.session_id
                    &&& next.tab_id == machine.tab_id
                    &&& next.rest == machine.rest
                    &&& next.generation == machine.generation
                    &&& next.enabled.len() == machine.enabled.len() + 1
                    &&& next.enabled.drop_last() == machine.enabled
                    &&& told.get_str("sessionId"@) == Some(machine.session_id)
                    &&& told.get_str("tabId"@) == Some(machine.tab_id)
                    &&& result.get("debuggerId"@) is Some ==> told.get("debuggerId"@)
                        == result.get("debuggerId"@)
                },
                _ => false,
            }
        },
        machine.stage == EnableStage::Page ==> {
            &&& machine.request().method == "Page.enable"@
            &&& match machine.advance(state, Ok(result)) {
                (after, StepView::Wait(next)) => {
                    &&& machine.rest.len() > 0
                    &&& after.enabled_sessions == collections::set_with(
                        state.enabled_sessions,
                        next.session_id,
                    )
                    &&& (next.session_id, next.tab_id) == machine.rest[0]
                    &&& next.rest == machine.rest.skip(1)
                    &&& next.enabled == machine.enabled
                    &&& next.stage == EnableStage::Runtime
                    &&& next.generation == machine.generation
                },
                (after, StepView::Done(Ok(answer))) => {
                    &&& machine.rest.len() == 0
                    &&& after == state
                    &&& answer.get_bool("enabled"@) == Some(true)
                    &&& answer.get_u64("connectionGeneration"@) == Some(machine.generation)
                    &&& answer.get_array("sessions"@) == Some(machine.enabled)
                },
                _ => false,
            }
        },
{
    reveal_strlit("tabId");
    reveal_strlit("sessionId");
    reveal_strlit("debuggerId");
    reveal_strlit("enabled");
    reveal_strlit("connectionGeneration");
    reveal_strlit("sessions");
    assert("tabId"@.len() == 5);
    assert("sessionId"@.len() == 9);
    assert("debuggerId"@.len() == 10);
    assert("enabled"@.len() == 7);
    assert("connectionGeneration"@.len() == 20);
    assert("sessions"@.len() == 8);
    if machine.stage == EnableStage::Debugger {
        if let StepView::Wait(next) = machine.advance(state, Ok(result)).1 {
            assert(next.enabled.drop_last() =~= machine.enabled);
        }
    }
}

/// Taking a binding back deletes it in every execution context, one after the
/// other, and then removes it from the session. What fails is noted, with the
/// context that it failed in, and does not stop the rest.
pub proof fn law_bindings_are_taken_back_everywhere(
    machine: UnbindView,
    result: JsonView,
    error: Chars,
)
    ensures
        machine.request().session_id == machine.session_id,
        machine.request().params is Some,
        machine.removing ==> {
            &&& machine.request().method == "Runtime.removeBinding"@
            &&& machine.request().params->Some_0.get_str("name"@) == Some(machine.binding_name)
            &&& machine.advance(Ok(result)) == UnbindStepView::Done(machine.errors)
            &&& machine.advance(Err(error)) == UnbindStepView::Done(machine.errors.push(error))
        },
        !machine.removing ==> {
            let params = machine.request().params->Some_0;
            &&& machine.request().method == "Runtime.evaluate"@
            &&& params.get_str("expression"@) == Some(
                "(()=>{try{return delete globalThis["@ + interop::json_quote(machine.binding_name)
                    + "]}catch(_){return false}})()"@,
            )
            &&& params.get_u64("contextId"@) == machine.context
            &&& params.get_bool("returnByValue"@) == Some(true)
            &&& params.get_bool("silent"@) == Some(true)
            &&& goes_on_unbinding(machine, machine.advance(Ok(result)), machine.errors)
            &&& goes_on_unbinding(
                machine,
                machine.advance(Err(error)),
                machine.errors.push(
                    match machine.context {
                        Some(id) => "context "@ + text::decimal(id as nat) + ": "@ + error,
                        None => error,
                    },
                ),
            )
        },
{
    reveal_strlit("name");
    reveal_strlit("expression");
    reveal_strlit("contextId");
    reveal_strlit("returnByValue");
    reveal_strlit("silent");
    assert("name"@.len() == 4);
    assert("expression"@.len() == 10);
    assert("contextId"@.len() == 9);
    assert("returnByValue"@.len() == 13);
    assert("silent"@.len() == 6);
}

/// Whether the removal of a binding goes on with the next context, or with the
/// session when no context is left.
pub open spec fn goes_on_unbinding(
    machine: UnbindView,
    step: UnbindStepView,
    errors: Seq<Chars>,
) -> bool {
    match step {
        UnbindStepView::Wait(next) => {
            &&& next.session_id == machine.session_id
            &&& next.binding_name == machine.binding_name
            &&& next.errors == errors
            &&& machine.rest.len() > 0 ==> !next.removing && next.context == Some(machine.rest[0])
                && next.rest == machine.rest.skip(1)
            &&& machine.rest.len() == 0 ==> next.removing
        },
        UnbindStepView::Done(_) => false,
    }
}

/// The removal of a binding begins with the first of the contexts, and has the
/// others still to do; without any, the page itself is asked.
pub proof fn law_bindings_are_taken_back_from_the_first_context_on(
    session: Chars,
    binding: Chars,
    contexts: Seq<u64>,
)
    ensures
        ({
            let machine = UnbindView::start(session, binding, contexts);
            &&& machine.session_id == session
            &&& machine.binding_name == binding
            &&& machine.errors.len() == 0
            &&& !machine.removing
            &&& contexts.len() > 0 ==> machine.context == Some(contexts[0]) && machine.rest
                == contexts.skip(1)
            &&& contexts.len() == 0 ==> machine.context is None && machine.rest.len() == 0
        }),
{
}

/// A command that disables debugging means one session, or every enabled one. It
/// is refused while one of them is paused, unless it asks to resume them: then
/// every paused one is resumed first.
pub proof fn law_paused_sessions_are_resumed_before_disabling(
    state: StateView,
    now: u64,
    command: JsonView,
    id: Chars,
)
    requires
        state.connected,
        command.get("sessionId"@) is None,
        command.get("tabId"@) is None,
    ensures
        ({
            let all = command.get("allTabs"@) == Some(JsonView::Bool(true));
            let resume = command.get("resume"@) == Some(JsonView::Bool(true));
            let meant = if all {
                state.enabled_sessions
            } else {
                seq![queries::session_for(state, command)->Ok_0]
            };
            let known = all || queries::session_for(state, command) is Ok;
            let paused = known && meant.contains(id) && collections::lookup(
                state.paused_sessions,
                id,
            ) is Some;
            match DisableView::start(state, now, command) {
                (after, StepView::Wait(machine)) => {
                    &&& known
                    &&& after == state
                    &&& machine.sessions == meant
                    &&& machine.binding_name == state.binding_name
                    &&& paused ==> resume
                    &&& paused <==> machine.paused.contains(id)
                    &&& match machine.stage {
                        DisableStageView::Resume(first) => {
                            &&& machine.paused.len() > 0
                            &&& first == machine.paused[0]
                            &&& machine.resumes == machine.paused.skip(1)
                            &&& machine.targets.len() == meant.len()
                        },
                        _ => machine.paused.len() == 0,
                    }
                },
                (after, StepView::Done(Err(_))) => {
                    &&& after == state
                    &&& known ==> !resume
                },
                (_, StepView::Done(Ok(_))) => known && meant.len() == 0,
            }
        }),
{
    broadcast use tables::lemma_filter_holds;

    if let Ok(sessions) = activation::disable_targets(state, command) {
        let paused = activation::paused_among(state, sessions);
        assert(paused.contains(id) <==> sessions.contains(id) && collections::lookup(
            state.paused_sessions,
            id,
        ) is Some);
        if paused.len() == 0 {
            assert(!paused.contains(id));
        }
    }
}

/// A session is disabled step by step: it is resumed where it was paused, the
/// binding is taken back where it has one, and then its debugger is disabled.
pub proof fn law_sessions_are_disabled_step_by_step(
    machine: DisableView,
    state: StateView,
    now: u64,
    id: Chars,
    reply: Result<JsonView, Chars>,
)
    ensures
        machine.stage == DisableStageView::Resume(id) ==> {
            &&& machine.request().method == "Debugger.resume"@
            &&& machine.request().session_id == id
        },
        machine.stage == DisableStageView::Disable(id) ==> {
            &&& machine.request().method == "Debugger.disable"@
            &&& machine.request().session_id == id
        },
        machine.stage == DisableStageView::Resume(id) || machine.stage
            == DisableStageView::Disable(id) ==> match machine.advance(state, now, reply) {
            (after, StepView::Wait(next)) => {
                &&& after == state
                &&& next.sessions == machine.sessions
                &&& next.paused == machine.paused
                &&& next.binding_name == machine.binding_name
                &&& machine.resumes.len() > 0 ==> {
                    &&& next.stage == DisableStageView::Resume(machine.resumes[0])
                    &&& next.resumes == machine.resumes.skip(1)
                    &&& next.targets == machine.targets
                }
                &&& machine.resumes.len() == 0 ==> {
                    let target = machine.targets[0];
                    &&& machine.targets.len() > 0
                    &&& next.targets == machine.targets.skip(1)
                    &&& !target.bound ==> next.stage == DisableStageView::Disable(
                        target.session_id,
                    )
                    &&& target.bound ==> next.stage == DisableStageView::Unbind(
                        UnbindView::start(
                            target.session_id,
                            machine.binding_name,
                            target.contexts,
                        ),
                    )
                }
            },
            (_, StepView::Done(Ok(answer))) => {
                &&& machine.resumes.len() == 0
                &&& machine.targets.len() == 0
                &&& answer.get_bool("disabled"@) == Some(true)
                &&& inspection::texts_told(answer.get("sessions"@), machine.sessions)
                &&& inspection::texts_told(answer.get("resumed"@), machine.paused)
            },
            (_, StepView::Done(Err(_))) => false,
        },
{
    reveal_strlit("disabled");
    reveal_strlit("sessions");
    reveal_strlit("resumed");
    assert("disabled"@.len() == 8);
    assert("sessions"@.len() == 8);
    assert("resumed"@.len() == 7);
    assert("disabled"@[0] == 'd');
    assert("sessions"@[0] == 's');
}

/// Behind the binding of a session comes the session itself, and what could not
/// be taken back is told.
pub proof fn law_sessions_are_disabled_behind_their_binding(
    machine: DisableView,
    state: StateView,
    now: u64,
    unbinding: UnbindView,
    reply: Result<JsonView, Chars>,
    errors: Seq<Chars>,
)
    requires
        machine.stage == DisableStageView::Unbind(unbinding),
        unbinding.advance(reply) == UnbindStepView::Done(errors),
    ensures
        machine.request() == unbinding.request(),
        match machine.advance(state, now, reply) {
            (after, StepView::Wait(next)) => {
                &&& next.stage == DisableStageView::Disable(unbinding.session_id)
                &&& next.sessions == machine.sessions
                &&& next.targets == machine.targets
                &&& errors.len() == 0 ==> after == state
                &&& errors.len() > 0 && after.events.len() > 0 ==> residue_told(
                    after,
                    unbinding.session_id,
                    machine.binding_name,
                    errors,
                )
            },
            _ => false,
        },
{
    lemma_residue_told(state, now, unbinding.session_id, machine.binding_name, errors);
}

/// Whether the newest event tells what was left of a binding.
pub open spec fn residue_told(
    after: StateView,
    session: Chars,
    binding: Chars,
    errors: Seq<Chars>,
) -> bool {
    let event = after.events.last();
    &&& event.kind == "binding-residue"@
    &&& event.session_id == Some(session)
    &&& event.data.get_str("bindingName"@) == Some(binding)
    &&& inspection::texts_told(event.data.get("errors"@), errors)
}

proof fn lemma_residue_told(
    state: StateView,
    now: u64,
    session: Chars,
    binding: Chars,
    errors: Seq<Chars>,
)
    ensures
        errors.len() == 0 ==> state.report_residue(now, session, binding, errors) == state,
        errors.len() > 0 && state.report_residue(now, session, binding, errors).events.len() > 0
            ==> residue_told(
            state.report_residue(now, session, binding, errors),
            session,
            binding,
            errors,
        ),
{
    reveal_strlit("bindingName");
    reveal_strlit("errors");
    assert("bindingName"@.len() == 11);
    assert("errors"@.len() == 6);
    let data = JsonView::object().with("bindingName"@, JsonView::Str(binding)).with(
        "errors"@,
        JsonView::texts(errors),
    );
    news::law_the_newest_event_is_what_was_told(
        state,
        now,
        "binding-residue"@,
        Some(session),
        data,
    );
}

/// What has to be disabled for a session: its binding, where it has one, in all
/// its contexts.
pub proof fn law_disabling_knows_the_bindings(state: StateView, session: Chars)
    ensures
        activation::target_of(state, session).session_id == session,
        activation::target_of(state, session).bound == state.binding_sessions.contains(session),
        activation::target_of(state, session).contexts == (match collections::lookup(
            state.execution_contexts,
            session,
        ) {
            Some(contexts) => contexts,
            None => Seq::empty(),
        }),
{
}

/// A probe is removed by its identifier if it is of the kind that the command is
/// about. With a connection every installation is removed from the browser
/// first, in the session that it is in.
pub proof fn law_probes_are_removed_from_the_browser_first(
    state: StateView,
    now: u64,
    command: JsonView,
    kind: ProbeKind,
    id: Chars,
    probe: LogicalView,
)
    requires
        command.get("probeId"@) == Some(JsonView::Str(id)),
        collections::lookup(state.logical_probes, id) == Some(probe),
        probe.probe_id == id,
        state.connected,
        probe_remove::installations(state.physical_probes, probe.physical_ids).len() > 0,
    ensures
        probe.kind != kind ==> RemoveProbeView::start(state, now, command, kind).0 == state
            && RemoveProbeView::start(state, now, command, kind).1 matches StepView::Done(Err(_)),
        probe.kind == kind ==> match RemoveProbeView::start(state, now, command, kind) {
            (after, StepView::Wait(machine)) => {
                let all = probe_remove::installations(state.physical_probes, probe.physical_ids);
                &&& after == state
                &&& machine.removal.probe == probe
                &&& machine.removal.physical == all
                &&& machine.removal.connected
                &&& machine.removal.errors.len() == 0
                &&& machine.removal.binding_name == state.binding_name
                &&& machine.rest == all.skip(1)
                &&& machine.stage == RemoveStageView::Breakpoint(all[0])
                &&& machine.request().method == "Debugger.removeBreakpoint"@
                &&& machine.request().session_id == all[0].session_id
                &&& machine.request().params is Some
                &&& machine.request().params->Some_0.get_str("breakpointId"@) == Some(
                    all[0].cdp_breakpoint_id,
                )
            },
            _ => false,
        },
{
}

/// One installation after the other is removed; what fails is noted. When none
/// is left the probe is forgotten and told to be removed, and the command is
/// answered, unless the binding of the session is to be taken back too.
pub proof fn law_removals_go_on_to_the_end(
    machine: RemoveProbeView,
    state: StateView,
    now: u64,
    binding: PhysicalView,
    result: JsonView,
    error: Chars,
)
    requires
        machine.stage == RemoveStageView::Breakpoint(binding),
        machine.removal.connected,
    ensures
        machine.rest.len() > 0 ==> {
            &&& machine.advance(state, now, Ok(result)) == (
                state,
                StepView::Wait(
                    RemoveProbeView {
                        removal: machine.removal,
                        rest: machine.rest.skip(1),
                        stage: RemoveStageView::Breakpoint(machine.rest[0]),
                    },
                ),
            )
            &&& machine.advance(state, now, Err(error)) == (
                state,
                StepView::Wait(
                    RemoveProbeView {
                        removal: RemovalView {
                            errors: machine.removal.errors.push(error),
                            ..machine.removal
                        },
                        rest: machine.rest.skip(1),
                        stage: RemoveStageView::Breakpoint(machine.rest[0]),
                    },
                ),
            )
        },
        machine.rest.len() == 0 ==> removal_told(
            machine.removal,
            state,
            machine.advance(state, now, Ok(result)),
        ) && removal_told(
            RemovalView { errors: machine.removal.errors.push(error), ..machine.removal },
            state,
            machine.advance(state, now, Err(error)),
        ),
{
    lemma_removal_told(machine.removal, state, now);
    lemma_removal_told(
        RemovalView { errors: machine.removal.errors.push(error), ..machine.removal },
        state,
        now,
    );
}

/// Whether a removal has ended as it should: the probe is gone and told to be
/// removed, and the answer names it, together with what went wrong.
pub open spec fn removal_told(
    removal: RemovalView,
    state: StateView,
    outcome: (StateView, StepView<RemoveProbeView>),
) -> bool {
    let (after, step) = outcome;
    let event = after.events.last();
    &&& collections::lookup(after.logical_probes, removal.probe.probe_id) is None
    &&& after.events.len() > 0 ==> {
        &&& event.kind == "probe-removed"@
        &&& event.session_id == removal.session()
        &&& event.data.get("probe"@) is Some
        &&& event.data.get("probe"@)->Some_0.get_str("probeId"@) == Some(removal.probe.probe_id)
        &&& inspection::texts_told(event.data.get("cleanupErrors"@), removal.errors)
    }
    &&& match step {
        StepView::Done(Ok(answer)) => {
            &&& answer.get_bool("removed"@) == Some(true)
            &&& answer.get_str("probeId"@) == Some(removal.probe.probe_id)
            &&& inspection::texts_told(answer.get("cleanupErrors"@), removal.errors)
        },
        StepView::Done(Err(_)) => false,
        StepView::Wait(next) => {
            &&& removal.probe.kind == ProbeKind::Logpoint
            &&& removal.session() is Some
            &&& next.removal == removal
            &&& next.stage == RemoveStageView::Unbind(
                UnbindView::start(
                    removal.session()->Some_0,
                    removal.binding_name,
                    events::contexts_of(after, removal.session()->Some_0),
                ),
            )
        },
    }
}

proof fn lemma_installations_left(state: StateView, physical: Seq<PhysicalView>)
    ensures
        state.without_installations(physical).logical_probes == state.logical_probes,
    decreases physical.len(),
{
    if physical.len() > 0 {
        lemma_installations_left(state, physical.drop_last());
    }
}

proof fn lemma_removal_told(removal: RemovalView, state: StateView, now: u64)
    ensures
        removal_told(removal, state, removal.commit(state, now)),
{
    reveal_strlit("probe");
    reveal_strlit("cleanupErrors");
    reveal_strlit("removed");
    reveal_strlit("probeId");
    assert("probe"@.len() == 5);
    assert("cleanupErrors"@.len() == 13);
    assert("removed"@.len() == 7);
    assert("probeId"@.len() == 7);
    assert("probeId"@[0] == 'p');
    assert("removed"@[0] == 'r');
    let cut = StateView {
        logical_probes: collections::del(state.logical_probes, removal.probe.probe_id),
        ..state
    };
    lemma_installations_left(cut, removal.physical);
    let gone = removal.forget(state);
    inspection::law_probes_are_told_in_full(
        removal.probe,
        gone.physical_probes,
        removal.probe.probe_id,
    );
    tables::lemma_lookup_del(
        state.logical_probes,
        removal.probe.probe_id,
        removal.probe.probe_id,
    );
    let data = JsonView::object().with(
        "probe"@,
        removal.probe.to_json(gone.physical_probes),
    ).with("cleanupErrors"@, JsonView::texts(removal.errors));
    news::law_the_newest_event_is_what_was_told(
        gone,
        now,
        "probe-removed"@,
        removal.session(),
        data,
    );
    controller::lemma_push_event_frame(gone, now, "probe-removed"@, removal.session(), data);
}

/// A removal is about the session of its first installation, or that of the
/// record of the probe where there is no installation. When the binding has been
/// taken back it is no longer that session's, and the answer tells all that went
/// wrong.
pub proof fn law_removals_end_with_their_binding(
    machine: RemoveProbeView,
    state: StateView,
    now: u64,
    unbinding: UnbindView,
    reply: Result<JsonView, Chars>,
    errors: Seq<Chars>,
)
    requires
        machine.stage == RemoveStageView::Unbind(unbinding),
        unbinding.advance(reply) == UnbindStepView::Done(errors),
    ensures
        machine.request() == unbinding.request(),
        machine.removal.physical.len() > 0 ==> machine.removal.session() == Some(
            machine.removal.physical[0].session_id,
        ),
        machine.removal.physical.len() == 0 ==> machine.removal.session()
            == inspection::text_of(machine.removal.probe.target, "sessionId"@),
        match machine.advance(state, now, reply) {
            (after, StepView::Done(Ok(answer))) => {
                &&& !after.binding_sessions.contains(unbinding.session_id)
                &&& answer.get_bool("removed"@) == Some(true)
                &&& answer.get_str("probeId"@) == Some(machine.removal.probe.probe_id)
                &&& inspection::texts_told(
                    answer.get("cleanupErrors"@),
                    machine.removal.errors + errors,
                )
                &&& errors.len() > 0 && after.events.len() > 0 ==> residue_told(
                    after,
                    unbinding.session_id,
                    machine.removal.binding_name,
                    errors,
                )
            },
            _ => false,
        },
{
    broadcast use tables::lemma_filter_holds;

    reveal_strlit("removed");
    reveal_strlit("probeId");
    reveal_strlit("cleanupErrors");
    assert("removed"@.len() == 7);
    assert("probeId"@.len() == 7);
    assert("cleanupErrors"@.len() == 13);
    assert("probeId"@[0] == 'p');
    assert("removed"@[0] == 'r');
    let cleared = state.without_binding(unbinding.session_id);
    assert(!cleared.binding_sessions.contains(unbinding.session_id));
    lemma_residue_told(
        cleared,
        now,
        unbinding.session_id,
        machine.removal.binding_name,
        errors,
    );
    let data = JsonView::object().with(
        "bindingName"@,
        JsonView::Str(machine.removal.binding_name),
    ).with("errors"@, JsonView::texts(errors));
    controller::lemma_push_event_frame(
        cleared,
        now,
        "binding-residue"@,
        Some(unbinding.session_id),
        data,
    );
}

} // verus!
