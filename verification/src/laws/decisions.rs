//! Who may do what: policy, confirmations, pauses, logpoints and owners.

use vstd::prelude::*;

use crate::activation::{EnableStage, EnableView};
use crate::collections;
use crate::controller;
use crate::controller::StateView;
use crate::dispatch;
use crate::dispatch::{DebuggerView, ProgressView};
use crate::events;
use crate::json::JsonView;
use crate::laws::tables;
use crate::operation::StepView;
use crate::policy;
use crate::policy::PolicyView;
use crate::probe_remove::{RemovalView, RemoveProbeView, RemoveStageView};
use crate::probe_request;
use crate::probe_set;
use crate::probe_set::{ProbeStageView, SetProbeView};
use crate::queries;
use crate::records::{PhysicalView, ProbeKind, ScriptView};
use crate::text::Chars;

verus! {

/// Whether the policy denies one of the categories.
pub open spec fn denied(results: Seq<PolicyView>) -> bool {
    exists|i: int| 0 <= i < results.len() && (#[trigger] results[i]) is Deny
}

/// Whether the policy wants one of the categories confirmed.
pub open spec fn unconfirmed(results: Seq<PolicyView>) -> bool {
    exists|i: int| 0 <= i < results.len() && (#[trigger] results[i]) is RequiresConfirmation
}

proof fn lemma_first_denial(results: Seq<PolicyView>)
    ensures
        policy::first_denial(results) is Some <==> denied(results),
    decreases results.len(),
{
    if results.len() > 0 {
        let rest = results.drop_last();
        lemma_first_denial(rest);
        if denied(results) {
            let i = choose|i: int| 0 <= i < results.len() && (#[trigger] results[i]) is Deny;
            if i < rest.len() {
                assert(rest[i] is Deny);
            }
        }
        if denied(rest) {
            let i = choose|i: int| 0 <= i < rest.len() && (#[trigger] rest[i]) is Deny;
            assert(results[i] is Deny);
        }
        if results.last() is Deny {
            assert(results[results.len() - 1] is Deny);
        }
    }
}

proof fn lemma_policy_confirmations(categories: Seq<Chars>, results: Seq<PolicyView>)
    ensures
        policy::policy_confirmations(categories, results).len() > 0 <==> unconfirmed(results),
    decreases results.len(),
{
    if results.len() > 0 {
        let rest = results.drop_last();
        lemma_policy_confirmations(categories, rest);
        if unconfirmed(results) {
            let i = choose|i: int|
                0 <= i < results.len() && (#[trigger] results[i]) is RequiresConfirmation;
            if i < rest.len() {
                assert(rest[i] is RequiresConfirmation);
            }
        }
        if unconfirmed(rest) {
            let i = choose|i: int|
                0 <= i < rest.len() && (#[trigger] rest[i]) is RequiresConfirmation;
            assert(results[i] is RequiresConfirmation);
        }
        if results[results.len() - 1] is RequiresConfirmation {
            assert(unconfirmed(results));
        }
    }
}

proof fn lemma_all_confirmations(
    confirmed: Seq<Chars>,
    categories: Seq<Chars>,
    wanted: Seq<bool>,
)
    ensures
        policy::all_confirmations(confirmed, categories, wanted).len() > 0 <==> confirmed.len() > 0
            || wanted.contains(true),
    decreases wanted.len(),
{
    if wanted.len() > 0 {
        let rest = wanted.drop_last();
        lemma_all_confirmations(confirmed, categories, rest);
        if wanted.contains(true) {
            let i = wanted.index_of(true);
            if i < rest.len() {
                assert(rest[i]);
            }
        }
        if rest.contains(true) {
            assert(wanted[rest.index_of(true)]);
        }
        if wanted[wanted.len() - 1] {
            assert(wanted.contains(true));
        }
    }
}

/// A denial of one category denies the command, whatever is to be confirmed.
/// Without a denial the command waits for a confirmation exactly where the
/// policy or the user wants one of its categories confirmed.
pub proof fn law_denial_counts_before_confirmation(
    categories: Seq<Chars>,
    policy: Option<Seq<PolicyView>>,
    wanted: Option<Seq<bool>>,
)
    ensures
        ({
            let results = match policy {
                Some(results) => results,
                None => Seq::empty(),
            };
            let flags = match wanted {
                Some(flags) => flags,
                None => Seq::empty(),
            };
            let decision = policy::decision(categories, policy, wanted);
            &&& decision is Deny <==> denied(results)
            &&& decision is Confirm <==> !denied(results) && (unconfirmed(results)
                || flags.contains(true))
            &&& decision is Allow <==> !denied(results) && !unconfirmed(results)
                && !flags.contains(true)
        }),
{
    let results = match policy {
        Some(results) => results,
        None => Seq::empty(),
    };
    lemma_first_denial(results);
    lemma_policy_confirmations(categories, results);
    if let Some(flags) = wanted {
        lemma_all_confirmations(
            policy::policy_confirmations(categories, results),
            categories,
            flags,
        );
    }
}

/// Commands that have page code evaluated need the category for evaluation
/// beside their own: evaluations, logpoints, and breakpoints with a condition.
pub proof fn law_page_code_needs_evaluate(command: JsonView)
    ensures
        policy::evaluates_page_code(command) ==> policy::categories_of(command).contains(
            "evaluate"@,
        ),
        policy::action_of(command) == "debug_eval"@ ==> policy::categories_of(command).contains(
            "evaluate"@,
        ),
        policy::categories_of(command)[0] == policy::primary_category(
            policy::action_of(command),
        ),
{
    let categories = policy::categories_of(command);
    if categories.len() == 2 {
        assert(categories[1] == "evaluate"@);
    } else {
        assert(categories[0] == policy::primary_category(policy::action_of(command)));
    }
}

/// A command that is refused, or that waits for a confirmation, does nothing: it
/// is not started and the state stays as it is.
pub proof fn law_unallowed_commands_do_nothing(
    debugger: DebuggerView,
    now: u64,
    command: JsonView,
    policy: Option<Seq<PolicyView>>,
    wanted: Option<Seq<bool>>,
)
    requires
        policy::action_of(command) != "confirm"@,
        policy::action_of(command) != "deny"@,
        !(policy::decision(policy::categories_of(command), policy, wanted) is Allow),
    ensures
        ({
            let (after, progress) = debugger.execute(now, command, policy, wanted);
            &&& after.state == debugger.state
            &&& progress is Answer
            &&& policy::decision(policy::categories_of(command), policy, wanted) is Deny
                ==> after == debugger
        }),
{
}

/// Confirming runs the command that waits, once, as if it had been allowed;
/// denying drops it.
pub proof fn law_confirming_runs_the_command_once(
    debugger: DebuggerView,
    now: u64,
    command: JsonView,
    policy: Option<Seq<PolicyView>>,
    wanted: Option<Seq<bool>>,
)
    requires
        debugger.answers_pending(command),
    ensures
        policy::action_of(command) == "confirm"@ ==> {
            let (after, _) = debugger.execute(now, command, policy, wanted);
            &&& after.state == dispatch::authorized(
                debugger.state,
                now,
                debugger.pending->Some_0.command,
            ).0
            &&& after.pending is None
            &&& !after.answers_pending(command)
        },
        policy::action_of(command) == "deny"@ ==> {
            let (after, progress) = debugger.execute(now, command, policy, wanted);
            &&& after.state == debugger.state
            &&& after.pending is None
            &&& progress is Answer
        },
{
    reveal_strlit("confirm");
    reveal_strlit("deny");
    assert("confirm"@.len() == 7);
    assert("deny"@.len() == 4);
}

/// A confirmation for a command that does not wait changes nothing.
pub proof fn law_stray_confirmations_change_nothing(
    debugger: DebuggerView,
    now: u64,
    command: JsonView,
    policy: Option<Seq<PolicyView>>,
    wanted: Option<Seq<bool>>,
)
    requires
        policy::action_of(command) == "confirm"@ || policy::action_of(command) == "deny"@,
        !debugger.answers_pending(command),
    ensures
        debugger.execute(now, command, policy, wanted) == (
            debugger,
            ProgressView::Answer(
                policy::failure(policy::id_of(command), dispatch::nothing_pending()),
            ),
        ),
{
}

/// With several pauses a command has to say which one it is about.
pub proof fn law_several_pauses_need_a_selector(state: StateView, command: JsonView)
    requires
        state.paused_sessions.len() > 1,
        !command.has("pauseId"@),
        !command.has("sessionId"@),
        !command.has("tabId"@),
    ensures
        queries::pause_for(state, command) is Err,
{
}

/// The only pause needs no selector.
pub proof fn law_the_only_pause_needs_no_selector(state: StateView, command: JsonView)
    requires
        state.paused_sessions.len() == 1,
        !command.has("pauseId"@),
        !command.has("sessionId"@),
        !command.has("tabId"@),
    ensures
        queries::pause_for(state, command) == Ok::<_, Chars>(state.paused_sessions[0].1),
{
}

/// A call of the binding counts as a hit only where it carries the nonce of
/// this connection and names an installation of this connection, session and
/// context whose probe is an enabled logpoint. Every other call is rejected.
pub proof fn law_only_genuine_calls_are_hits(
    state: StateView,
    now: u64,
    generation: u64,
    session: Chars,
    context: Option<u64>,
    payload: JsonView,
    id: Chars,
    binding: PhysicalView,
)
    requires
        payload.get_str("physicalBindingId"@) == Some(id),
        collections::lookup(state.physical_probes, id) == Some(binding),
    ensures
        ({
            let rejected = state.push_event(
                now,
                "logpoint-rejected"@,
                Some(session),
                events::reason_data("binding-validation-failed"@).with(
                    "executionContextId"@,
                    JsonView::opt_uint(context),
                ),
            );
            let after = state.on_payload(now, generation, session, context, payload);
            &&& payload.get_str("nonce"@) != Some(state.binding_nonce) ==> after == rejected
            &&& payload.get_str("probeId"@) != Some(binding.probe_id) ==> after == rejected
            &&& binding.session_id != session ==> after == rejected
            &&& binding.connection_generation != generation ==> after == rejected
            &&& binding.execution_context_id is Some && binding.execution_context_id != context
                ==> after == rejected
            &&& !events::live_logpoint(state, binding.probe_id) ==> after == rejected
        }),
{
}

/// A call that names no known installation is rejected.
pub proof fn law_calls_for_unknown_installations_are_rejected(
    state: StateView,
    now: u64,
    generation: u64,
    session: Chars,
    context: Option<u64>,
    payload: JsonView,
)
    requires
        payload.get_str("physicalBindingId"@) matches Some(id) ==> collections::lookup(
            state.physical_probes,
            id,
        ) is None,
    ensures
        state.on_payload(now, generation, session, context, payload) == state.push_event(
            now,
            "logpoint-rejected"@,
            Some(session),
            events::reason_data("binding-validation-failed"@).with(
                "executionContextId"@,
                JsonView::opt_uint(context),
            ),
        ),
{
}

/// The owner of a script is never inferred from its execution context.
pub proof fn law_owners_are_not_inferred(params: JsonView)
    ensures
        events::owner_of(params).get_str("status"@) == Some("unknown"@),
        events::owner_of(params).get_str("owner"@) == Some("unknown"@),
        events::owner_of(params).get("ownerId"@) == Some(JsonView::Null),
{
    reveal_strlit("status");
    reveal_strlit("owner");
    reveal_strlit("kind");
    reveal_strlit("ownerId");
    reveal_strlit("confidence");
    reveal_strlit("evidence");
    reveal_strlit("candidates");
    reveal_strlit("reason");
    assert("status"@.len() == 6);
    assert("owner"@.len() == 5);
    assert("kind"@.len() == 4);
    assert("ownerId"@.len() == 7);
    assert("confidence"@.len() == 10);
    assert("evidence"@.len() == 8);
    assert("candidates"@.len() == 10);
    assert("reason"@.len() == 6);
    assert("status"@[0] == 's');
    assert("reason"@[0] == 'r');
}

proof fn lemma_record_owner(
    generation: u64,
    session: Chars,
    known: Option<crate::records::SessionView>,
    script: Chars,
    params: JsonView,
)
    ensures
        events::script_record(generation, session, known, script, params).get("runtimeOwner"@)
            == Some(events::owner_of(params)),
{
    reveal_strlit("runtimeOwner");
    reveal_strlit("initiatorEvidence");
    assert("runtimeOwner"@.len() == 12);
    assert("initiatorEvidence"@.len() == 17);
}

/// No probe is bound again to a script whose owner is not resolved; probes that
/// follow it wait for evidence instead.
pub proof fn law_unresolved_owners_are_never_rebound(
    state: StateView,
    generation: u64,
    session: Chars,
    script: Chars,
)
    requires
        controller::find_script(state.scripts, session, script) matches Some(found)
            ==> found.record.get_or_null("runtimeOwner"@).get_str("status"@) != Some("resolved"@),
    ensures
        state.reconcile(generation, session, script).1.len() == 0,
        state.reconcile(generation, session, script).0.physical_probes == state.physical_probes,
{
}

/// A script that the browser reports never has a probe bound again by itself:
/// nothing in the report resolves its owner.
pub proof fn law_reported_scripts_rebind_nothing(
    state: StateView,
    now: u64,
    generation: u64,
    session: Chars,
    params: JsonView,
    script: Chars,
)
    requires
        params.get_str("scriptId"@) == Some(script),
        script.len() > 0,
        state.enabled_sessions.contains(session),
    ensures
        ({
            let after = state.on_script_parsed(now, generation, session, params).0;
            after.reconcile(generation, session, script).1.len() == 0
        }),
{
    let known = collections::lookup(state.sessions, session);
    let record = events::script_record(generation, session, known, script, params);
    let entry = ScriptView { session_id: session, script_id: script, record };
    let noted = StateView { scripts: controller::put_script(state.scripts, entry), ..state };
    let after = state.on_script_parsed(now, generation, session, params).0;
    controller::lemma_push_event_frame(noted, now, "script-parsed"@, Some(session), record);
    lemma_record_owner(generation, session, known, script, params);
    law_owners_are_not_inferred(params);
    assert(after.scripts.last() == entry);
    assert(controller::find_script(after.scripts, session, script) == Some(entry));
    reveal_strlit("unknown");
    reveal_strlit("resolved");
    assert("unknown"@.len() == 7);
    assert("resolved"@.len() == 8);
    law_unresolved_owners_are_never_rebound(after, generation, session, script);
}

/// Setting a probe begins with the syntax checks of its expressions. A check
/// that fails ends the command.
pub proof fn law_syntax_is_checked_first(
    state: StateView,
    command: JsonView,
    kind: ProbeKind,
    machine: SetProbeView,
    number: u64,
    now: u64,
    reply: Result<JsonView, Chars>,
)
    requires
        SetProbeView::start(state, command, kind) == StepView::Wait(machine),
    ensures
        machine.stage == probe_set::compile_stage(probe_request::checks_of(machine.request)),
        machine.stage matches ProbeStageView::Compile(check, rest) ==> {
            let (after, next, step) = machine.advance(state, number, now, reply);
            &&& after == state
            &&& next == number
            &&& check.fault(reply) matches Some(e) ==> step == StepView::<SetProbeView>::Done(
                Err(e),
            )
            &&& check.fault(reply) is None ==> step == StepView::Wait(
                machine.at(probe_set::compile_stage(rest)),
            )
        },
{
}

/// Until a location is chosen, setting a probe changes nothing: neither the
/// state nor the numbers for identifiers. Where no location qualifies the
/// command ends there, and nothing is installed.
pub proof fn law_nothing_is_installed_without_a_location(
    machine: SetProbeView,
    state: StateView,
    number: u64,
    now: u64,
    reply: Result<JsonView, Chars>,
)
    requires
        machine.stage is Compile || machine.stage is Source || machine.stage is Forward
            || machine.stage is Backward || machine.stage is Verify,
    ensures
        ({
            let (after, next, step) = machine.advance(state, number, now, reply);
            &&& after == state
            &&& step is Done ==> next == number && step->Done_0 is Err
            &&& step matches StepView::Wait(m) ==> (m.stage is Bind || m.stage is Install ==> (
            m.stage is Bind <==> machine.prepared.install_binding))
        }),
{
}

/// A selection that fails ends the command with its message.
pub proof fn law_failed_selections_end_the_command(
    machine: SetProbeView,
    state: StateView,
    number: u64,
    lookup: probe_set::LookupView,
    error: Chars,
)
    requires
        machine.request.resolution().select(lookup.locations, lookup.source) == Err::<
            (JsonView, Chars, u64),
            Chars,
        >(error),
    ensures
        machine.pick(state, number, lookup) == (
            state,
            number,
            StepView::<SetProbeView>::Done(Err(error)),
        ),
{
}

/// A breakpoint that was set on a page that has moved on is taken back: it is
/// not recorded, and the command fails.
pub proof fn law_stale_installations_are_taken_back(
    machine: SetProbeView,
    state: StateView,
    now: u64,
    plan: probe_set::PlanView,
    result: JsonView,
    id: Chars,
)
    requires
        state.moved_on(machine.request, machine.prepared),
        result.get_str("breakpointId"@) == Some(id),
    ensures
        machine.after_install(state, now, plan, Ok(result)) == (
            state,
            StepView::Wait(machine.at(ProbeStageView::RemoveStale(id))),
        ),
        machine.at(ProbeStageView::RemoveStale(id)).request().method
            == "Debugger.removeBreakpoint"@,
{
}

/// With the last logpoint of a session its binding goes: the binding is removed
/// from the page, and once that was tried the session counts as unbound.
pub proof fn law_the_last_logpoint_takes_the_binding(
    removal: RemovalView,
    state: StateView,
    now: u64,
    session: Chars,
)
    requires
        removal.probe.kind == ProbeKind::Logpoint,
        removal.session() == Some(session),
        !removal.forget(state).has_logpoint(session),
    ensures
        ({
            let (after, step) = removal.commit(state, now);
            &&& !removal.connected ==> !after.binding_sessions.contains(session) && step is Done
            &&& removal.connected ==> {
                &&& step matches StepView::Wait(machine)
                &&& machine.stage matches RemoveStageView::Unbind(unbind)
                &&& unbind.session_id == session
            }
        }),
{
    broadcast use tables::lemma_filter_holds;

    let gone = removal.forget(state);
    let data = JsonView::object().with(
        "probe"@,
        removal.probe.to_json(gone.physical_probes),
    ).with("cleanupErrors"@, JsonView::texts(removal.errors));
    let told = gone.push_event(now, "probe-removed"@, removal.session(), data);
    controller::lemma_push_event_frame(gone, now, "probe-removed"@, removal.session(), data);
    if told.has_logpoint(session) {
        let i = choose|i: int|
            0 <= i < told.logical_probes.len() && crate::probe_remove::logpoint_in(
                #[trigger] told.logical_probes[i].1,
                session,
            );
        assert(crate::probe_remove::logpoint_in(gone.logical_probes[i].1, session));
        assert(false);
    }
}

/// Once the removal of a binding is done, the session counts as unbound.
pub proof fn law_removed_bindings_are_unlisted(
    machine: RemoveProbeView,
    state: StateView,
    now: u64,
    reply: Result<JsonView, Chars>,
    unbind: crate::operation::UnbindView,
)
    requires
        machine.stage == RemoveStageView::Unbind(unbind),
        unbind.advance(reply) is Done,
    ensures
        !machine.advance(state, now, reply).0.binding_sessions.contains(unbind.session_id),
        machine.advance(state, now, reply).1 is Done,
{
    broadcast use tables::lemma_filter_holds;

    let errors = unbind.advance(reply)->Done_0;
    let unlisted = state.without_binding(unbind.session_id);
    controller::lemma_push_event_frame(
        unlisted,
        now,
        "binding-residue"@,
        Some(unbind.session_id),
        JsonView::object().with(
            "bindingName"@,
            JsonView::Str(machine.removal.binding_name),
        ).with("errors"@, JsonView::texts(errors)),
    );
}

/// A session in which enabling fails does not count as enabled.
pub proof fn law_failed_enabling_is_undone(
    machine: EnableView,
    state: StateView,
    error: Chars,
)
    requires
        machine.stage == EnableStage::Runtime || machine.stage == EnableStage::Debugger,
    ensures
        !machine.advance(state, Err(error)).0.enabled_sessions.contains(machine.session_id),
        machine.advance(state, Err(error)).1 == StepView::<EnableView>::Done(Err(error)),
{
    broadcast use tables::lemma_filter_holds;

}

} // verus!
