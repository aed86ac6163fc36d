//! Binding probes again, and taking back what could not be kept: what is asked
//! for, for which probes, and what is left of it.

use vstd::prelude::*;

use crate::collections;
use crate::controller;
use crate::controller::StateView;
use crate::events;
use crate::json;
use crate::json::JsonView;
use crate::laws::lookup as lookup_laws;
use crate::laws::news;
use crate::laws::tables;
use crate::logpoint;
use crate::operation::{StepView, UnbindStepView, UnbindView};
use crate::probe_request;
use crate::probe_request::{PreparedView, ProbeRequestView};
use crate::probe_set;
use crate::probe_set::{LookupView, PlanView, ProbeStageView, SetProbeView};
use crate::reconcile;
use crate::records::{LogicalView, PhysicalView, ProbeKind, ScriptView, SessionView};
use crate::source;
use crate::text;
use crate::text::Chars;

verus! {

proof fn lemma_texts_read_back(values: Seq<Chars>)
    ensures
        events::strings_among(values.map_values(|s: Chars| JsonView::Str(s))) == values,
    decreases values.len(),
{
    reveal_with_fuel(Seq::filter_map, 2);
    let all = values.map_values(|s: Chars| JsonView::Str(s));
    if values.len() > 0 {
        let rest = values.drop_last();
        lemma_texts_read_back(rest);
        assert(all.drop_last() =~= rest.map_values(|s: Chars| JsonView::Str(s)));
        assert(all.last() == JsonView::Str(values.last()));
        assert(values =~= rest.push(values.last()));
        assert(events::strings_among(all) =~= rest + seq![values.last()]);
    } else {
        assert(events::strings_among(all) =~= values);
    }
}

/// Binding a probe again asks for what was asked for at first: the command that
/// is made of the probe is taken as the same request, for the script that came
/// in its place, with the identifier that the probe has.
pub proof fn law_binding_again_repeats_the_request(
    request: ProbeRequestView,
    prepared: PreparedView,
    plan: PlanView,
    session: Chars,
    script: Chars,
)
    requires
        request.line >= 1,
        request.fault(true) is None,
        request.persistent,
        request.tags is Object,
    ensures
        ({
            let probe = probe_set::logical_of(request, prepared, plan);
            let command = reconcile::rebind_command(probe, session, script);
            &&& command.get("sessionId"@) == Some(JsonView::Str(session))
            &&& probe_request::probe_request(command, request.kind) == Ok::<
                ProbeRequestView,
                Chars,
            >(
                ProbeRequestView {
                    script_id: script,
                    rebind: Some(plan.probe_id),
                    ..request
                },
            )
        }),
{
    reveal_strlit("connectionGeneration");
    reveal_strlit("sessionId");
    reveal_strlit("documentGeneration");
    reveal_strlit("scriptId");
    reveal_strlit("url");
    reveal_strlit("executionContextId");
    reveal_strlit("runtimeOwner");
    reveal_strlit("requestedLine");
    reveal_strlit("requestedColumn");
    reveal_strlit("columnExplicit");
    reveal_strlit("mode");
    reveal_strlit("maxLines");
    reveal_strlit("maxUtf16Distance");
    reveal_strlit("resolutionReason");
    reveal_strlit("utf16Distance");
    reveal_strlit("line");
    reveal_strlit("column");
    reveal_strlit("persist");
    reveal_strlit("expressions");
    reveal_strlit("tags");
    reveal_strlit("rebindProbeId");
    reveal_strlit("condition");
    reveal_strlit("when");
    assert("connectionGeneration"@.len() == 20);
    assert("sessionId"@.len() == 9);
    assert("documentGeneration"@.len() == 18);
    assert("scriptId"@.len() == 8);
    assert("url"@.len() == 3);
    assert("executionContextId"@.len() == 18);
    assert("runtimeOwner"@.len() == 12);
    assert("requestedLine"@.len() == 13);
    assert("requestedColumn"@.len() == 15);
    assert("columnExplicit"@.len() == 14);
    assert("mode"@.len() == 4);
    assert("maxLines"@.len() == 8);
    assert("maxUtf16Distance"@.len() == 16);
    assert("resolutionReason"@.len() == 16);
    assert("utf16Distance"@.len() == 13);
    assert("line"@.len() == 4);
    assert("column"@.len() == 6);
    assert("persist"@.len() == 7);
    assert("expressions"@.len() == 11);
    assert("tags"@.len() == 4);
    assert("rebindProbeId"@.len() == 13);
    assert("condition"@.len() == 9);
    assert("when"@.len() == 4);
    assert("condition"@[0] == 'c');
    assert("documentGeneration"@[0] == 'd');
    assert("executionContextId"@[0] == 'e');
    assert("line"@[0] == 'l');
    assert("maxLines"@[0] == 'm');
    assert("maxUtf16Distance"@[0] == 'm');
    assert("mode"@[0] == 'm');
    assert("rebindProbeId"@[0] == 'r');
    assert("rebindProbeId"@[2] == 'b');
    assert("requestedLine"@[0] == 'r');
    assert("requestedLine"@[2] == 'q');
    assert("resolutionReason"@[0] == 'r');
    assert("scriptId"@[0] == 's');
    assert("sessionId"@[0] == 's');
    assert("tags"@[0] == 't');
    assert("utf16Distance"@[0] == 'u');
    assert("when"@[0] == 'w');
    let probe = probe_set::logical_of(request, prepared, plan);
    let command = reconcile::rebind_command(probe, session, script);
    lemma_texts_read_back(request.expressions);
    let items = request.expressions.map_values(|s: Chars| JsonView::Str(s));
    assert(command.get_array("expressions"@) == Some(items));
    assert(probe_request::all_strings(items));
    assert(probe.target.get("requestedLine"@) == Some(JsonView::Uint(request.line)));
    assert(probe.target.get("requestedColumn"@) == Some(JsonView::Uint(request.column)));
    assert(probe.target.get("columnExplicit"@) == Some(JsonView::Bool(request.column_explicit)));
    assert(probe.target.get("mode"@) == Some(JsonView::Str(request.mode)));
    assert(probe.target.get("maxLines"@) == Some(JsonView::Uint(request.max_lines)));
    assert(probe.target.get("maxUtf16Distance"@) == Some(
        JsonView::Uint(request.max_utf16_distance),
    ));
    assert(command.get("line"@) == Some(JsonView::Uint(request.line)));
    assert(command.get("column"@) == Some(JsonView::Uint(request.column)));
    assert(command.get("columnExplicit"@) == Some(JsonView::Bool(request.column_explicit)));
    assert(command.get("mode"@) == Some(JsonView::Str(request.mode)));
    assert(command.get("maxLines"@) == Some(JsonView::Uint(request.max_lines)));
    assert(command.get("maxUtf16Distance"@) == Some(JsonView::Uint(request.max_utf16_distance)));
    assert(command.get("tags"@) == Some(request.tags));
    assert(command.get("persist"@) == Some(JsonView::Bool(true)));
    assert(command.get("rebindProbeId"@) == Some(JsonView::Str(plan.probe_id)));
    assert(command.get_str("condition"@) == request.condition);
    assert(command.get_str("when"@) == request.when);
    assert(command.get_str("scriptId"@) == Some(script));
}

/// Whether a value is one that equals only itself.
pub open spec fn is_plain(value: Option<JsonView>) -> bool {
    match value {
        Some(JsonView::Float(_)) => false,
        Some(JsonView::Array(_)) => false,
        Some(JsonView::Object(_)) => false,
        _ => true,
    }
}

proof fn lemma_plain(a: Option<JsonView>, b: Option<JsonView>)
    requires
        is_plain(a) || is_plain(b),
    ensures
        json::equal_optional(a, b) <==> a == b,
{
}

/// Part of a member of an object, where there is one.
pub open spec fn part(object: JsonView, member: Chars, key: Chars) -> Option<JsonView> {
    match object.get(member) {
        Some(value) => value.get(key),
        None => None,
    }
}

/// A probe is bound again in a script that came in the place of the one it was
/// set in: the probe is persistent and enabled, the script has the same address,
/// the same owner and the same context, in the same document of the same session
/// and connection, and the probe is not installed in it yet.
pub proof fn law_probes_are_bound_again_in_the_same_place(
    probe: LogicalView,
    physical: Seq<(Chars, PhysicalView)>,
    generation: u64,
    session: SessionView,
    session_id: Chars,
    script_id: Chars,
    script: JsonView,
)
    requires
        is_plain(script.get("url"@)),
        is_plain(part(script, "runtimeOwner"@, "ownerId"@)),
        is_plain(script.get("executionContextId"@)),
    ensures
        reconcile::can_rebind(
            probe,
            physical,
            generation,
            session,
            session_id,
            script_id,
            script,
        ) <==> {
            &&& probe.persistent
            &&& probe.enabled
            &&& probe.target.get("sessionId"@) == Some(JsonView::Str(session_id))
            &&& probe.target.get("url"@) == script.get("url"@)
            &&& probe.target.get("connectionGeneration"@) == Some(JsonView::Uint(generation))
            &&& probe.target.get("documentGeneration"@) == Some(
                JsonView::Uint(session.document_generation),
            )
            &&& part(probe.target, "runtimeOwner"@, "ownerId"@) == part(
                script,
                "runtimeOwner"@,
                "ownerId"@,
            )
            &&& probe.target.get("executionContextId"@) == script.get("executionContextId"@)
            &&& forall|i: int|
                0 <= i < probe.physical_ids.len() ==> !stands_in(
                    physical,
                    #[trigger] probe.physical_ids[i],
                    script_id,
                )
        },
{
    lemma_plain(probe.target.get("url"@), script.get("url"@));
    lemma_plain(
        part(probe.target, "runtimeOwner"@, "ownerId"@),
        part(script, "runtimeOwner"@, "ownerId"@),
    );
    lemma_plain(probe.target.get("executionContextId"@), script.get("executionContextId"@));
    assert forall|i: int| 0 <= i < probe.physical_ids.len() implies (reconcile::installed_at(
        physical,
        #[trigger] probe.physical_ids[i],
        script_id,
    ) <==> stands_in(physical, probe.physical_ids[i], script_id)) by {}
}

/// Whether an installation stands in a script.
pub open spec fn stands_in(
    physical: Seq<(Chars, PhysicalView)>,
    id: Chars,
    script_id: Chars,
) -> bool {
    collections::lookup(physical, id) matches Some(binding) && binding.script_id == script_id
}

/// A script whose owner is resolved has every probe bound again that can be, each
/// once, and nothing is changed before that. Where the owner is not resolved,
/// nothing is bound: the persistent probes of the address wait, and the others
/// stay as they are.
pub proof fn law_every_probe_that_can_is_bound_again(
    state: StateView,
    session_id: Chars,
    script_id: Chars,
    script: ScriptView,
    session: SessionView,
    i: int,
    other: u64,
)
    requires
        other != state.connection_generation,
        controller::find_script(state.scripts, session_id, script_id) == Some(script),
        collections::lookup(state.sessions, session_id) == Some(session),
        is_plain(script.record.get("url"@)),
        0 <= i < state.logical_probes.len(),
    ensures
        ({
            let (after, again) = state.reconcile(
                state.connection_generation,
                session_id,
                script_id,
            );
            let entry = state.logical_probes[i];
            let probe = entry.1;
            if part(script.record, "runtimeOwner"@, "status"@) == Some(
                JsonView::Str("resolved"@),
            ) {
                &&& after == state
                &&& reconcile::can_rebind(
                    probe,
                    state.physical_probes,
                    state.connection_generation,
                    session,
                    session_id,
                    script_id,
                    script.record,
                ) ==> exists|k: int| #![trigger again[k]]
                    0 <= k < again.len() && again[k].probe_id == probe.probe_id && again[k].kind
                        == probe.kind && again[k].command == reconcile::rebind_command(
                        probe,
                        session_id,
                        script_id,
                    )
                &&& forall|k: int|
                    0 <= k < again.len() ==> binds_one(
                        state,
                        session,
                        session_id,
                        script_id,
                        script.record,
                        #[trigger] again[k],
                    )
            } else {
                &&& again.len() == 0
                &&& after.logical_probes.len() == state.logical_probes.len()
                &&& after == StateView { logical_probes: after.logical_probes, ..state }
                &&& after.logical_probes[i].0 == entry.0
                &&& if probe.persistent && probe.enabled && probe.target.get("sessionId"@) == Some(
                    JsonView::Str(session_id),
                ) && probe.target.get("url"@) == script.record.get("url"@) {
                    after.logical_probes[i].1 == LogicalView {
                        status: "awaiting-owner-evidence"@,
                        ..probe
                    }
                } else {
                    after.logical_probes[i].1 == probe
                }
            }
        }),
        state.reconcile(other, session_id, script_id) == (state, Seq::<reconcile::RebindView>::empty()),
{
    broadcast use tables::lemma_filter_holds;

    let generation = state.connection_generation;
    let probe = state.logical_probes[i].1;
    let values = collections::values(state.logical_probes);
    let keep = |p: LogicalView|
        reconcile::can_rebind(
            p,
            state.physical_probes,
            generation,
            session,
            session_id,
            script_id,
            script.record,
        );
    let chosen = values.filter(keep);
    assert(values[i] == probe);
    lemma_plain(probe.target.get("url"@), script.record.get("url"@));
    let (after, again) = state.reconcile(generation, session_id, script_id);
    let resolved = part(script.record, "runtimeOwner"@, "status"@) == Some(
        JsonView::Str("resolved"@),
    );
    if resolved {
        assert(again.len() == chosen.len());
        if keep(probe) {
            assert(values.contains(probe));
            assert(chosen.contains(probe));
            let k = choose|k: int| 0 <= k < chosen.len() && chosen[k] == probe;
            assert(again[k].probe_id == probe.probe_id);
        }
        assert forall|k: int| 0 <= k < again.len() implies binds_one(
            state,
            session,
            session_id,
            script_id,
            script.record,
            #[trigger] again[k],
        ) by {
            assert(chosen.contains(chosen[k]));
            let j = choose|j: int| 0 <= j < values.len() && values[j] == chosen[k];
            assert(state.logical_probes[j].1 == chosen[k]);
        }
    }
}

/// Whether a rebinding is that of a probe that can be bound again.
pub open spec fn binds_one(
    state: StateView,
    session: SessionView,
    session_id: Chars,
    script_id: Chars,
    record: JsonView,
    again: reconcile::RebindView,
) -> bool {
    exists|j: int|
        0 <= j < state.logical_probes.len() && again.probe_id == (
        #[trigger] state.logical_probes[j]).1.probe_id && again.kind
            == state.logical_probes[j].1.kind && again.command == reconcile::rebind_command(
            state.logical_probes[j].1,
            session_id,
            script_id,
        ) && reconcile::can_rebind(
            state.logical_probes[j].1,
            state.physical_probes,
            state.connection_generation,
            session,
            session_id,
            script_id,
            record,
        )
}

/// A probe that could not be bound again says so, with the script and the reason;
/// everything else of it stays, and so do the other probes.
pub proof fn law_failed_rebinding_is_told(
    state: StateView,
    now: u64,
    session: Chars,
    script: Chars,
    probe_id: Chars,
    probe: LogicalView,
    error: Chars,
    other: Chars,
)
    requires
        collections::lookup(state.logical_probes, probe_id) == Some(probe),
    ensures
        ({
            let after = state.rebind_failed(now, session, script, probe_id, error);
            &&& collections::lookup(after.logical_probes, probe_id) == Some(
                LogicalView { status: "rebind-failed"@, ..probe },
            )
            &&& other != probe_id ==> collections::lookup(after.logical_probes, other)
                == collections::lookup(state.logical_probes, other)
            &&& after.physical_probes == state.physical_probes
            &&& after.events.len() > 0 ==> {
                let told = after.events.last();
                &&& told.kind == "probe-rebind-failed"@
                &&& told.session_id == Some(session)
                &&& told.data.get("probeId"@) == Some(JsonView::Str(probe_id))
                &&& told.data.get("scriptId"@) == Some(JsonView::Str(script))
                &&& told.data.get("error"@) == Some(JsonView::Str(error))
            }
        }),
{
    reveal_strlit("probeId");
    reveal_strlit("scriptId");
    reveal_strlit("error");
    assert("probeId"@.len() == 7);
    assert("scriptId"@.len() == 8);
    assert("error"@.len() == 5);
    let failed = LogicalView { status: "rebind-failed"@, ..probe };
    tables::lemma_lookup_put(state.logical_probes, probe_id, failed, probe_id);
    tables::lemma_lookup_put(state.logical_probes, probe_id, failed, other);
    let marked = StateView {
        logical_probes: collections::put(state.logical_probes, probe_id, failed),
        ..state
    };
    let data = JsonView::object().with("probeId"@, JsonView::Str(probe_id)).with(
        "scriptId"@,
        JsonView::Str(script),
    ).with("error"@, JsonView::Str(error));
    news::law_the_newest_event_is_what_was_told(
        marked,
        now,
        "probe-rebind-failed"@,
        Some(session),
        data,
    );
    controller::lemma_push_event_frame(marked, now, "probe-rebind-failed"@, Some(session), data);
}

/// A probe that is bound again keeps all that it is and gets one installation
/// more; it is rebound from then on. A new one is bound, or waits for evidence of
/// its owner where it is persistent and the owner is unknown or ambiguous.
pub proof fn law_rebound_probes_keep_what_they_are(
    state: StateView,
    physical: PhysicalView,
    logical: LogicalView,
    existing: LogicalView,
    owner: JsonView,
    persistent: bool,
)
    requires
        collections::lookup(state.logical_probes, logical.probe_id) == Some(existing),
    ensures
        collections::lookup(
            state.with_probe(physical, logical).logical_probes,
            logical.probe_id,
        ) == Some(
            LogicalView {
                physical_ids: existing.physical_ids.push(physical.physical_id),
                status: "rebound"@,
                ..existing
            },
        ),
        probe_set::bound_status(persistent, owner) == (if persistent && (owner.get("status"@)
            == Some(JsonView::Str("unknown"@)) || owner.get("status"@) == Some(
            JsonView::Str("ambiguous"@),
        )) {
            "bound-awaiting-owner-evidence"@
        } else {
            "bound"@
        }),
{
    tables::lemma_lookup_put(
        state.logical_probes,
        logical.probe_id,
        LogicalView {
            physical_ids: existing.physical_ids.push(physical.physical_id),
            status: "rebound"@,
            ..existing
        },
        logical.probe_id,
    );
}

/// Whether a step takes the binding of a setting back, in the contexts of its
/// session as far as the connection is still the same.
pub open spec fn takes_back(state: StateView, machine: SetProbeView, cleanup: UnbindView) -> bool {
    cleanup == UnbindView::start(
        machine.prepared.session_id,
        machine.prepared.binding_name,
        if state.connection_generation == machine.prepared.generation && state.binding_name
            == machine.prepared.binding_name {
            events::contexts_of(state, machine.prepared.session_id)
        } else {
            Seq::empty()
        },
    )
}

/// An installation that fails ends the command with the reason of the browser. A
/// binding that was made for it is taken back first; so is one of an installation
/// that has no name. What was installed after the connection, the document or
/// the script had gone is removed in the browser, and the command fails.
pub proof fn law_failed_installations_are_taken_back(
    machine: SetProbeView,
    state: StateView,
    number: u64,
    now: u64,
    plan: PlanView,
    result: JsonView,
    id: Chars,
    error: Chars,
    reply: Result<JsonView, Chars>,
)
    requires
        machine.stage == ProbeStageView::Install(plan),
    ensures
        match machine.advance(state, number, now, Err(error)) {
            (after, next_number, StepView::Wait(next)) => {
                &&& machine.prepared.install_binding
                &&& after == state
                &&& next_number == number
                &&& next.prepared == machine.prepared
                &&& match next.stage {
                    ProbeStageView::CleanFailed(e, cleanup) => e == error && takes_back(
                        state,
                        machine,
                        cleanup,
                    ) && next.request() == cleanup.request(),
                    _ => false,
                }
            },
            (after, next_number, StepView::Done(outcome)) => {
                &&& !machine.prepared.install_binding
                &&& after == state
                &&& outcome == Err::<JsonView, Chars>(error)
            },
        },
        !(result.get("breakpointId"@) matches Some(JsonView::Str(_))) ==> match machine.advance(
            state,
            number,
            now,
            Ok(result),
        ) {
            (after, next_number, StepView::Wait(next)) => {
                &&& machine.prepared.install_binding
                &&& after == state
                &&& match next.stage {
                    ProbeStageView::CleanNameless(cleanup) => takes_back(state, machine, cleanup)
                        && next.request() == cleanup.request(),
                    _ => false,
                }
            },
            (after, next_number, StepView::Done(outcome)) => {
                &&& !machine.prepared.install_binding
                &&& after == state
                &&& outcome == Err::<JsonView, Chars>("Chrome did not return a breakpoint ID"@)
            },
        },
        result.get("breakpointId"@) == Some(JsonView::Str(id)) && state.moved_on(
            machine.request,
            machine.prepared,
        ) ==> match machine.advance(state, number, now, Ok(result)) {
            (after, next_number, StepView::Wait(next)) => {
                let request = next.request();
                &&& after == state
                &&& request.method == "Debugger.removeBreakpoint"@
                &&& request.session_id == machine.prepared.session_id
                &&& request.params is Some
                &&& request.params->Some_0.get("breakpointId"@) == Some(JsonView::Str(id))
                &&& match next.advance(state, number, now, reply) {
                    (last, _, StepView::Done(outcome)) => {
                        &&& !machine.prepared.install_binding
                        &&& last == state
                        &&& outcome == Err::<JsonView, Chars>(
                            "Browser connection changed while setting the probe"@,
                        )
                    },
                    (last, _, StepView::Wait(cleaning)) => {
                        &&& machine.prepared.install_binding
                        &&& last == state
                        &&& match cleaning.stage {
                            ProbeStageView::CleanStale(cleanup) => takes_back(
                                state,
                                machine,
                                cleanup,
                            ) && cleaning.request() == cleanup.request(),
                            _ => false,
                        }
                    },
                }
            },
            _ => false,
        },
{
}

/// Whether the state has moved on from what a setting was prepared for: another
/// connection, no such session, another document in it, or no such script.
pub proof fn law_settings_notice_what_moved_on(
    state: StateView,
    request: ProbeRequestView,
    prepared: PreparedView,
)
    ensures
        !state.moved_on(request, prepared) <==> {
            &&& state.connection_generation == prepared.generation
            &&& collections::lookup(state.sessions, prepared.session_id) matches Some(session)
                && session.document_generation == prepared.document_generation
            &&& controller::find_script(
                state.scripts,
                prepared.session_id,
                request.script_id,
            ) is Some
        },
{
}

/// When the binding is taken back, the session no longer counts as one that has
/// it, as far as the connection is still the same; then the command fails with
/// its reason, and with what could not be cleaned up.
pub proof fn law_cleanups_end_with_the_failure(
    machine: SetProbeView,
    state: StateView,
    number: u64,
    now: u64,
    cleanup: UnbindView,
    error: Chars,
    errors: Seq<Chars>,
    reply: Result<JsonView, Chars>,
)
    requires
        cleanup.advance(reply) == UnbindStepView::Done(errors),
    ensures
        ({
            let same = state.connection_generation == machine.prepared.generation
                && state.binding_name == machine.prepared.binding_name;
            let after = if same {
                StateView {
                    binding_sessions: collections::set_without(
                        state.binding_sessions,
                        machine.prepared.session_id,
                    ),
                    ..state
                }
            } else {
                state
            };
            &&& machine.stage == ProbeStageView::CleanFailed(error, cleanup) ==> machine.advance(
                state,
                number,
                now,
                reply,
            ) == (
                after,
                number,
                StepView::<SetProbeView>::Done(
                    Err(
                        if errors.len() > 0 {
                            error + "; Runtime binding cleanup also failed: "@ + text::joined(
                                errors,
                                "; "@,
                            )
                        } else {
                            error
                        },
                    ),
                ),
            )
            &&& machine.stage == ProbeStageView::CleanNameless(cleanup) ==> machine.advance(
                state,
                number,
                now,
                reply,
            ) == (
                after,
                number,
                StepView::<SetProbeView>::Done(Err("Chrome did not return a breakpoint ID"@)),
            )
            &&& machine.stage == ProbeStageView::CleanStale(cleanup) ==> machine.advance(
                state,
                number,
                now,
                reply,
            ) == (
                after,
                number,
                StepView::<SetProbeView>::Done(
                    Err("Browser connection changed while setting the probe"@),
                ),
            )
        }),
{
}

/// What is planned breaks under the condition of its own probe: a logpoint under
/// the script that reports through the binding of its connection, with its
/// secret, as this probe and this installation, where the probe asks for it; a
/// breakpoint under the condition that was given, or always.
pub proof fn law_plans_have_the_condition_of_their_probe(
    machine: SetProbeView,
    state: StateView,
    number: u64,
    lookup: LookupView,
)
    ensures
        machine.pick(state, number, lookup).2 matches StepView::Wait(next) ==> {
            let plan = lookup_laws::plan_of(next);
            if machine.request.kind == ProbeKind::Logpoint {
                plan.condition == logpoint::logpoint_script(
                    machine.prepared.binding_name,
                    machine.prepared.nonce,
                    plan.probe_id,
                    plan.physical_id,
                    machine.request.when,
                    machine.request.expressions,
                )
            } else {
                plan.condition == (match machine.request.condition {
                    Some(condition) => condition,
                    None => Seq::empty(),
                })
            }
        },
{
}

/// What the browser does not answer as it should ends the setting with what is
/// missing: a source, or the locations in it. What it refuses is told.
pub proof fn law_incomplete_answers_end_the_setting(
    machine: SetProbeView,
    state: StateView,
    number: u64,
    now: u64,
    lookup: LookupView,
    result: JsonView,
    error: Chars,
)
    ensures
        machine.stage is Source && !(result.get("scriptSource"@) matches Some(JsonView::Str(_)))
            ==> machine.advance(state, number, now, Ok(result)) == (
            state,
            number,
            StepView::<SetProbeView>::Done(
                Err("Chrome did not return compiled script source"@),
            ),
        ),
        machine.stage == ProbeStageView::Forward(lookup) && !(result.get(
            "locations"@,
        ) matches Some(JsonView::Array(_))) ==> machine.advance(state, number, now, Ok(result)) == (
            state,
            number,
            StepView::<SetProbeView>::Done(
                Err("Chrome did not return possible breakpoint locations"@),
            ),
        ),
        machine.stage is Source || machine.stage is Forward || machine.stage is Backward
            || machine.stage is Verify || machine.stage is Bind ==> machine.advance(
            state,
            number,
            now,
            Err(error),
        ) == (state, number, StepView::<SetProbeView>::Done(Err(error))),
{
}

/// Only what looks back asks for earlier locations: any other mode chooses among
/// what stands behind the request at once. Looking back begins with the first of
/// what stands behind it; where there is nothing, there is nothing to reach.
pub proof fn law_earlier_locations_are_for_those_who_look_back(
    machine: SetProbeView,
    state: StateView,
    number: u64,
    now: u64,
    lookup: LookupView,
    result: JsonView,
    locations: Seq<JsonView>,
)
    requires
        result.get("locations"@) == Some(JsonView::Array(locations)),
    ensures
        machine.stage == ProbeStageView::Forward(lookup) && machine.request.mode != "before"@
            && machine.request.mode != "nearest"@ ==> machine.advance(
            state,
            number,
            now,
            Ok(result),
        ) == machine.pick(state, number, LookupView { locations, ..lookup }),
        machine.stage == ProbeStageView::Backward(lookup) && lookup.locations.len() == 0
            ==> machine.advance(state, number, now, Ok(result)) == machine.pick(
            state,
            number,
            lookup,
        ),
        machine.stage == ProbeStageView::Backward(lookup) && lookup.locations.len() > 0 ==> {
            let near = probe_set::tried(machine.request, lookup.source, locations);
            match machine.advance(state, number, now, Ok(result)) {
                (after, _, StepView::Wait(next)) => near.len() > 0 ==> after == state
                    && match next.stage {
                    ProbeStageView::Verify(kept, pending) => {
                        &&& kept == lookup
                        &&& pending.anchor == lookup.locations[0]
                        &&& pending.candidate == near[0]
                        &&& pending.rest == near.skip(1)
                    },
                    _ => false,
                },
                _ => near.len() == 0,
            }
        },
{
}

/// Whether a location stands before the request, and within reach of it.
pub open spec fn within_reach(request: ProbeRequestView, s: Chars, location: JsonView) -> bool {
    let column = match location.get("columnNumber"@) {
        Some(JsonView::Uint(n)) => n as int,
        _ => 0,
    };
    match location.get("lineNumber"@) {
        Some(JsonView::Uint(line)) => {
            let here = source::utf16_offset(s, line as int, column);
            let asked = source::utf16_offset(s, request.line - 1, request.column - 1);
            &&& here is Some
            &&& asked is Some
            &&& here->Some_0 < asked->Some_0
            &&& asked->Some_0 - here->Some_0 <= request.max_utf16_distance
            &&& -request.max_lines <= line - (request.line - 1) <= request.max_lines
        },
        _ => false,
    }
}

/// What is tried are the earlier locations within reach, the last of them first,
/// and no more than the first hundred and twenty-eight.
pub proof fn law_the_last_locations_are_tried_first(
    request: ProbeRequestView,
    s: Chars,
    locations: Seq<JsonView>,
    i: int,
)
    requires
        0 <= i < locations.len(),
        locations[i].get("lineNumber"@) matches Some(JsonView::Uint(_)),
    ensures
        probe_set::stands_before(request, s, locations[i]) <==> within_reach(
            request,
            s,
            locations[i],
        ),
        ({
            let near = locations.filter(|l: JsonView| probe_set::stands_before(request, s, l));
            let tried = probe_set::tried(request, s, locations);
            &&& tried.len() == (if near.len() > 128 {
                128
            } else {
                near.len() as int
            })
            &&& forall|k: int| 0 <= k < tried.len() ==> #[trigger] tried[k] == near[near.len() - 1
                - k]
        }),
{
}

} // verus!
