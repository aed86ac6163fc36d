//! Commands, replies and rebinding keep the state consistent.

use vstd::prelude::*;

use crate::activation::{DisableStageView, DisableView, EnableView};
use crate::collections;
use crate::controller::StateView;
use crate::dispatch;
use crate::dispatch::OperationView;
use crate::json::JsonView;
use crate::laws::consistency;
use crate::laws::probes;
use crate::laws::ring;
use crate::laws::tables;
use crate::operation::UnbindStepView;
use crate::policy;
use crate::probe_remove;
use crate::probe_remove::{RemovalView, RemoveProbeView, RemoveStageView};
use crate::probe_set::ProbeStageView;
use crate::reconcile;
use crate::records::{LogicalView, PhysicalTable, PhysicalView, ProbeKind};
use crate::text::Chars;

verus! {

proof fn lemma_installations_hold(physical: PhysicalTable, ids: Seq<Chars>, binding: PhysicalView)
    ensures
        probe_remove::installations(physical, ids).contains(binding) <==> exists|i: int|
            0 <= i < ids.len() && collections::lookup(physical, #[trigger] ids[i]) == Some(
                binding,
            ),
    decreases ids.len(),
{
    reveal(Seq::filter_map);
    let found = probe_remove::installations(physical, ids);
    if ids.len() > 0 {
        let rest = ids.drop_last();
        let before = probe_remove::installations(physical, rest);
        lemma_installations_hold(physical, rest, binding);
        assert(found == match collections::lookup(physical, ids.last()) {
            Some(b) => before.push(b),
            None => before,
        });
        if found.contains(binding) {
            let j = found.index_of(binding);
            if j < before.len() {
                assert(before[j] == binding);
                assert(before.contains(binding));
                let i = choose|i: int|
                    0 <= i < rest.len() && collections::lookup(physical, #[trigger] rest[i])
                        == Some(binding);
                assert(collections::lookup(physical, ids[i]) == Some(binding));
            } else {
                assert(collections::lookup(physical, ids[ids.len() - 1]) == Some(binding));
            }
        }
        if exists|i: int|
            0 <= i < ids.len() && collections::lookup(physical, #[trigger] ids[i]) == Some(
                binding,
            ) {
            let i = choose|i: int|
                0 <= i < ids.len() && collections::lookup(physical, #[trigger] ids[i]) == Some(
                    binding,
                );
            if i < rest.len() {
                assert(collections::lookup(physical, rest[i]) == Some(binding));
                assert(before.contains(binding));
                assert(found[before.index_of(binding)] == binding);
            } else {
                assert(found[before.len() as int] == binding);
            }
        }
    }
}

/// A removal that just began knows all installations of its probe.
pub proof fn law_a_removal_finds_every_installation(
    state: StateView,
    id: Chars,
    removal: RemovalView,
)
    requires
        consistency::consistent(state),
        collections::lookup(state.logical_probes, id) == Some(removal.probe),
        removal.physical == probe_remove::installations(
            state.physical_probes,
            removal.probe.physical_ids,
        ),
    ensures
        probes::covers(state, removal),
{
    let listed = removal.probe.physical_ids;
    assert(consistency::probe_right(state, id));
    assert forall|k: Chars| #[trigger]
        collections::lookup(state.physical_probes, k) is Some && collections::lookup(
            state.physical_probes,
            k,
        )->Some_0.probe_id == removal.probe.probe_id implies probes::lists_id(
        removal.physical,
        k,
    ) by {
        let binding = collections::lookup(state.physical_probes, k)->Some_0;
        assert(consistency::installation_right(state, k));
        lemma_installations_hold(state.physical_probes, listed, binding);
        let i = listed.index_of(k);
        assert(collections::lookup(state.physical_probes, listed[i]) == Some(binding));
        let j = removal.physical.index_of(binding);
        assert(removal.physical[j].physical_id == k);
    }
    assert forall|i: int| 0 <= i < removal.physical.len() implies (collections::lookup(
        state.physical_probes,
        (#[trigger] removal.physical[i]).physical_id,
    ) matches Some(binding) ==> binding == removal.physical[i] && binding.probe_id
        == removal.probe.probe_id) by {
        let found = removal.physical[i];
        assert(removal.physical.contains(found));
        lemma_installations_hold(state.physical_probes, listed, found);
        let j = choose|j: int|
            0 <= j < listed.len() && collections::lookup(
                state.physical_probes,
                #[trigger] listed[j],
            ) == Some(found);
        assert(listed.contains(listed[j]));
        assert(consistency::installed(state, listed[j], id));
        assert(consistency::installation_right(state, listed[j]));
    }
}

proof fn lemma_unlisted_binding(state: StateView, session: Chars)
    requires
        consistency::consistent(state),
    ensures
        consistency::consistent(state.without_binding(session)),
{
    let after = state.without_binding(session);
    consistency::lemma_pages_carried(state, after);
    consistency::lemma_carried(state, after);
}

proof fn lemma_residue(
    state: StateView,
    now: u64,
    session: Chars,
    binding: Chars,
    errors: Seq<Chars>,
)
    requires
        consistency::consistent(state),
    ensures
        consistency::consistent(state.report_residue(now, session, binding, errors)),
        consistency::same_but_ring(state, state.report_residue(now, session, binding, errors)),
{
    consistency::law_events_keep_consistency(
        state,
        now,
        "binding-residue"@,
        Some(session),
        JsonView::object().with("bindingName"@, JsonView::Str(binding)).with(
            "errors"@,
            JsonView::texts(errors),
        ),
    );
}

proof fn lemma_removal_commit(state: StateView, now: u64, removal: RemovalView)
    requires
        consistency::consistent(state),
        probes::covers(state, removal),
    ensures
        consistency::consistent(removal.commit(state, now).0),
{
    probes::law_removing_a_probe_removes_its_installations(state, removal);
    let gone = removal.forget(state);
    let data = JsonView::object().with(
        "probe"@,
        removal.probe.to_json(gone.physical_probes),
    ).with("cleanupErrors"@, JsonView::texts(removal.errors));
    consistency::law_events_keep_consistency(
        gone,
        now,
        "probe-removed"@,
        removal.session(),
        data,
    );
    let told = gone.push_event(now, "probe-removed"@, removal.session(), data);
    if let Some(session) = removal.session() {
        lemma_unlisted_binding(told, session);
    }
}

proof fn lemma_enabled_changed(state: StateView, enabled: Seq<Chars>)
    requires
        consistency::consistent(state),
    ensures
        consistency::consistent(StateView { enabled_sessions: enabled, ..state }),
{
    let after = StateView { enabled_sessions: enabled, ..state };
    consistency::lemma_pages_carried(state, after);
    consistency::lemma_carried(state, after);
}

proof fn lemma_bindings_changed(state: StateView, bound: Seq<Chars>)
    requires
        consistency::consistent(state),
    ensures
        consistency::consistent(StateView { binding_sessions: bound, ..state }),
{
    let after = StateView { binding_sessions: bound, ..state };
    consistency::lemma_pages_carried(state, after);
    consistency::lemma_carried(state, after);
}

proof fn lemma_enable_next(
    state: StateView,
    generation: u64,
    left: Seq<(Chars, Chars)>,
    enabled: Seq<JsonView>,
)
    requires
        consistency::consistent(state),
    ensures
        consistency::consistent(EnableView::next(state, generation, left, enabled).0),
{
    if left.len() > 0 {
        lemma_enabled_changed(
            state,
            collections::set_with(state.enabled_sessions, left[0].0),
        );
    }
}

proof fn lemma_disable_next(machine: DisableView, state: StateView, now: u64)
    requires
        consistency::consistent(state),
    ensures
        consistency::consistent(machine.next(state, now).0),
{
    probes::law_disabling_takes_away_what_was_set(state, now, machine.sessions);
}

proof fn lemma_events_answered(state: StateView, command: JsonView)
    requires
        consistency::consistent(state),
    ensures
        consistency::consistent(state.after_events(command)),
{
    let after = state.after_events(command);
    ring::law_clearing_keeps_the_ring_bounded(state, command);
    consistency::lemma_pages_carried(state, after);
    consistency::lemma_carried(state, after);
}

/// An allowed command leaves a consistent state consistent.
pub proof fn law_commands_keep_consistency(state: StateView, now: u64, command: JsonView)
    requires
        consistency::consistent(state),
    ensures
        consistency::consistent(dispatch::authorized(state, now, command).0),
{
    let action = policy::action_of(command);
    if action == "debug_enable"@ {
        if let Ok(targets) = crate::activation::enable_targets(state, command) {
            lemma_enable_next(state, state.connection_generation, targets, Seq::empty());
        }
    } else if action == "debug_disable"@ {
        if let Ok(sessions) = crate::activation::disable_targets(state, command) {
            let paused = crate::activation::paused_among(state, sessions);
            lemma_disable_next(
                DisableView {
                    sessions,
                    paused,
                    binding_name: state.binding_name,
                    resumes: paused,
                    targets: sessions.map_values(
                        |id: Chars| crate::activation::target_of(state, id),
                    ),
                    stage: DisableStageView::Resume(Seq::empty()),
                },
                state,
                now,
            );
        }
    } else if action == "debug_events"@ {
        lemma_events_answered(state, command);
    } else if action == "debug_breakpoint_remove"@ {
        lemma_remove_start(state, now, command, ProbeKind::Breakpoint);
    } else if action == "debug_logpoint_remove"@ {
        lemma_remove_start(state, now, command, ProbeKind::Logpoint);
    }
}

proof fn lemma_remove_start(state: StateView, now: u64, command: JsonView, kind: ProbeKind)
    requires
        consistency::consistent(state),
    ensures
        consistency::consistent(RemoveProbeView::start(state, now, command, kind).0),
{
    if let Some(id) = command.get_str("probeId"@) {
        if let Some(probe) = collections::lookup(state.logical_probes, id) {
            assert(consistency::probe_right(state, id));
            let removal = RemovalView {
                probe: LogicalView { probe_id: id, ..probe },
                physical: probe_remove::installations(state.physical_probes, probe.physical_ids),
                binding_name: state.binding_name,
                connected: state.connected,
                errors: Seq::empty(),
            };
            assert(removal.probe == probe);
            law_a_removal_finds_every_installation(state, id, removal);
            lemma_removal_commit(state, now, removal);
        }
    }
}

/// Whether a reply finds the state as the operation expects it: an installation
/// that is recorded is new, and one that is removed is known.
pub open spec fn expected(operation: OperationView, state: StateView) -> bool {
    match operation {
        OperationView::Probe(m) => match m.stage {
            ProbeStageView::Install(plan) => probes::can_record(state, m.prepared, plan),
            _ => true,
        },
        OperationView::Remove(m) => match m.stage {
            RemoveStageView::Breakpoint(_) => probes::covers(state, m.removal),
            _ => true,
        },
        _ => true,
    }
}

/// Every reply to an operation leaves a consistent state consistent.
pub proof fn law_replies_keep_consistency(
    operation: OperationView,
    state: StateView,
    number: u64,
    now: u64,
    reply: Result<JsonView, Chars>,
)
    requires
        consistency::consistent(state),
        expected(operation, state),
    ensures
        consistency::consistent(operation.advance(state, number, now, reply).0),
{
    match operation {
        OperationView::Events(command) => {
            lemma_events_answered(state, command);
        },
        OperationView::Enable(m) => {
            lemma_enable_next(state, m.generation, m.rest, m.enabled);
            lemma_enabled_changed(
                state,
                collections::set_without(state.enabled_sessions, m.session_id),
            );
        },
        OperationView::Disable(m) => {
            lemma_disable_next(m, state, now);
            if let DisableStageView::Unbind(machine) = m.stage {
                if let UnbindStepView::Done(errors) = machine.advance(reply) {
                    lemma_residue(state, now, machine.session_id, m.binding_name, errors);
                }
            }
        },
        OperationView::Probe(m) => {
            lemma_bindings_changed(
                state,
                collections::set_with(state.binding_sessions, m.prepared.session_id),
            );
            lemma_bindings_changed(
                state,
                collections::set_without(state.binding_sessions, m.prepared.session_id),
            );
            if let ProbeStageView::Install(plan) = m.stage {
                probes::lemma_after_install(m, state, now, plan, reply);
            }
        },
        OperationView::Remove(m) => match m.stage {
            RemoveStageView::Breakpoint(_) => {
                let removal = RemovalView {
                    errors: match reply {
                        Ok(_) => m.removal.errors,
                        Err(e) => m.removal.errors.push(e),
                    },
                    ..m.removal
                };
                lemma_removal_commit(state, now, removal);
            },
            RemoveStageView::Unbind(machine) => {
                lemma_unlisted_binding(state, machine.session_id);
                if let UnbindStepView::Done(errors) = machine.advance(reply) {
                    lemma_residue(
                        state.without_binding(machine.session_id),
                        now,
                        machine.session_id,
                        m.removal.binding_name,
                        errors,
                    );
                }
            },
        },
        _ => {},
    }
}

/// Looking at a script for probes to bind again leaves a consistent state
/// consistent.
pub proof fn law_reconciling_keeps_consistency(
    state: StateView,
    generation: u64,
    session: Chars,
    script: Chars,
)
    requires
        consistency::consistent(state),
    ensures
        consistency::consistent(state.reconcile(generation, session, script).0),
{
    let found = crate::controller::find_script(state.scripts, session, script);
    if found is Some {
        let record = found->Some_0.record;
        let f = |e: (Chars, LogicalView)| reconcile::awaiting(e, session, record);
        let after = StateView { logical_probes: state.logical_probes.map_values(f), ..state };
        assert forall|id: Chars| #[trigger]
            collections::lookup(after.logical_probes, id) == match collections::lookup(
                state.logical_probes,
                id,
            ) {
                Some(v) => Some(f((id, v)).1),
                None => None,
            } by {
            tables::lemma_lookup_map(state.logical_probes, f, id);
        }
        lemma_statuses_changed(state, after);
    }
}

proof fn lemma_statuses_changed(before: StateView, after: StateView)
    requires
        consistency::consistent(before),
        after == (StateView { logical_probes: after.logical_probes, ..before }),
        tables::distinct(after.logical_probes),
        forall|id: Chars| #[trigger]
            collections::lookup(after.logical_probes, id) matches Some(probe) ==> {
                &&& collections::lookup(before.logical_probes, id) matches Some(old_probe)
                &&& probe == LogicalView { status: probe.status, ..old_probe }
            },
        forall|id: Chars| #[trigger]
            collections::lookup(before.logical_probes, id) is Some ==> collections::lookup(
                after.logical_probes,
                id,
            ) is Some,
    ensures
        consistency::consistent(after),
{
    assert forall|id: Chars| #[trigger] consistency::installation_right(after, id) by {
        assert(consistency::installation_right(before, id));
        if let Some(binding) = collections::lookup(after.physical_probes, id) {
            assert(consistency::listed(before.logical_probes, binding));
            assert(collections::lookup(before.logical_probes, binding.probe_id) is Some);
            assert(collections::lookup(after.logical_probes, binding.probe_id) is Some);
        }
    }
    assert forall|id: Chars| #[trigger] consistency::probe_right(after, id) by {
        assert(consistency::probe_right(before, id));
        if let Some(probe) = collections::lookup(after.logical_probes, id) {
            assert forall|p: Chars| #[trigger]
                probe.physical_ids.contains(p) implies consistency::installed(after, p, id) by {
                assert(consistency::installed(before, p, id));
            }
        }
    }
    assert forall|id: Chars| #[trigger] consistency::breakpoint_right(after, id) by {
        assert(consistency::breakpoint_right(before, id));
    }
    consistency::lemma_pages_carried(before, after);
}

/// Noting that a probe could not be bound again leaves a consistent state
/// consistent.
pub proof fn law_failed_rebinding_keeps_consistency(
    state: StateView,
    now: u64,
    session: Chars,
    script: Chars,
    probe: Chars,
    error: Chars,
)
    requires
        consistency::consistent(state),
    ensures
        consistency::consistent(state.rebind_failed(now, session, script, probe, error)),
{
    let noted = match collections::lookup(state.logical_probes, probe) {
        Some(p) => {
            let value = LogicalView { status: "rebind-failed"@, ..p };
            let after = StateView {
                logical_probes: collections::put(state.logical_probes, probe, value),
                ..state
            };
            tables::lemma_changes_distinct(state.logical_probes, probe, value);
            assert forall|id: Chars| #[trigger]
                collections::lookup(after.logical_probes, id) == (if id == probe {
                    Some(value)
                } else {
                    collections::lookup(state.logical_probes, id)
                }) by {
                tables::lemma_lookup_put(state.logical_probes, probe, value, id);
            }
            lemma_statuses_changed(state, after);
            after
        },
        None => state,
    };
    consistency::law_events_keep_consistency(
        noted,
        now,
        "probe-rebind-failed"@,
        Some(session),
        JsonView::object().with("probeId"@, JsonView::Str(probe)).with(
            "scriptId"@,
            JsonView::Str(script),
        ).with("error"@, JsonView::Str(error)),
    );
}

} // verus!
