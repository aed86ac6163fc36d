//! Probes, installations and pauses stay consistent with each other.

use vstd::prelude::*;

use crate::collections;
use crate::controller;
use crate::controller::StateView;
use crate::json::JsonView;
use crate::laws::ring;
use crate::laws::tables;
use crate::records::{LogicalView, PhysicalView};
use crate::text::Chars;

verus! {

/// Whether a probe that was set in the session of an installation lists the
/// installation.
pub open spec fn listed(probes: Seq<(Chars, LogicalView)>, binding: PhysicalView) -> bool {
    match collections::lookup(probes, binding.probe_id) {
        Some(probe) => probe.physical_ids.contains(binding.physical_id) && probe.target.get_str(
            "sessionId"@,
        ) == Some(binding.session_id),
        None => false,
    }
}

/// An installation carries its identifier, is one of this connection, and its
/// probe lists it.
pub open spec fn installation_right(state: StateView, id: Chars) -> bool {
    match collections::lookup(state.physical_probes, id) {
        Some(binding) => binding.physical_id == id && binding.connection_generation
            == state.connection_generation && listed(state.logical_probes, binding),
        None => true,
    }
}

/// Whether there is an installation of a probe under an identifier.
pub open spec fn installed(state: StateView, id: Chars, probe: Chars) -> bool {
    match collections::lookup(state.physical_probes, id) {
        Some(binding) => binding.probe_id == probe,
        None => false,
    }
}

/// A probe carries its identifier, and what it lists is installed.
pub open spec fn probe_right(state: StateView, id: Chars) -> bool {
    match collections::lookup(state.logical_probes, id) {
        Some(probe) => probe.probe_id == id && forall|p: Chars| #[trigger]
            probe.physical_ids.contains(p) ==> installed(state, p, id),
        None => true,
    }
}

/// A breakpoint of the browser leads to an installation that carries it.
pub open spec fn breakpoint_right(state: StateView, id: Chars) -> bool {
    match collections::lookup(state.physical_by_cdp_breakpoint, id) {
        Some(physical) => match collections::lookup(state.physical_probes, physical) {
            Some(binding) => binding.cdp_breakpoint_id == id,
            None => false,
        },
        None => true,
    }
}

/// A session carries its identifier.
pub open spec fn session_right(state: StateView, id: Chars) -> bool {
    match collections::lookup(state.sessions, id) {
        Some(session) => session.session_id == id,
        None => true,
    }
}

/// A pause carries the identifier of its session and is one of this connection.
pub open spec fn pause_right(state: StateView, id: Chars) -> bool {
    match collections::lookup(state.paused_sessions, id) {
        Some(pause) => pause.session_id == id && pause.connection_generation
            == state.connection_generation,
        None => true,
    }
}

/// What holds of every state: the tables agree with each other and the event
/// ring keeps its bounds.
pub open spec fn consistent(state: StateView) -> bool {
    &&& forall|id: Chars| #[trigger] installation_right(state, id)
    &&& forall|id: Chars| #[trigger] probe_right(state, id)
    &&& forall|id: Chars| #[trigger] breakpoint_right(state, id)
    &&& forall|id: Chars| #[trigger] session_right(state, id)
    &&& forall|id: Chars| #[trigger] pause_right(state, id)
    &&& tables::distinct(state.logical_probes)
    &&& tables::distinct(state.physical_probes)
    &&& ring::bounded(state)
}

/// The states differ in their probes and their rings at most.
pub open spec fn same_but_probes(a: StateView, b: StateView) -> bool {
    a == StateView {
        logical_probes: a.logical_probes,
        physical_probes: a.physical_probes,
        physical_by_cdp_breakpoint: a.physical_by_cdp_breakpoint,
        events: a.events,
        event_bytes: a.event_bytes,
        latest_sequence: a.latest_sequence,
        dropped_through_sequence: a.dropped_through_sequence,
        ..b
    }
}

/// The states differ in their rings at most.
pub open spec fn same_but_ring(a: StateView, b: StateView) -> bool {
    &&& same_but_probes(a, b)
    &&& a.logical_probes == b.logical_probes
    &&& a.physical_probes == b.physical_probes
    &&& a.physical_by_cdp_breakpoint == b.physical_by_cdp_breakpoint
}

/// A control plane that was never connected is consistent.
pub proof fn law_initial_state_is_consistent()
    ensures
        consistent(StateView::initial()),
{
}

/// A change of pages and of the ring keeps the probes consistent.
pub proof fn lemma_carried(before: StateView, after: StateView)
    requires
        consistent(before),
        before.connection_generation == after.connection_generation,
        before.logical_probes == after.logical_probes,
        before.physical_probes == after.physical_probes,
        before.physical_by_cdp_breakpoint == after.physical_by_cdp_breakpoint,
        forall|id: Chars| #[trigger] session_right(after, id),
        forall|id: Chars| #[trigger] pause_right(after, id),
        ring::bounded(after),
    ensures
        consistent(after),
{
    assert forall|id: Chars| #[trigger] installation_right(after, id) by {
        assert(installation_right(before, id));
    }
    assert forall|id: Chars| #[trigger] probe_right(after, id) by {
        assert(probe_right(before, id));
        if let Some(probe) = collections::lookup(after.logical_probes, id) {
            assert forall|p: Chars| #[trigger] probe.physical_ids.contains(p) implies installed(
                after,
                p,
                id,
            ) by {
                assert(installed(before, p, id));
            }
        }
    }
    assert forall|id: Chars| #[trigger] breakpoint_right(after, id) by {
        assert(breakpoint_right(before, id));
    }
}

/// Sessions and pauses that did not change are still right.
pub proof fn lemma_pages_carried(before: StateView, after: StateView)
    requires
        consistent(before),
        before.connection_generation == after.connection_generation,
        before.sessions == after.sessions,
        before.paused_sessions == after.paused_sessions,
    ensures
        forall|id: Chars| #[trigger] session_right(after, id),
        forall|id: Chars| #[trigger] pause_right(after, id),
{
    assert forall|id: Chars| #[trigger] session_right(after, id) by {
        assert(session_right(before, id));
    }
    assert forall|id: Chars| #[trigger] pause_right(after, id) by {
        assert(pause_right(before, id));
    }
}

/// An event leaves a consistent state consistent.
pub proof fn law_events_keep_consistency(
    state: StateView,
    now: u64,
    kind: Chars,
    session: Option<Chars>,
    data: JsonView,
)
    requires
        consistent(state),
    ensures
        consistent(state.push_event(now, kind, session, data)),
        same_but_ring(state, state.push_event(now, kind, session, data)),
{
    controller::lemma_push_event_frame(state, now, kind, session, data);
    ring::law_ring_stays_bounded(state, now, kind, session, data);
    lemma_pages_carried(state, state.push_event(now, kind, session, data));
    lemma_carried(state, state.push_event(now, kind, session, data));
}

proof fn lemma_without_physical(state: StateView, id: Chars, reason: Chars)
    requires
        consistent(state),
        collections::lookup(state.physical_probes, id) is Some,
    ensures
        consistent(state.without_physical(id, reason)),
        forall|k: Chars| #[trigger]
            collections::lookup(state.without_physical(id, reason).physical_probes, k) == (if k
                == id {
                None
            } else {
                collections::lookup(state.physical_probes, k)
            }),
{
    broadcast use tables::lemma_filter_holds;

    let binding = collections::lookup(state.physical_probes, id)->Some_0;
    let after = state.without_physical(id, reason);
    assert(installation_right(state, id));
    let probe = collections::lookup(state.logical_probes, binding.probe_id)->Some_0;
    let changed = collections::lookup(after.logical_probes, binding.probe_id)->Some_0;
    assert forall|k: Chars| #[trigger]
        collections::lookup(after.physical_probes, k) == (if k == id {
            None
        } else {
            collections::lookup(state.physical_probes, k)
        }) by {
        tables::lemma_lookup_del(state.physical_probes, id, k);
    }
    assert(collections::lookup(after.logical_probes, binding.probe_id) is Some
        && changed.physical_ids == collections::set_without(probe.physical_ids, id)
        && changed.target == probe.target && changed.probe_id == probe.probe_id) by {
        tables::lemma_lookup_put(
            state.logical_probes,
            binding.probe_id,
            changed,
            binding.probe_id,
        );
        collections::lemma_put_found(
            state.logical_probes,
            binding.probe_id,
            LogicalView {
                physical_ids: collections::set_without(probe.physical_ids, id),
                status: state.unbound_status(binding, reason),
                ..probe
            },
        );
    }
    assert forall|k: Chars| k != binding.probe_id implies #[trigger] collections::lookup(
        after.logical_probes,
        k,
    ) == collections::lookup(state.logical_probes, k) by {
        tables::lemma_lookup_put(
            state.logical_probes,
            binding.probe_id,
            LogicalView {
                physical_ids: collections::set_without(probe.physical_ids, id),
                status: state.unbound_status(binding, reason),
                ..probe
            },
            k,
        );
    }
    assert forall|k: Chars| #[trigger] installation_right(after, k) by {
        assert(installation_right(state, k));
        if let Some(b) = collections::lookup(after.physical_probes, k) {
            assert(listed(state.logical_probes, b));
            if b.probe_id == binding.probe_id {
                assert(changed.physical_ids.contains(k));
            }
        }
    }
    assert forall|k: Chars| #[trigger] probe_right(after, k) by {
        assert(probe_right(state, k));
        if let Some(p) = collections::lookup(after.logical_probes, k) {
            let old_probe = collections::lookup(state.logical_probes, k)->Some_0;
            assert forall|x: Chars| #[trigger] p.physical_ids.contains(x) implies installed(
                after,
                x,
                k,
            ) by {
                assert(old_probe.physical_ids.contains(x));
                assert(installed(state, x, k));
                if k == binding.probe_id {
                    assert(x != id);
                }
            }
        }
    }
    assert forall|c: Chars| #[trigger] breakpoint_right(after, c) by {
        assert(breakpoint_right(state, c));
        tables::lemma_lookup_del(
            state.physical_by_cdp_breakpoint,
            binding.cdp_breakpoint_id,
            c,
        );
    }
    assert forall|k: Chars| #[trigger] session_right(after, k) by {
        assert(session_right(state, k));
    }
    assert forall|k: Chars| #[trigger] pause_right(after, k) by {
        assert(pause_right(state, k));
    }
    tables::lemma_changes_distinct(state.physical_probes, id, binding);
    tables::lemma_changes_distinct(
        state.logical_probes,
        binding.probe_id,
        LogicalView {
            physical_ids: collections::set_without(probe.physical_ids, id),
            status: state.unbound_status(binding, reason),
            ..probe
        },
    );
}

proof fn lemma_unbind(
    state: StateView,
    now: u64,
    session: Chars,
    id: Chars,
    reason: Chars,
    context: Option<u64>,
)
    requires
        consistent(state),
    ensures
        ({
            let after = state.unbind(now, session, id, reason, context);
            &&& consistent(after)
            &&& same_but_probes(state, after)
            &&& forall|k: Chars| #[trigger]
                collections::lookup(after.physical_probes, k) == (if k == id {
                    None
                } else {
                    collections::lookup(state.physical_probes, k)
                })
        }),
{
    if let Some(binding) = collections::lookup(state.physical_probes, id) {
        lemma_without_physical(state, id, reason);
        law_events_keep_consistency(
            state.without_physical(id, reason),
            now,
            "probe-unbound"@,
            Some(session),
            controller::unbound_data(
                binding,
                reason,
                state.unbound_status(binding, reason),
                context,
            ),
        );
    }
}

proof fn lemma_unbind_all(
    state: StateView,
    now: u64,
    session: Chars,
    ids: Seq<Chars>,
    reason: Chars,
    context: Option<u64>,
)
    requires
        consistent(state),
    ensures
        ({
            let after = state.unbind_all(now, session, ids, reason, context);
            &&& consistent(after)
            &&& same_but_probes(state, after)
            &&& forall|id: Chars| #[trigger]
                collections::lookup(after.physical_probes, id) == (if ids.contains(id) {
                    None
                } else {
                    collections::lookup(state.physical_probes, id)
                })
        }),
    decreases ids.len(),
{
    if ids.len() > 0 {
        let rest = ids.drop_last();
        let before = state.unbind_all(now, session, rest, reason, context);
        let after = state.unbind_all(now, session, ids, reason, context);
        lemma_unbind_all(state, now, session, rest, reason, context);
        lemma_unbind(before, now, session, ids.last(), reason, context);
        assert forall|id: Chars| #[trigger]
            collections::lookup(after.physical_probes, id) == (if ids.contains(id) {
                None
            } else {
                collections::lookup(state.physical_probes, id)
            }) by {
            if ids.contains(id) {
                let i = ids.index_of(id);
                if i < rest.len() {
                    assert(rest[i] == id);
                    assert(rest.contains(id));
                }
            } else {
                assert(ids[ids.len() - 1] != id);
                if rest.contains(id) {
                    assert(ids[rest.index_of(id)] == id);
                }
            }
        }
    }
}

/// Whether an installation is one of a session and a document; a generation of
/// `u64::MAX` stands for all documents.
pub open spec fn of_document(binding: PhysicalView, session: Chars, generation: u64) -> bool {
    binding.session_id == session && (generation == u64::MAX || binding.document_generation
        == generation)
}

/// Whether an installation is one of a session and an execution context.
pub open spec fn in_context(binding: PhysicalView, session: Chars, context: u64) -> bool {
    binding.session_id == session && binding.execution_context_id == Some(context)
}

/// Identifiers of the installations that pass a test.
spec fn chosen(table: Seq<(Chars, PhysicalView)>, test: spec_fn(PhysicalView) -> bool) -> Seq<
    Chars,
> {
    collections::values(table).filter(test).map_values(|b: PhysicalView| b.physical_id)
}

proof fn lemma_chosen(state: StateView, test: spec_fn(PhysicalView) -> bool, id: Chars)
    requires
        consistent(state),
    ensures
        chosen(state.physical_probes, test).contains(id) <==> {
            &&& collections::lookup(state.physical_probes, id) is Some
            &&& test(collections::lookup(state.physical_probes, id)->Some_0)
        },
{
    broadcast use tables::lemma_filter_holds;

    let table = state.physical_probes;
    let all = collections::values(table);
    let kept = all.filter(test);
    let ids = chosen(table, test);
    if ids.contains(id) {
        let j = ids.index_of(id);
        assert(kept.contains(kept[j]));
        let i = all.index_of(kept[j]);
        assert(table[i] == (table[i].0, kept[j]));
        assert(table.contains((table[i].0, kept[j])));
        tables::lemma_lookup_member(table, table[i].0);
        assert(installation_right(state, table[i].0));
    }
    if let Some(binding) = collections::lookup(table, id) {
        if test(binding) {
            tables::lemma_lookup_member(table, id);
            let i = table.index_of((id, binding));
            assert(all[i] == binding);
            assert(all.contains(binding));
            assert(kept.contains(binding));
            assert(installation_right(state, id));
            assert(ids[kept.index_of(binding)] == id);
        }
    }
}

/// Once the installations of a document were invalidated, exactly the other
/// installations are left.
pub proof fn law_invalidated_documents_keep_no_installation(
    state: StateView,
    now: u64,
    session: Chars,
    generation: u64,
    reason: Chars,
)
    requires
        consistent(state),
    ensures
        ({
            let after = state.invalidate_session(now, session, generation, reason);
            &&& consistent(after)
            &&& same_but_probes(state, after)
            &&& forall|id: Chars| #[trigger]
                collections::lookup(after.physical_probes, id) == (match collections::lookup(
                    state.physical_probes,
                    id,
                ) {
                    Some(binding) => if of_document(binding, session, generation) {
                        None
                    } else {
                        Some(binding)
                    },
                    None => None,
                })
        }),
{
    let test = |b: PhysicalView|
        b.session_id == session && (generation == u64::MAX || b.document_generation
            == generation);
    let ids = state.session_bindings(session, generation);
    let after = state.invalidate_session(now, session, generation, reason);
    lemma_unbind_all(state, now, session, ids, reason, None);
    assert(ids == chosen(state.physical_probes, test));
    assert forall|id: Chars| #[trigger]
        collections::lookup(after.physical_probes, id) == (match collections::lookup(
            state.physical_probes,
            id,
        ) {
            Some(binding) => if of_document(binding, session, generation) {
                None
            } else {
                Some(binding)
            },
            None => None,
        }) by {
        lemma_chosen(state, test, id);
    }
}

/// Once the installations of an execution context were invalidated, exactly the
/// other installations are left.
pub proof fn law_invalidated_contexts_keep_no_installation(
    state: StateView,
    now: u64,
    session: Chars,
    context: u64,
    reason: Chars,
)
    requires
        consistent(state),
    ensures
        ({
            let after = state.invalidate_context(now, session, context, reason);
            &&& consistent(after)
            &&& same_but_probes(state, after)
            &&& forall|id: Chars| #[trigger]
                collections::lookup(after.physical_probes, id) == (match collections::lookup(
                    state.physical_probes,
                    id,
                ) {
                    Some(binding) => if in_context(binding, session, context) {
                        None
                    } else {
                        Some(binding)
                    },
                    None => None,
                })
        }),
{
    let test = |b: PhysicalView|
        b.session_id == session && b.execution_context_id == Some(context);
    let ids = state.context_bindings(session, context);
    let after = state.invalidate_context(now, session, context, reason);
    lemma_unbind_all(state, now, session, ids, reason, Some(context));
    assert(ids == chosen(state.physical_probes, test));
    assert forall|id: Chars| #[trigger]
        collections::lookup(after.physical_probes, id) == (match collections::lookup(
            state.physical_probes,
            id,
        ) {
            Some(binding) => if in_context(binding, session, context) {
                None
            } else {
                Some(binding)
            },
            None => None,
        }) by {
        lemma_chosen(state, test, id);
    }
}

} // verus!
