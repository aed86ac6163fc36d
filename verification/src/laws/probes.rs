//! What commands do to probes.

use vstd::prelude::*;

use crate::activation;
use crate::collections;
use crate::controller::StateView;
use crate::json::JsonView;
use crate::laws::connection;
use crate::laws::consistency;
use crate::laws::tables;
use crate::probe_remove::RemovalView;
use crate::probe_request::{PreparedView, ProbeRequestView};
use crate::probe_set;
use crate::probe_set::{PlanView, SetProbeView};
use crate::records::{LogicalView, PhysicalView};
use crate::text::Chars;

verus! {

proof fn lemma_disable_session(state: StateView, now: u64, session: Chars)
    requires
        consistency::consistent(state),
    ensures
        ({
            let after = state.disable_session(now, session);
            &&& consistency::consistent(after)
            &&& after.sessions == state.sessions
            &&& collections::lookup(after.paused_sessions, session) is None
            &&& forall|id: Chars| #[trigger]
                after.enabled_sessions.contains(id) <==> state.enabled_sessions.contains(id) && id
                    != session
            &&& forall|id: Chars| #[trigger]
                after.binding_sessions.contains(id) <==> state.binding_sessions.contains(id) && id
                    != session
            &&& forall|id: Chars| #[trigger]
                collections::lookup(after.paused_sessions, id) == (if id == session {
                    None
                } else {
                    collections::lookup(state.paused_sessions, id)
                })
            &&& forall|id: Chars| #[trigger]
                collections::lookup(after.physical_probes, id) == connection::outside(
                    collections::lookup(state.physical_probes, id),
                    seq![session],
                )
        }),
{
    broadcast use tables::lemma_filter_holds;

    let reason = "debugger-disabled"@;
    consistency::law_invalidated_documents_keep_no_installation(
        state,
        now,
        session,
        u64::MAX,
        reason,
    );
    let told = state.invalidate_session(now, session, u64::MAX, reason);
    let after = state.disable_session(now, session);
    assert forall|id: Chars| #[trigger]
        collections::lookup(after.paused_sessions, id) == (if id == session {
            None
        } else {
            collections::lookup(state.paused_sessions, id)
        }) by {
        tables::lemma_lookup_del(told.paused_sessions, session, id);
    }
    assert forall|id: Chars| #[trigger] consistency::pause_right(after, id) by {
        assert(consistency::pause_right(told, id));
        tables::lemma_lookup_del(told.paused_sessions, session, id);
    }
    assert forall|id: Chars| #[trigger] consistency::session_right(after, id) by {
        assert(consistency::session_right(told, id));
    }
    consistency::lemma_carried(told, after);
    assert(seq![session][0] == session);
    assert forall|id: Chars| #[trigger]
        collections::lookup(after.physical_probes, id) == connection::outside(
            collections::lookup(state.physical_probes, id),
            seq![session],
        ) by {
        assert(collections::lookup(told.physical_probes, id) == collections::lookup(
            after.physical_probes,
            id,
        ));
    }
}

proof fn lemma_disable_sessions(state: StateView, now: u64, sessions: Seq<Chars>)
    requires
        consistency::consistent(state),
    ensures
        ({
            let after = state.disable_sessions(now, sessions);
            &&& consistency::consistent(after)
            &&& forall|id: Chars| #[trigger]
                after.enabled_sessions.contains(id) <==> state.enabled_sessions.contains(id)
                    && !sessions.contains(id)
            &&& forall|id: Chars| #[trigger]
                after.binding_sessions.contains(id) <==> state.binding_sessions.contains(id)
                    && !sessions.contains(id)
            &&& forall|id: Chars| #[trigger]
                collections::lookup(after.paused_sessions, id) == (if sessions.contains(id) {
                    None
                } else {
                    collections::lookup(state.paused_sessions, id)
                })
            &&& forall|id: Chars| #[trigger]
                collections::lookup(after.physical_probes, id) == connection::outside(
                    collections::lookup(state.physical_probes, id),
                    sessions,
                )
        }),
    decreases sessions.len(),
{
    if sessions.len() > 0 {
        let rest = sessions.drop_last();
        let before = state.disable_sessions(now, rest);
        let after = state.disable_sessions(now, sessions);
        lemma_disable_sessions(state, now, rest);
        lemma_disable_session(before, now, sessions.last());
        assert forall|id: Chars| #[trigger] sessions.contains(id) <==> rest.contains(id) || id
            == sessions.last() by {
            if sessions.contains(id) {
                let i = sessions.index_of(id);
                if i < rest.len() {
                    assert(rest[i] == id);
                }
            }
            if rest.contains(id) {
                assert(sessions[rest.index_of(id)] == id);
            }
            assert(sessions[sessions.len() - 1] == sessions.last());
        }
        assert(seq![sessions.last()][0] == sessions.last());
        assert forall|id: Chars| #[trigger]
            collections::lookup(after.physical_probes, id) == connection::outside(
                collections::lookup(state.physical_probes, id),
                sessions,
            ) by {
            assert(collections::lookup(before.physical_probes, id) == connection::outside(
                collections::lookup(state.physical_probes, id),
                rest,
            ));
            if let Some(b) = collections::lookup(state.physical_probes, id) {
                assert(sessions.contains(b.session_id) <==> rest.contains(b.session_id)
                    || b.session_id == sessions.last());
            }
        }
    }
}

/// Disabling the debugger in some sessions takes away what was set there: no
/// pause, binding, probe or installation of theirs is left, and all others are.
pub proof fn law_disabling_takes_away_what_was_set(
    state: StateView,
    now: u64,
    sessions: Seq<Chars>,
)
    requires
        consistency::consistent(state),
    ensures
        ({
            let after = state.disable_sessions(now, sessions).without_probes_of(sessions);
            &&& consistency::consistent(after)
            &&& forall|id: Chars| #[trigger]
                after.enabled_sessions.contains(id) <==> state.enabled_sessions.contains(id)
                    && !sessions.contains(id)
            &&& forall|id: Chars| #[trigger]
                after.binding_sessions.contains(id) <==> state.binding_sessions.contains(id)
                    && !sessions.contains(id)
            &&& forall|id: Chars| #[trigger]
                collections::lookup(after.paused_sessions, id) == (if sessions.contains(id) {
                    None
                } else {
                    collections::lookup(state.paused_sessions, id)
                })
            &&& forall|id: Chars| #[trigger]
                collections::lookup(after.physical_probes, id) == connection::outside(
                    collections::lookup(state.physical_probes, id),
                    sessions,
                )
            &&& forall|id: Chars| #[trigger]
                collections::lookup(after.logical_probes, id) matches Some(probe)
                    ==> !activation::probe_in(probe, sessions)
        }),
{
    lemma_disable_sessions(state, now, sessions);
    let before = state.disable_sessions(now, sessions);
    let after = before.without_probes_of(sessions);
    let keep = |e: (Chars, LogicalView)| !activation::probe_in(e.1, sessions);
    assert(after.logical_probes == before.logical_probes.filter(keep));
    tables::lemma_filter_distinct(before.logical_probes, keep);
    assert forall|id: Chars| #[trigger]
        collections::lookup(after.logical_probes, id) == match collections::lookup(
            before.logical_probes,
            id,
        ) {
            Some(probe) => if activation::probe_in(probe, sessions) {
                None
            } else {
                Some(probe)
            },
            None => None,
        } by {
        tables::lemma_lookup_filter(before.logical_probes, keep, id);
    }
    assert forall|id: Chars| #[trigger] consistency::installation_right(after, id) by {
        assert(consistency::installation_right(before, id));
        if let Some(binding) = collections::lookup(after.physical_probes, id) {
            assert(consistency::listed(before.logical_probes, binding));
            assert(!sessions.contains(binding.session_id));
        }
    }
    assert forall|id: Chars| #[trigger] consistency::probe_right(after, id) by {
        assert(consistency::probe_right(before, id));
        if let Some(probe) = collections::lookup(after.logical_probes, id) {
            assert forall|p: Chars| #[trigger]
                probe.physical_ids.contains(p) implies consistency::installed(after, p, id) by {
                assert(consistency::installed(before, p, id));
            }
        }
    }
    assert forall|id: Chars| #[trigger] consistency::breakpoint_right(after, id) by {
        assert(consistency::breakpoint_right(before, id));
    }
    consistency::lemma_pages_carried(before, after);
}

/// Recording an installation keeps a consistent state consistent, where its
/// identifier is new and it belongs to this connection. A probe that is bound
/// again has to be one of the same session.
pub proof fn law_recording_an_installation_keeps_consistency(
    state: StateView,
    physical: PhysicalView,
    logical: LogicalView,
)
    requires
        consistency::consistent(state),
        collections::lookup(state.physical_probes, physical.physical_id) is None,
        physical.connection_generation == state.connection_generation,
        physical.probe_id == logical.probe_id,
        logical.physical_ids == seq![physical.physical_id],
        logical.target.get_str("sessionId"@) == Some(physical.session_id),
        collections::lookup(state.logical_probes, logical.probe_id) matches Some(existing)
            ==> existing.target.get_str("sessionId"@) == Some(physical.session_id),
    ensures
        ({
            let after = state.with_probe(physical, logical);
            &&& consistency::consistent(after)
            &&& collections::lookup(after.physical_probes, physical.physical_id) == Some(physical)
            &&& collections::lookup(
                after.physical_by_cdp_breakpoint,
                physical.cdp_breakpoint_id,
            ) == Some(physical.physical_id)
            &&& forall|id: Chars| id != physical.physical_id ==> #[trigger] collections::lookup(
                after.physical_probes,
                id,
            ) == collections::lookup(state.physical_probes, id)
            &&& forall|id: Chars| id != logical.probe_id ==> #[trigger] collections::lookup(
                after.logical_probes,
                id,
            ) == collections::lookup(state.logical_probes, id)
        }),
{
    let after = state.with_probe(physical, logical);
    let id = physical.physical_id;
    let probe = logical.probe_id;
    let value = match collections::lookup(state.logical_probes, probe) {
        Some(existing) => LogicalView {
            physical_ids: existing.physical_ids.push(id),
            status: "rebound"@,
            ..existing
        },
        None => logical,
    };
    assert forall|k: Chars| #[trigger]
        collections::lookup(after.physical_probes, k) == (if k == id {
            Some(physical)
        } else {
            collections::lookup(state.physical_probes, k)
        }) by {
        tables::lemma_lookup_put(state.physical_probes, id, physical, k);
    }
    assert forall|k: Chars| #[trigger]
        collections::lookup(after.logical_probes, k) == (if k == probe {
            Some(value)
        } else {
            collections::lookup(state.logical_probes, k)
        }) by {
        tables::lemma_lookup_put(state.logical_probes, probe, value, k);
    }
    assert forall|k: Chars| #[trigger]
        collections::lookup(after.physical_by_cdp_breakpoint, k) == (if k
            == physical.cdp_breakpoint_id {
            Some(id)
        } else {
            collections::lookup(state.physical_by_cdp_breakpoint, k)
        }) by {
        tables::lemma_lookup_put(
            state.physical_by_cdp_breakpoint,
            physical.cdp_breakpoint_id,
            id,
            k,
        );
    }
    assert(consistency::probe_right(state, probe));
    assert(value.physical_ids.contains(id)) by {
        assert(value.physical_ids[value.physical_ids.len() - 1] == id);
    }
    assert forall|k: Chars| #[trigger] consistency::installation_right(after, k) by {
        assert(consistency::installation_right(state, k));
        if let Some(binding) = collections::lookup(after.physical_probes, k) {
            if k != id && binding.probe_id == probe {
                let listed = collections::lookup(state.logical_probes, probe)->Some_0.physical_ids;
                assert(listed.contains(k));
                assert(value.physical_ids[listed.index_of(k)] == k);
            }
        }
    }
    assert forall|k: Chars| #[trigger] consistency::probe_right(after, k) by {
        assert(consistency::probe_right(state, k));
        if let Some(p) = collections::lookup(after.logical_probes, k) {
            assert forall|x: Chars| #[trigger]
                p.physical_ids.contains(x) implies consistency::installed(after, x, k) by {
                let i = p.physical_ids.index_of(x);
                if x != id {
                    let listed = collections::lookup(state.logical_probes, k)->Some_0.physical_ids;
                    assert(listed[i] == x);
                    assert(listed.contains(x));
                    assert(consistency::installed(state, x, k));
                } else if k != probe {
                    assert(consistency::installed(state, x, k));
                }
            }
        }
    }
    assert forall|k: Chars| #[trigger] consistency::breakpoint_right(after, k) by {
        assert(consistency::breakpoint_right(state, k));
    }
    consistency::lemma_pages_carried(state, after);
    tables::lemma_changes_distinct(state.physical_probes, id, physical);
    tables::lemma_changes_distinct(state.logical_probes, probe, value);
}

/// Whether an installation can be recorded as planned: its identifier is new,
/// and a probe that is bound again is one of the same session.
pub open spec fn can_record(state: StateView, prepared: PreparedView, plan: PlanView) -> bool {
    &&& collections::lookup(state.physical_probes, plan.physical_id) is None
    &&& collections::lookup(state.logical_probes, plan.probe_id) matches Some(existing)
        ==> existing.target.get_str("sessionId"@) == Some(prepared.session_id)
}

proof fn lemma_target_session(request: ProbeRequestView, prepared: PreparedView, plan: PlanView)
    ensures
        probe_set::target_json(request, prepared, plan).get_str("sessionId"@) == Some(
            prepared.session_id,
        ),
{
    reveal_strlit("sessionId");
    reveal_strlit("documentGeneration");
    reveal_strlit("scriptId");
    reveal_strlit("url");
    reveal_strlit("executionContextId");
    reveal_strlit("runtimeOwner");
    reveal_strlit("requestedLine");
    reveal_strlit("requestedColumn");
    reveal_strlit("columnExplicit");
    reveal_strlit("mode");
    reveal_strlit("maxLines");
    reveal_strlit("maxUtf16Distance");
    reveal_strlit("resolutionReason");
    reveal_strlit("utf16Distance");
    assert("sessionId"@.len() == 9);
    assert("documentGeneration"@.len() == 18);
    assert("scriptId"@.len() == 8);
    assert("url"@.len() == 3);
    assert("executionContextId"@.len() == 18);
    assert("runtimeOwner"@.len() == 12);
    assert("requestedLine"@.len() == 13);
    assert("requestedColumn"@.len() == 15);
    assert("columnExplicit"@.len() == 14);
    assert("mode"@.len() == 4);
    assert("maxLines"@.len() == 8);
    assert("maxUtf16Distance"@.len() == 16);
    assert("resolutionReason"@.len() == 16);
    assert("utf16Distance"@.len() == 13);
}

/// The reply to an installation keeps a consistent state consistent.
pub proof fn lemma_after_install(
    machine: SetProbeView,
    state: StateView,
    now: u64,
    plan: PlanView,
    reply: Result<JsonView, Chars>,
)
    requires
        consistency::consistent(state),
        can_record(state, machine.prepared, plan),
    ensures
        consistency::consistent(machine.after_install(state, now, plan, reply).0),
{
    if let Ok(result) = reply {
        if let Some(id) = result.get_str("breakpointId"@) {
            if !state.moved_on(machine.request, machine.prepared) {
                let actual = match result.get("actualLocation"@) {
                    Some(location) => location,
                    None => plan.location,
                };
                let physical = probe_set::physical_of(
                    machine.request,
                    machine.prepared,
                    plan,
                    id,
                    actual,
                );
                let logical = probe_set::logical_of(machine.request, machine.prepared, plan);
                lemma_target_session(machine.request, machine.prepared, plan);
                law_recording_an_installation_keeps_consistency(state, physical, logical);
                let bound = state.with_probe(physical, logical);
                let answer = collections::lookup(
                    bound.logical_probes,
                    plan.probe_id,
                )->Some_0.to_json(bound.physical_probes);
                consistency::law_events_keep_consistency(
                    bound,
                    now,
                    "probe-bound"@,
                    Some(machine.prepared.session_id),
                    JsonView::object().with("probe"@, answer).with(
                        "resolutionReason"@,
                        JsonView::Str(plan.reason),
                    ).with("utf16Distance"@, JsonView::Uint(plan.distance)),
                );
            }
        }
    }
}

/// Whether a removal knows all installations that its probe has.
pub open spec fn covers(state: StateView, removal: RemovalView) -> bool {
    &&& forall|id: Chars|
        match #[trigger] collections::lookup(state.physical_probes, id) {
            Some(binding) => binding.probe_id == removal.probe.probe_id ==> lists_id(
                removal.physical,
                id,
            ),
            None => true,
        }
    &&& forall|i: int|
        0 <= i < removal.physical.len() ==> (collections::lookup(
            state.physical_probes,
            (#[trigger] removal.physical[i]).physical_id,
        ) matches Some(binding) ==> binding == removal.physical[i] && binding.probe_id
            == removal.probe.probe_id)
}

/// Whether an installation of this identifier is in a list.
pub open spec fn lists_id(physical: Seq<PhysicalView>, id: Chars) -> bool {
    exists|i: int| 0 <= i < physical.len() && (#[trigger] physical[i]).physical_id == id
}

proof fn lemma_without_installations(state: StateView, physical: Seq<PhysicalView>)
    requires
        tables::distinct(state.physical_probes),
    ensures
        ({
            let after = state.without_installations(physical);
            &&& tables::distinct(after.physical_probes)
            &&& after == StateView {
                physical_probes: after.physical_probes,
                physical_by_cdp_breakpoint: after.physical_by_cdp_breakpoint,
                ..state
            }
            &&& forall|id: Chars| #[trigger]
                collections::lookup(after.physical_probes, id) == (if lists_id(physical, id) {
                    None
                } else {
                    collections::lookup(state.physical_probes, id)
                })
            &&& forall|c: Chars| #[trigger]
                collections::lookup(after.physical_by_cdp_breakpoint, c) is Some ==> {
                    &&& collections::lookup(after.physical_by_cdp_breakpoint, c)
                        == collections::lookup(state.physical_by_cdp_breakpoint, c)
                    &&& forall|i: int|
                        0 <= i < physical.len() ==> (
                        #[trigger] physical[i]).cdp_breakpoint_id != c
                }
        }),
    decreases physical.len(),
{
    if physical.len() > 0 {
        let rest = physical.drop_last();
        let gone = physical.last();
        let before = state.without_installations(rest);
        let after = state.without_installations(physical);
        lemma_without_installations(state, rest);
        tables::lemma_changes_distinct(before.physical_probes, gone.physical_id, gone);
        assert forall|id: Chars| #[trigger]
            collections::lookup(after.physical_probes, id) == (if lists_id(physical, id) {
                None
            } else {
                collections::lookup(state.physical_probes, id)
            }) by {
            tables::lemma_lookup_del(before.physical_probes, gone.physical_id, id);
            if lists_id(physical, id) {
                let i = choose|i: int|
                    0 <= i < physical.len() && (#[trigger] physical[i]).physical_id == id;
                if i < rest.len() {
                    assert(rest[i].physical_id == id);
                }
            } else {
                assert(physical[physical.len() - 1].physical_id != id);
                if lists_id(rest, id) {
                    let i = choose|i: int|
                        0 <= i < rest.len() && (#[trigger] rest[i]).physical_id == id;
                    assert(physical[i].physical_id == id);
                }
            }
        }
        assert forall|c: Chars| #[trigger]
            collections::lookup(after.physical_by_cdp_breakpoint, c) is Some implies {
            &&& collections::lookup(after.physical_by_cdp_breakpoint, c) == collections::lookup(
                state.physical_by_cdp_breakpoint,
                c,
            )
            &&& forall|i: int|
                0 <= i < physical.len() ==> (#[trigger] physical[i]).cdp_breakpoint_id != c
        } by {
            tables::lemma_lookup_del(
                before.physical_by_cdp_breakpoint,
                gone.cdp_breakpoint_id,
                c,
            );
            assert(collections::lookup(before.physical_by_cdp_breakpoint, c) is Some);
            assert forall|i: int| 0 <= i < physical.len() implies (
            #[trigger] physical[i]).cdp_breakpoint_id != c by {
                if i < rest.len() {
                    assert(rest[i].cdp_breakpoint_id != c);
                }
            }
        }
    }
}

/// Forgetting a probe whose installations are known keeps a consistent state
/// consistent: the probe and its installations are gone, all others stay.
pub proof fn law_removing_a_probe_removes_its_installations(state: StateView, removal: RemovalView)
    requires
        consistency::consistent(state),
        covers(state, removal),
    ensures
        ({
            let after = removal.forget(state);
            &&& consistency::consistent(after)
            &&& forall|id: Chars| #[trigger]
                collections::lookup(after.logical_probes, id) == (if id == removal.probe.probe_id {
                    None
                } else {
                    collections::lookup(state.logical_probes, id)
                })
            &&& forall|id: Chars| #[trigger]
                collections::lookup(after.physical_probes, id) == (match collections::lookup(
                    state.physical_probes,
                    id,
                ) {
                    Some(binding) => if binding.probe_id == removal.probe.probe_id {
                        None
                    } else {
                        Some(binding)
                    },
                    None => None,
                })
        }),
{
    let probe = removal.probe.probe_id;
    let unlisted = StateView {
        logical_probes: collections::del(state.logical_probes, probe),
        ..state
    };
    let after = removal.forget(state);
    lemma_without_installations(unlisted, removal.physical);
    tables::lemma_changes_distinct(state.logical_probes, probe, removal.probe);
    assert forall|id: Chars| #[trigger]
        collections::lookup(after.logical_probes, id) == (if id == probe {
            None
        } else {
            collections::lookup(state.logical_probes, id)
        }) by {
        tables::lemma_lookup_del(state.logical_probes, probe, id);
    }
    assert forall|id: Chars| #[trigger]
        collections::lookup(after.physical_probes, id) == (match collections::lookup(
            state.physical_probes,
            id,
        ) {
            Some(binding) => if binding.probe_id == probe {
                None
            } else {
                Some(binding)
            },
            None => None,
        }) by {
        if lists_id(removal.physical, id) {
            let i = choose|i: int|
                0 <= i < removal.physical.len() && (#[trigger] removal.physical[i]).physical_id
                    == id;
            assert(removal.physical[i].physical_id == id);
        }
    }
    assert forall|id: Chars| #[trigger] consistency::installation_right(after, id) by {
        assert(consistency::installation_right(state, id));
    }
    assert forall|id: Chars| #[trigger] consistency::probe_right(after, id) by {
        assert(consistency::probe_right(state, id));
        if let Some(p) = collections::lookup(after.logical_probes, id) {
            assert forall|x: Chars| #[trigger]
                p.physical_ids.contains(x) implies consistency::installed(after, x, id) by {
                assert(consistency::installed(state, x, id));
            }
        }
    }
    assert forall|c: Chars| #[trigger] consistency::breakpoint_right(after, c) by {
        assert(consistency::breakpoint_right(state, c));
        if let Some(id) = collections::lookup(after.physical_by_cdp_breakpoint, c) {
            let binding = collections::lookup(state.physical_probes, id)->Some_0;
            assert(consistency::installation_right(state, id));
            if binding.probe_id == probe {
                assert(lists_id(removal.physical, id));
                let i = choose|i: int|
                    0 <= i < removal.physical.len() && (
                    #[trigger] removal.physical[i]).physical_id == id;
                assert(removal.physical[i] == binding);
                assert(removal.physical[i].cdp_breakpoint_id != c);
            }
        }
    }
    consistency::lemma_pages_carried(state, after);
}

} // verus!
