//! What connecting, disconnecting and the pages of a browser do to the state.

use vstd::prelude::*;

use crate::collections;
use crate::controller;
use crate::controller::StateView;
use crate::json::JsonView;
use crate::laws::consistency;
use crate::laws::ring;
use crate::laws::tables;
use crate::lifecycle;
use crate::records::{LogicalView, PageView, PauseView, PhysicalView, SessionView};
use crate::text::Chars;

verus! {

/// Every probe carries the identifier that it stands under.
pub open spec fn probes_named(probes: Seq<(Chars, LogicalView)>) -> bool {
    forall|id: Chars| #[trigger]
        collections::lookup(probes, id) matches Some(probe) ==> probe.probe_id == id
}

/// A probe without installations that waits for its connection to come back.
pub open spec fn gone_stale(probe: LogicalView) -> LogicalView {
    LogicalView { physical_ids: Seq::empty(), status: "stale"@, ..probe }
}

proof fn lemma_report_stale(
    state: StateView,
    now: u64,
    probe: Chars,
    ids: Seq<Chars>,
    reason: Chars,
)
    requires
        ring::bounded(state),
    ensures
        ring::bounded(state.report_stale(now, probe, ids, reason)),
        consistency::same_but_ring(state, state.report_stale(now, probe, ids, reason)),
    decreases ids.len(),
{
    if ids.len() > 0 {
        let before = state.report_stale(now, probe, ids.drop_last(), reason);
        let data = controller::stale_data(probe, ids.last(), reason);
        lemma_report_stale(state, now, probe, ids.drop_last(), reason);
        ring::law_ring_stays_bounded(before, now, "probe-unbound"@, None, data);
        controller::lemma_push_event_frame(before, now, "probe-unbound"@, None, data);
    }
}

spec fn names(probes: Seq<(Chars, LogicalView)>, id: Chars) -> bool {
    exists|i: int| 0 <= i < probes.len() && (#[trigger] probes[i]).1.probe_id == id
}

proof fn lemma_mark_each(
    state: StateView,
    now: u64,
    probes: Seq<(Chars, LogicalView)>,
    reason: Chars,
)
    requires
        ring::bounded(state),
        tables::distinct(state.logical_probes),
        probes_named(state.logical_probes),
    ensures
        ({
            let after = state.mark_each_stale(now, probes, reason);
            &&& ring::bounded(after)
            &&& tables::distinct(after.logical_probes)
            &&& consistency::same_but_probes(state, after)
            &&& forall|id: Chars| #[trigger]
                collections::lookup(after.logical_probes, id) == match collections::lookup(
                    state.logical_probes,
                    id,
                ) {
                    Some(probe) => if names(probes, id) {
                        Some(gone_stale(probe))
                    } else {
                        Some(probe)
                    },
                    None => None,
                }
        }),
    decreases probes.len(),
{
    if probes.len() > 0 {
        let rest = probes.drop_last();
        let before = state.mark_each_stale(now, rest, reason);
        let after = state.mark_each_stale(now, probes, reason);
        let id = probes.last().1.probe_id;
        lemma_mark_each(state, now, rest, reason);
        let marked = match collections::lookup(before.logical_probes, id) {
            Some(p) => {
                tables::lemma_changes_distinct(before.logical_probes, id, gone_stale(p));
                StateView {
                    logical_probes: collections::put(before.logical_probes, id, gone_stale(p)),
                    ..before
                }
            },
            None => before,
        };
        lemma_report_stale(marked, now, id, probes.last().1.physical_ids, reason);
        assert forall|k: Chars| #[trigger]
            collections::lookup(after.logical_probes, k) == match collections::lookup(
                state.logical_probes,
                k,
            ) {
                Some(probe) => if names(probes, k) {
                    Some(gone_stale(probe))
                } else {
                    Some(probe)
                },
                None => None,
            } by {
            if let Some(p) = collections::lookup(before.logical_probes, id) {
                tables::lemma_lookup_put(before.logical_probes, id, gone_stale(p), k);
            }
            assert(probes[probes.len() - 1].1.probe_id == id);
            if names(rest, k) {
                let i = choose|i: int| 0 <= i < rest.len() && (#[trigger] rest[i]).1.probe_id == k;
                assert(probes[i].1.probe_id == k);
            }
            if names(probes, k) && k != id {
                let i = choose|i: int|
                    0 <= i < probes.len() && (#[trigger] probes[i]).1.probe_id == k;
                assert(rest[i].1.probe_id == k);
            }
        }
    } else {
        assert forall|k: Chars| !names(probes, k) by {}
    }
}

/// After a reset nothing of the connection is left: no session, script, pause,
/// binding or installation. Probes stay, stale and without installations.
pub proof fn law_reset_leaves_stale_probes_only(state: StateView, now: u64, reason: Chars)
    requires
        ring::bounded(state),
        tables::distinct(state.logical_probes),
        probes_named(state.logical_probes),
    ensures
        ({
            let after = state.reset(now, reason);
            &&& consistency::consistent(after)
            &&& after.sessions.len() == 0
            &&& after.enabled_sessions.len() == 0
            &&& after.execution_contexts.len() == 0
            &&& after.binding_sessions.len() == 0
            &&& after.paused_sessions.len() == 0
            &&& after.scripts.len() == 0
            &&& after.physical_probes.len() == 0
            &&& after.physical_by_cdp_breakpoint.len() == 0
            &&& after.connection_generation == state.connection_generation
            &&& after.connected == state.connected
            &&& forall|id: Chars| #[trigger]
                collections::lookup(after.logical_probes, id) == match collections::lookup(
                    state.logical_probes,
                    id,
                ) {
                    Some(probe) => Some(gone_stale(probe)),
                    None => None,
                }
        }),
{
    let bare = StateView {
        sessions: Seq::empty(),
        enabled_sessions: Seq::empty(),
        execution_contexts: Seq::empty(),
        binding_sessions: Seq::empty(),
        paused_sessions: Seq::empty(),
        scripts: Seq::empty(),
        ..state
    };
    let after = state.reset(now, reason);
    lemma_mark_each(bare, now, bare.logical_probes, reason);
    assert forall|id: Chars| #[trigger]
        collections::lookup(after.logical_probes, id) == match collections::lookup(
            state.logical_probes,
            id,
        ) {
            Some(probe) => Some(gone_stale(probe)),
            None => None,
        } by {
        if let Some(probe) = collections::lookup(state.logical_probes, id) {
            tables::lemma_lookup_member(state.logical_probes, id);
            let i = state.logical_probes.index_of((id, probe));
            assert(bare.logical_probes[i].1.probe_id == id);
        }
    }
    assert forall|id: Chars| #[trigger] consistency::probe_right(after, id) by {}
}

proof fn lemma_named(state: StateView)
    requires
        consistency::consistent(state),
    ensures
        probes_named(state.logical_probes),
{
    assert forall|id: Chars| #[trigger]
        collections::lookup(state.logical_probes, id) is Some implies collections::lookup(
        state.logical_probes,
        id,
    )->Some_0.probe_id == id by {
        assert(consistency::probe_right(state, id));
    }
}

proof fn lemma_report_attached(state: StateView, now: u64, sessions: Seq<SessionView>)
    requires
        consistency::consistent(state),
    ensures
        consistency::consistent(state.report_attached(now, sessions)),
        consistency::same_but_ring(state, state.report_attached(now, sessions)),
    decreases sessions.len(),
{
    if sessions.len() > 0 {
        let session = sessions.last();
        lemma_report_attached(state, now, sessions.drop_last());
        consistency::law_events_keep_consistency(
            state.report_attached(now, sessions.drop_last()),
            now,
            "target-attached"@,
            Some(session.session_id),
            JsonView::object().with("targetId"@, JsonView::Str(session.target_id)).with(
                "tabId"@,
                JsonView::Str(session.tab_id),
            ),
        );
    }
}

proof fn lemma_page_table(pages: Seq<PageView>, known: Seq<(Chars, SessionView)>, id: Chars)
    ensures
        collections::lookup(lifecycle::page_table(pages, known), id) matches Some(session)
            ==> session.session_id == id,
    decreases pages.len(),
{
    if pages.len() > 0 {
        let page = pages.last();
        lemma_page_table(pages.drop_last(), known, id);
        tables::lemma_lookup_put(
            lifecycle::page_table(pages.drop_last(), known),
            page.session_id,
            lifecycle::page_session(page, collections::lookup(known, page.session_id)),
            id,
        );
    }
}

/// Attaching a browser starts a new connection from scratch: no pause, script or
/// installation of an earlier connection is left. Probes stay, stale and without
/// installations.
pub proof fn law_attaching_starts_from_scratch(
    state: StateView,
    now: u64,
    pages: Seq<PageView>,
    active: Option<u32>,
    suffix: Chars,
    nonce: Chars,
)
    requires
        consistency::consistent(state),
    ensures
        ({
            let after = state.attach(now, pages, active, suffix, nonce);
            &&& consistency::consistent(after)
            &&& after.connected
            &&& after.connection_generation == controller::next_number(
                state.connection_generation,
            )
            &&& after.sessions == lifecycle::page_table(pages, Seq::empty())
            &&& after.paused_sessions.len() == 0
            &&& after.enabled_sessions.len() == 0
            &&& after.binding_sessions.len() == 0
            &&& after.scripts.len() == 0
            &&& after.execution_contexts.len() == 0
            &&& after.physical_probes.len() == 0
            &&& after.physical_by_cdp_breakpoint.len() == 0
            &&& forall|id: Chars| #[trigger]
                collections::lookup(after.logical_probes, id) == match collections::lookup(
                    state.logical_probes,
                    id,
                ) {
                    Some(probe) => Some(gone_stale(probe)),
                    None => None,
                }
        }),
{
    let data = JsonView::object().with(
        "previousConnectionGeneration"@,
        JsonView::Uint(state.connection_generation),
    );
    consistency::law_events_keep_consistency(state, now, "connection-reset"@, None, data);
    let told = if state.connected {
        state.push_event(now, "connection-reset"@, None, data)
    } else {
        state
    };
    lemma_named(told);
    let generation = controller::next_number(state.connection_generation);
    let begun = StateView { connection_generation: generation, connected: true, ..told };
    law_reset_leaves_stale_probes_only(begun, now, "connection-reset"@);
    let clean = begun.reset(now, "connection-reset"@);
    let sessions = lifecycle::page_table(pages, Seq::empty());
    let named = StateView {
        binding_name: lifecycle::LOGPOINT_BINDING_PREFIX@ + suffix,
        binding_nonce: nonce,
        sessions,
        active_session: lifecycle::active_of(sessions, active),
        ..clean
    };
    assert forall|id: Chars| #[trigger] consistency::session_right(named, id) by {
        lemma_page_table(pages, Seq::empty(), id);
    }
    assert forall|id: Chars| #[trigger] consistency::pause_right(named, id) by {
        assert(consistency::pause_right(clean, id));
    }
    consistency::lemma_carried(clean, named);
    let attached = JsonView::object().with("connectionGeneration"@, JsonView::Uint(generation));
    consistency::law_events_keep_consistency(named, now, "connection-attached"@, None, attached);
    lemma_report_attached(
        named.push_event(now, "connection-attached"@, None, attached),
        now,
        lifecycle::fresh_sessions(pages),
    );
}

/// A browser that was detached leaves stale probes and nothing else; detaching
/// again changes nothing.
pub proof fn law_detaching_leaves_stale_probes_only(state: StateView, now: u64, reason: Chars)
    requires
        consistency::consistent(state),
        state.connected,
    ensures
        ({
            let after = state.detach(now, reason);
            &&& consistency::consistent(after)
            &&& !after.connected
            &&& after.active_session is None
            &&& after.sessions.len() == 0
            &&& after.paused_sessions.len() == 0
            &&& after.scripts.len() == 0
            &&& after.physical_probes.len() == 0
            &&& after.physical_by_cdp_breakpoint.len() == 0
            &&& forall|id: Chars| #[trigger]
                collections::lookup(after.logical_probes, id) == match collections::lookup(
                    state.logical_probes,
                    id,
                ) {
                    Some(probe) => Some(gone_stale(probe)),
                    None => None,
                }
            &&& forall|again: Chars| #[trigger] after.detach(now, again) == after
        }),
{
    let data = JsonView::object().with(
        "previousConnectionGeneration"@,
        JsonView::Uint(state.connection_generation),
    ).with("reason"@, JsonView::Str(reason)).with(
        "invalidatedPauses"@,
        JsonView::Array(lifecycle::pause_list(state)),
    );
    consistency::law_events_keep_consistency(state, now, "connection-reset"@, None, data);
    let told = state.push_event(now, "connection-reset"@, None, data);
    lemma_named(told);
    let ended = StateView { connected: false, active_session: None, ..told };
    law_reset_leaves_stale_probes_only(ended, now, reason);
    let bare = StateView {
        sessions: Seq::empty(),
        enabled_sessions: Seq::empty(),
        execution_contexts: Seq::empty(),
        binding_sessions: Seq::empty(),
        paused_sessions: Seq::empty(),
        scripts: Seq::empty(),
        ..ended
    };
    lemma_mark_each(bare, now, bare.logical_probes, reason);
}

/// Installations of other sessions.
pub open spec fn outside(binding: Option<PhysicalView>, sessions: Seq<Chars>) -> Option<
    PhysicalView,
> {
    match binding {
        Some(b) => if sessions.contains(b.session_id) {
            None
        } else {
            Some(b)
        },
        None => None,
    }
}

/// A page that was closed leaves no pause, script, binding or installation;
/// installations of other pages stay.
pub proof fn law_closed_pages_leave_nothing(state: StateView, now: u64, session: Chars)
    requires
        consistency::consistent(state),
    ensures
        ({
            let after = state.drop_page(now, session);
            &&& consistency::consistent(after)
            &&& after.sessions == state.sessions
            &&& after.connected == state.connected
            &&& collections::lookup(after.paused_sessions, session) is None
            &&& !after.enabled_sessions.contains(session)
            &&& !after.binding_sessions.contains(session)
            &&& after.scripts == controller::without_session(state.scripts, session)
            &&& forall|id: Chars| #[trigger]
                collections::lookup(after.physical_probes, id) == outside(
                    collections::lookup(state.physical_probes, id),
                    seq![session],
                )
        }),
{
    broadcast use tables::lemma_filter_holds;

    let resumed = StateView {
        paused_sessions: collections::del(state.paused_sessions, session),
        ..state
    };
    tables::lemma_lookup_del(state.paused_sessions, session, session);
    assert forall|id: Chars| #[trigger] consistency::pause_right(resumed, id) by {
        assert(consistency::pause_right(state, id));
        tables::lemma_lookup_del(state.paused_sessions, session, id);
    }
    assert forall|id: Chars| #[trigger] consistency::session_right(resumed, id) by {
        assert(consistency::session_right(state, id));
    }
    consistency::lemma_carried(state, resumed);
    let data = JsonView::object().with(
        "invalidatedPause"@,
        PauseView::opt_json(collections::lookup(state.paused_sessions, session)),
    );
    consistency::law_events_keep_consistency(
        resumed,
        now,
        "target-detached"@,
        Some(session),
        data,
    );
    let first = resumed.push_event(now, "target-detached"@, Some(session), data);
    consistency::law_invalidated_documents_keep_no_installation(
        first,
        now,
        session,
        u64::MAX,
        "session-detached"@,
    );
    let cleared = first.invalidate_session(now, session, u64::MAX, "session-detached"@);
    consistency::law_events_keep_consistency(
        cleared,
        now,
        "session-detached"@,
        Some(session),
        JsonView::object(),
    );
    let told = cleared.push_event(now, "session-detached"@, Some(session), JsonView::object());
    let after = state.drop_page(now, session);
    consistency::lemma_pages_carried(told, after);
    consistency::lemma_carried(told, after);
    assert forall|id: Chars| #[trigger]
        collections::lookup(after.physical_probes, id) == outside(
            collections::lookup(state.physical_probes, id),
            seq![session],
        ) by {
        assert(collections::lookup(cleared.physical_probes, id) == collections::lookup(
            after.physical_probes,
            id,
        ));
        assert(seq![session][0] == session);
    }
}

proof fn lemma_drop_pages(state: StateView, now: u64, sessions: Seq<Chars>)
    requires
        consistency::consistent(state),
    ensures
        ({
            let after = state.drop_pages(now, sessions);
            &&& consistency::consistent(after)
            &&& after.sessions == state.sessions
            &&& forall|id: Chars| #[trigger]
                collections::lookup(after.physical_probes, id) == outside(
                    collections::lookup(state.physical_probes, id),
                    sessions,
                )
        }),
    decreases sessions.len(),
{
    if sessions.len() > 0 {
        let rest = sessions.drop_last();
        let before = state.drop_pages(now, rest);
        let after = state.drop_pages(now, sessions);
        lemma_drop_pages(state, now, rest);
        law_closed_pages_leave_nothing(before, now, sessions.last());
        assert forall|id: Chars| #[trigger]
            collections::lookup(after.physical_probes, id) == outside(
                collections::lookup(state.physical_probes, id),
                sessions,
            ) by {
            assert(collections::lookup(before.physical_probes, id) == outside(
                collections::lookup(state.physical_probes, id),
                rest,
            ));
            assert(seq![sessions.last()][0] == sessions[sessions.len() - 1]);
            if let Some(b) = collections::lookup(state.physical_probes, id) {
                if sessions.contains(b.session_id) {
                    let i = sessions.index_of(b.session_id);
                    if i < rest.len() {
                        assert(rest[i] == b.session_id);
                    }
                }
                if rest.contains(b.session_id) {
                    assert(sessions[rest.index_of(b.session_id)] == b.session_id);
                }
            }
        }
    }
}

/// The sessions that a synchronization finds closed.
pub open spec fn closed_sessions(state: StateView, pages: Seq<PageView>) -> Seq<Chars> {
    collections::keys(
        lifecycle::missing_from(state.sessions, lifecycle::page_table(pages, state.sessions)),
    )
}

/// Synchronizing the pages leaves a consistent state consistent. Exactly the
/// installations of sessions that were not closed are left.
pub proof fn law_synchronizing_drops_closed_pages(
    state: StateView,
    now: u64,
    pages: Seq<PageView>,
    active: Option<u32>,
)
    requires
        consistency::consistent(state),
    ensures
        ({
            let after = state.sync(now, pages, active);
            &&& consistency::consistent(after)
            &&& after.sessions == lifecycle::page_table(pages, state.sessions)
            &&& forall|id: Chars| #[trigger]
                collections::lookup(after.physical_probes, id) == outside(
                    collections::lookup(state.physical_probes, id),
                    closed_sessions(state, pages),
                )
        }),
{
    let next = lifecycle::page_table(pages, state.sessions);
    let closed = closed_sessions(state, pages);
    lemma_drop_pages(state, now, closed);
    let dropped = state.drop_pages(now, closed);
    let listed = StateView { sessions: next, ..dropped };
    assert forall|id: Chars| #[trigger] consistency::session_right(listed, id) by {
        lemma_page_table(pages, state.sessions, id);
    }
    assert forall|id: Chars| #[trigger] consistency::pause_right(listed, id) by {
        assert(consistency::pause_right(dropped, id));
    }
    consistency::lemma_carried(dropped, listed);
    let attached = collections::values(lifecycle::missing_from(next, state.sessions));
    lemma_report_attached(listed, now, attached);
    let told = listed.report_attached(now, attached);
    let after = state.sync(now, pages, active);
    consistency::lemma_pages_carried(told, after);
    consistency::lemma_carried(told, after);
}

} // verus!
