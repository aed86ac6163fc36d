//! What events of the browser do to the state.

use vstd::prelude::*;

use crate::collections;
use crate::controller;
use crate::controller::StateView;
use crate::events;
use crate::json::JsonView;
use crate::laws::consistency;
use crate::laws::tables;
use crate::records::{CdpEventView, PauseView, SessionView};
use crate::text::Chars;

verus! {

proof fn lemma_pause_dropped(state: StateView, session: Chars)
    requires
        consistency::consistent(state),
    ensures
        consistency::consistent(
            StateView {
                paused_sessions: collections::del(state.paused_sessions, session),
                ..state
            },
        ),
        collections::lookup(collections::del(state.paused_sessions, session), session) is None,
{
    let after = StateView {
        paused_sessions: collections::del(state.paused_sessions, session),
        ..state
    };
    tables::lemma_lookup_del(state.paused_sessions, session, session);
    assert forall|id: Chars| #[trigger] consistency::pause_right(after, id) by {
        assert(consistency::pause_right(state, id));
        tables::lemma_lookup_del(state.paused_sessions, session, id);
    }
    assert forall|id: Chars| #[trigger] consistency::session_right(after, id) by {
        assert(consistency::session_right(state, id));
    }
    consistency::lemma_carried(state, after);
}

proof fn lemma_session_put(state: StateView, session: Chars, value: SessionView)
    requires
        consistency::consistent(state),
        value.session_id == session,
    ensures
        consistency::consistent(
            StateView { sessions: collections::put(state.sessions, session, value), ..state },
        ),
{
    let after = StateView { sessions: collections::put(state.sessions, session, value), ..state };
    assert forall|id: Chars| #[trigger] consistency::pause_right(after, id) by {
        assert(consistency::pause_right(state, id));
    }
    assert forall|id: Chars| #[trigger] consistency::session_right(after, id) by {
        assert(consistency::session_right(state, id));
        tables::lemma_lookup_put(state.sessions, session, value, id);
    }
    consistency::lemma_carried(state, after);
}

proof fn lemma_script_parsed(
    state: StateView,
    now: u64,
    generation: u64,
    session: Chars,
    params: JsonView,
)
    requires
        consistency::consistent(state),
    ensures
        consistency::consistent(state.on_script_parsed(now, generation, session, params).0),
{
    let script = match params.get_str("scriptId"@) {
        Some(id) => id,
        None => Seq::empty(),
    };
    let record = events::script_record(
        generation,
        session,
        collections::lookup(state.sessions, session),
        script,
        params,
    );
    let noted = StateView {
        scripts: controller::put_script(
            state.scripts,
            crate::records::ScriptView { session_id: session, script_id: script, record },
        ),
        ..state
    };
    consistency::lemma_pages_carried(state, noted);
    consistency::lemma_carried(state, noted);
    consistency::law_events_keep_consistency(
        noted,
        now,
        "script-parsed"@,
        Some(session),
        record,
    );
}

proof fn lemma_paused(
    state: StateView,
    now: u64,
    generation: u64,
    session: Chars,
    params: JsonView,
)
    requires
        consistency::consistent(state),
        state.connection_generation == generation,
    ensures
        consistency::consistent(state.on_paused(now, generation, session, params).0),
{
    if let Some(known) = collections::lookup(state.sessions, session) {
        let pause = events::pause_record(state, generation, known, session, params);
        let noted = StateView {
            paused_sessions: collections::put(state.paused_sessions, session, pause),
            ..state
        };
        assert forall|id: Chars| #[trigger] consistency::pause_right(noted, id) by {
            assert(consistency::pause_right(state, id));
            tables::lemma_lookup_put(state.paused_sessions, session, pause, id);
        }
        assert forall|id: Chars| #[trigger] consistency::session_right(noted, id) by {
            assert(consistency::session_right(state, id));
        }
        consistency::lemma_carried(state, noted);
        consistency::law_events_keep_consistency(
            noted,
            now,
            "debugger-paused"@,
            Some(session),
            pause.to_json(),
        );
    }
}

proof fn lemma_resumed(state: StateView, now: u64, session: Chars)
    requires
        consistency::consistent(state),
    ensures
        consistency::consistent(state.on_resumed(now, session)),
{
    lemma_pause_dropped(state, session);
    consistency::law_events_keep_consistency(
        StateView { paused_sessions: collections::del(state.paused_sessions, session), ..state },
        now,
        "debugger-resumed"@,
        Some(session),
        JsonView::object().with(
            "pause"@,
            PauseView::opt_json(collections::lookup(state.paused_sessions, session)),
        ),
    );
}

proof fn lemma_context_created(state: StateView, now: u64, session: Chars, params: JsonView)
    requires
        consistency::consistent(state),
    ensures
        consistency::consistent(state.on_context_created(now, session, params)),
{
    let context = params.get("context"@);
    let id = match JsonView::inner(context, "id"@) {
        Some(v) => v.as_u64(),
        None => None,
    };
    let noted = StateView {
        execution_contexts: match id {
            Some(n) => collections::put(
                state.execution_contexts,
                session,
                events::ids_with(events::contexts_of(state, session), n),
            ),
            None => state.execution_contexts,
        },
        ..state
    };
    consistency::lemma_pages_carried(state, noted);
    consistency::lemma_carried(state, noted);
    consistency::law_events_keep_consistency(
        noted,
        now,
        "execution-context-created"@,
        Some(session),
        JsonView::object().with("executionContextId"@, JsonView::opt_uint(id)).with(
            "name"@,
            JsonView::or_null(JsonView::inner(context, "name"@)),
        ).with("origin"@, JsonView::or_null(JsonView::inner(context, "origin"@))).with(
            "auxData"@,
            JsonView::or_null(JsonView::inner(context, "auxData"@)),
        ),
    );
}

/// No installation of an execution context outlives the context.
pub proof fn law_destroyed_contexts_keep_no_installation(
    state: StateView,
    now: u64,
    session: Chars,
    params: JsonView,
)
    requires
        consistency::consistent(state),
    ensures
        ({
            let after = state.on_context_destroyed(now, session, params);
            &&& consistency::consistent(after)
            &&& params.get_u64("executionContextId"@) matches Some(context) ==> forall|id: Chars|
                #[trigger]
                collections::lookup(after.physical_probes, id) matches Some(binding) ==> !(
                binding.session_id == session && binding.execution_context_id == Some(context))
        }),
{
    let context = params.get_u64("executionContextId"@);
    let cleared = match context {
        Some(n) => {
            let noted = StateView {
                execution_contexts: match collections::lookup(state.execution_contexts, session) {
                    Some(ids) => collections::put(
                        state.execution_contexts,
                        session,
                        events::ids_without(ids, n),
                    ),
                    None => state.execution_contexts,
                },
                scripts: controller::without_context(state.scripts, session, n),
                ..state
            };
            consistency::lemma_pages_carried(state, noted);
            consistency::lemma_carried(state, noted);
            consistency::law_invalidated_contexts_keep_no_installation(
                noted,
                now,
                session,
                n,
                "execution-context-destroyed"@,
            );
            noted.invalidate_context(now, session, n, "execution-context-destroyed"@)
        },
        None => state,
    };
    consistency::law_events_keep_consistency(
        cleared,
        now,
        "execution-context-destroyed"@,
        Some(session),
        JsonView::object().with("executionContextId"@, JsonView::opt_uint(context)),
    );
}

/// Once the contexts of a session were cleared, the session is not paused and
/// no installation of its document is left.
pub proof fn law_cleared_contexts_keep_no_installation(
    state: StateView,
    now: u64,
    session: Chars,
)
    requires
        consistency::consistent(state),
    ensures
        ({
            let after = state.on_contexts_cleared(now, session);
            let document = events::generation_of(collections::lookup(state.sessions, session));
            &&& consistency::consistent(after)
            &&& collections::lookup(after.paused_sessions, session) is None
            &&& forall|id: Chars| #[trigger]
                collections::lookup(after.physical_probes, id) matches Some(binding)
                    ==> !consistency::of_document(binding, session, document)
        }),
{
    let document = events::generation_of(collections::lookup(state.sessions, session));
    let resumed = StateView {
        paused_sessions: collections::del(state.paused_sessions, session),
        ..state
    };
    lemma_pause_dropped(state, session);
    let noted = StateView {
        execution_contexts: collections::del(state.execution_contexts, session),
        scripts: controller::without_session(state.scripts, session),
        ..resumed
    };
    consistency::lemma_pages_carried(resumed, noted);
    consistency::lemma_carried(resumed, noted);
    consistency::law_invalidated_documents_keep_no_installation(
        noted,
        now,
        session,
        document,
        "execution-contexts-cleared"@,
    );
    consistency::law_events_keep_consistency(
        noted.invalidate_session(now, session, document, "execution-contexts-cleared"@),
        now,
        "execution-contexts-cleared"@,
        Some(session),
        JsonView::object(),
    );
}

proof fn lemma_binding_called(
    state: StateView,
    now: u64,
    generation: u64,
    session: Chars,
    params: JsonView,
)
    requires
        consistency::consistent(state),
    ensures
        consistency::consistent(state.on_binding_called(now, generation, session, params).0),
        consistency::same_but_ring(
            state,
            state.on_binding_called(now, generation, session, params).0,
        ),
{
    assert forall|kind: Chars, data: JsonView| consistency::consistent(
        #[trigger] state.push_event(now, kind, Some(session), data),
    ) && consistency::same_but_ring(
        state,
        state.push_event(now, kind, Some(session), data),
    ) by {
        consistency::law_events_keep_consistency(state, now, kind, Some(session), data);
    }
}

/// A page that shows a new document has no pause, no scripts and no
/// installation of the document before.
pub proof fn law_navigation_drops_the_old_document(
    state: StateView,
    now: u64,
    session: Chars,
    frame: JsonView,
    known: SessionView,
)
    requires
        consistency::consistent(state),
        collections::lookup(state.sessions, session) == Some(known),
    ensures
        ({
            let after = state.on_main_navigated(now, session, frame, known);
            &&& consistency::consistent(after)
            &&& known.loader_id is Some && known.loader_id != frame.get_str("loaderId"@) ==> {
                &&& collections::lookup(after.paused_sessions, session) is None
                &&& after.scripts == controller::without_session(state.scripts, session)
                &&& collections::lookup(after.sessions, session) == Some(
                    SessionView {
                        document_generation: controller::next_number(known.document_generation),
                        loader_id: frame.get_str("loaderId"@),
                        ..known
                    },
                )
                &&& forall|id: Chars| #[trigger]
                    collections::lookup(after.physical_probes, id) matches Some(binding)
                        ==> !consistency::of_document(
                        binding,
                        session,
                        known.document_generation,
                    )
            }
        }),
{
    let loader = frame.get_str("loaderId"@);
    let replaced = known.loader_id is Some && known.loader_id != loader;
    let generation = if replaced {
        controller::next_number(known.document_generation)
    } else {
        known.document_generation
    };
    let value = SessionView { document_generation: generation, loader_id: loader, ..known };
    assert(consistency::session_right(state, session));
    lemma_session_put(state, session, value);
    tables::lemma_lookup_put(state.sessions, session, value, session);
    let noted = StateView { sessions: collections::put(state.sessions, session, value), ..state };
    let settled = if replaced {
        let invalidated = JsonView::object().with(
            "loaderId"@,
            JsonView::opt_text(known.loader_id),
        ).with("documentGeneration"@, JsonView::Uint(known.document_generation));
        let told = noted.push_event(now, "document-invalidated"@, Some(session), invalidated);
        consistency::law_events_keep_consistency(
            noted,
            now,
            "document-invalidated"@,
            Some(session),
            invalidated,
        );
        lemma_pause_dropped(told, session);
        let resumed = StateView {
            paused_sessions: collections::del(told.paused_sessions, session),
            ..told
        };
        let bare = StateView {
            scripts: controller::without_session(told.scripts, session),
            ..resumed
        };
        consistency::lemma_pages_carried(resumed, bare);
        consistency::lemma_carried(resumed, bare);
        consistency::law_invalidated_documents_keep_no_installation(
            bare,
            now,
            session,
            known.document_generation,
            "document-invalidated"@,
        );
        noted.on_document_replaced(now, session, known)
    } else {
        noted
    };
    consistency::law_events_keep_consistency(
        settled,
        now,
        "document-committed"@,
        Some(session),
        JsonView::object().with("previousLoaderId"@, JsonView::opt_text(known.loader_id)).with(
            "loaderId"@,
            JsonView::opt_text(loader),
        ).with(
            "previousDocumentGeneration"@,
            JsonView::Uint(known.document_generation),
        ).with("documentGeneration"@, JsonView::Uint(generation)).with(
            "url"@,
            frame.get_or_null("url"@),
        ),
    );
}

/// Nothing of a session outlives its target: no session, pause, script, binding
/// or installation.
pub proof fn law_detached_targets_leave_nothing(state: StateView, now: u64, session: Chars)
    requires
        consistency::consistent(state),
    ensures
        ({
            let after = state.on_target_detached(now, session);
            &&& consistency::consistent(after)
            &&& collections::lookup(after.sessions, session) is None
            &&& collections::lookup(after.paused_sessions, session) is None
            &&& collections::lookup(after.execution_contexts, session) is None
            &&& !after.enabled_sessions.contains(session)
            &&& !after.binding_sessions.contains(session)
            &&& after.scripts == controller::without_session(state.scripts, session)
            &&& forall|id: Chars| #[trigger]
                collections::lookup(after.physical_probes, id) matches Some(binding)
                    ==> binding.session_id != session
        }),
{
    broadcast use tables::lemma_filter_holds;

    lemma_pause_dropped(state, session);
    let resumed = StateView {
        paused_sessions: collections::del(state.paused_sessions, session),
        ..state
    };
    let data = JsonView::object().with(
        "invalidatedPause"@,
        PauseView::opt_json(collections::lookup(state.paused_sessions, session)),
    );
    let told = resumed.push_event(now, "target-detached"@, Some(session), data);
    consistency::law_events_keep_consistency(
        resumed,
        now,
        "target-detached"@,
        Some(session),
        data,
    );
    let bare = StateView {
        sessions: collections::del(told.sessions, session),
        enabled_sessions: collections::set_without(told.enabled_sessions, session),
        execution_contexts: collections::del(told.execution_contexts, session),
        binding_sessions: collections::set_without(told.binding_sessions, session),
        scripts: controller::without_session(told.scripts, session),
        ..told
    };
    tables::lemma_lookup_del(told.sessions, session, session);
    tables::lemma_lookup_del(told.execution_contexts, session, session);
    assert forall|id: Chars| #[trigger] consistency::session_right(bare, id) by {
        assert(consistency::session_right(told, id));
        tables::lemma_lookup_del(told.sessions, session, id);
    }
    assert forall|id: Chars| #[trigger] consistency::pause_right(bare, id) by {
        assert(consistency::pause_right(told, id));
    }
    consistency::lemma_carried(told, bare);
    consistency::law_invalidated_documents_keep_no_installation(
        bare,
        now,
        session,
        u64::MAX,
        "session-detached"@,
    );
    consistency::law_events_keep_consistency(
        bare.invalidate_session(now, session, u64::MAX, "session-detached"@),
        now,
        "session-detached"@,
        Some(session),
        JsonView::object(),
    );
}

/// Every event of the browser leaves a consistent state consistent; events of
/// another connection change nothing.
pub proof fn law_browser_events_keep_consistency(
    state: StateView,
    now: u64,
    generation: u64,
    event: CdpEventView,
)
    requires
        consistency::consistent(state),
    ensures
        consistency::consistent(state.handle_event(now, generation, event).0),
        state.connection_generation != generation || !state.connected ==> state.handle_event(
            now,
            generation,
            event,
        ) == (state, false),
{
    if let Some(session) = event.params.get_str("sessionId"@) {
        law_detached_targets_leave_nothing(state, now, session);
    }
    if state.connection_generation == generation {
        if let Some(session) = event.session_id {
            lemma_script_parsed(state, now, generation, session, event.params);
            lemma_paused(state, now, generation, session, event.params);
            lemma_resumed(state, now, session);
            lemma_context_created(state, now, session, event.params);
            law_destroyed_contexts_keep_no_installation(state, now, session, event.params);
            law_cleared_contexts_keep_no_installation(state, now, session);
            lemma_binding_called(state, now, generation, session, event.params);
            if let Some(frame) = event.params.get("frame"@) {
                if let Some(known) = collections::lookup(state.sessions, session) {
                    law_navigation_drops_the_old_document(state, now, session, frame, known);
                }
            }
        }
    }
}

/// A loss in the transport leaves a consistent state consistent.
pub proof fn law_transport_losses_keep_consistency(
    state: StateView,
    now: u64,
    generation: u64,
    count: u64,
)
    requires
        consistency::consistent(state),
    ensures
        consistency::consistent(state.transport_gap(now, generation, count)),
{
    let data = JsonView::object().with("gapReason"@, JsonView::Str("broadcast-lag"@)).with(
        "droppedEventCount"@,
        JsonView::Uint(count),
    );
    consistency::law_events_keep_consistency(state, now, "transport-gap"@, None, data);
    let told = state.push_event(now, "transport-gap"@, None, data);
    if state.connection_generation == generation {
        let after = state.transport_gap(now, generation, count);
        consistency::lemma_pages_carried(told, after);
        consistency::lemma_carried(told, after);
    }
}

} // verus!
