//! What happens in the browser, and what the debugger makes of it: which state
//! it keeps and which events it tells, in which order.

use vstd::prelude::*;

use crate::collections;
use crate::controller;
use crate::controller::StateView;
use crate::events;
use crate::interop;
use crate::json::JsonView;
use crate::laws::inspection;
use crate::laws::news;
use crate::laws::order;
use crate::laws::tables;
use crate::lifecycle;
use crate::records::{
    CdpEventView, EventView, LogicalView, PageView, PauseView, PhysicalView, ProbeKind, ScriptView,
    SessionView,
};
use crate::text;
use crate::text::Chars;

verus! {

/// Something that is told: its kind, the session that it is about, and its data.
pub struct News {
    pub kind: Chars,
    pub session: Option<Chars>,
    pub data: JsonView,
}

/// Whether events are those that tell some news, in order.
pub open spec fn tell(told: Seq<EventView>, news: Seq<News>) -> bool {
    &&& told.len() == news.len()
    &&& forall|i: int|
        0 <= i < told.len() ==> (#[trigger] told[i]).kind == news[i].kind && told[i].session_id
            == news[i].session && told[i].data == news[i].data
}

/// Whether a list is the end of another one.
pub open spec fn end_of(part: Seq<EventView>, whole: Seq<EventView>) -> bool {
    part.len() <= whole.len() && part == whole.skip(whole.len() - part.len())
}

/// Whether between two states some news were told, one behind the other, and
/// nothing else: what is kept is the end of what was kept before and the news.
pub open spec fn told_between(before: StateView, after: StateView, news: Seq<News>) -> bool {
    exists|told: Seq<EventView>| #[trigger]
        tell(told, news) && end_of(after.events, before.events + told)
}

proof fn lemma_told_nothing(before: StateView, after: StateView)
    requires
        before.events == after.events,
    ensures
        told_between(before, after, Seq::empty()),
{
    let told = Seq::<EventView>::empty();
    assert(tell(told, Seq::<News>::empty()));
    assert(before.events + told =~= before.events);
    assert(after.events =~= before.events.skip(0));
}

proof fn lemma_told_one(
    before: StateView,
    middle: StateView,
    now: u64,
    kind: Chars,
    session: Option<Chars>,
    data: JsonView,
)
    requires
        before.events == middle.events,
    ensures
        told_between(
            before,
            middle.push_event(now, kind, session, data),
            seq![News { kind, session, data }],
        ),
{
    news::law_the_newest_event_is_what_was_told(middle, now, kind, session, data);
    let after = middle.push_event(now, kind, session, data);
    let event = middle.next_event(now, kind, session, data);
    let told = seq![event];
    assert(tell(told, seq![News { kind, session, data }]));
    let whole = before.events + told;
    if after.events.len() > 0 {
        let k = whole.len() - after.events.len();
        assert(after.events =~= after.events.drop_last().push(after.events.last()));
        news::lemma_newest(middle, now, kind, session, data);
        assert(after.events =~= whole.skip(k));
    } else {
        assert(after.events =~= whole.skip(whole.len() as int));
    }
}

proof fn lemma_told_both(
    a: StateView,
    b: StateView,
    c: StateView,
    first: Seq<News>,
    second: Seq<News>,
)
    requires
        told_between(a, b, first),
        told_between(b, c, second),
    ensures
        told_between(a, c, first + second),
{
    let x = choose|told: Seq<EventView>| #[trigger]
        tell(told, first) && end_of(b.events, a.events + told);
    let y = choose|told: Seq<EventView>| #[trigger]
        tell(told, second) && end_of(c.events, b.events + told);
    assert(tell(x + y, first + second));
    let whole = a.events + x;
    let k = whole.len() - b.events.len();
    let all = a.events + (x + y);
    let part = b.events + y;
    let m = part.len() - c.events.len();
    assert(all =~= whole + y);
    assert(part =~= all.skip(k));
    assert(c.events =~= all.skip(k + m));
    assert(k + m == all.len() - c.events.len());
}

/// An event of another connection, or while there is none, changes nothing.
/// Every other event is taken by its method, for the session that it is about,
/// and one of an unknown method changes nothing.
pub proof fn law_events_are_taken_by_their_method(
    state: StateView,
    now: u64,
    generation: u64,
    event: CdpEventView,
    session: Chars,
)
    requires
        event.session_id == Some(session),
    ensures
        state.connection_generation != generation || !state.connected ==> state.handle_event(
            now,
            generation,
            event,
        ).0 == state,
        state.connection_generation == generation && state.connected ==> {
            let (after, _) = state.handle_event(now, generation, event);
            &&& event.method == "Debugger.scriptParsed"@ ==> after == state.on_script_parsed(
                now,
                generation,
                session,
                event.params,
            ).0
            &&& event.method == "Debugger.paused"@ ==> after == state.on_paused(
                now,
                generation,
                session,
                event.params,
            ).0
            &&& event.method == "Debugger.resumed"@ ==> after == state.on_resumed(now, session)
            &&& event.method == "Runtime.executionContextCreated"@ ==> after
                == state.on_context_created(now, session, event.params)
            &&& event.method == "Runtime.executionContextDestroyed"@ ==> after
                == state.on_context_destroyed(now, session, event.params)
            &&& event.method == "Runtime.executionContextsCleared"@ ==> after
                == state.on_contexts_cleared(now, session)
            &&& event.method == "Runtime.bindingCalled"@ ==> after == state.on_binding_called(
                now,
                generation,
                session,
                event.params,
            ).0
            &&& event.method == "Page.frameNavigated"@ ==> after == state.on_frame_navigated(
                now,
                session,
                event.params,
            ).0
            &&& event.method == "Target.detachedFromTarget"@ ==> after == (
            match event.params.get("sessionId"@) {
                Some(JsonView::Str(gone)) => state.on_target_detached(now, gone),
                _ => state,
            })
        },
{
    reveal_strlit("Debugger.scriptParsed");
    reveal_strlit("Debugger.paused");
    reveal_strlit("Debugger.resumed");
    reveal_strlit("Runtime.executionContextCreated");
    reveal_strlit("Runtime.executionContextDestroyed");
    reveal_strlit("Runtime.executionContextsCleared");
    reveal_strlit("Runtime.bindingCalled");
    reveal_strlit("Page.frameNavigated");
    reveal_strlit("Target.detachedFromTarget");
    assert("Debugger.scriptParsed"@.len() == 21);
    assert("Debugger.paused"@.len() == 15);
    assert("Debugger.resumed"@.len() == 16);
    assert("Runtime.executionContextCreated"@.len() == 31);
    assert("Runtime.executionContextDestroyed"@.len() == 33);
    assert("Runtime.executionContextsCleared"@.len() == 32);
    assert("Runtime.bindingCalled"@.len() == 21);
    assert("Page.frameNavigated"@.len() == 19);
    assert("Target.detachedFromTarget"@.len() == 25);
    assert("Debugger.scriptParsed"@[0] == 'D');
    assert("Runtime.bindingCalled"@[0] == 'R');
}

/// Whether a one-based member tells a zero-based one.
pub open spec fn tells_one_based(told: JsonView, key: Chars, params: JsonView) -> bool {
    match params.get(key) {
        Some(JsonView::Uint(n)) => n < u64::MAX ==> told.get(key) == Some(
            JsonView::Uint((n + 1) as u64),
        ),
        _ => told.get(key) == Some(JsonView::Null),
    }
}

/// Whether a member is passed on as it is.
pub open spec fn passes_on(told: JsonView, key: Chars, params: JsonView) -> bool {
    told.get(key) == Some(
        match params.get(key) {
            Some(value) => value,
            None => JsonView::Null,
        },
    )
}

/// A script of an enabled session is recorded when it is parsed, in place of an
/// earlier one of the same identifier, and told. Its record says which session
/// and document it belongs to, what the browser said of it, and where it begins
/// and ends, counted from one. Other scripts stay as they are.
pub proof fn law_parsed_scripts_are_recorded(
    state: StateView,
    now: u64,
    generation: u64,
    session: Chars,
    params: JsonView,
    script: Chars,
    known: SessionView,
    other: ScriptView,
)
    requires
        params.get("scriptId"@) == Some(JsonView::Str(script)),
        script.len() > 0,
        collections::lookup(state.sessions, session) == Some(known),
    ensures
        !state.enabled_sessions.contains(session) ==> state.on_script_parsed(
            now,
            generation,
            session,
            params,
        ).0 == state,
        state.enabled_sessions.contains(session) ==> {
            let after = state.on_script_parsed(now, generation, session, params).0;
            let found = controller::find_script(after.scripts, session, script);
            let record = found->Some_0.record;
            &&& found is Some
            &&& record.get_u64("connectionGeneration"@) == Some(generation)
            &&& record.get_str("tabId"@) == Some(known.tab_id)
            &&& record.get_str("targetId"@) == Some(known.target_id)
            &&& record.get_str("sessionId"@) == Some(session)
            &&& record.get_u64("documentGeneration"@) == Some(known.document_generation)
            &&& record.get_str("scriptId"@) == Some(script)
            &&& passes_on(record, "executionContextId"@, params)
            &&& passes_on(record, "executionContextAuxData"@, params)
            &&& passes_on(record, "url"@, params)
            &&& passes_on(record, "hash"@, params)
            &&& passes_on(record, "hasSourceURL"@, params)
            &&& passes_on(record, "sourceMapURL"@, params)
            &&& passes_on(record, "isModule"@, params)
            &&& tells_one_based(record, "startLine"@, params)
            &&& tells_one_based(record, "startColumn"@, params)
            &&& tells_one_based(record, "endLine"@, params)
            &&& tells_one_based(record, "endColumn"@, params)
            &&& keys_tell(record, generation, session, known, script, params)
            &&& other.session_id != session || other.script_id != script ==> (
            after.scripts.contains(other) <==> state.scripts.contains(other))
            &&& told_between(
                state,
                after,
                seq![
                    News {
                        kind: "script-parsed"@,
                        session: Some(session),
                        data: record,
                    },
                ],
            )
        },
{
    broadcast use tables::lemma_filter_holds;

    if state.enabled_sessions.contains(session) {
        let record = events::script_record(generation, session, Some(known), script, params);
        let entry = ScriptView { session_id: session, script_id: script, record };
        let middle = StateView {
            scripts: controller::put_script(state.scripts, entry),
            ..state
        };
        assert(middle.scripts.last() == entry);
        controller::lemma_push_event_frame(middle, now, "script-parsed"@, Some(session), record);
        lemma_told_one(state, middle, now, "script-parsed"@, Some(session), record);
        lemma_record_tells(generation, session, known, script, params);
        if other.session_id != session || other.script_id != script {
            let keep = |x: ScriptView|
                !(x.session_id == entry.session_id && x.script_id == entry.script_id);
            let kept = state.scripts.filter(keep);
            assert(kept.contains(other) <==> state.scripts.contains(other));
            assert(middle.scripts == kept.push(entry));
            if kept.contains(other) {
                let i = choose|i: int| 0 <= i < kept.len() && kept[i] == other;
                assert(middle.scripts[i] == other);
            }
            if middle.scripts.contains(other) {
                let i = choose|i: int|
                    0 <= i < middle.scripts.len() && middle.scripts[i] == other;
                assert(i < kept.len());
                assert(kept[i] == other);
            }
        }
    }
}

/// Whether the two identities of a script are told: that of the instance, and
/// that of its source.
pub open spec fn keys_tell(
    record: JsonView,
    generation: u64,
    session: Chars,
    known: SessionView,
    script: Chars,
    params: JsonView,
) -> bool {
    let instance = record.get("scriptInstanceKey"@)->Some_0;
    let lineage = record.get("sourceLineageKey"@)->Some_0;
    &&& record.get("scriptInstanceKey"@) is Some
    &&& record.get("sourceLineageKey"@) is Some
    &&& instance.get_u64("connectionGeneration"@) == Some(generation)
    &&& instance.get_str("sessionId"@) == Some(session)
    &&& instance.get_u64("documentGeneration"@) == Some(known.document_generation)
    &&& instance.get_str("scriptId"@) == Some(script)
    &&& lineage.get_str("sessionId"@) == Some(session)
    &&& lineage.get_u64("documentGeneration"@) == Some(known.document_generation)
    &&& passes_on(lineage, "executionContextId"@, params)
    &&& passes_on(lineage, "url"@, params)
    &&& lineage.get("resolvedRuntimeOwnerId"@) == Some(JsonView::Null)
    &&& lineage.get("scriptId"@) is None
    &&& record.get("runtimeOwner"@) is Some
    &&& record.get("runtimeOwner"@)->Some_0.get_str("status"@) == Some("unknown"@)
    &&& record.get("runtimeOwner"@)->Some_0.get_str("confidence"@) == Some("low"@)
    &&& record.get("runtimeOwner"@)->Some_0.get("ownerId"@) == Some(JsonView::Null)
    &&& record.get_bool("rebindable"@) == Some(false)
}

#[verifier::rlimit(60)]
proof fn lemma_record_tells(
    generation: u64,
    session: Chars,
    known: SessionView,
    script: Chars,
    params: JsonView,
)
    ensures
        ({
            let record = events::script_record(generation, session, Some(known), script, params);
            &&& record.get_u64("connectionGeneration"@) == Some(generation)
            &&& record.get_str("tabId"@) == Some(known.tab_id)
            &&& record.get_str("targetId"@) == Some(known.target_id)
            &&& record.get_str("sessionId"@) == Some(session)
            &&& record.get_u64("documentGeneration"@) == Some(known.document_generation)
            &&& record.get_str("scriptId"@) == Some(script)
            &&& passes_on(record, "executionContextId"@, params)
            &&& passes_on(record, "executionContextAuxData"@, params)
            &&& passes_on(record, "url"@, params)
            &&& passes_on(record, "hash"@, params)
            &&& passes_on(record, "hasSourceURL"@, params)
            &&& passes_on(record, "sourceMapURL"@, params)
            &&& passes_on(record, "isModule"@, params)
            &&& tells_one_based(record, "startLine"@, params)
            &&& tells_one_based(record, "startColumn"@, params)
            &&& tells_one_based(record, "endLine"@, params)
            &&& tells_one_based(record, "endColumn"@, params)
            &&& keys_tell(record, generation, session, known, script, params)
        }),
{
    reveal_strlit("connectionGeneration");
    reveal_strlit("tabId");
    reveal_strlit("targetId");
    reveal_strlit("sessionId");
    reveal_strlit("documentGeneration");
    reveal_strlit("scriptId");
    reveal_strlit("executionContextId");
    reveal_strlit("executionContextAuxData");
    reveal_strlit("url");
    reveal_strlit("hash");
    reveal_strlit("hasSourceURL");
    reveal_strlit("sourceMapURL");
    reveal_strlit("isModule");
    reveal_strlit("startLine");
    reveal_strlit("startColumn");
    reveal_strlit("endLine");
    reveal_strlit("endColumn");
    reveal_strlit("scriptInstanceKey");
    reveal_strlit("sourceLineageKey");
    reveal_strlit("rebindable");
    reveal_strlit("runtimeOwner");
    reveal_strlit("initiatorEvidence");
    reveal_strlit("resolvedRuntimeOwnerId");
    reveal_strlit("status");
    reveal_strlit("owner");
    reveal_strlit("kind");
    reveal_strlit("ownerId");
    reveal_strlit("confidence");
    reveal_strlit("evidence");
    reveal_strlit("candidates");
    reveal_strlit("reason");
    assert("connectionGeneration"@.len() == 20);
    assert("tabId"@.len() == 5);
    assert("targetId"@.len() == 8);
    assert("sessionId"@.len() == 9);
    assert("documentGeneration"@.len() == 18);
    assert("scriptId"@.len() == 8);
    assert("executionContextId"@.len() == 18);
    assert("executionContextAuxData"@.len() == 23);
    assert("url"@.len() == 3);
    assert("hash"@.len() == 4);
    assert("hasSourceURL"@.len() == 12);
    assert("sourceMapURL"@.len() == 12);
    assert("isModule"@.len() == 8);
    assert("startLine"@.len() == 9);
    assert("startColumn"@.len() == 11);
    assert("endLine"@.len() == 7);
    assert("endColumn"@.len() == 9);
    assert("scriptInstanceKey"@.len() == 17);
    assert("sourceLineageKey"@.len() == 16);
    assert("rebindable"@.len() == 10);
    assert("runtimeOwner"@.len() == 12);
    assert("initiatorEvidence"@.len() == 17);
    assert("resolvedRuntimeOwnerId"@.len() == 22);
    assert("status"@.len() == 6);
    assert("owner"@.len() == 5);
    assert("kind"@.len() == 4);
    assert("ownerId"@.len() == 7);
    assert("confidence"@.len() == 10);
    assert("evidence"@.len() == 8);
    assert("candidates"@.len() == 10);
    assert("reason"@.len() == 6);
    assert("candidates"@[0] == 'c');
    assert("candidates"@[1] == 'a');
    assert("confidence"@[0] == 'c');
    assert("confidence"@[1] == 'o');
    assert("documentGeneration"@[0] == 'd');
    assert("endColumn"@[0] == 'e');
    assert("endLine"@[0] == 'e');
    assert("evidence"@[0] == 'e');
    assert("executionContextId"@[0] == 'e');
    assert("hasSourceURL"@[0] == 'h');
    assert("hash"@[0] == 'h');
    assert("initiatorEvidence"@[0] == 'i');
    assert("isModule"@[0] == 'i');
    assert("kind"@[0] == 'k');
    assert("owner"@[0] == 'o');
    assert("ownerId"@[0] == 'o');
    assert("reason"@[0] == 'r');
    assert("rebindable"@[0] == 'r');
    assert("runtimeOwner"@[0] == 'r');
    assert("scriptId"@[0] == 's');
    assert("scriptInstanceKey"@[0] == 's');
    assert("sessionId"@[0] == 's');
    assert("sessionId"@[1] == 'e');
    assert("sourceMapURL"@[0] == 's');
    assert("startLine"@[0] == 's');
    assert("startLine"@[1] == 't');
    assert("status"@[0] == 's');
    assert("tabId"@[0] == 't');
    assert("targetId"@[0] == 't');
    reveal_strlit("unknown");
    reveal_strlit("resolved");
    assert("unknown"@.len() == 7);
    assert("resolved"@.len() == 8);
}

proof fn lemma_hit_probes(state: StateView, hits: Seq<Chars>, hit: Chars, probe: Chars)
    requires
        hits.contains(hit),
        events::hit_probe(state, hit) == Some(probe),
    ensures
        hits.filter_map(|b: Chars| events::hit_probe(state, b)).contains(probe),
    decreases hits.len(),
{
    reveal_with_fuel(Seq::filter_map, 2);
    let f = |b: Chars| events::hit_probe(state, b);
    let rest = hits.drop_last();
    let part = rest.filter_map(f);
    let whole = hits.filter_map(f);
    if hits.last() == hit {
        assert(whole == part.push(probe));
        assert(whole[part.len() as int] == probe);
    } else {
        let i = choose|i: int| 0 <= i < hits.len() && hits[i] == hit;
        assert(rest[i] == hit);
        lemma_hit_probes(state, rest, hit, probe);
        let j = choose|j: int| 0 <= j < part.len() && part[j] == probe;
        assert(whole[j] == probe);
    }
}

/// A pause of a known session is recorded under that session, with the reason,
/// frames and data that came, and told. It has an identifier of its own, which
/// no later pause has. It names every probe one of whose installations was hit.
pub proof fn law_pauses_are_recorded(
    state: StateView,
    now: u64,
    generation: u64,
    session: Chars,
    params: JsonView,
    known: SessionView,
    hit: Chars,
    physical: PhysicalView,
    id: Chars,
)
    requires
        collections::lookup(state.sessions, session) == Some(known),
        state.latest_sequence < u64::MAX,
    ensures
        ({
            let after = state.on_paused(now, generation, session, params).0;
            let pause = collections::lookup(after.paused_sessions, session)->Some_0;
            &&& collections::lookup(after.paused_sessions, session) is Some
            &&& pause.pause_id == "pause-"@ + text::decimal(generation as nat) + "-"@
                + text::decimal((state.latest_sequence + 1) as nat)
            &&& pause.connection_generation == generation
            &&& pause.session_id == session
            &&& pause.tab_id == known.tab_id
            &&& pause.document_generation == known.document_generation
            &&& pause.reason == (match params.get("reason"@) {
                Some(JsonView::Str(reason)) => reason,
                _ => "other"@,
            })
            &&& pause.call_frames == (match params.get("callFrames"@) {
                Some(JsonView::Array(frames)) => frames,
                _ => Seq::empty(),
            })
            &&& pause.data == params.get("data"@)
            &&& pause.hit_breakpoints == events::member_strings(params, "hitBreakpoints"@)
            &&& pause.hit_breakpoints.contains(hit) && collections::lookup(
                state.physical_by_cdp_breakpoint,
                hit,
            ) == Some(id) && collections::lookup(state.physical_probes, id) == Some(physical)
                ==> pause.probe_ids.contains(physical.probe_id)
            &&& told_between(
                state,
                after,
                seq![
                    News {
                        kind: "debugger-paused"@,
                        session: Some(session),
                        data: pause.to_json(),
                    },
                ],
            )
        }),
{
    let pause = events::pause_record(state, generation, known, session, params);
    let middle = StateView {
        paused_sessions: collections::put(state.paused_sessions, session, pause),
        ..state
    };
    tables::lemma_lookup_put(state.paused_sessions, session, pause, session);
    let data = pause.to_json();
    controller::lemma_push_event_frame(middle, now, "debugger-paused"@, Some(session), data);
    lemma_told_one(state, middle, now, "debugger-paused"@, Some(session), data);
    let hits = pause.hit_breakpoints;
    if hits.contains(hit) && collections::lookup(state.physical_by_cdp_breakpoint, hit) == Some(id)
        && collections::lookup(state.physical_probes, id) == Some(physical) {
        lemma_hit_probes(state, hits, hit, physical.probe_id);
        let probes = hits.filter_map(|b: Chars| events::hit_probe(state, b));
        order::law_sorted_lists_without_repeats(probes);
    }
}

/// A session that goes on is no longer paused, and that is told together with
/// the pause that ended.
pub proof fn law_resumed_sessions_are_not_paused(state: StateView, now: u64, session: Chars)
    ensures
        ({
            let after = state.on_resumed(now, session);
            &&& collections::lookup(after.paused_sessions, session) is None
            &&& told_between(
                state,
                after,
                seq![
                    News {
                        kind: "debugger-resumed"@,
                        session: Some(session),
                        data: JsonView::object().with(
                            "pause"@,
                            pause_told(collections::lookup(state.paused_sessions, session)),
                        ),
                    },
                ],
            )
        }),
{
    let middle = StateView {
        paused_sessions: collections::del(state.paused_sessions, session),
        ..state
    };
    tables::lemma_lookup_del(state.paused_sessions, session, session);
    let data = JsonView::object().with(
        "pause"@,
        pause_told(collections::lookup(state.paused_sessions, session)),
    );
    controller::lemma_push_event_frame(middle, now, "debugger-resumed"@, Some(session), data);
    lemma_told_one(state, middle, now, "debugger-resumed"@, Some(session), data);
}

/// A pause as it is told, where there is one.
pub open spec fn pause_told(pause: Option<PauseView>) -> JsonView {
    match pause {
        Some(p) => p.to_json(),
        None => JsonView::Null,
    }
}

/// Member of a value that may be missing, or nothing.
pub open spec fn part_of(value: Option<JsonView>, key: Chars) -> JsonView {
    match value {
        Some(v) => match v.get(key) {
            Some(part) => part,
            None => JsonView::Null,
        },
        None => JsonView::Null,
    }
}

/// An execution context that is created belongs to its session from then on, and
/// is told with its name, origin and data.
pub proof fn law_created_contexts_are_kept(
    state: StateView,
    now: u64,
    session: Chars,
    params: JsonView,
    id: u64,
    other: u64,
)
    requires
        params.get("context"@) is Some,
        params.get("context"@)->Some_0.get("id"@) == Some(JsonView::Uint(id)),
    ensures
        ({
            let after = state.on_context_created(now, session, params);
            let context = params.get("context"@);
            &&& events::contexts_of(after, session).contains(id)
            &&& events::contexts_of(state, session).contains(other) ==> events::contexts_of(
                after,
                session,
            ).contains(other)
            &&& told_between(
                state,
                after,
                seq![
                    News {
                        kind: "execution-context-created"@,
                        session: Some(session),
                        data: JsonView::object().with(
                            "executionContextId"@,
                            JsonView::Uint(id),
                        ).with("name"@, part_of(context, "name"@)).with(
                            "origin"@,
                            part_of(context, "origin"@),
                        ).with("auxData"@, part_of(context, "auxData"@)),
                    },
                ],
            )
        }),
{
    let context = params.get("context"@);
    let ids = events::ids_with(events::contexts_of(state, session), id);
    let old = events::contexts_of(state, session);
    assert(ids.contains(id)) by {
        if !old.contains(id) {
            assert(old.push(id)[old.len() as int] == id);
        }
    }
    if old.contains(other) && !old.contains(id) {
        let i = choose|i: int| 0 <= i < old.len() && old[i] == other;
        assert(old.push(id)[i] == other);
    }
    let middle = StateView {
        execution_contexts: collections::put(state.execution_contexts, session, ids),
        ..state
    };
    tables::lemma_lookup_put(state.execution_contexts, session, ids, session);
    let data = JsonView::object().with("executionContextId"@, JsonView::Uint(id)).with(
        "name"@,
        part_of(context, "name"@),
    ).with("origin"@, part_of(context, "origin"@)).with("auxData"@, part_of(context, "auxData"@));
    controller::lemma_push_event_frame(
        middle,
        now,
        "execution-context-created"@,
        Some(session),
        data,
    );
    lemma_told_one(state, middle, now, "execution-context-created"@, Some(session), data);
}

/// What is told of an installation that is gone: which one, of which probe, why,
/// and what became of the probe. A probe that persists waits to be bound again.
pub open spec fn gone_told(
    binding: PhysicalView,
    probe: Option<LogicalView>,
    reason: Chars,
    context: Option<u64>,
) -> JsonView {
    let ids = JsonView::object().with("probeId"@, JsonView::Str(binding.probe_id)).with(
        "physicalBindingId"@,
        JsonView::Str(binding.physical_id),
    );
    (match context {
        Some(id) => ids.with("executionContextId"@, JsonView::Uint(id)),
        None => ids,
    }).with("reason"@, JsonView::Str(reason)).with(
        "status"@,
        JsonView::Str(status_then(probe, reason)),
    )
}

/// Status of a probe that has lost an installation.
pub open spec fn status_then(probe: Option<LogicalView>, reason: Chars) -> Chars {
    match probe {
        Some(p) => if p.persistent {
            reason + "-awaiting-rebind"@
        } else {
            reason
        },
        None => reason,
    }
}

/// An installation that is gone is no longer recorded, neither under its own
/// identifier nor under that of the browser. Its probe stays, without it, and
/// says why; a persistent one waits to be bound again. That is told.
pub proof fn law_lost_installations_are_told(
    state: StateView,
    now: u64,
    session: Chars,
    id: Chars,
    reason: Chars,
    context: Option<u64>,
    binding: PhysicalView,
    probe: LogicalView,
)
    requires
        collections::lookup(state.physical_probes, id) == Some(binding),
        collections::lookup(state.logical_probes, binding.probe_id) == Some(probe),
    ensures
        ({
            let after = state.unbind(now, session, id, reason, context);
            let left = collections::lookup(after.logical_probes, binding.probe_id);
            &&& collections::lookup(after.physical_probes, id) is None
            &&& collections::lookup(
                after.physical_by_cdp_breakpoint,
                binding.cdp_breakpoint_id,
            ) is None
            &&& left is Some
            &&& left->Some_0.status == status_then(Some(probe), reason)
            &&& !left->Some_0.physical_ids.contains(id)
            &&& left->Some_0 == (LogicalView {
                status: left->Some_0.status,
                physical_ids: left->Some_0.physical_ids,
                ..probe
            })
            &&& told_between(
                state,
                after,
                seq![
                    News {
                        kind: "probe-unbound"@,
                        session: Some(session),
                        data: gone_told(binding, Some(probe), reason, context),
                    },
                ],
            )
        }),
{
    broadcast use tables::lemma_filter_holds;

    let middle = state.without_physical(id, reason);
    tables::lemma_lookup_del(state.physical_probes, id, id);
    tables::lemma_lookup_del(
        state.physical_by_cdp_breakpoint,
        binding.cdp_breakpoint_id,
        binding.cdp_breakpoint_id,
    );
    let left = LogicalView {
        physical_ids: collections::set_without(probe.physical_ids, id),
        status: state.unbound_status(binding, reason),
        ..probe
    };
    tables::lemma_lookup_put(state.logical_probes, binding.probe_id, left, binding.probe_id);
    assert(!left.physical_ids.contains(id));
    let data = gone_told(binding, Some(probe), reason, context);
    controller::lemma_push_event_frame(middle, now, "probe-unbound"@, Some(session), data);
    lemma_told_one(state, middle, now, "probe-unbound"@, Some(session), data);
}

/// What is told when some installations are gone, one after the other.
pub open spec fn losses(
    state: StateView,
    now: u64,
    session: Chars,
    ids: Seq<Chars>,
    reason: Chars,
    context: Option<u64>,
) -> Seq<News>
    decreases ids.len(),
{
    if ids.len() == 0 {
        Seq::empty()
    } else {
        let before = state.unbind_all(now, session, ids.drop_last(), reason, context);
        let front = losses(state, now, session, ids.drop_last(), reason, context);
        match collections::lookup(before.physical_probes, ids.last()) {
            None => front,
            Some(binding) => front.push(
                News {
                    kind: "probe-unbound"@,
                    session: Some(session),
                    data: gone_told(
                        binding,
                        collections::lookup(before.logical_probes, binding.probe_id),
                        reason,
                        context,
                    ),
                },
            ),
        }
    }
}

proof fn lemma_losses(
    state: StateView,
    now: u64,
    session: Chars,
    ids: Seq<Chars>,
    reason: Chars,
    context: Option<u64>,
)
    ensures
        told_between(
            state,
            state.unbind_all(now, session, ids, reason, context),
            losses(state, now, session, ids, reason, context),
        ),
    decreases ids.len(),
{
    if ids.len() == 0 {
        lemma_told_nothing(state, state);
    } else {
        let before = state.unbind_all(now, session, ids.drop_last(), reason, context);
        let front = losses(state, now, session, ids.drop_last(), reason, context);
        lemma_losses(state, now, session, ids.drop_last(), reason, context);
        if let Some(binding) = collections::lookup(before.physical_probes, ids.last()) {
            let data = gone_told(
                binding,
                collections::lookup(before.logical_probes, binding.probe_id),
                reason,
                context,
            );
            let middle = before.without_physical(ids.last(), reason);
            lemma_told_one(before, middle, now, "probe-unbound"@, Some(session), data);
            let one = seq![News { kind: "probe-unbound"@, session: Some(session), data }];
            let after = before.unbind(now, session, ids.last(), reason, context);
            lemma_told_both(state, before, after, front, one);
            assert(front + one =~= front.push(one[0]));
        }
    }
}

/// A context that is destroyed is no longer one of its session, and its scripts
/// are gone. What was installed in it is told to be lost, and then the context
/// itself. Scripts of other contexts stay.
pub proof fn law_destroyed_contexts_are_told(
    state: StateView,
    now: u64,
    session: Chars,
    params: JsonView,
    id: u64,
    script: ScriptView,
)
    requires
        params.get("executionContextId"@) == Some(JsonView::Uint(id)),
    ensures
        ({
            let after = state.on_context_destroyed(now, session, params);
            let cut = StateView {
                execution_contexts: after.execution_contexts,
                scripts: after.scripts,
                ..state
            };
            &&& !events::contexts_of(after, session).contains(id)
            &&& after.scripts.contains(script) <==> state.scripts.contains(script) && !(
            script.session_id == session && script.record.get("executionContextId"@) == Some(
                JsonView::Uint(id),
            ))
            &&& told_between(
                state,
                after,
                losses(
                    cut,
                    now,
                    session,
                    state.context_bindings(session, id),
                    "execution-context-destroyed"@,
                    Some(id),
                ).push(
                    News {
                        kind: "execution-context-destroyed"@,
                        session: Some(session),
                        data: JsonView::object().with("executionContextId"@, JsonView::Uint(id)),
                    },
                ),
            )
        }),
{
    broadcast use tables::lemma_filter_holds;

    let cut = StateView {
        execution_contexts: match collections::lookup(state.execution_contexts, session) {
            Some(ids) => collections::put(
                state.execution_contexts,
                session,
                events::ids_without(ids, id),
            ),
            None => state.execution_contexts,
        },
        scripts: controller::without_context(state.scripts, session, id),
        ..state
    };
    if let Some(ids) = collections::lookup(state.execution_contexts, session) {
        tables::lemma_lookup_put(
            state.execution_contexts,
            session,
            events::ids_without(ids, id),
            session,
        );
    }
    let bindings = state.context_bindings(session, id);
    assert(cut.context_bindings(session, id) == bindings);
    let reason = "execution-context-destroyed"@;
    let left = cut.unbind_all(now, session, bindings, reason, Some(id));
    lemma_losses(cut, now, session, bindings, reason, Some(id));
    lemma_unbind_frame(cut, now, session, bindings, reason, Some(id));
    let data = JsonView::object().with("executionContextId"@, JsonView::Uint(id));
    lemma_told_one(left, left, now, reason, Some(session), data);
    controller::lemma_push_event_frame(left, now, reason, Some(session), data);
    let after = left.push_event(now, reason, Some(session), data);
    let front = losses(cut, now, session, bindings, reason, Some(id));
    let one = seq![News { kind: reason, session: Some(session), data }];
    lemma_told_same(state, cut, left, front);
    lemma_told_both(state, left, after, front, one);
    assert(front + one =~= front.push(one[0]));
    assert(after.execution_contexts == cut.execution_contexts);
    assert(after.scripts == cut.scripts);
}

proof fn lemma_told_same(a: StateView, b: StateView, c: StateView, news: Seq<News>)
    requires
        a.events == b.events,
        told_between(b, c, news),
    ensures
        told_between(a, c, news),
{
    let told = choose|told: Seq<EventView>| #[trigger]
        tell(told, news) && end_of(c.events, b.events + told);
    assert(end_of(c.events, a.events + told));
}

proof fn lemma_unbind_frame(
    state: StateView,
    now: u64,
    session: Chars,
    ids: Seq<Chars>,
    reason: Chars,
    context: Option<u64>,
)
    ensures
        ({
            let after = state.unbind_all(now, session, ids, reason, context);
            &&& after.sessions == state.sessions
            &&& after.execution_contexts == state.execution_contexts
            &&& after.scripts == state.scripts
            &&& after.paused_sessions == state.paused_sessions
            &&& after.enabled_sessions == state.enabled_sessions
            &&& after.binding_sessions == state.binding_sessions
            &&& after.connection_generation == state.connection_generation
            &&& after.connected == state.connected
            &&& after.active_session == state.active_session
        }),
    decreases ids.len(),
{
    if ids.len() > 0 {
        lemma_unbind_frame(state, now, session, ids.drop_last(), reason, context);
        let before = state.unbind_all(now, session, ids.drop_last(), reason, context);
        if let Some(binding) = collections::lookup(before.physical_probes, ids.last()) {
            let middle = before.without_physical(ids.last(), reason);
            controller::lemma_push_event_frame(
                middle,
                now,
                "probe-unbound"@,
                Some(session),
                controller::unbound_data(
                    binding,
                    reason,
                    before.unbound_status(binding, reason),
                    context,
                ),
            );
        }
    }
}

/// Installations that a session loses: all of them, or those of one document.
/// Those that a context loses: the ones that are in it.
pub proof fn law_the_right_installations_are_lost(
    state: StateView,
    session: Chars,
    generation: u64,
    context: u64,
    binding: PhysicalView,
)
    requires
        collections::values(state.physical_probes).contains(binding),
    ensures
        binding.session_id == session && (generation == u64::MAX || binding.document_generation
            == generation) ==> state.session_bindings(session, generation).contains(
            binding.physical_id,
        ),
        binding.session_id == session && binding.execution_context_id == Some(context)
            ==> state.context_bindings(session, context).contains(binding.physical_id),
        forall|i: int|
            0 <= i < state.session_bindings(session, generation).len() ==> lost_one(
                state,
                session,
                Some(generation),
                None,
                #[trigger] state.session_bindings(session, generation)[i],
            ),
        forall|i: int|
            0 <= i < state.context_bindings(session, context).len() ==> lost_one(
                state,
                session,
                None,
                Some(context),
                #[trigger] state.context_bindings(session, context)[i],
            ),
{
    broadcast use tables::lemma_filter_holds;

    let values = collections::values(state.physical_probes);
    let a = values.filter(
        |b: PhysicalView|
            b.session_id == session && (generation == u64::MAX || b.document_generation
                == generation),
    );
    let b = values.filter(
        |b: PhysicalView| b.session_id == session && b.execution_context_id == Some(context),
    );
    let x = state.session_bindings(session, generation);
    let y = state.context_bindings(session, context);
    assert(x == a.map_values(|b: PhysicalView| b.physical_id));
    assert(y == b.map_values(|b: PhysicalView| b.physical_id));
    if a.contains(binding) {
        let i = choose|i: int| 0 <= i < a.len() && a[i] == binding;
        assert(x[i] == binding.physical_id);
    }
    if b.contains(binding) {
        let i = choose|i: int| 0 <= i < b.len() && b[i] == binding;
        assert(y[i] == binding.physical_id);
    }
    assert forall|i: int| 0 <= i < x.len() implies lost_one(
        state,
        session,
        Some(generation),
        None,
        #[trigger] x[i],
    ) by {
        assert(a.contains(a[i]));
        let j = choose|j: int| 0 <= j < values.len() && values[j] == a[i];
        assert(state.physical_probes[j].1.physical_id == x[i]);
    }
    assert forall|i: int| 0 <= i < y.len() implies lost_one(
        state,
        session,
        None,
        Some(context),
        #[trigger] y[i],
    ) by {
        assert(b.contains(b[i]));
        let j = choose|j: int| 0 <= j < values.len() && values[j] == b[i];
        assert(state.physical_probes[j].1.physical_id == y[i]);
    }
}

/// Whether an identifier is that of an installation in a session, of a document
/// or in a context.
pub open spec fn lost_one(
    state: StateView,
    session: Chars,
    generation: Option<u64>,
    context: Option<u64>,
    id: Chars,
) -> bool {
    exists|j: int|
        0 <= j < state.physical_probes.len() && (
        #[trigger] state.physical_probes[j]).1.physical_id == id
            && state.physical_probes[j].1.session_id == session && (generation matches Some(g)
            ==> g == u64::MAX || state.physical_probes[j].1.document_generation == g) && (
        context matches Some(c) ==> state.physical_probes[j].1.execution_context_id == Some(c))
}

/// When the contexts of a session are cleared, nothing that ran in them is left:
/// no context, script or pause. What was installed in the document is told to be
/// lost, and then that the contexts were cleared.
pub proof fn law_cleared_contexts_are_told(state: StateView, now: u64, session: Chars, script: ScriptView)
    ensures
        ({
            let after = state.on_contexts_cleared(now, session);
            let cut = StateView {
                execution_contexts: after.execution_contexts,
                scripts: after.scripts,
                paused_sessions: after.paused_sessions,
                ..state
            };
            let generation = match collections::lookup(state.sessions, session) {
                Some(known) => known.document_generation,
                None => 1,
            };
            &&& events::contexts_of(after, session).len() == 0
            &&& collections::lookup(after.paused_sessions, session) is None
            &&& after.scripts.contains(script) <==> state.scripts.contains(script)
                && script.session_id != session
            &&& told_between(
                state,
                after,
                losses(
                    cut,
                    now,
                    session,
                    state.session_bindings(session, generation),
                    "execution-contexts-cleared"@,
                    None,
                ).push(
                    News {
                        kind: "execution-contexts-cleared"@,
                        session: Some(session),
                        data: JsonView::object(),
                    },
                ),
            )
        }),
{
    broadcast use tables::lemma_filter_holds;

    let cut = StateView {
        execution_contexts: collections::del(state.execution_contexts, session),
        scripts: controller::without_session(state.scripts, session),
        paused_sessions: collections::del(state.paused_sessions, session),
        ..state
    };
    tables::lemma_lookup_del(state.execution_contexts, session, session);
    tables::lemma_lookup_del(state.paused_sessions, session, session);
    let generation = match collections::lookup(state.sessions, session) {
        Some(known) => known.document_generation,
        None => 1,
    };
    let bindings = state.session_bindings(session, generation);
    assert(cut.session_bindings(session, generation) == bindings);
    let reason = "execution-contexts-cleared"@;
    let left = cut.unbind_all(now, session, bindings, reason, None);
    lemma_losses(cut, now, session, bindings, reason, None);
    lemma_unbind_frame(cut, now, session, bindings, reason, None);
    lemma_told_one(left, left, now, reason, Some(session), JsonView::object());
    controller::lemma_push_event_frame(left, now, reason, Some(session), JsonView::object());
    let after = left.push_event(now, reason, Some(session), JsonView::object());
    let front = losses(cut, now, session, bindings, reason, None);
    let one = seq![News { kind: reason, session: Some(session), data: JsonView::object() }];
    lemma_told_same(state, cut, left, front);
    lemma_told_both(state, left, after, front, one);
    assert(front + one =~= front.push(one[0]));
}

/// Whether a call through the binding is a genuine report of an installation.
pub open spec fn genuine(
    state: StateView,
    generation: u64,
    session: Chars,
    context: Option<u64>,
    payload: JsonView,
    binding: PhysicalView,
) -> bool {
    let probe = collections::lookup(state.logical_probes, binding.probe_id);
    &&& payload.get("nonce"@) == Some(JsonView::Str(state.binding_nonce))
    &&& payload.get("probeId"@) == Some(JsonView::Str(binding.probe_id))
    &&& binding.connection_generation == generation
    &&& binding.session_id == session
    &&& binding.execution_context_id is Some ==> binding.execution_context_id == context
    &&& probe is Some
    &&& probe->Some_0.kind == ProbeKind::Logpoint
    &&& probe->Some_0.enabled
}

/// A call through the binding is a hit if and only if it is a genuine report of
/// an installation that is known: with the secret, in the session and context of
/// the installation, of an enabled logpoint. Where the hit is, and its tags, come
/// from what is recorded; only the values come from the page. Any other call is
/// rejected, and why.
pub proof fn law_reports_are_hits_or_rejected(
    state: StateView,
    now: u64,
    generation: u64,
    session: Chars,
    params: JsonView,
    raw: Chars,
    payload: JsonView,
    id: Chars,
    binding: PhysicalView,
)
    requires
        params.get("name"@) == Some(JsonView::Str(state.binding_name)),
        params.get("payload"@) == Some(JsonView::Str(raw)),
        interop::parsed_json(raw) == Some(payload),
        payload.get("physicalBindingId"@) == Some(JsonView::Str(id)),
        collections::lookup(state.physical_probes, id) == Some(binding),
    ensures
        ({
            let context = match params.get("executionContextId"@) {
                Some(JsonView::Uint(n)) => Some(n),
                _ => None,
            };
            let after = state.on_binding_called(now, generation, session, params).0;
            let rejected = |data: JsonView|
                seq![
                    News { kind: "logpoint-rejected"@, session: Some(session), data },
                ];
            if text::utf8_len(raw) > 65_536 {
                told_between(
                    state,
                    after,
                    rejected(
                        JsonView::object().with(
                            "reason"@,
                            JsonView::Str("payload-too-large"@),
                        ),
                    ),
                )
            } else if genuine(state, generation, session, context, payload, binding) {
                told_between(
                    state,
                    after,
                    seq![
                        News {
                            kind: "logpoint-hit"@,
                            session: Some(session),
                            data: hit_told(
                                binding,
                                collections::lookup(
                                    state.logical_probes,
                                    binding.probe_id,
                                )->Some_0.tags,
                                context,
                                payload,
                            ),
                        },
                    ],
                )
            } else {
                told_between(
                    state,
                    after,
                    rejected(
                        JsonView::object().with(
                            "reason"@,
                            JsonView::Str("binding-validation-failed"@),
                        ).with(
                            "executionContextId"@,
                            match context {
                                Some(n) => JsonView::Uint(n),
                                None => JsonView::Null,
                            },
                        ),
                    ),
                )
            }
        }),
{
    let context = params.get_u64("executionContextId"@);
    lemma_told_one(
        state,
        state,
        now,
        "logpoint-rejected"@,
        Some(session),
        JsonView::object().with("reason"@, JsonView::Str("payload-too-large"@)),
    );
    lemma_told_one(
        state,
        state,
        now,
        "logpoint-rejected"@,
        Some(session),
        JsonView::object().with("reason"@, JsonView::Str("binding-validation-failed"@)).with(
            "executionContextId"@,
            match context {
                Some(n) => JsonView::Uint(n),
                None => JsonView::Null,
            },
        ),
    );
    let tags = events::probe_tags(state, binding.probe_id);
    lemma_told_one(
        state,
        state,
        now,
        "logpoint-hit"@,
        Some(session),
        hit_told(binding, tags, context, payload),
    );
}

/// What is told of a hit.
pub open spec fn hit_told(
    binding: PhysicalView,
    tags: JsonView,
    context: Option<u64>,
    payload: JsonView,
) -> JsonView {
    JsonView::object().with("probeId"@, JsonView::Str(binding.probe_id)).with(
        "physicalBindingId"@,
        JsonView::Str(binding.physical_id),
    ).with("scriptId"@, JsonView::Str(binding.script_id)).with(
        "documentGeneration"@,
        JsonView::Uint(binding.document_generation),
    ).with("location"@, binding.actual_location).with("tags"@, tags).with(
        "executionContextId"@,
        match context {
            Some(n) => JsonView::Uint(n),
            None => JsonView::Null,
        },
    ).with("values"@, part_of(Some(payload), "values"@)).with(
        "whenError"@,
        part_of(Some(payload), "whenError"@),
    ).with("serializationError"@, part_of(Some(payload), "serializationError"@))
}

/// A call through a binding of another name is none of the debugger's. One whose
/// payload is missing or no JSON is rejected.
pub proof fn law_unreadable_reports_are_rejected(
    state: StateView,
    now: u64,
    generation: u64,
    session: Chars,
    params: JsonView,
)
    ensures
        params.get("name"@) != Some(JsonView::Str(state.binding_name)) ==> state.on_binding_called(
            now,
            generation,
            session,
            params,
        ).0 == state,
        params.get("name"@) == Some(JsonView::Str(state.binding_name)) && (
        match params.get("payload"@) {
            Some(JsonView::Str(raw)) => text::utf8_len(raw) <= 65_536 && interop::parsed_json(
                raw,
            ) is None,
            _ => true,
        }) ==> told_between(
            state,
            state.on_binding_called(now, generation, session, params).0,
            seq![
                News {
                    kind: "logpoint-rejected"@,
                    session: Some(session),
                    data: JsonView::object().with(
                        "reason"@,
                        JsonView::Str("invalid-json-payload"@),
                    ),
                },
            ],
        ),
{
    lemma_told_one(
        state,
        state,
        now,
        "logpoint-rejected"@,
        Some(session),
        JsonView::object().with("reason"@, JsonView::Str("invalid-json-payload"@)),
    );
}

/// A navigation of the main frame of a known session notes its loader. Where the
/// loader is another one than before, the document is a new one: it has the next
/// generation, the old one is told to be invalid, and its scripts and pause are
/// gone. In the end the document is told, with the old and the new generation.
pub proof fn law_navigations_are_told(
    state: StateView,
    now: u64,
    session: Chars,
    params: JsonView,
    frame: JsonView,
    known: SessionView,
    script: ScriptView,
)
    requires
        params.get("frame"@) == Some(frame),
        collections::lookup(state.sessions, session) == Some(known),
        known.document_generation < u64::MAX,
    ensures
        frame.get("parentId"@) is Some ==> state.on_frame_navigated(now, session, params).0 == state,
        frame.get("parentId"@) is None ==> {
            let after = state.on_frame_navigated(now, session, params).0;
            let loader = inspection::text_of(frame, "loaderId"@);
            let replaced = known.loader_id is Some && known.loader_id != loader;
            let generation = if replaced {
                (known.document_generation + 1) as u64
            } else {
                known.document_generation
            };
            let noted = collections::lookup(after.sessions, session);
            let committed = News {
                kind: "document-committed"@,
                session: Some(session),
                data: JsonView::object().with("previousLoaderId"@, text_told(known.loader_id)).with(
                    "loaderId"@,
                    text_told(loader),
                ).with(
                    "previousDocumentGeneration"@,
                    JsonView::Uint(known.document_generation),
                ).with("documentGeneration"@, JsonView::Uint(generation)).with(
                    "url"@,
                    part_of(Some(frame), "url"@),
                ),
            };
            let invalidated = News {
                kind: "document-invalidated"@,
                session: Some(session),
                data: JsonView::object().with("loaderId"@, text_told(known.loader_id)).with(
                    "documentGeneration"@,
                    JsonView::Uint(known.document_generation),
                ),
            };
            &&& noted == Some(
                SessionView { document_generation: generation, loader_id: loader, ..known },
            )
            &&& replaced ==> collections::lookup(after.paused_sessions, session) is None && (
            after.scripts.contains(script) <==> state.scripts.contains(script)
                && script.session_id != session)
            &&& !replaced ==> after.paused_sessions == state.paused_sessions && after.scripts
                == state.scripts && told_between(state, after, seq![committed])
            &&& replaced ==> told_around(
                state,
                after,
                invalidated,
                committed,
                session,
                "document-invalidated"@,
            )
        },
{
    broadcast use tables::lemma_filter_holds;

    if frame.get("parentId"@) is None {
        let loader = frame.get_str("loaderId"@);
        let replaced = known.loader_id is Some && known.loader_id != loader;
        let generation = if replaced {
            (known.document_generation + 1) as u64
        } else {
            known.document_generation
        };
        let entry = SessionView { document_generation: generation, loader_id: loader, ..known };
        let noted = StateView {
            sessions: collections::put(state.sessions, session, entry),
            ..state
        };
        tables::lemma_lookup_put(state.sessions, session, entry, session);
        let kind = "document-committed"@;
        let data = JsonView::object().with("previousLoaderId"@, text_told(known.loader_id)).with(
            "loaderId"@,
            text_told(loader),
        ).with("previousDocumentGeneration"@, JsonView::Uint(known.document_generation)).with(
            "documentGeneration"@,
            JsonView::Uint(generation),
        ).with("url"@, part_of(Some(frame), "url"@));
        let committed = News { kind, session: Some(session), data };
        if replaced {
            let gone = "document-invalidated"@;
            let why = JsonView::object().with("loaderId"@, text_told(known.loader_id)).with(
                "documentGeneration"@,
                JsonView::Uint(known.document_generation),
            );
            let told = noted.push_event(now, gone, Some(session), why);
            lemma_told_one(state, noted, now, gone, Some(session), why);
            controller::lemma_push_event_frame(noted, now, gone, Some(session), why);
            let cut = StateView {
                scripts: controller::without_session(told.scripts, session),
                paused_sessions: collections::del(told.paused_sessions, session),
                ..told
            };
            tables::lemma_lookup_del(told.paused_sessions, session, session);
            let bindings = cut.session_bindings(session, known.document_generation);
            let left = cut.unbind_all(now, session, bindings, gone, None);
            lemma_losses(cut, now, session, bindings, gone, None);
            lemma_only_losses(cut, now, session, bindings, gone, None);
            lemma_unbind_frame(cut, now, session, bindings, gone, None);
            let lost = losses(cut, now, session, bindings, gone, None);
            let first = seq![News { kind: gone, session: Some(session), data: why }];
            lemma_told_same(told, cut, left, lost);
            lemma_told_both(state, told, left, first, lost);
            lemma_told_one(left, left, now, kind, Some(session), data);
            controller::lemma_push_event_frame(left, now, kind, Some(session), data);
            let after = left.push_event(now, kind, Some(session), data);
            lemma_told_both(state, left, after, first + lost, seq![committed]);
            assert(only_losses(lost, session, gone));
            assert(told_between(state, after, first + lost + seq![committed]));
        } else {
            lemma_told_one(state, noted, now, kind, Some(session), data);
            controller::lemma_push_event_frame(noted, now, kind, Some(session), data);
        }
    }
}

/// A text as it is told, where there is one.
pub open spec fn text_told(text: Option<Chars>) -> JsonView {
    match text {
        Some(s) => JsonView::Str(s),
        None => JsonView::Null,
    }
}

/// Whether between two states something was told, then which installations of a
/// session were lost for a reason, and then something else.
pub open spec fn told_around(
    before: StateView,
    after: StateView,
    first: News,
    last: News,
    session: Chars,
    reason: Chars,
) -> bool {
    exists|lost: Seq<News>| #[trigger]
        only_losses(lost, session, reason) && told_between(
            before,
            after,
            seq![first] + lost + seq![last],
        )
}

/// Whether news tell only of lost installations of a session, for a reason.
pub open spec fn only_losses(news: Seq<News>, session: Chars, reason: Chars) -> bool {
    forall|i: int|
        0 <= i < news.len() ==> (#[trigger] news[i]).kind == "probe-unbound"@ && news[i].session
            == Some(session) && news[i].data.get_str("reason"@) == Some(reason)
}

proof fn lemma_only_losses(
    state: StateView,
    now: u64,
    session: Chars,
    ids: Seq<Chars>,
    reason: Chars,
    context: Option<u64>,
)
    ensures
        only_losses(losses(state, now, session, ids, reason, context), session, reason),
    decreases ids.len(),
{
    reveal_strlit("reason");
    reveal_strlit("status");
    assert("reason"@.len() == 6);
    assert("status"@.len() == 6);
    assert("reason"@[0] == 'r');
    assert("status"@[0] == 's');
    if ids.len() > 0 {
        lemma_only_losses(state, now, session, ids.drop_last(), reason, context);
    }
}

/// A page that is detached leaves nothing of its session. That it is detached is
/// told first, with the pause that ended; then what was installed in it, and in
/// the end that the session is gone.
pub proof fn law_detached_pages_are_told(state: StateView, now: u64, session: Chars)
    ensures
        ({
            let after = state.on_target_detached(now, session);
            let detached = News {
                kind: "target-detached"@,
                session: Some(session),
                data: JsonView::object().with(
                    "invalidatedPause"@,
                    pause_told(collections::lookup(state.paused_sessions, session)),
                ),
            };
            let gone = News {
                kind: "session-detached"@,
                session: Some(session),
                data: JsonView::object(),
            };
            &&& collections::lookup(after.sessions, session) is None
            &&& collections::lookup(after.paused_sessions, session) is None
            &&& events::contexts_of(after, session).len() == 0
            &&& !after.enabled_sessions.contains(session)
            &&& !after.binding_sessions.contains(session)
            &&& told_around(state, after, detached, gone, session, "session-detached"@)
        }),
{
    broadcast use tables::lemma_filter_holds;

    let unpaused = StateView {
        paused_sessions: collections::del(state.paused_sessions, session),
        ..state
    };
    tables::lemma_lookup_del(state.paused_sessions, session, session);
    let kind = "target-detached"@;
    let data = JsonView::object().with(
        "invalidatedPause"@,
        pause_told(collections::lookup(state.paused_sessions, session)),
    );
    let told = unpaused.push_event(now, kind, Some(session), data);
    lemma_told_one(state, unpaused, now, kind, Some(session), data);
    controller::lemma_push_event_frame(unpaused, now, kind, Some(session), data);
    let cut = StateView {
        sessions: collections::del(told.sessions, session),
        enabled_sessions: collections::set_without(told.enabled_sessions, session),
        execution_contexts: collections::del(told.execution_contexts, session),
        binding_sessions: collections::set_without(told.binding_sessions, session),
        scripts: controller::without_session(told.scripts, session),
        ..told
    };
    tables::lemma_lookup_del(told.sessions, session, session);
    tables::lemma_lookup_del(told.execution_contexts, session, session);
    assert(!cut.enabled_sessions.contains(session));
    assert(!cut.binding_sessions.contains(session));
    let reason = "session-detached"@;
    let bindings = cut.session_bindings(session, u64::MAX);
    let left = cut.unbind_all(now, session, bindings, reason, None);
    lemma_losses(cut, now, session, bindings, reason, None);
    lemma_only_losses(cut, now, session, bindings, reason, None);
    lemma_unbind_frame(cut, now, session, bindings, reason, None);
    let lost = losses(cut, now, session, bindings, reason, None);
    let first = seq![News { kind, session: Some(session), data }];
    lemma_told_same(told, cut, left, lost);
    lemma_told_both(state, told, left, first, lost);
    lemma_told_one(left, left, now, reason, Some(session), JsonView::object());
    controller::lemma_push_event_frame(left, now, reason, Some(session), JsonView::object());
    let after = left.push_event(now, reason, Some(session), JsonView::object());
    let last = seq![News { kind: reason, session: Some(session), data: JsonView::object() }];
    lemma_told_both(state, left, after, first + lost, last);
    assert(only_losses(lost, session, reason));
    assert(told_between(state, after, first + lost + last));
}

/// A session of a page has the name of its tab, its target and identifier, and
/// begins with the first document; a page that was known keeps its document.
pub proof fn law_pages_become_sessions(page: PageView, known: SessionView)
    ensures
        ({
            let fresh = lifecycle::page_session(page, None);
            let kept = lifecycle::page_session(page, Some(known));
            &&& fresh.tab_id == "t"@ + text::decimal(page.tab_id as nat)
            &&& fresh.target_id == page.target_id
            &&& fresh.session_id == page.session_id
            &&& fresh.document_generation == 1
            &&& fresh.loader_id is None
            &&& kept.tab_id == fresh.tab_id
            &&& kept.target_id == page.target_id
            &&& kept.session_id == page.session_id
            &&& kept.document_generation == known.document_generation
            &&& kept.loader_id == known.loader_id
        }),
{
}

proof fn lemma_page_table(pages: Seq<PageView>, old: Seq<(Chars, SessionView)>, i: int)
    requires
        0 <= i < pages.len(),
        forall|j: int|
            i < j < pages.len() ==> (#[trigger] pages[j]).session_id != pages[i].session_id,
    ensures
        collections::lookup(lifecycle::page_table(pages, old), pages[i].session_id) == Some(
            lifecycle::page_session(pages[i], collections::lookup(old, pages[i].session_id)),
        ),
    decreases pages.len(),
{
    let rest = pages.drop_last();
    let last = pages.last();
    tables::lemma_lookup_put(
        lifecycle::page_table(rest, old),
        last.session_id,
        lifecycle::page_session(last, collections::lookup(old, last.session_id)),
        pages[i].session_id,
    );
    if i < rest.len() {
        assert(pages[pages.len() - 1].session_id != pages[i].session_id);
        assert forall|j: int| i < j < rest.len() implies (#[trigger] rest[j]).session_id
            != rest[i].session_id by {
            assert(pages[j].session_id != pages[i].session_id);
        }
        lemma_page_table(rest, old, i);
    }
}

/// A connection has a session for every page, under the identifier of the page,
/// and the active one is that of the active tab. Reports come through a binding
/// with a name of the connection's own, and with its own secret. Its number is
/// the one behind that of the last connection.
pub proof fn law_connections_have_a_session_for_every_page(
    state: StateView,
    now: u64,
    pages: Seq<PageView>,
    active: Option<u32>,
    suffix: Chars,
    nonce: Chars,
    i: int,
)
    requires
        0 <= i < pages.len(),
        forall|j: int|
            i < j < pages.len() ==> (#[trigger] pages[j]).session_id != pages[i].session_id,
        state.connection_generation < u64::MAX,
    ensures
        ({
            let after = state.attach(now, pages, active, suffix, nonce);
            let session = collections::lookup(after.sessions, pages[i].session_id);
            &&& after.connected
            &&& after.connection_generation == state.connection_generation + 1
            &&& after.binding_name == "__agent_browser_debug_hit_"@ + suffix
            &&& after.binding_nonce == nonce
            &&& session == Some(lifecycle::page_session(pages[i], None))
            &&& match active {
                Some(tab) => match after.active_session {
                    Some(id) => exists|k: int|
                        0 <= k < after.sessions.len() && (#[trigger] after.sessions[k]).1.tab_id
                            == "t"@ + text::decimal(tab as nat)
                            && after.sessions[k].1.session_id == id,
                    None => forall|k: int|
                        0 <= k < after.sessions.len() ==> (
                        #[trigger] after.sessions[k]).1.tab_id != "t"@ + text::decimal(tab as nat),
                },
                None => after.active_session is None,
            }
        }),
{
    let sessions = lifecycle::page_table(pages, Seq::empty());
    lemma_page_table(pages, Seq::empty(), i);
    lemma_attach_frame(state, now, pages, active, suffix, nonce);
    if let Some(tab) = active {
        inspection::lemma_session_of_tab(sessions, "t"@ + text::decimal(tab as nat));
    }
}

/// Whether news are the last that were told.
pub open spec fn told_last(after: StateView, news: Seq<News>) -> bool {
    exists|before: StateView| #[trigger] told_between(before, after, news)
}

/// A connection is told with its number, and then every page of it.
pub proof fn law_connections_are_told(
    state: StateView,
    now: u64,
    pages: Seq<PageView>,
    active: Option<u32>,
    suffix: Chars,
    nonce: Chars,
)
    requires
        state.connection_generation < u64::MAX,
    ensures
        told_last(
            state.attach(now, pages, active, suffix, nonce),
            seq![
                News {
                    kind: "connection-attached"@,
                    session: None,
                    data: JsonView::object().with(
                        "connectionGeneration"@,
                        JsonView::Uint((state.connection_generation + 1) as u64),
                    ),
                },
            ] + arrivals(
                pages.map_values(|page: PageView| lifecycle::page_session(page, None)),
            ),
        ),
{
    let data = JsonView::object().with(
        "previousConnectionGeneration"@,
        JsonView::Uint(state.connection_generation),
    );
    let told = if state.connected {
        state.push_event(now, "connection-reset"@, None, data)
    } else {
        state
    };
    let generation = controller::next_number(state.connection_generation);
    let clean = StateView {
        connection_generation: generation,
        connected: true,
        ..told
    }.reset(now, "connection-reset"@);
    let sessions = lifecycle::page_table(pages, Seq::empty());
    let named = StateView {
        binding_name: lifecycle::LOGPOINT_BINDING_PREFIX@ + suffix,
        binding_nonce: nonce,
        sessions,
        active_session: lifecycle::active_of(sessions, active),
        ..clean
    };
    let attached = JsonView::object().with("connectionGeneration"@, JsonView::Uint(generation));
    let reported = named.push_event(now, "connection-attached"@, None, attached);
    let fresh = lifecycle::fresh_sessions(pages);
    let first = seq![News { kind: "connection-attached"@, session: None, data: attached }];
    lemma_told_one(named, named, now, "connection-attached"@, None, attached);
    lemma_attached_frame(reported, now, fresh);
    let after = state.attach(now, pages, active, suffix, nonce);
    lemma_told_both(named, reported, after, first, arrivals(fresh));
    assert(told_between(named, after, first + arrivals(fresh)));
}

/// Synchronized pages have a session each, which keeps the document that was
/// known of it; the active one is that of the active tab. Exactly the sessions
/// that were not there before are told as new, and nothing after them.
pub proof fn law_synchronized_pages_are_told(
    state: StateView,
    now: u64,
    pages: Seq<PageView>,
    active: Option<u32>,
    i: int,
)
    requires
        0 <= i < pages.len(),
        forall|j: int|
            i < j < pages.len() ==> (#[trigger] pages[j]).session_id != pages[i].session_id,
    ensures
        ({
            let after = state.sync(now, pages, active);
            let fresh = after.sessions.filter(
                |e: (Chars, SessionView)| collections::lookup(state.sessions, e.0) is None,
            );
            &&& collections::lookup(after.sessions, pages[i].session_id) == Some(
                lifecycle::page_session(
                    pages[i],
                    collections::lookup(state.sessions, pages[i].session_id),
                ),
            )
            &&& told_last(after, arrivals(fresh.map_values(|e: (Chars, SessionView)| e.1)))
            &&& match active {
                Some(tab) => match after.active_session {
                    Some(id) => exists|k: int|
                        0 <= k < after.sessions.len() && (#[trigger] after.sessions[k]).1.tab_id
                            == "t"@ + text::decimal(tab as nat)
                            && after.sessions[k].1.session_id == id,
                    None => forall|k: int|
                        0 <= k < after.sessions.len() ==> (
                        #[trigger] after.sessions[k]).1.tab_id != "t"@ + text::decimal(tab as nat),
                },
                None => after.active_session is None,
            }
        }),
{
    let next = lifecycle::page_table(pages, state.sessions);
    lemma_page_table(pages, state.sessions, i);
    let closed = state.drop_pages(
        now,
        collections::keys(lifecycle::missing_from(state.sessions, next)),
    );
    let listed = StateView { sessions: next, ..closed };
    let fresh = collections::values(lifecycle::missing_from(next, state.sessions));
    lemma_attached_frame(listed, now, fresh);
    let told = listed.report_attached(now, fresh);
    let after = state.sync(now, pages, active);
    assert(told_between(listed, told, arrivals(fresh)));
    assert(after.events == told.events);
    assert(told_between(listed, after, arrivals(fresh)));
    if let Some(tab) = active {
        inspection::lemma_session_of_tab(next, "t"@ + text::decimal(tab as nat));
    }
    assert(fresh =~= after.sessions.filter(
        |e: (Chars, SessionView)| collections::lookup(state.sessions, e.0) is None,
    ).map_values(|e: (Chars, SessionView)| e.1));
}

proof fn lemma_stale_frame(
    state: StateView,
    now: u64,
    probes: Seq<(Chars, LogicalView)>,
    reason: Chars,
)
    ensures
        ({
            let after = state.mark_each_stale(now, probes, reason);
            &&& after.connection_generation == state.connection_generation
            &&& after.connected == state.connected
            &&& after.sessions == state.sessions
            &&& after.active_session == state.active_session
        }),
    decreases probes.len(),
{
    if probes.len() > 0 {
        lemma_stale_frame(state, now, probes.drop_last(), reason);
        let before = state.mark_each_stale(now, probes.drop_last(), reason);
        let probe = probes.last().1.probe_id;
        let marked = match collections::lookup(before.logical_probes, probe) {
            Some(p) => StateView {
                logical_probes: collections::put(
                    before.logical_probes,
                    probe,
                    LogicalView { physical_ids: Seq::empty(), status: "stale"@, ..p },
                ),
                ..before
            },
            None => before,
        };
        lemma_report_frame(marked, now, probe, probes.last().1.physical_ids, reason);
    }
}

proof fn lemma_report_frame(
    state: StateView,
    now: u64,
    probe: Chars,
    ids: Seq<Chars>,
    reason: Chars,
)
    ensures
        ({
            let after = state.report_stale(now, probe, ids, reason);
            &&& after.connection_generation == state.connection_generation
            &&& after.connected == state.connected
            &&& after.sessions == state.sessions
            &&& after.active_session == state.active_session
            &&& after.logical_probes == state.logical_probes
        }),
    decreases ids.len(),
{
    if ids.len() > 0 {
        lemma_report_frame(state, now, probe, ids.drop_last(), reason);
        controller::lemma_push_event_frame(
            state.report_stale(now, probe, ids.drop_last(), reason),
            now,
            "probe-unbound"@,
            None,
            controller::stale_data(probe, ids.last(), reason),
        );
    }
}

proof fn lemma_attached_frame(state: StateView, now: u64, sessions: Seq<SessionView>)
    ensures
        ({
            let after = state.report_attached(now, sessions);
            &&& after.connection_generation == state.connection_generation
            &&& after.connected == state.connected
            &&& after.sessions == state.sessions
            &&& after.active_session == state.active_session
            &&& after.binding_name == state.binding_name
            &&& after.binding_nonce == state.binding_nonce
            &&& told_between(state, after, arrivals(sessions))
        }),
    decreases sessions.len(),
{
    if sessions.len() == 0 {
        lemma_told_nothing(state, state);
        assert(arrivals(sessions) =~= Seq::empty());
    } else {
        let rest = sessions.drop_last();
        let last = sessions.last();
        let before = state.report_attached(now, rest);
        lemma_attached_frame(state, now, rest);
        let data = JsonView::object().with("targetId"@, JsonView::Str(last.target_id)).with(
            "tabId"@,
            JsonView::Str(last.tab_id),
        );
        controller::lemma_push_event_frame(
            before,
            now,
            "target-attached"@,
            Some(last.session_id),
            data,
        );
        lemma_told_one(before, before, now, "target-attached"@, Some(last.session_id), data);
        let one = seq![
            News { kind: "target-attached"@, session: Some(last.session_id), data },
        ];
        let after = state.report_attached(now, sessions);
        lemma_told_both(state, before, after, arrivals(rest), one);
        assert(arrivals(rest) + one =~= arrivals(sessions));
    }
}

/// What is told of sessions that are new.
pub open spec fn arrivals(sessions: Seq<SessionView>) -> Seq<News> {
    Seq::new(
        sessions.len(),
        |i: int|
            News {
                kind: "target-attached"@,
                session: Some(sessions[i].session_id),
                data: JsonView::object().with(
                    "targetId"@,
                    JsonView::Str(sessions[i].target_id),
                ).with("tabId"@, JsonView::Str(sessions[i].tab_id)),
            },
    )
}

proof fn lemma_attach_frame(
    state: StateView,
    now: u64,
    pages: Seq<PageView>,
    active: Option<u32>,
    suffix: Chars,
    nonce: Chars,
)
    ensures
        ({
            let after = state.attach(now, pages, active, suffix, nonce);
            let sessions = lifecycle::page_table(pages, Seq::empty());
            &&& after.connected
            &&& after.connection_generation == controller::next_number(
                state.connection_generation,
            )
            &&& after.binding_name == "__agent_browser_debug_hit_"@ + suffix
            &&& after.binding_nonce == nonce
            &&& after.sessions == sessions
            &&& after.active_session == lifecycle::active_of(sessions, active)
        }),
{
    let data = JsonView::object().with(
        "previousConnectionGeneration"@,
        JsonView::Uint(state.connection_generation),
    );
    controller::lemma_push_event_frame(state, now, "connection-reset"@, None, data);
    let told = if state.connected {
        state.push_event(now, "connection-reset"@, None, data)
    } else {
        state
    };
    let generation = controller::next_number(state.connection_generation);
    let begun = StateView { connection_generation: generation, connected: true, ..told };
    let bare = StateView {
        sessions: Seq::empty(),
        enabled_sessions: Seq::empty(),
        execution_contexts: Seq::empty(),
        binding_sessions: Seq::empty(),
        paused_sessions: Seq::empty(),
        scripts: Seq::empty(),
        ..begun
    };
    lemma_stale_frame(bare, now, bare.logical_probes, "connection-reset"@);
    let clean = begun.reset(now, "connection-reset"@);
    let sessions = lifecycle::page_table(pages, Seq::empty());
    let named = StateView {
        binding_name: lifecycle::LOGPOINT_BINDING_PREFIX@ + suffix,
        binding_nonce: nonce,
        sessions,
        active_session: lifecycle::active_of(sessions, active),
        ..clean
    };
    let attached = JsonView::object().with("connectionGeneration"@, JsonView::Uint(generation));
    controller::lemma_push_event_frame(named, now, "connection-attached"@, None, attached);
    lemma_attached_frame(
        named.push_event(now, "connection-attached"@, None, attached),
        now,
        lifecycle::fresh_sessions(pages),
    );
}

/// What is told of a probe whose installations have gone stale.
pub open spec fn stale_news(probe: Chars, ids: Seq<Chars>, reason: Chars) -> Seq<News> {
    Seq::new(
        ids.len(),
        |i: int|
            News {
                kind: "probe-unbound"@,
                session: None,
                data: JsonView::object().with("probeId"@, JsonView::Str(probe)).with(
                    "physicalBindingId"@,
                    JsonView::Str(ids[i]),
                ).with("reason"@, JsonView::Str(reason)).with(
                    "status"@,
                    JsonView::Str("stale"@),
                ),
            },
    )
}

proof fn lemma_stale_told(
    state: StateView,
    now: u64,
    probe: Chars,
    ids: Seq<Chars>,
    reason: Chars,
)
    ensures
        told_between(
            state,
            state.report_stale(now, probe, ids, reason),
            stale_news(probe, ids, reason),
        ),
    decreases ids.len(),
{
    if ids.len() == 0 {
        lemma_told_nothing(state, state);
        assert(stale_news(probe, ids, reason) =~= Seq::empty());
    } else {
        let rest = ids.drop_last();
        let before = state.report_stale(now, probe, rest, reason);
        lemma_stale_told(state, now, probe, rest, reason);
        let one = seq![stale_news(probe, ids, reason).last()];
        lemma_told_one(before, before, now, "probe-unbound"@, None, one[0].data);
        lemma_told_both(
            state,
            before,
            state.report_stale(now, probe, ids, reason),
            stale_news(probe, rest, reason),
            one,
        );
        assert(stale_news(probe, rest, reason) + one =~= stale_news(probe, ids, reason));
    }
}

/// A probe goes stale when its connection ends: it stays, without installations,
/// and every installation that it had is told to be lost, with the reason.
pub proof fn law_stale_probes_are_told(
    state: StateView,
    now: u64,
    id: Chars,
    probe: LogicalView,
    ids: Seq<Chars>,
    reason: Chars,
)
    requires
        collections::lookup(state.logical_probes, id) == Some(probe),
    ensures
        ({
            let after = state.mark_stale(now, id, ids, reason);
            &&& collections::lookup(after.logical_probes, id) == Some(
                LogicalView { physical_ids: Seq::empty(), status: "stale"@, ..probe },
            )
            &&& told_between(state, after, stale_news(id, ids, reason))
        }),
{
    let left = LogicalView { physical_ids: Seq::empty(), status: "stale"@, ..probe };
    let middle = StateView {
        logical_probes: collections::put(state.logical_probes, id, left),
        ..state
    };
    tables::lemma_lookup_put(state.logical_probes, id, left, id);
    lemma_report_frame(middle, now, id, ids, reason);
    lemma_stale_told(middle, now, id, ids, reason);
    lemma_told_same(
        state,
        middle,
        middle.report_stale(now, id, ids, reason),
        stale_news(id, ids, reason),
    );
}

/// When a browser is detached, that is told first, with the reason and with
/// every pause that ended. Without a connection nothing happens.
pub proof fn law_detaching_is_told_first(state: StateView, now: u64, reason: Chars, i: int)
    requires
        0 <= i < state.paused_sessions.len(),
    ensures
        !state.connected ==> state.detach(now, reason) == state,
        state.connected ==> {
            let told = state.push_event(
                now,
                "connection-reset"@,
                None,
                JsonView::object().with(
                    "previousConnectionGeneration"@,
                    JsonView::Uint(state.connection_generation),
                ).with("reason"@, JsonView::Str(reason)).with(
                    "invalidatedPauses"@,
                    JsonView::Array(lifecycle::pause_list(state)),
                ),
            );
            let after = state.detach(now, reason);
            &&& !after.connected
            &&& after.active_session is None
            &&& after.connection_generation == state.connection_generation
            &&& after == (StateView { connected: false, active_session: None, ..told }).reset(
                now,
                reason,
            )
            &&& lifecycle::pause_list(state).len() == state.paused_sessions.len()
            &&& lifecycle::pause_list(state)[i] == state.paused_sessions[i].1.to_json()
        },
{
    if state.connected {
        let data = JsonView::object().with(
            "previousConnectionGeneration"@,
            JsonView::Uint(state.connection_generation),
        ).with("reason"@, JsonView::Str(reason)).with(
            "invalidatedPauses"@,
            JsonView::Array(lifecycle::pause_list(state)),
        );
        controller::lemma_push_event_frame(state, now, "connection-reset"@, None, data);
        let told = state.push_event(now, "connection-reset"@, None, data);
        let bare = StateView {
            sessions: Seq::empty(),
            enabled_sessions: Seq::empty(),
            execution_contexts: Seq::empty(),
            binding_sessions: Seq::empty(),
            paused_sessions: Seq::empty(),
            scripts: Seq::empty(),
            connected: false,
            active_session: None,
            ..told
        };
        lemma_stale_frame(bare, now, bare.logical_probes, reason);
    }
}

/// A script that was parsed is told to those who bind persistent probes again:
/// its session and identifier. No other event is.
pub proof fn law_parsed_scripts_are_passed_on(event: CdpEventView)
    ensures
        match events::script_told(event) {
            Some((session, script)) => {
                &&& event.method == "Debugger.scriptParsed"@
                &&& event.session_id == Some(session)
                &&& event.params.get("scriptId"@) == Some(JsonView::Str(script))
            },
            None => event.method != "Debugger.scriptParsed"@ || event.session_id is None || !(
            event.params.get("scriptId"@) matches Some(JsonView::Str(_))),
        },
{
}

/// The owner of a script is told with what its context shows of it, and with why
/// that is not enough: that the context is the default one, if and only if it
/// says so, and its frame, where it has one.
pub proof fn law_owners_are_told_with_their_evidence(params: JsonView)
    ensures
        ({
            let told = events::owner_of(params);
            let evidence = told.get_array("evidence"@)->Some_0;
            let aux = params.get("executionContextAuxData"@);
            let by_default = part_of(aux, "isDefault"@) == JsonView::Bool(true);
            let frame = part_of(aux, "frameId"@);
            &&& told.get("kind"@) == Some(JsonView::Str("unknown"@))
            &&& told.get("confidence"@) == Some(JsonView::Str("low"@))
            &&& told.get("candidates"@) == Some(JsonView::Array(Seq::empty()))
            &&& told.get("reason"@) == Some(
                JsonView::Str(
                    "A default page execution context is shared by Host and Module Federation remotes; runtime ownership requires caller-supplied evidence"@,
                ),
            )
            &&& told.get_array("evidence"@) is Some
            &&& evidence.len() == (if by_default {
                1int
            } else {
                0
            }) + (if frame is Str {
                1int
            } else {
                0
            })
            &&& by_default ==> evidence[0].get("kind"@) == Some(
                JsonView::Str("execution-context-default"@),
            )
            &&& frame matches JsonView::Str(id) ==> {
                &&& evidence.last().get("kind"@) == Some(JsonView::Str("frame-id"@))
                &&& evidence.last().get("value"@) == Some(JsonView::Str(id))
            }
        }),
{
    reveal_strlit("status");
    reveal_strlit("owner");
    reveal_strlit("kind");
    reveal_strlit("ownerId");
    reveal_strlit("confidence");
    reveal_strlit("evidence");
    reveal_strlit("candidates");
    reveal_strlit("reason");
    reveal_strlit("value");
    assert("status"@.len() == 6);
    assert("owner"@.len() == 5);
    assert("kind"@.len() == 4);
    assert("ownerId"@.len() == 7);
    assert("confidence"@.len() == 10);
    assert("evidence"@.len() == 8);
    assert("candidates"@.len() == 10);
    assert("reason"@.len() == 6);
    assert("value"@.len() == 5);
    assert("candidates"@[1] == 'a');
    assert("confidence"@[1] == 'o');
    assert("owner"@[0] == 'o');
    assert("reason"@[0] == 'r');
    assert("status"@[0] == 's');
    assert("value"@[0] == 'v');
}

} // verus!
