//! Effect of the events that Chrome sends on the state.

use vstd::prelude::*;

use crate::breakpoint;
use crate::breakpoint::one_based;
use crate::collections;
use crate::collections::{copy_optional, optional_str, same_text, set_contains, set_remove};
use crate::controller;
use crate::controller::{ControllerState, StateView};
use crate::interop;
use crate::interop::parse_json;
use crate::json::{Json, JsonView};
use crate::records::{
    copy_values, CdpEvent, CdpEventView, DebugSession, PauseRecord, PauseView, PhysicalProbe,
    PhysicalView, ProbeKind, ScriptRecord, ScriptView, SessionView,
};
use crate::text;
use crate::text::{byte_len, sort_order, str_eq, u64_text, Chars};

verus! {

/// Longest payload that a logpoint may report, in bytes.
pub const MAX_LOGPOINT_PAYLOAD_BYTES: usize = 65_536;

/// Strings among the items of an array.
pub open spec fn strings_among(items: Seq<JsonView>) -> Seq<Chars> {
    items.filter_map(|item: JsonView| item.as_str())
}

/// Strings in the array that a member holds.
pub open spec fn member_strings(object: JsonView, key: Chars) -> Seq<Chars> {
    match object.get_array(key) {
        Some(items) => strings_among(items),
        None => Seq::empty(),
    }
}

/// Copies the strings among the items of an array.
pub fn strings_of(items: &Vec<Json>) -> (r: Vec<String>)
    ensures
        r.deep_view() == strings_among(items.deep_view()),
{
    let ghost all = items.deep_view();
    let ghost f = |item: JsonView| item.as_str();
    let mut texts: Vec<String> = Vec::new();
    let mut i: usize = 0;
    assert(texts.deep_view() =~= all.take(0).filter_map(f)) by {
        reveal(Seq::filter_map);
    }
    while i < items.len()
        invariant
            all == items.deep_view(),
            f == (|item: JsonView| item.as_str()),
            i <= items.len(),
            texts.deep_view() == all.take(i as int).filter_map(f),
        decreases items.len() - i,
    {
        let ghost was = texts.deep_view();
        proof {
            all.lemma_filter_map_take_succ(f, i as int);
            assert(all[i as int] == items@[i as int].deep_view());
        }
        match items[i].as_str() {
            Some(s) => {
                texts.push(s.to_owned());
                assert(texts.deep_view() =~= was.push(s@));
                assert(was.push(s@) =~= was + seq![s@]);
            },
            None => {
                assert(was + Seq::<Chars>::empty() =~= was);
            },
        }
        i = i + 1;
    }
    assert(all.take(i as int) == all);
    texts
}

/// Copies the strings in the array that a member holds.
pub fn strings_at(object: &Json, key: &str) -> (r: Vec<String>)
    ensures
        r.deep_view() == member_strings(object@, key@),
{
    match object.get_array(key) {
        Some(items) => strings_of(items),
        None => {
            let none: Vec<String> = Vec::new();
            assert(none.deep_view() =~= Seq::<Chars>::empty());
            none
        },
    }
}

/// A list without the elements that repeat the one before them.
pub open spec fn without_repeats(list: Seq<Chars>) -> Seq<Chars>
    decreases list.len(),
{
    if list.len() == 0 {
        Seq::empty()
    } else {
        let rest = without_repeats(list.drop_last());
        if rest.len() > 0 && rest.last() == list.last() {
            rest
        } else {
            rest.push(list.last())
        }
    }
}

/// The texts in ascending order, each once.
pub open spec fn sorted_unique(list: Seq<Chars>) -> Seq<Chars> {
    without_repeats(text::sorted_by(list, list))
}

/// Copies the texts in ascending order, each once.
pub fn sort_unique(list: &Vec<String>) -> (r: Vec<String>)
    ensures
        r.deep_view() == sorted_unique(list.deep_view()),
{
    let ghost keys = list.deep_view();
    let ghost sorted = text::sorted_by(keys, keys);
    let order = sort_order(list);
    proof {
        text::lemma_stable_order_range(keys);
    }
    let mut unique: Vec<String> = Vec::new();
    let mut i: usize = 0;
    assert(unique.deep_view() =~= without_repeats(sorted.take(0)));
    while i < order.len()
        invariant
            keys == list.deep_view(),
            sorted == text::sorted_by(keys, keys),
            order.len() == sorted.len(),
            forall|j: int|
                0 <= j < order.len() ==> (#[trigger] order@[j]) < list.len() && sorted[j]
                    == keys[order@[j] as int],
            i <= order.len(),
            unique.deep_view() == without_repeats(sorted.take(i as int)),
        decreases order.len() - i,
    {
        let ghost was = unique.deep_view();
        assert(order@[i as int] < list.len());
        let item = &list[order[i]];
        assert(sorted.take(i + 1).drop_last() == sorted.take(i as int));
        assert(sorted.take(i + 1).last() == item@);
        let repeats = if unique.len() > 0 {
            assert(was.last() == unique@[unique.len() - 1]@);
            str_eq(unique[unique.len() - 1].as_str(), item.as_str())
        } else {
            false
        };
        if !repeats {
            unique.push(item.clone());
            assert(unique.deep_view() =~= was.push(item@));
        }
        i = i + 1;
    }
    assert(sorted.take(i as int) == sorted);
    unique
}

/// Identifiers with one more.
pub open spec fn ids_with(ids: Seq<u64>, id: u64) -> Seq<u64> {
    if ids.contains(id) {
        ids
    } else {
        ids.push(id)
    }
}

/// Identifiers without one.
pub open spec fn ids_without(ids: Seq<u64>, id: u64) -> Seq<u64> {
    ids.filter(|x: u64| x != id)
}

fn add_id(ids: &mut Vec<u64>, id: u64)
    ensures
        final(ids).deep_view() == ids_with(old(ids).deep_view(), id),
{
    let mut i: usize = 0;
    while i < ids.len()
        invariant
            ids@ == old(ids)@,
            i <= ids.len(),
            forall|j: int| 0 <= j < i ==> ids@[j] != id,
        decreases ids.len() - i,
    {
        if ids[i] == id {
            assert(ids.deep_view()[i as int] == id);
            return;
        }
        i = i + 1;
    }
    assert(!ids.deep_view().contains(id));
    ids.push(id);
    assert(ids.deep_view() =~= old(ids).deep_view().push(id));
}

fn drop_id(ids: &Vec<u64>, id: u64) -> (r: Vec<u64>)
    ensures
        r.deep_view() == ids_without(ids.deep_view(), id),
{
    let ghost all = ids.deep_view();
    let mut rest: Vec<u64> = Vec::new();
    let mut i: usize = 0;
    assert(rest.deep_view() =~= ids_without(all.take(0), id)) by {
        reveal(Seq::filter);
    }
    while i < ids.len()
        invariant
            all == ids.deep_view(),
            i <= ids.len(),
            rest.deep_view() == ids_without(all.take(i as int), id),
        decreases ids.len() - i,
    {
        let ghost was = rest.deep_view();
        proof {
            reveal(Seq::filter);
            assert(all.take(i + 1).drop_last() == all.take(i as int));
            assert(all.take(i + 1).last() == ids@[i as int]);
        }
        if ids[i] != id {
            rest.push(ids[i]);
            assert(rest.deep_view() =~= was.push(all[i as int]));
        }
        i = i + 1;
    }
    assert(all.take(i as int) == all);
    rest
}

/// Who runs a script, as far as its execution context shows. A default context
/// is shared, so it names no owner.
pub open spec fn owner_of(params: JsonView) -> JsonView {
    let aux = params.get("executionContextAuxData"@);
    let by_default = match JsonView::inner(aux, "isDefault"@) {
        Some(v) => v.as_bool() == Some(true),
        None => false,
    };
    let frame = match JsonView::inner(aux, "frameId"@) {
        Some(v) => v.as_str(),
        None => None,
    };
    let first = if by_default {
        seq![
            JsonView::object().with("kind"@, JsonView::Str("execution-context-default"@)),
        ]
    } else {
        Seq::empty()
    };
    let evidence = match frame {
        Some(id) => first.push(
            JsonView::object().with("kind"@, JsonView::Str("frame-id"@)).with(
                "value"@,
                JsonView::Str(id),
            ),
        ),
        None => first,
    };
    JsonView::object().with("status"@, JsonView::Str("unknown"@)).with(
        "owner"@,
        JsonView::Str("unknown"@),
    ).with("kind"@, JsonView::Str("unknown"@)).with("ownerId"@, JsonView::Null).with(
        "confidence"@,
        JsonView::Str("low"@),
    ).with("evidence"@, JsonView::Array(evidence)).with(
        "candidates"@,
        JsonView::Array(Seq::empty()),
    ).with(
        "reason"@,
        JsonView::Str(
            "A default page execution context is shared by Host and Module Federation remotes; runtime ownership requires caller-supplied evidence"@,
        ),
    )
}

/// Describes who runs a script, as far as its execution context shows.
pub fn runtime_owner(params: &Json) -> (r: Json)
    ensures
        r@ == owner_of(params@),
{
    let aux = params.get("executionContextAuxData");
    let by_default = match Json::inner(aux, "isDefault") {
        Some(v) => match v.as_bool() {
            Some(b) => b,
            None => false,
        },
        None => false,
    };
    let frame = match Json::inner(aux, "frameId") {
        Some(v) => v.as_str(),
        None => None,
    };
    let mut evidence: Vec<Json> = Vec::new();
    let ghost mut model: Seq<JsonView> = Seq::empty();
    assert(evidence.deep_view() =~= model);
    if by_default {
        evidence.push(Json::object().with("kind", Json::text("execution-context-default")));
        proof {
            model = seq![
                JsonView::object().with("kind"@, JsonView::Str("execution-context-default"@)),
            ];
        }
        assert(evidence.deep_view() =~= model);
    }
    if let Some(id) = frame {
        evidence.push(
            Json::object().with("kind", Json::text("frame-id")).with("value", Json::text(id)),
        );
        proof {
            model = model.push(
                JsonView::object().with("kind"@, JsonView::Str("frame-id"@)).with(
                    "value"@,
                    JsonView::Str(id@),
                ),
            );
        }
        assert(evidence.deep_view() =~= model);
    }
    let none: Vec<Json> = Vec::new();
    assert(none.deep_view() =~= Seq::<JsonView>::empty());
    Json::object().with("status", Json::text("unknown")).with(
        "owner",
        Json::text("unknown"),
    ).with("kind", Json::text("unknown")).with("ownerId", Json::Null).with(
        "confidence",
        Json::text("low"),
    ).with("evidence", Json::array(evidence)).with("candidates", Json::array(none)).with(
        "reason",
        Json::text(
            "A default page execution context is shared by Host and Module Federation remotes; runtime ownership requires caller-supplied evidence",
        ),
    )
}

/// Document generation of a session; one where the session is unknown.
pub open spec fn generation_of(session: Option<SessionView>) -> u64 {
    match session {
        Some(s) => s.document_generation,
        None => 1,
    }
}

/// Record of a script that was parsed in a session.
pub open spec fn script_record(
    generation: u64,
    session: Chars,
    known: Option<SessionView>,
    script: Chars,
    params: JsonView,
) -> JsonView {
    let owner = owner_of(params);
    let document = JsonView::Uint(generation_of(known));
    JsonView::object().with("connectionGeneration"@, JsonView::Uint(generation)).with(
        "tabId"@,
        match known {
            Some(s) => JsonView::Str(s.tab_id),
            None => JsonView::Null,
        },
    ).with(
        "targetId"@,
        match known {
            Some(s) => JsonView::Str(s.target_id),
            None => JsonView::Null,
        },
    ).with("sessionId"@, JsonView::Str(session)).with("documentGeneration"@, document).with(
        "scriptId"@,
        JsonView::Str(script),
    ).with("executionContextId"@, params.get_or_null("executionContextId"@)).with(
        "executionContextAuxData"@,
        params.get_or_null("executionContextAuxData"@),
    ).with("url"@, params.get_or_null("url"@)).with("hash"@, params.get_or_null("hash"@)).with(
        "hasSourceURL"@,
        params.get_or_null("hasSourceURL"@),
    ).with("sourceMapURL"@, params.get_or_null("sourceMapURL"@)).with(
        "isModule"@,
        params.get_or_null("isModule"@),
    ).with(
        "startLine"@,
        JsonView::opt_uint(breakpoint::one_based_value(params.get("startLine"@))),
    ).with(
        "startColumn"@,
        JsonView::opt_uint(breakpoint::one_based_value(params.get("startColumn"@))),
    ).with(
        "endLine"@,
        JsonView::opt_uint(breakpoint::one_based_value(params.get("endLine"@))),
    ).with(
        "endColumn"@,
        JsonView::opt_uint(breakpoint::one_based_value(params.get("endColumn"@))),
    ).with(
        "scriptInstanceKey"@,
        JsonView::object().with("connectionGeneration"@, JsonView::Uint(generation)).with(
            "sessionId"@,
            JsonView::Str(session),
        ).with("documentGeneration"@, document).with("scriptId"@, JsonView::Str(script)),
    ).with(
        "sourceLineageKey"@,
        JsonView::object().with("sessionId"@, JsonView::Str(session)).with(
            "documentGeneration"@,
            document,
        ).with("executionContextId"@, params.get_or_null("executionContextId"@)).with(
            "url"@,
            params.get_or_null("url"@),
        ).with("resolvedRuntimeOwnerId"@, owner.get_or_null("ownerId"@)),
    ).with(
        "rebindable"@,
        JsonView::Bool(
            owner.get_str("status"@) == Some("resolved"@) && owner.get_str("confidence"@) == Some(
                "high"@,
            ),
        ),
    ).with("runtimeOwner"@, owner).with(
        "initiatorEvidence"@,
        JsonView::object().with("scriptParsedStackTrace"@, params.get_or_null("stackTrace"@)),
    )
}

/// Describes a script that was parsed in a session.
pub fn describe_script(
    generation: u64,
    session_id: &str,
    known: Option<&DebugSession>,
    script_id: &str,
    params: &Json,
) -> (r: Json)
    ensures
        r@ == script_record(generation, session_id@, known.deep_view(), script_id@, params@),
{
    let owner = runtime_owner(params);
    let document: u64 = match known {
        Some(s) => s.document_generation,
        None => 1,
    };
    let rebindable = same_text(owner.get_str("status"), Some("resolved")) && same_text(
        owner.get_str("confidence"),
        Some("high"),
    );
    let instance = Json::object().with("connectionGeneration", Json::Uint(generation)).with(
        "sessionId",
        Json::text(session_id),
    ).with("documentGeneration", Json::Uint(document)).with("scriptId", Json::text(script_id));
    let lineage = Json::object().with("sessionId", Json::text(session_id)).with(
        "documentGeneration",
        Json::Uint(document),
    ).with("executionContextId", params.get_or_null("executionContextId")).with(
        "url",
        params.get_or_null("url"),
    ).with("resolvedRuntimeOwnerId", owner.get_or_null("ownerId"));
    Json::object().with("connectionGeneration", Json::Uint(generation)).with(
        "tabId",
        match known {
            Some(s) => Json::text(s.tab_id.as_str()),
            None => Json::Null,
        },
    ).with(
        "targetId",
        match known {
            Some(s) => Json::text(s.target_id.as_str()),
            None => Json::Null,
        },
    ).with("sessionId", Json::text(session_id)).with(
        "documentGeneration",
        Json::Uint(document),
    ).with("scriptId", Json::text(script_id)).with(
        "executionContextId",
        params.get_or_null("executionContextId"),
    ).with("executionContextAuxData", params.get_or_null("executionContextAuxData")).with(
        "url",
        params.get_or_null("url"),
    ).with("hash", params.get_or_null("hash")).with(
        "hasSourceURL",
        params.get_or_null("hasSourceURL"),
    ).with("sourceMapURL", params.get_or_null("sourceMapURL")).with(
        "isModule",
        params.get_or_null("isModule"),
    ).with("startLine", Json::opt_uint(one_based(params.get("startLine")))).with(
        "startColumn",
        Json::opt_uint(one_based(params.get("startColumn"))),
    ).with("endLine", Json::opt_uint(one_based(params.get("endLine")))).with(
        "endColumn",
        Json::opt_uint(one_based(params.get("endColumn"))),
    ).with("scriptInstanceKey", instance).with("sourceLineageKey", lineage).with(
        "rebindable",
        Json::Bool(rebindable),
    ).with("runtimeOwner", owner).with(
        "initiatorEvidence",
        Json::object().with("scriptParsedStackTrace", params.get_or_null("stackTrace")),
    )
}

/// Probes whose breakpoints were hit.
pub open spec fn hit_probe(state: StateView, breakpoint: Chars) -> Option<Chars> {
    match collections::lookup(state.physical_by_cdp_breakpoint, breakpoint) {
        Some(id) => match collections::lookup(state.physical_probes, id) {
            Some(binding) => Some(binding.probe_id),
            None => None,
        },
        None => None,
    }
}

/// Record of a pause of a session.
pub open spec fn pause_record(
    state: StateView,
    generation: u64,
    session: SessionView,
    session_id: Chars,
    params: JsonView,
) -> PauseView {
    let hits = member_strings(params, "hitBreakpoints"@);
    PauseView {
        pause_id: "pause-"@ + text::decimal(generation as nat) + "-"@ + text::decimal(
            controller::next_number(state.latest_sequence) as nat,
        ),
        connection_generation: generation,
        tab_id: session.tab_id,
        session_id,
        document_generation: session.document_generation,
        reason: match params.get_str("reason"@) {
            Some(reason) => reason,
            None => "other"@,
        },
        hit_breakpoints: hits,
        probe_ids: sorted_unique(hits.filter_map(|b: Chars| hit_probe(state, b))),
        call_frames: match params.get_array("callFrames"@) {
            Some(frames) => frames,
            None => Seq::empty(),
        },
        data: params.get("data"@),
    }
}

/// The installed logpoint that a payload speaks for, where the payload carries
/// the nonce and names an installation of this session, connection and context
/// that belongs to an enabled logpoint.
pub open spec fn valid_hit(
    state: StateView,
    generation: u64,
    session: Chars,
    context: Option<u64>,
    payload: JsonView,
) -> Option<PhysicalView> {
    match payload.get_str("physicalBindingId"@) {
        None => None,
        Some(id) => match collections::lookup(state.physical_probes, id) {
            None => None,
            Some(binding) => if payload.get_str("nonce"@) == Some(state.binding_nonce)
                && payload.get_str("probeId"@) == Some(binding.probe_id)
                && binding.connection_generation == generation && binding.session_id == session && (
            binding.execution_context_id is None || binding.execution_context_id == context)
                && live_logpoint(state, binding.probe_id) {
                Some(binding)
            } else {
                None
            },
        },
    }
}

/// Whether a probe is an enabled logpoint.
pub open spec fn live_logpoint(state: StateView, probe: Chars) -> bool {
    match collections::lookup(state.logical_probes, probe) {
        Some(p) => p.kind == ProbeKind::Logpoint && p.enabled,
        None => false,
    }
}

/// Data of the event that reports a logpoint.
pub open spec fn hit_data(
    binding: PhysicalView,
    tags: JsonView,
    context: Option<u64>,
    payload: JsonView,
) -> JsonView {
    JsonView::object().with("probeId"@, JsonView::Str(binding.probe_id)).with(
        "physicalBindingId"@,
        JsonView::Str(binding.physical_id),
    ).with("scriptId"@, JsonView::Str(binding.script_id)).with(
        "documentGeneration"@,
        JsonView::Uint(binding.document_generation),
    ).with("location"@, binding.actual_location).with("tags"@, tags).with(
        "executionContextId"@,
        JsonView::opt_uint(context),
    ).with("values"@, payload.get_or_null("values"@)).with(
        "whenError"@,
        payload.get_or_null("whenError"@),
    ).with("serializationError"@, payload.get_or_null("serializationError"@))
}

/// Data that holds a reason alone.
pub open spec fn reason_data(reason: Chars) -> JsonView {
    JsonView::object().with("reason"@, JsonView::Str(reason))
}

/// Tags of a probe.
pub open spec fn probe_tags(state: StateView, probe: Chars) -> JsonView {
    match collections::lookup(state.logical_probes, probe) {
        Some(p) => p.tags,
        None => JsonView::object(),
    }
}

impl StateView {
    /// A script was parsed.
    pub open spec fn on_script_parsed(
        self,
        now: u64,
        generation: u64,
        session: Chars,
        params: JsonView,
    ) -> (StateView, bool) {
        let script = match params.get_str("scriptId"@) {
            Some(id) => id,
            None => Seq::empty(),
        };
        if !self.enabled_sessions.contains(session) || script.len() == 0 {
            (self, false)
        } else {
            let record = script_record(
                generation,
                session,
                collections::lookup(self.sessions, session),
                script,
                params,
            );
            (
                StateView {
                    scripts: controller::put_script(
                        self.scripts,
                        ScriptView { session_id: session, script_id: script, record },
                    ),
                    ..self
                }.push_event(now, "script-parsed"@, Some(session), record),
                true,
            )
        }
    }

    /// A session was paused.
    pub open spec fn on_paused(
        self,
        now: u64,
        generation: u64,
        session: Chars,
        params: JsonView,
    ) -> (StateView, bool) {
        match collections::lookup(self.sessions, session) {
            None => (self, false),
            Some(known) => {
                let pause = pause_record(self, generation, known, session, params);
                (
                    StateView {
                        paused_sessions: collections::put(self.paused_sessions, session, pause),
                        ..self
                    }.push_event(now, "debugger-paused"@, Some(session), pause.to_json()),
                    true,
                )
            },
        }
    }

    /// A session was resumed.
    pub open spec fn on_resumed(self, now: u64, session: Chars) -> StateView {
        StateView {
            paused_sessions: collections::del(self.paused_sessions, session),
            ..self
        }.push_event(
            now,
            "debugger-resumed"@,
            Some(session),
            JsonView::object().with(
                "pause"@,
                PauseView::opt_json(collections::lookup(self.paused_sessions, session)),
            ),
        )
    }

    /// An execution context was created.
    pub open spec fn on_context_created(
        self,
        now: u64,
        session: Chars,
        params: JsonView,
    ) -> StateView {
        let context = params.get("context"@);
        let id = match JsonView::inner(context, "id"@) {
            Some(v) => v.as_u64(),
            None => None,
        };
        let contexts = match id {
            Some(n) => collections::put(
                self.execution_contexts,
                session,
                ids_with(contexts_of(self, session), n),
            ),
            None => self.execution_contexts,
        };
        StateView { execution_contexts: contexts, ..self }.push_event(
            now,
            "execution-context-created"@,
            Some(session),
            JsonView::object().with("executionContextId"@, JsonView::opt_uint(id)).with(
                "name"@,
                JsonView::or_null(JsonView::inner(context, "name"@)),
            ).with("origin"@, JsonView::or_null(JsonView::inner(context, "origin"@))).with(
                "auxData"@,
                JsonView::or_null(JsonView::inner(context, "auxData"@)),
            ),
        )
    }

    /// An execution context was destroyed.
    pub open spec fn on_context_destroyed(
        self,
        now: u64,
        session: Chars,
        params: JsonView,
    ) -> StateView {
        let id = params.get_u64("executionContextId"@);
        let cleared = match id {
            Some(n) => StateView {
                execution_contexts: match collections::lookup(self.execution_contexts, session) {
                    Some(ids) => collections::put(
                        self.execution_contexts,
                        session,
                        ids_without(ids, n),
                    ),
                    None => self.execution_contexts,
                },
                scripts: controller::without_context(self.scripts, session, n),
                ..self
            }.invalidate_context(now, session, n, "execution-context-destroyed"@),
            None => self,
        };
        cleared.push_event(
            now,
            "execution-context-destroyed"@,
            Some(session),
            JsonView::object().with("executionContextId"@, JsonView::opt_uint(id)),
        )
    }

    /// All execution contexts of a session were cleared.
    pub open spec fn on_contexts_cleared(self, now: u64, session: Chars) -> StateView {
        StateView {
            execution_contexts: collections::del(self.execution_contexts, session),
            scripts: controller::without_session(self.scripts, session),
            paused_sessions: collections::del(self.paused_sessions, session),
            ..self
        }.invalidate_session(
            now,
            session,
            generation_of(collections::lookup(self.sessions, session)),
            "execution-contexts-cleared"@,
        ).push_event(
            now,
            "execution-contexts-cleared"@,
            Some(session),
            JsonView::object(),
        )
    }

    /// The page called the binding of the logpoints.
    pub open spec fn on_binding_called(
        self,
        now: u64,
        generation: u64,
        session: Chars,
        params: JsonView,
    ) -> (StateView, bool) {
        let context = params.get_u64("executionContextId"@);
        let raw = params.get_str("payload"@);
        if params.get_str("name"@) != Some(self.binding_name) {
            (self, false)
        } else if raw is Some && text::utf8_len(raw->Some_0) > MAX_LOGPOINT_PAYLOAD_BYTES {
            (
                self.push_event(
                    now,
                    "logpoint-rejected"@,
                    Some(session),
                    reason_data("payload-too-large"@),
                ),
                true,
            )
        } else {
            let parsed = match raw {
                Some(text) => interop::parsed_json(text),
                None => None,
            };
            (
                match parsed {
                    None => self.push_event(
                        now,
                        "logpoint-rejected"@,
                        Some(session),
                        reason_data("invalid-json-payload"@),
                    ),
                    Some(payload) => self.on_payload(now, generation, session, context, payload),
                },
                true,
            )
        }
    }

    /// A logpoint reported a payload.
    pub open spec fn on_payload(
        self,
        now: u64,
        generation: u64,
        session: Chars,
        context: Option<u64>,
        payload: JsonView,
    ) -> StateView {
        match valid_hit(self, generation, session, context, payload) {
            None => self.push_event(
                now,
                "logpoint-rejected"@,
                Some(session),
                reason_data("binding-validation-failed"@).with(
                    "executionContextId"@,
                    JsonView::opt_uint(context),
                ),
            ),
            Some(binding) => self.push_event(
                now,
                "logpoint-hit"@,
                Some(session),
                hit_data(binding, probe_tags(self, binding.probe_id), context, payload),
            ),
        }
    }

    /// A frame was navigated; a page gets a new document with its main frame.
    pub open spec fn on_frame_navigated(
        self,
        now: u64,
        session: Chars,
        params: JsonView,
    ) -> (StateView, bool) {
        match params.get("frame"@) {
            None => (self, false),
            Some(frame) => if frame.has("parentId"@) {
                (self, false)
            } else {
                match collections::lookup(self.sessions, session) {
                    None => (self, false),
                    Some(known) => (self.on_main_navigated(now, session, frame, known), true),
                }
            },
        }
    }

    /// The main frame of a known session was navigated.
    pub open spec fn on_main_navigated(
        self,
        now: u64,
        session: Chars,
        frame: JsonView,
        known: SessionView,
    ) -> StateView {
        let loader = frame.get_str("loaderId"@);
        let replaced = known.loader_id is Some && known.loader_id != loader;
        let generation = if replaced {
            controller::next_number(known.document_generation)
        } else {
            known.document_generation
        };
        let noted = StateView {
            sessions: collections::put(
                self.sessions,
                session,
                SessionView { document_generation: generation, loader_id: loader, ..known },
            ),
            ..self
        };
        let settled = if replaced {
            noted.on_document_replaced(now, session, known)
        } else {
            noted
        };
        settled.push_event(
            now,
            "document-committed"@,
            Some(session),
            JsonView::object().with("previousLoaderId"@, JsonView::opt_text(known.loader_id)).with(
                "loaderId"@,
                JsonView::opt_text(loader),
            ).with(
                "previousDocumentGeneration"@,
                JsonView::Uint(known.document_generation),
            ).with("documentGeneration"@, JsonView::Uint(generation)).with(
                "url"@,
                frame.get_or_null("url"@),
            ),
        )
    }

    /// The document that a session showed is gone.
    pub open spec fn on_document_replaced(
        self,
        now: u64,
        session: Chars,
        previous: SessionView,
    ) -> StateView {
        let reported = self.push_event(
            now,
            "document-invalidated"@,
            Some(session),
            JsonView::object().with("loaderId"@, JsonView::opt_text(previous.loader_id)).with(
                "documentGeneration"@,
                JsonView::Uint(previous.document_generation),
            ),
        );
        StateView {
            scripts: controller::without_session(reported.scripts, session),
            paused_sessions: collections::del(reported.paused_sessions, session),
            ..reported
        }.invalidate_session(
            now,
            session,
            previous.document_generation,
            "document-invalidated"@,
        )
    }

    /// A target was detached.
    pub open spec fn on_target_detached(self, now: u64, session: Chars) -> StateView {
        let reported = StateView {
            paused_sessions: collections::del(self.paused_sessions, session),
            ..self
        }.push_event(
            now,
            "target-detached"@,
            Some(session),
            JsonView::object().with(
                "invalidatedPause"@,
                PauseView::opt_json(collections::lookup(self.paused_sessions, session)),
            ),
        );
        StateView {
            sessions: collections::del(reported.sessions, session),
            enabled_sessions: collections::set_without(reported.enabled_sessions, session),
            execution_contexts: collections::del(reported.execution_contexts, session),
            binding_sessions: collections::set_without(reported.binding_sessions, session),
            scripts: controller::without_session(reported.scripts, session),
            ..reported
        }.invalidate_session(now, session, u64::MAX, "session-detached"@).push_event(
            now,
            "session-detached"@,
            Some(session),
            JsonView::object(),
        )
    }

    /// The state after an event, and whether waiting readers are told.
    pub open spec fn handle_event(
        self,
        now: u64,
        generation: u64,
        event: CdpEventView,
    ) -> (StateView, bool) {
        let method = event.method;
        if self.connection_generation != generation || !self.connected {
            (self, false)
        } else if method == "Target.detachedFromTarget"@ {
            match event.params.get_str("sessionId"@) {
                Some(session) => (self.on_target_detached(now, session), true),
                None => (self, true),
            }
        } else {
            match event.session_id {
                None => (self, method == "Runtime.executionContextsCleared"@),
                Some(session) => if method == "Debugger.scriptParsed"@ {
                    self.on_script_parsed(now, generation, session, event.params)
                } else if method == "Debugger.paused"@ {
                    self.on_paused(now, generation, session, event.params)
                } else if method == "Debugger.resumed"@ {
                    (self.on_resumed(now, session), true)
                } else if method == "Runtime.executionContextCreated"@ {
                    (self.on_context_created(now, session, event.params), true)
                } else if method == "Runtime.executionContextDestroyed"@ {
                    (self.on_context_destroyed(now, session, event.params), true)
                } else if method == "Runtime.executionContextsCleared"@ {
                    (self.on_contexts_cleared(now, session), true)
                } else if method == "Runtime.bindingCalled"@ {
                    self.on_binding_called(now, generation, session, event.params)
                } else if method == "Page.frameNavigated"@ {
                    self.on_frame_navigated(now, session, event.params)
                } else {
                    (self, false)
                },
            }
        }
    }

    /// The state after events of the transport were lost.
    pub open spec fn transport_gap(self, now: u64, generation: u64, count: u64) -> StateView {
        if self.connection_generation != generation {
            self
        } else {
            let reported = self.push_event(
                now,
                "transport-gap"@,
                None,
                JsonView::object().with("gapReason"@, JsonView::Str("broadcast-lag"@)).with(
                    "droppedEventCount"@,
                    JsonView::Uint(count),
                ),
            );
            StateView {
                last_transport_gap_sequence: Some(reported.latest_sequence),
                ..reported
            }
        }
    }
}

/// Execution contexts of a session.
pub open spec fn contexts_of(state: StateView, session: Chars) -> Seq<u64> {
    match collections::lookup(state.execution_contexts, session) {
        Some(ids) => ids,
        None => Seq::empty(),
    }
}

/// The session and the script of which an event tells that it was parsed.
pub open spec fn script_told(event: CdpEventView) -> Option<(Chars, Chars)> {
    match (event.session_id, event.params.get_str("scriptId"@)) {
        (Some(session), Some(script)) => if event.method == "Debugger.scriptParsed"@ {
            Some((session, script))
        } else {
            None
        },
        _ => None,
    }
}

impl CdpEvent {
    /// The session and the script of which the event tells that it was parsed.
    /// Probes may be bound to that script again once the event is handled.
    pub fn parsed_script(&self) -> (r: Option<(String, String)>)
        ensures
            r.deep_view() == script_told(self@),
    {
        if !str_eq(self.method.as_str(), "Debugger.scriptParsed") {
            return None;
        }
        match (&self.session_id, self.params.get_str("scriptId")) {
            (Some(session), Some(script)) => Some((session.clone(), script.to_owned())),
            _ => None,
        }
    }
}

impl ControllerState {
    fn script_parsed(&mut self, now: u64, generation: u64, session_id: &str, params: &Json) -> (r:
        bool)
        ensures
            (final(self)@, r) == old(self)@.on_script_parsed(
                now,
                generation,
                session_id@,
                params@,
            ),
    {
        if !set_contains(&self.enabled_sessions, session_id) {
            return false;
        }
        let script_id = match params.get_str("scriptId") {
            Some(id) => id.to_owned(),
            None => String::new(),
        };
        if byte_len(script_id.as_str()) == 0 {
            proof {
                text::lemma_len_bounds(script_id@);
            }
            return false;
        }
        proof {
            text::lemma_len_bounds(script_id@);
        }
        let record = describe_script(
            generation,
            session_id,
            self.sessions.get(session_id),
            script_id.as_str(),
            params,
        );
        self.insert_script(
            ScriptRecord { session_id: session_id.to_owned(), script_id, record: record.clone() },
        );
        self.push_event(now, "script-parsed", Some(session_id), record);
        true
    }

    fn probes_hit(&self, breakpoints: &Vec<String>) -> (r: Vec<String>)
        ensures
            r.deep_view() == breakpoints.deep_view().filter_map(
                |b: Chars| hit_probe(self@, b),
            ),
    {
        let ghost all = breakpoints.deep_view();
        let ghost f = |b: Chars| hit_probe(self@, b);
        let mut hits: Vec<String> = Vec::new();
        let mut i: usize = 0;
        assert(hits.deep_view() =~= all.take(0).filter_map(f)) by {
            reveal(Seq::filter_map);
        }
        while i < breakpoints.len()
            invariant
                all == breakpoints.deep_view(),
                f == (|b: Chars| hit_probe(self@, b)),
                i <= breakpoints.len(),
                hits.deep_view() == all.take(i as int).filter_map(f),
            decreases breakpoints.len() - i,
        {
            let ghost was = hits.deep_view();
            proof {
                all.lemma_filter_map_take_succ(f, i as int);
                assert(all[i as int] == breakpoints@[i as int]@);
            }
            let probe = match self.physical_by_cdp_breakpoint.get(breakpoints[i].as_str()) {
                Some(id) => match self.physical_probes.get(id.as_str()) {
                    Some(binding) => Some(binding.probe_id.clone()),
                    None => None,
                },
                None => None,
            };
            assert(probe.deep_view() == hit_probe(self@, all[i as int]));
            match probe {
                Some(id) => {
                    hits.push(id);
                    assert(hits.deep_view() =~= was + seq![id@]);
                },
                None => {
                    assert(was + Seq::<Chars>::empty() =~= was);
                },
            }
            i = i + 1;
        }
        assert(all.take(i as int) == all);
        hits
    }

    fn paused(&mut self, now: u64, generation: u64, session_id: &str, params: &Json) -> (r: bool)
        ensures
            (final(self)@, r) == old(self)@.on_paused(now, generation, session_id@, params@),
    {
        let session = match self.sessions.get(session_id) {
            Some(s) => s.clone(),
            None => {
                return false;
            },
        };
        let sequence = controller::increment(self.latest_sequence);
        let hit_breakpoints = strings_at(params, "hitBreakpoints");
        let hits = self.probes_hit(&hit_breakpoints);
        let probe_ids = sort_unique(&hits);
        let call_frames = match params.get_array("callFrames") {
            Some(frames) => copy_values(frames),
            None => {
                let none: Vec<Json> = Vec::new();
                assert(none.deep_view() =~= Seq::<JsonView>::empty());
                none
            },
        };
        let pause = PauseRecord {
            pause_id: "pause-".to_owned().concat(u64_text(generation).as_str()).concat("-").concat(
                u64_text(sequence).as_str(),
            ),
            connection_generation: generation,
            tab_id: session.tab_id,
            session_id: session_id.to_owned(),
            document_generation: session.document_generation,
            reason: match params.get_str("reason") {
                Some(reason) => reason.to_owned(),
                None => "other".to_owned(),
            },
            hit_breakpoints,
            probe_ids,
            call_frames,
            data: match params.get("data") {
                Some(data) => Some(data.clone()),
                None => None,
            },
        };
        assert(pause.deep_view() == pause_record(
            self@,
            generation,
            session.deep_view(),
            session_id@,
            params@,
        ));
        let report = pause.to_json();
        self.paused_sessions.insert(session_id.to_owned(), pause);
        self.push_event(now, "debugger-paused", Some(session_id), report);
        true
    }

    fn resumed(&mut self, now: u64, session_id: &str)
        ensures
            final(self)@ == old(self)@.on_resumed(now, session_id@),
    {
        let pause = self.paused_sessions.remove(session_id);
        self.push_event(
            now,
            "debugger-resumed",
            Some(session_id),
            Json::object().with("pause", PauseRecord::opt_json(&pause)),
        );
    }

    fn context_created(&mut self, now: u64, session_id: &str, params: &Json)
        ensures
            final(self)@ == old(self)@.on_context_created(now, session_id@, params@),
    {
        let context = params.get("context");
        let id = match Json::inner(context, "id") {
            Some(v) => v.as_u64(),
            None => None,
        };
        if let Some(n) = id {
            let ghost table = self@.execution_contexts;
            let mut ids = match self.execution_contexts.remove(session_id) {
                Some(ids) => ids,
                None => {
                    let none: Vec<u64> = Vec::new();
                    assert(none.deep_view() =~= Seq::<u64>::empty());
                    none
                },
            };
            add_id(&mut ids, n);
            proof {
                collections::lemma_del_twice(table, session_id@);
            }
            self.execution_contexts.insert(session_id.to_owned(), ids);
        }
        self.push_event(
            now,
            "execution-context-created",
            Some(session_id),
            Json::object().with("executionContextId", Json::opt_uint(id)).with(
                "name",
                Json::opt(Json::inner(context, "name")),
            ).with("origin", Json::opt(Json::inner(context, "origin"))).with(
                "auxData",
                Json::opt(Json::inner(context, "auxData")),
            ),
        );
    }

    fn context_destroyed(&mut self, now: u64, session_id: &str, params: &Json)
        ensures
            final(self)@ == old(self)@.on_context_destroyed(now, session_id@, params@),
    {
        let id = params.get_u64("executionContextId");
        if let Some(n) = id {
            let ghost table = self@.execution_contexts;
            match self.execution_contexts.remove(session_id) {
                Some(ids) => {
                    let rest = drop_id(&ids, n);
                    proof {
                        collections::lemma_del_twice(table, session_id@);
                    }
                    self.execution_contexts.insert(session_id.to_owned(), rest);
                },
                None => {
                    proof {
                        collections::lemma_del_absent(table, session_id@);
                    }
                },
            }
            self.drop_context_scripts(session_id, n);
            self.invalidate_context_probes(now, session_id, n, "execution-context-destroyed");
        }
        self.push_event(
            now,
            "execution-context-destroyed",
            Some(session_id),
            Json::object().with("executionContextId", Json::opt_uint(id)),
        );
    }

    fn contexts_cleared(&mut self, now: u64, session_id: &str)
        ensures
            final(self)@ == old(self)@.on_contexts_cleared(now, session_id@),
    {
        let generation: u64 = match self.sessions.get(session_id) {
            Some(s) => s.document_generation,
            None => 1,
        };
        let _ = self.execution_contexts.remove(session_id);
        self.drop_session_scripts(session_id);
        let _ = self.paused_sessions.remove(session_id);
        self.invalidate_session_probes(now, session_id, generation, "execution-contexts-cleared");
        self.push_event(now, "execution-contexts-cleared", Some(session_id), Json::object());
    }

    fn find_hit(
        &self,
        generation: u64,
        session_id: &str,
        context: Option<u64>,
        payload: &Json,
    ) -> (r: Option<&PhysicalProbe>)
        ensures
            r.deep_view() == valid_hit(self@, generation, session_id@, context, payload@),
    {
        let binding = match payload.get_str("physicalBindingId") {
            Some(id) => self.physical_probes.get(id),
            None => None,
        };
        match binding {
            None => None,
            Some(binding) => {
                let here = match (binding.execution_context_id, context) {
                    (None, _) => true,
                    (Some(own), Some(seen)) => own == seen,
                    (Some(_), None) => false,
                };
                let live = match self.logical_probes.get(binding.probe_id.as_str()) {
                    Some(probe) => probe.kind == ProbeKind::Logpoint && probe.enabled,
                    None => false,
                };
                if same_text(payload.get_str("nonce"), Some(self.binding_nonce.as_str()))
                    && same_text(payload.get_str("probeId"), Some(binding.probe_id.as_str()))
                    && binding.connection_generation == generation && str_eq(
                    binding.session_id.as_str(),
                    session_id,
                ) && here && live {
                    Some(binding)
                } else {
                    None
                }
            },
        }
    }

    /// Takes the payload that a logpoint reported.
    pub fn take_payload(
        &mut self,
        now: u64,
        generation: u64,
        session_id: &str,
        context: Option<u64>,
        payload: &Json,
    )
        ensures
            final(self)@ == old(self)@.on_payload(now, generation, session_id@, context, payload@),
    {
        let binding = match self.find_hit(generation, session_id, context, payload) {
            Some(binding) => binding.clone(),
            None => {
                self.push_event(
                    now,
                    "logpoint-rejected",
                    Some(session_id),
                    Json::object().with("reason", Json::text("binding-validation-failed")).with(
                        "executionContextId",
                        Json::opt_uint(context),
                    ),
                );
                return;
            },
        };
        let tags = match self.logical_probes.get(binding.probe_id.as_str()) {
            Some(probe) => probe.tags.clone(),
            None => Json::object(),
        };
        self.push_event(
            now,
            "logpoint-hit",
            Some(session_id),
            Json::object().with("probeId", Json::text(binding.probe_id.as_str())).with(
                "physicalBindingId",
                Json::text(binding.physical_id.as_str()),
            ).with("scriptId", Json::text(binding.script_id.as_str())).with(
                "documentGeneration",
                Json::Uint(binding.document_generation),
            ).with("location", binding.actual_location).with("tags", tags).with(
                "executionContextId",
                Json::opt_uint(context),
            ).with("values", payload.get_or_null("values")).with(
                "whenError",
                payload.get_or_null("whenError"),
            ).with("serializationError", payload.get_or_null("serializationError")),
        );
    }

    fn binding_called(&mut self, now: u64, generation: u64, session_id: &str, params: &Json) -> (r:
        bool)
        ensures
            (final(self)@, r) == old(self)@.on_binding_called(
                now,
                generation,
                session_id@,
                params@,
            ),
    {
        if !same_text(params.get_str("name"), Some(self.binding_name.as_str())) {
            return false;
        }
        let context = params.get_u64("executionContextId");
        let raw = params.get_str("payload");
        if let Some(payload) = raw {
            if byte_len(payload) > MAX_LOGPOINT_PAYLOAD_BYTES {
                self.push_event(
                    now,
                    "logpoint-rejected",
                    Some(session_id),
                    Json::object().with("reason", Json::text("payload-too-large")),
                );
                return true;
            }
        }
        let parsed = match raw {
            Some(payload) => parse_json(payload),
            None => None,
        };
        match parsed {
            Some(payload) => {
                self.take_payload(now, generation, session_id, context, &payload);
            },
            None => {
                self.push_event(
                    now,
                    "logpoint-rejected",
                    Some(session_id),
                    Json::object().with("reason", Json::text("invalid-json-payload")),
                );
            },
        }
        true
    }

    fn main_navigated(&mut self, now: u64, session_id: &str, frame: &Json, known: DebugSession)
        ensures
            final(self)@ == old(self)@.on_main_navigated(
                now,
                session_id@,
                frame@,
                known.deep_view(),
            ),
    {
        let loader_id = match frame.get_str("loaderId") {
            Some(id) => Some(id.to_owned()),
            None => None,
        };
        let previous_loader = copy_optional(&known.loader_id);
        let previous_generation = known.document_generation;
        let replaced = previous_loader.is_some() && !same_text(
            optional_str(&previous_loader),
            optional_str(&loader_id),
        );
        let generation = if replaced {
            controller::increment(previous_generation)
        } else {
            previous_generation
        };
        let mut session = known;
        session.document_generation = generation;
        session.loader_id = copy_optional(&loader_id);
        self.sessions.insert(session_id.to_owned(), session);
        if replaced {
            self.push_event(
                now,
                "document-invalidated",
                Some(session_id),
                Json::object().with("loaderId", Json::opt_string(&previous_loader)).with(
                    "documentGeneration",
                    Json::Uint(previous_generation),
                ),
            );
            self.drop_session_scripts(session_id);
            let _ = self.paused_sessions.remove(session_id);
            self.invalidate_session_probes(
                now,
                session_id,
                previous_generation,
                "document-invalidated",
            );
        }
        self.push_event(
            now,
            "document-committed",
            Some(session_id),
            Json::object().with("previousLoaderId", Json::opt_string(&previous_loader)).with(
                "loaderId",
                Json::opt_string(&loader_id),
            ).with("previousDocumentGeneration", Json::Uint(previous_generation)).with(
                "documentGeneration",
                Json::Uint(generation),
            ).with("url", frame.get_or_null("url")),
        );
    }

    fn frame_navigated(&mut self, now: u64, session_id: &str, params: &Json) -> (r: bool)
        ensures
            (final(self)@, r) == old(self)@.on_frame_navigated(now, session_id@, params@),
    {
        match params.get("frame") {
            None => false,
            Some(frame) => {
                if frame.has("parentId") {
                    return false;
                }
                let known = match self.sessions.get(session_id) {
                    Some(s) => s.clone(),
                    None => {
                        return false;
                    },
                };
                self.main_navigated(now, session_id, frame, known);
                true
            },
        }
    }

    fn target_detached(&mut self, now: u64, detached: &str)
        ensures
            final(self)@ == old(self)@.on_target_detached(now, detached@),
    {
        let pause = self.paused_sessions.remove(detached);
        self.push_event(
            now,
            "target-detached",
            Some(detached),
            Json::object().with("invalidatedPause", PauseRecord::opt_json(&pause)),
        );
        let _ = self.sessions.remove(detached);
        set_remove(&mut self.enabled_sessions, detached);
        let _ = self.execution_contexts.remove(detached);
        set_remove(&mut self.binding_sessions, detached);
        self.drop_session_scripts(detached);
        self.invalidate_session_probes(now, detached, u64::MAX, "session-detached");
        self.push_event(now, "session-detached", Some(detached), Json::object());
    }

    /// Takes an event of a connection. Events of another connection than the
    /// current one are ignored. Says whether waiting readers are to be told.
    pub fn handle_event(&mut self, now: u64, generation: u64, event: &CdpEvent) -> (r: bool)
        ensures
            (final(self)@, r) == old(self)@.handle_event(now, generation, event@),
    {
        if self.connection_generation != generation || !self.connected {
            return false;
        }
        let method = event.method.as_str();
        if str_eq(method, "Target.detachedFromTarget") {
            if let Some(detached) = event.params.get_str("sessionId") {
                self.target_detached(now, detached);
            }
            return true;
        }
        let session_id = match optional_str(&event.session_id) {
            Some(id) => id,
            None => {
                return str_eq(method, "Runtime.executionContextsCleared");
            },
        };
        if str_eq(method, "Debugger.scriptParsed") {
            self.script_parsed(now, generation, session_id, &event.params)
        } else if str_eq(method, "Debugger.paused") {
            self.paused(now, generation, session_id, &event.params)
        } else if str_eq(method, "Debugger.resumed") {
            self.resumed(now, session_id);
            true
        } else if str_eq(method, "Runtime.executionContextCreated") {
            self.context_created(now, session_id, &event.params);
            true
        } else if str_eq(method, "Runtime.executionContextDestroyed") {
            self.context_destroyed(now, session_id, &event.params);
            true
        } else if str_eq(method, "Runtime.executionContextsCleared") {
            self.contexts_cleared(now, session_id);
            true
        } else if str_eq(method, "Runtime.bindingCalled") {
            self.binding_called(now, generation, session_id, &event.params)
        } else if str_eq(method, "Page.frameNavigated") {
            self.frame_navigated(now, session_id, &event.params)
        } else {
            false
        }
    }

    /// Notes that the transport lost events of a connection. Says whether
    /// waiting readers are to be told.
    pub fn record_transport_gap(&mut self, now: u64, generation: u64, count: u64) -> (r: bool)
        ensures
            final(self)@ == old(self)@.transport_gap(now, generation, count),
            r == (old(self)@.connection_generation == generation),
    {
        if self.connection_generation != generation {
            return false;
        }
        self.push_event(
            now,
            "transport-gap",
            None,
            Json::object().with("gapReason", Json::text("broadcast-lag")).with(
                "droppedEventCount",
                Json::Uint(count),
            ),
        );
        self.last_transport_gap_sequence = Some(self.latest_sequence);
        true
    }
}

} // verus!
