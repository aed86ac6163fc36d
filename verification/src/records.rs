//! What the debugger keeps about sessions, scripts, pauses, probes and events.

use vstd::prelude::*;

use crate::collections;
use crate::collections::{copy_optional, copy_texts, StrMap};
use crate::json::{Json, JsonView};
use crate::text::Chars;

verus! {

/// A page that the browser manager reports.
pub struct PageInfo {
    pub tab_id: u32,
    pub target_id: String,
    pub session_id: String,
}

/// Model of a page.
pub struct PageView {
    pub tab_id: u32,
    pub target_id: Chars,
    pub session_id: Chars,
}

impl DeepView for PageInfo {
    type V = PageView;

    open spec fn deep_view(&self) -> PageView {
        PageView {
            tab_id: self.tab_id,
            target_id: self.target_id@,
            session_id: self.session_id@,
        }
    }
}

/// An event of the Chrome DevTools protocol.
pub struct CdpEvent {
    pub method: String,
    pub params: Json,
    pub session_id: Option<String>,
}

/// Model of a protocol event.
pub struct CdpEventView {
    pub method: Chars,
    pub params: JsonView,
    pub session_id: Option<Chars>,
}

impl View for CdpEvent {
    type V = CdpEventView;

    open spec fn view(&self) -> CdpEventView {
        CdpEventView {
            method: self.method@,
            params: self.params@,
            session_id: self.session_id.deep_view(),
        }
    }
}

/// A page session that can be debugged.
pub struct DebugSession {
    pub tab_id: String,
    pub target_id: String,
    pub session_id: String,
    pub document_generation: u64,
    pub loader_id: Option<String>,
}

/// Model of a session.
#[verifier::ext_equal]
pub struct SessionView {
    pub tab_id: Chars,
    pub target_id: Chars,
    pub session_id: Chars,
    pub document_generation: u64,
    pub loader_id: Option<Chars>,
}

impl DeepView for DebugSession {
    type V = SessionView;

    open spec fn deep_view(&self) -> SessionView {
        SessionView {
            tab_id: self.tab_id@,
            target_id: self.target_id@,
            session_id: self.session_id@,
            document_generation: self.document_generation,
            loader_id: self.loader_id.deep_view(),
        }
    }
}

impl Clone for DebugSession {
    fn clone(&self) -> (r: Self)
        ensures
            r.deep_view() == self.deep_view(),
    {
        DebugSession {
            tab_id: self.tab_id.clone(),
            target_id: self.target_id.clone(),
            session_id: self.session_id.clone(),
            document_generation: self.document_generation,
            loader_id: copy_optional(&self.loader_id),
        }
    }
}

/// A copy of a list of JSON values.
pub fn copy_values(list: &Vec<Json>) -> (r: Vec<Json>)
    ensures
        r.deep_view() == list.deep_view(),
{
    let mut r: Vec<Json> = Vec::new();
    let mut i: usize = 0;
    while i < list.len()
        invariant
            i == r.len() <= list.len(),
            forall|j: int| 0 <= j < i ==> r@[j]@ == list@[j]@,
        decreases list.len() - i,
    {
        r.push(list[i].clone());
        i = i + 1;
    }
    assert(r.deep_view() =~= list.deep_view());
    r
}

/// A copy of an optional JSON value.
pub fn copy_value(value: &Option<Json>) -> (r: Option<Json>)
    ensures
        r.deep_view() == value.deep_view(),
{
    match value {
        Some(v) => Some(v.clone()),
        None => None,
    }
}

/// A renderer that stopped in JavaScript.
pub struct PauseRecord {
    pub pause_id: String,
    pub connection_generation: u64,
    pub tab_id: String,
    pub session_id: String,
    pub document_generation: u64,
    pub reason: String,
    pub hit_breakpoints: Vec<String>,
    pub probe_ids: Vec<String>,
    pub call_frames: Vec<Json>,
    pub data: Option<Json>,
}

/// Model of a pause.
#[verifier::ext_equal]
pub struct PauseView {
    pub pause_id: Chars,
    pub connection_generation: u64,
    pub tab_id: Chars,
    pub session_id: Chars,
    pub document_generation: u64,
    pub reason: Chars,
    pub hit_breakpoints: Seq<Chars>,
    pub probe_ids: Seq<Chars>,
    pub call_frames: Seq<JsonView>,
    pub data: Option<JsonView>,
}

impl DeepView for PauseRecord {
    type V = PauseView;

    open spec fn deep_view(&self) -> PauseView {
        PauseView {
            pause_id: self.pause_id@,
            connection_generation: self.connection_generation,
            tab_id: self.tab_id@,
            session_id: self.session_id@,
            document_generation: self.document_generation,
            reason: self.reason@,
            hit_breakpoints: self.hit_breakpoints.deep_view(),
            probe_ids: self.probe_ids.deep_view(),
            call_frames: self.call_frames.deep_view(),
            data: self.data.deep_view(),
        }
    }
}

impl PauseView {
    /// The pause as JSON.
    pub open spec fn to_json(self) -> JsonView {
        JsonView::object().with("pauseId"@, JsonView::Str(self.pause_id)).with(
            "connectionGeneration"@,
            JsonView::Uint(self.connection_generation),
        ).with("tabId"@, JsonView::Str(self.tab_id)).with(
            "sessionId"@,
            JsonView::Str(self.session_id),
        ).with("documentGeneration"@, JsonView::Uint(self.document_generation)).with(
            "reason"@,
            JsonView::Str(self.reason),
        ).with("hitBreakpoints"@, JsonView::texts(self.hit_breakpoints)).with(
            "probeIds"@,
            JsonView::texts(self.probe_ids),
        ).with("callFrames"@, JsonView::Array(self.call_frames)).with(
            "data"@,
            JsonView::or_null(self.data),
        )
    }

    /// The pause as JSON, or `null` where there is none.
    pub open spec fn opt_json(pause: Option<PauseView>) -> JsonView {
        match pause {
            Some(p) => p.to_json(),
            None => JsonView::Null,
        }
    }
}

impl Clone for PauseRecord {
    fn clone(&self) -> (r: Self)
        ensures
            r.deep_view() == self.deep_view(),
    {
        PauseRecord {
            pause_id: self.pause_id.clone(),
            connection_generation: self.connection_generation,
            tab_id: self.tab_id.clone(),
            session_id: self.session_id.clone(),
            document_generation: self.document_generation,
            reason: self.reason.clone(),
            hit_breakpoints: copy_texts(&self.hit_breakpoints),
            probe_ids: copy_texts(&self.probe_ids),
            call_frames: copy_values(&self.call_frames),
            data: copy_value(&self.data),
        }
    }
}

impl PauseRecord {
    /// The pause as JSON.
    pub fn to_json(&self) -> (r: Json)
        ensures
            r@ == self.deep_view().to_json(),
    {
        Json::object().with("pauseId", Json::text(self.pause_id.as_str())).with(
            "connectionGeneration",
            Json::Uint(self.connection_generation),
        ).with("tabId", Json::text(self.tab_id.as_str())).with(
            "sessionId",
            Json::text(self.session_id.as_str()),
        ).with("documentGeneration", Json::Uint(self.document_generation)).with(
            "reason",
            Json::text(self.reason.as_str()),
        ).with("hitBreakpoints", Json::texts(&self.hit_breakpoints)).with(
            "probeIds",
            Json::texts(&self.probe_ids),
        ).with("callFrames", Json::array(copy_values(&self.call_frames))).with(
            "data",
            match &self.data {
                Some(v) => v.clone(),
                None => Json::Null,
            },
        )
    }

    /// The pause as JSON, or `null` where there is none.
    pub fn opt_json(pause: &Option<PauseRecord>) -> (r: Json)
        ensures
            r@ == PauseView::opt_json(pause.deep_view()),
    {
        match pause {
            Some(p) => p.to_json(),
            None => Json::Null,
        }
    }
}

/// The two kinds of probe.
#[derive(Debug, Clone, Copy, PartialEq, Eq, Structural)]
pub enum ProbeKind {
    Breakpoint,
    Logpoint,
}

impl ProbeKind {
    pub open spec fn name(self) -> Chars {
        match self {
            ProbeKind::Breakpoint => "breakpoint"@,
            ProbeKind::Logpoint => "logpoint"@,
        }
    }

    /// Name of the kind.
    pub fn as_str(self) -> (r: &'static str)
        ensures
            r@ == self.name(),
    {
        match self {
            ProbeKind::Breakpoint => "breakpoint",
            ProbeKind::Logpoint => "logpoint",
        }
    }
}

/// One installation of a probe in a compiled script.
pub struct PhysicalProbe {
    pub physical_id: String,
    pub cdp_breakpoint_id: String,
    pub probe_id: String,
    pub connection_generation: u64,
    pub session_id: String,
    pub document_generation: u64,
    pub script_id: String,
    pub execution_context_id: Option<u64>,
    pub requested_location: Json,
    pub actual_location: Json,
}

/// Model of an installation.
#[verifier::ext_equal]
pub struct PhysicalView {
    pub physical_id: Chars,
    pub cdp_breakpoint_id: Chars,
    pub probe_id: Chars,
    pub connection_generation: u64,
    pub session_id: Chars,
    pub document_generation: u64,
    pub script_id: Chars,
    pub execution_context_id: Option<u64>,
    pub requested_location: JsonView,
    pub actual_location: JsonView,
}

impl DeepView for PhysicalProbe {
    type V = PhysicalView;

    open spec fn deep_view(&self) -> PhysicalView {
        PhysicalView {
            physical_id: self.physical_id@,
            cdp_breakpoint_id: self.cdp_breakpoint_id@,
            probe_id: self.probe_id@,
            connection_generation: self.connection_generation,
            session_id: self.session_id@,
            document_generation: self.document_generation,
            script_id: self.script_id@,
            execution_context_id: self.execution_context_id,
            requested_location: self.requested_location@,
            actual_location: self.actual_location@,
        }
    }
}

impl PhysicalView {
    /// The installation as JSON.
    pub open spec fn to_json(self) -> JsonView {
        JsonView::object().with("physicalId"@, JsonView::Str(self.physical_id)).with(
            "cdpBreakpointId"@,
            JsonView::Str(self.cdp_breakpoint_id),
        ).with("probeId"@, JsonView::Str(self.probe_id)).with(
            "connectionGeneration"@,
            JsonView::Uint(self.connection_generation),
        ).with("sessionId"@, JsonView::Str(self.session_id)).with(
            "documentGeneration"@,
            JsonView::Uint(self.document_generation),
        ).with("scriptId"@, JsonView::Str(self.script_id)).with(
            "executionContextId"@,
            JsonView::opt_uint(self.execution_context_id),
        ).with("requestedLocation"@, self.requested_location).with(
            "actualLocation"@,
            self.actual_location,
        )
    }
}

impl Clone for PhysicalProbe {
    fn clone(&self) -> (r: Self)
        ensures
            r.deep_view() == self.deep_view(),
    {
        PhysicalProbe {
            physical_id: self.physical_id.clone(),
            cdp_breakpoint_id: self.cdp_breakpoint_id.clone(),
            probe_id: self.probe_id.clone(),
            connection_generation: self.connection_generation,
            session_id: self.session_id.clone(),
            document_generation: self.document_generation,
            script_id: self.script_id.clone(),
            execution_context_id: self.execution_context_id,
            requested_location: self.requested_location.clone(),
            actual_location: self.actual_location.clone(),
        }
    }
}

impl PhysicalProbe {
    /// The installation as JSON.
    pub fn to_json(&self) -> (r: Json)
        ensures
            r@ == self.deep_view().to_json(),
    {
        Json::object().with("physicalId", Json::text(self.physical_id.as_str())).with(
            "cdpBreakpointId",
            Json::text(self.cdp_breakpoint_id.as_str()),
        ).with("probeId", Json::text(self.probe_id.as_str())).with(
            "connectionGeneration",
            Json::Uint(self.connection_generation),
        ).with("sessionId", Json::text(self.session_id.as_str())).with(
            "documentGeneration",
            Json::Uint(self.document_generation),
        ).with("scriptId", Json::text(self.script_id.as_str())).with(
            "executionContextId",
            Json::opt_uint(self.execution_context_id),
        ).with("requestedLocation", self.requested_location.clone()).with(
            "actualLocation",
            self.actual_location.clone(),
        )
    }
}

/// A probe as its user knows it.
pub struct LogicalProbe {
    pub probe_id: String,
    pub kind: ProbeKind,
    pub enabled: bool,
    pub persistent: bool,
    pub status: String,
    pub condition: Option<String>,
    pub when: Option<String>,
    pub expressions: Vec<String>,
    pub tags: Json,
    pub target: Json,
    pub physical_ids: Vec<String>,
}

/// Model of a probe.
#[verifier::ext_equal]
pub struct LogicalView {
    pub probe_id: Chars,
    pub kind: ProbeKind,
    pub enabled: bool,
    pub persistent: bool,
    pub status: Chars,
    pub condition: Option<Chars>,
    pub when: Option<Chars>,
    pub expressions: Seq<Chars>,
    pub tags: JsonView,
    pub target: JsonView,
    pub physical_ids: Seq<Chars>,
}

impl DeepView for LogicalProbe {
    type V = LogicalView;

    open spec fn deep_view(&self) -> LogicalView {
        LogicalView {
            probe_id: self.probe_id@,
            kind: self.kind,
            enabled: self.enabled,
            persistent: self.persistent,
            status: self.status@,
            condition: self.condition.deep_view(),
            when: self.when.deep_view(),
            expressions: self.expressions.deep_view(),
            tags: self.tags@,
            target: self.target@,
            physical_ids: self.physical_ids.deep_view(),
        }
    }
}

/// Table of installations.
pub type PhysicalTable = Seq<(Chars, PhysicalView)>;

/// The installation with an identifier, as JSON.
pub open spec fn binding_json(physical: PhysicalTable, id: Chars) -> Option<JsonView> {
    match collections::lookup(physical, id) {
        Some(p) => Some(p.to_json()),
        None => None,
    }
}

impl LogicalView {
    /// The installations that the probe lists and that still exist, as JSON.
    pub open spec fn bindings(self, physical: PhysicalTable) -> Seq<JsonView> {
        self.physical_ids.filter_map(|id: Chars| binding_json(physical, id))
    }

    /// The probe as JSON.
    pub open spec fn to_json(self, physical: PhysicalTable) -> JsonView {
        JsonView::object().with("probeId"@, JsonView::Str(self.probe_id)).with(
            "kind"@,
            JsonView::Str(self.kind.name()),
        ).with("enabled"@, JsonView::Bool(self.enabled)).with(
            "persistent"@,
            JsonView::Bool(self.persistent),
        ).with("status"@, JsonView::Str(self.status)).with(
            "condition"@,
            JsonView::opt_text(self.condition),
        ).with("when"@, JsonView::opt_text(self.when)).with(
            "expressions"@,
            JsonView::texts(self.expressions),
        ).with("tags"@, self.tags).with("target"@, self.target).with(
            "bindings"@,
            JsonView::Array(self.bindings(physical)),
        )
    }
}

impl Clone for LogicalProbe {
    fn clone(&self) -> (r: Self)
        ensures
            r.deep_view() == self.deep_view(),
    {
        LogicalProbe {
            probe_id: self.probe_id.clone(),
            kind: self.kind,
            enabled: self.enabled,
            persistent: self.persistent,
            status: self.status.clone(),
            condition: copy_optional(&self.condition),
            when: copy_optional(&self.when),
            expressions: copy_texts(&self.expressions),
            tags: self.tags.clone(),
            target: self.target.clone(),
            physical_ids: copy_texts(&self.physical_ids),
        }
    }
}

impl LogicalProbe {
    /// The probe as JSON.
    pub fn to_json(&self, physical: &StrMap<PhysicalProbe>) -> (r: Json)
        ensures
            r@ == self.deep_view().to_json(physical@),
    {
        let ghost ids = self.physical_ids.deep_view();
        let ghost f = |id: Chars| binding_json(physical@, id);
        let mut bindings: Vec<Json> = Vec::new();
        let mut i: usize = 0;
        assert(bindings.deep_view() =~= ids.take(0).filter_map(f)) by {
            reveal(Seq::filter_map);
        }
        while i < self.physical_ids.len()
            invariant
                ids == self.physical_ids.deep_view(),
                f == (|id: Chars| binding_json(physical@, id)),
                i <= self.physical_ids.len(),
                bindings.deep_view() == ids.take(i as int).filter_map(f),
            decreases self.physical_ids.len() - i,
        {
            let ghost was = bindings.deep_view();
            proof {
                ids.lemma_filter_map_take_succ(f, i as int);
            }
            match physical.get(self.physical_ids[i].as_str()) {
                Some(p) => {
                    bindings.push(p.to_json());
                    assert(bindings.deep_view() =~= was.push(f(ids[i as int])->Some_0));
                },
                None => {},
            }
            assert(bindings.deep_view() =~= ids.take(i + 1).filter_map(f));
            i = i + 1;
        }
        assert(ids.take(i as int) == ids);
        Json::object().with("probeId", Json::text(self.probe_id.as_str())).with(
            "kind",
            Json::text(self.kind.as_str()),
        ).with("enabled", Json::Bool(self.enabled)).with(
            "persistent",
            Json::Bool(self.persistent),
        ).with("status", Json::text(self.status.as_str())).with(
            "condition",
            Json::opt_string(&self.condition),
        ).with("when", Json::opt_string(&self.when)).with(
            "expressions",
            Json::texts(&self.expressions),
        ).with("tags", self.tags.clone()).with("target", self.target.clone()).with(
            "bindings",
            Json::array(bindings),
        )
    }
}

/// A compiled script that Chrome reported.
pub struct ScriptRecord {
    pub session_id: String,
    pub script_id: String,
    pub record: Json,
}

/// Model of a script.
#[verifier::ext_equal]
pub struct ScriptView {
    pub session_id: Chars,
    pub script_id: Chars,
    pub record: JsonView,
}

impl DeepView for ScriptRecord {
    type V = ScriptView;

    open spec fn deep_view(&self) -> ScriptView {
        ScriptView {
            session_id: self.session_id@,
            script_id: self.script_id@,
            record: self.record@,
        }
    }
}

impl Clone for ScriptRecord {
    fn clone(&self) -> (r: Self)
        ensures
            r.deep_view() == self.deep_view(),
    {
        ScriptRecord {
            session_id: self.session_id.clone(),
            script_id: self.script_id.clone(),
            record: self.record.clone(),
        }
    }
}

/// An entry of the event ring.
pub struct DebugEvent {
    pub sequence: u64,
    pub timestamp: u64,
    pub kind: String,
    pub connection_generation: u64,
    pub tab_id: Option<String>,
    pub target_id: Option<String>,
    pub session_id: Option<String>,
    pub document_generation: Option<u64>,
    pub data: Json,
}

/// Model of an event.
#[verifier::ext_equal]
pub struct EventView {
    pub sequence: u64,
    pub timestamp: u64,
    pub kind: Chars,
    pub connection_generation: u64,
    pub tab_id: Option<Chars>,
    pub target_id: Option<Chars>,
    pub session_id: Option<Chars>,
    pub document_generation: Option<u64>,
    pub data: JsonView,
}

impl DeepView for DebugEvent {
    type V = EventView;

    open spec fn deep_view(&self) -> EventView {
        EventView {
            sequence: self.sequence,
            timestamp: self.timestamp,
            kind: self.kind@,
            connection_generation: self.connection_generation,
            tab_id: self.tab_id.deep_view(),
            target_id: self.target_id.deep_view(),
            session_id: self.session_id.deep_view(),
            document_generation: self.document_generation,
            data: self.data@,
        }
    }
}

impl EventView {
    /// The event as JSON.
    pub open spec fn to_json(self) -> JsonView {
        JsonView::object().with("sequence"@, JsonView::Uint(self.sequence)).with(
            "timestamp"@,
            JsonView::Uint(self.timestamp),
        ).with("type"@, JsonView::Str(self.kind)).with(
            "connectionGeneration"@,
            JsonView::Uint(self.connection_generation),
        ).with("tabId"@, JsonView::opt_text(self.tab_id)).with(
            "targetId"@,
            JsonView::opt_text(self.target_id),
        ).with("sessionId"@, JsonView::opt_text(self.session_id)).with(
            "documentGeneration"@,
            JsonView::opt_uint(self.document_generation),
        ).with("data"@, self.data)
    }
}

impl DebugEvent {
    /// The event as JSON.
    pub fn to_json(&self) -> (r: Json)
        ensures
            r@ == self.deep_view().to_json(),
    {
        Json::object().with("sequence", Json::Uint(self.sequence)).with(
            "timestamp",
            Json::Uint(self.timestamp),
        ).with("type", Json::text(self.kind.as_str())).with(
            "connectionGeneration",
            Json::Uint(self.connection_generation),
        ).with("tabId", Json::opt_string(&self.tab_id)).with(
            "targetId",
            Json::opt_string(&self.target_id),
        ).with("sessionId", Json::opt_string(&self.session_id)).with(
            "documentGeneration",
            Json::opt_uint(self.document_generation),
        ).with("data", self.data.clone())
    }
}

} // verus!
