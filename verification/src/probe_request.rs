//! What a set command asks for, and what has to hold before it is served.

use vstd::prelude::*;

use crate::breakpoint;
use crate::breakpoint::required_one_based;
use crate::collections;
use crate::collections::set_contains;
use crate::controller;
use crate::controller::{ControllerState, StateView};
use crate::events;
use crate::events::strings_of;
use crate::json::{Json, JsonView};
use crate::operation::{Request, RequestView};
use crate::queries;
use crate::queries::{resolve_script_session, unknown_script_message};
use crate::records::ProbeKind;
use crate::reports;
use crate::reports::get_number;
use crate::text;
use crate::text::{str_eq, u64_text, Chars};

verus! {

/// Expressions that a logpoint reports at most.
pub const MAX_LOGPOINT_EXPRESSIONS: usize = 16;

/// A checked set command.
pub struct ProbeRequest {
    pub kind: ProbeKind,
    pub script_id: String,
    pub line: u64,
    pub column: u64,
    pub column_explicit: bool,
    pub mode: String,
    pub max_lines: u64,
    pub max_utf16_distance: u64,
    pub condition: Option<String>,
    pub when: Option<String>,
    pub expressions: Vec<String>,
    pub rebind: Option<String>,
    pub tags: Json,
    pub persistent: bool,
}

/// Model of a checked set command.
#[verifier::ext_equal]
pub struct ProbeRequestView {
    pub kind: ProbeKind,
    pub script_id: Chars,
    pub line: u64,
    pub column: u64,
    pub column_explicit: bool,
    pub mode: Chars,
    pub max_lines: u64,
    pub max_utf16_distance: u64,
    pub condition: Option<Chars>,
    pub when: Option<Chars>,
    pub expressions: Seq<Chars>,
    pub rebind: Option<Chars>,
    pub tags: JsonView,
    pub persistent: bool,
}

impl DeepView for ProbeRequest {
    type V = ProbeRequestView;

    open spec fn deep_view(&self) -> ProbeRequestView {
        ProbeRequestView {
            kind: self.kind,
            script_id: self.script_id@,
            line: self.line,
            column: self.column,
            column_explicit: self.column_explicit,
            mode: self.mode@,
            max_lines: self.max_lines,
            max_utf16_distance: self.max_utf16_distance,
            condition: self.condition.deep_view(),
            when: self.when.deep_view(),
            expressions: self.expressions.deep_view(),
            rebind: self.rebind.deep_view(),
            tags: self.tags@,
            persistent: self.persistent,
        }
    }
}

/// Whether a mode is known.
pub open spec fn known_mode(mode: Chars) -> bool {
    mode == "strict"@ || mode == "before"@ || mode == "after"@ || mode == "nearest"@ || mode
        == "nearest-forward"@
}

/// Whether every item is a string.
pub open spec fn all_strings(items: Seq<JsonView>) -> bool {
    forall|i: int| 0 <= i < items.len() ==> (#[trigger] items[i]).as_str() is Some
}

/// Members of an object; nothing where the value is no object.
pub open spec fn object_or_empty(value: Option<JsonView>) -> JsonView {
    match value {
        Some(JsonView::Object(members)) => JsonView::Object(members),
        _ => JsonView::object(),
    }
}

/// The request that a command makes, before it is checked.
pub open spec fn unchecked_request(
    command: JsonView,
    kind: ProbeKind,
    script: Chars,
    line: u64,
) -> ProbeRequestView {
    ProbeRequestView {
        kind,
        script_id: script,
        line,
        column: reports::number_or(command, "column"@, 1),
        column_explicit: match command.get_bool("columnExplicit"@) {
            Some(b) => b,
            None => command.has("column"@),
        },
        mode: match command.get_str("mode"@) {
            Some(mode) => mode,
            None => "after"@,
        },
        max_lines: reports::number_or(command, "maxLines"@, 3),
        max_utf16_distance: reports::number_or(command, "maxUtf16Distance"@, 512),
        condition: command.get_str("condition"@),
        when: command.get_str("when"@),
        expressions: events::member_strings(command, "expressions"@),
        rebind: command.get_str("rebindProbeId"@),
        tags: object_or_empty(command.get("tags"@)),
        persistent: command.flag("persist"@),
    }
}

impl ProbeRequestView {
    /// What is wrong with the request; the first fault counts.
    pub open spec fn fault(self, expressions_valid: bool) -> Option<Chars> {
        if self.column == 0 {
            Some("column must be one-based and greater than zero"@)
        } else if !known_mode(self.mode) {
            Some("Breakpoint mode must be 'strict', 'before', 'after', or 'nearest'"@)
        } else if self.max_lines == 0 || self.max_lines > 500 {
            Some("maxLines must be between 1 and 500"@)
        } else if self.max_utf16_distance == 0 || self.max_utf16_distance > 1_000_000 {
            Some("maxUtf16Distance must be between 1 and 1000000"@)
        } else if !expressions_valid {
            Some("Every logpoint expression must be a string"@)
        } else if self.kind == ProbeKind::Breakpoint && (self.expressions.len() > 0
            || self.when is Some) {
            Some("Breakpoint probes do not accept logpoint expressions or when"@)
        } else if self.kind == ProbeKind::Logpoint && self.condition is Some {
            Some("Logpoint probes use when instead of condition"@)
        } else if self.kind == ProbeKind::Logpoint && self.expressions.len() == 0 {
            Some("A logpoint needs at least one --expression"@)
        } else if self.expressions.len() > MAX_LOGPOINT_EXPRESSIONS {
            Some(
                "A logpoint supports at most "@ + text::decimal(MAX_LOGPOINT_EXPRESSIONS as nat)
                    + " expressions"@,
            )
        } else {
            None
        }
    }

    /// Whether the location counts from one.
    pub open spec fn located(self) -> bool {
        self.line >= 1 && self.column >= 1
    }

    /// The requested location, counted from zero.
    pub open spec fn location(self) -> JsonView {
        JsonView::object().with("scriptId"@, JsonView::Str(self.script_id)).with(
            "lineNumber"@,
            JsonView::Uint((self.line - 1) as u64),
        ).with("columnNumber"@, JsonView::Uint((self.column - 1) as u64))
    }
}

/// The request that a command makes, or what is wrong with it.
pub open spec fn probe_request(command: JsonView, kind: ProbeKind) -> Result<
    ProbeRequestView,
    Chars,
> {
    match command.get_str("scriptId"@) {
        None => Err("Missing compiled script ID"@),
        Some(script) => match breakpoint::one_based_member(command, "line"@) {
            Err(e) => Err(e),
            Ok(line) => {
                let request = unchecked_request(command, kind, script, line);
                let valid = match command.get_array("expressions"@) {
                    Some(items) => all_strings(items),
                    None => true,
                };
                match request.fault(valid) {
                    Some(e) => Err(e),
                    None => Ok(request),
                }
            },
        },
    }
}

fn mode_known(mode: &str) -> (r: bool)
    ensures
        r == known_mode(mode@),
{
    str_eq(mode, "strict") || str_eq(mode, "before") || str_eq(mode, "after") || str_eq(
        mode,
        "nearest",
    ) || str_eq(mode, "nearest-forward")
}

fn only_strings(items: &Vec<Json>) -> (r: bool)
    ensures
        r == all_strings(items.deep_view()),
{
    let ghost all = items.deep_view();
    let mut i: usize = 0;
    while i < items.len()
        invariant
            all == items.deep_view(),
            i <= items.len(),
            forall|j: int| 0 <= j < i ==> (#[trigger] all[j]).as_str() is Some,
        decreases items.len() - i,
    {
        assert(all[i as int] == items@[i as int].deep_view());
        if items[i].as_str().is_none() {
            return false;
        }
        i = i + 1;
    }
    true
}

fn copied(text: Option<&str>) -> (r: Option<String>)
    ensures
        r.deep_view() == text.deep_view(),
{
    match text {
        Some(s) => Some(s.to_owned()),
        None => None,
    }
}

fn object_of(value: Option<&Json>) -> (r: Json)
    ensures
        r@ == object_or_empty(value.deep_view()),
{
    match value {
        Some(v) => match v {
            Json::Object(_) => v.clone(),
            _ => Json::object(),
        },
        None => Json::object(),
    }
}

impl ProbeRequest {
    fn fault(&self, expressions_valid: bool) -> (r: Option<String>)
        ensures
            r.deep_view() == self.deep_view().fault(expressions_valid),
    {
        let breakpoint = self.kind == ProbeKind::Breakpoint;
        let message = if self.column == 0 {
            "column must be one-based and greater than zero"
        } else if !mode_known(self.mode.as_str()) {
            "Breakpoint mode must be 'strict', 'before', 'after', or 'nearest'"
        } else if self.max_lines == 0 || self.max_lines > 500 {
            "maxLines must be between 1 and 500"
        } else if self.max_utf16_distance == 0 || self.max_utf16_distance > 1_000_000 {
            "maxUtf16Distance must be between 1 and 1000000"
        } else if !expressions_valid {
            "Every logpoint expression must be a string"
        } else if breakpoint && (self.expressions.len() > 0 || self.when.is_some()) {
            "Breakpoint probes do not accept logpoint expressions or when"
        } else if !breakpoint && self.condition.is_some() {
            "Logpoint probes use when instead of condition"
        } else if !breakpoint && self.expressions.len() == 0 {
            "A logpoint needs at least one --expression"
        } else if self.expressions.len() > MAX_LOGPOINT_EXPRESSIONS {
            return Some(
                "A logpoint supports at most ".to_owned().concat(
                    u64_text(MAX_LOGPOINT_EXPRESSIONS as u64).as_str(),
                ).concat(" expressions"),
            );
        } else {
            return None;
        };
        Some(message.to_owned())
    }

    /// Reads the request that a command makes.
    pub fn read(command: &Json, kind: ProbeKind) -> (r: Result<ProbeRequest, String>)
        ensures
            text::outcome(r) == probe_request(command@, kind),
            r matches Ok(request) ==> request.deep_view().located(),
    {
        let script_id = match command.get_str("scriptId") {
            Some(id) => id.to_owned(),
            None => {
                return Err("Missing compiled script ID".to_owned());
            },
        };
        let line = match required_one_based(command, "line") {
            Ok(line) => line,
            Err(e) => {
                return Err(e);
            },
        };
        let expression_values = command.get_array("expressions");
        let valid = match expression_values {
            Some(items) => only_strings(items),
            None => true,
        };
        let request = ProbeRequest {
            kind,
            script_id,
            line,
            column: get_number(command, "column", 1),
            column_explicit: match command.get_bool("columnExplicit") {
                Some(b) => b,
                None => command.has("column"),
            },
            mode: match command.get_str("mode") {
                Some(mode) => mode.to_owned(),
                None => "after".to_owned(),
            },
            max_lines: get_number(command, "maxLines", 3),
            max_utf16_distance: get_number(command, "maxUtf16Distance", 512),
            condition: copied(command.get_str("condition")),
            when: copied(command.get_str("when")),
            expressions: match expression_values {
                Some(items) => strings_of(items),
                None => {
                    let none: Vec<String> = Vec::new();
                    assert(none.deep_view() =~= Seq::<Chars>::empty());
                    none
                },
            },
            rebind: copied(command.get_str("rebindProbeId")),
            tags: object_of(command.get("tags")),
            persistent: command.flag("persist"),
        };
        assert(request.deep_view() == unchecked_request(command@, kind, script_id@, line));
        match request.fault(valid) {
            Some(e) => Err(e),
            None => Ok(request),
        }
    }

    /// The requested location, counted from zero.
    pub fn location(&self) -> (r: Json)
        requires
            self.deep_view().located(),
        ensures
            r@ == self.deep_view().location(),
    {
        Json::object().with("scriptId", Json::text(self.script_id.as_str())).with(
            "lineNumber",
            Json::Uint(self.line - 1),
        ).with("columnNumber", Json::Uint(self.column - 1))
    }
}

/// Where a probe is going to be set, as the state shows it at the start.
pub struct Prepared {
    pub session_id: String,
    pub generation: u64,
    pub document_generation: u64,
    pub script: Json,
    pub binding_name: String,
    pub nonce: String,
    pub install_binding: bool,
}

/// Model of where a probe is going to be set.
#[verifier::ext_equal]
pub struct PreparedView {
    pub session_id: Chars,
    pub generation: u64,
    pub document_generation: u64,
    pub script: JsonView,
    pub binding_name: Chars,
    pub nonce: Chars,
    pub install_binding: bool,
}

impl DeepView for Prepared {
    type V = PreparedView;

    open spec fn deep_view(&self) -> PreparedView {
        PreparedView {
            session_id: self.session_id@,
            generation: self.generation,
            document_generation: self.document_generation,
            script: self.script@,
            binding_name: self.binding_name@,
            nonce: self.nonce@,
            install_binding: self.install_binding,
        }
    }
}

/// Where the probe of a command is going to be set. The debugger has to be
/// enabled in the session; the first logpoint of a session brings the binding.
pub open spec fn prepared_for(
    state: StateView,
    command: JsonView,
    kind: ProbeKind,
    script: Chars,
) -> Result<PreparedView, Chars> {
    if !state.connected {
        Err("Browser not launched"@)
    } else {
        match queries::script_session_for(state, command, script) {
            Err(e) => Err(e),
            Ok(session) => if !state.enabled_sessions.contains(session) {
                Err(
                    "Debugger is not enabled for session '"@ + session
                        + "'; run `debug enable` first"@,
                )
            } else {
                match controller::find_script(state.scripts, session, script) {
                    None => Err(queries::unknown_script(script, session)),
                    Some(found) => Ok(
                        PreparedView {
                            session_id: session,
                            generation: state.connection_generation,
                            document_generation: events::generation_of(
                                collections::lookup(state.sessions, session),
                            ),
                            script: found.record,
                            binding_name: state.binding_name,
                            nonce: state.binding_nonce,
                            install_binding: kind == ProbeKind::Logpoint
                                && !state.binding_sessions.contains(session),
                        },
                    ),
                }
            },
        }
    }
}

impl Prepared {
    /// Looks up where the probe of a command is going to be set.
    pub fn find(state: &ControllerState, command: &Json, kind: ProbeKind, script_id: &str) -> (r:
        Result<Prepared, String>)
        ensures
            text::outcome(r) == prepared_for(state@, command@, kind, script_id@),
    {
        if !state.connected {
            return Err("Browser not launched".to_owned());
        }
        let session_id = match resolve_script_session(state, command, script_id) {
            Ok(id) => id,
            Err(e) => {
                return Err(e);
            },
        };
        if !set_contains(&state.enabled_sessions, session_id.as_str()) {
            return Err(
                "Debugger is not enabled for session '".to_owned().concat(
                    session_id.as_str(),
                ).concat("'; run `debug enable` first"),
            );
        }
        match state.script_position(session_id.as_str(), script_id) {
            None => Err(unknown_script_message(script_id, session_id.as_str())),
            Some(i) => {
                let document_generation: u64 = match state.sessions.get(session_id.as_str()) {
                    Some(s) => s.document_generation,
                    None => 1,
                };
                let install_binding = kind == ProbeKind::Logpoint && !set_contains(
                    &state.binding_sessions,
                    session_id.as_str(),
                );
                Ok(
                    Prepared {
                        session_id,
                        generation: state.connection_generation,
                        document_generation,
                        script: state.scripts[i].record.clone(),
                        binding_name: state.binding_name.clone(),
                        nonce: state.binding_nonce.clone(),
                        install_binding,
                    },
                )
            },
        }
    }
}

/// What a piece of JavaScript is for.
#[derive(Clone, Copy, PartialEq, Eq, Structural)]
pub enum ScriptUse {
    Condition,
    Expression,
    When,
}

impl ScriptUse {
    /// How messages name the use.
    pub open spec fn name(self) -> Chars {
        match self {
            ScriptUse::Condition => "breakpoint condition"@,
            ScriptUse::Expression => "logpoint expression"@,
            ScriptUse::When => "logpoint when expression"@,
        }
    }

    /// Address under which the browser compiles the script.
    pub open spec fn address(self) -> Chars {
        match self {
            ScriptUse::Condition => "agent-browser-breakpoint-condition.js"@,
            ScriptUse::Expression => "agent-browser-logpoint-expression.js"@,
            ScriptUse::When => "agent-browser-logpoint-when-expression.js"@,
        }
    }

    /// How messages name the use.
    pub fn label(self) -> (r: &'static str)
        ensures
            r@ == self.name(),
    {
        match self {
            ScriptUse::Condition => "breakpoint condition",
            ScriptUse::Expression => "logpoint expression",
            ScriptUse::When => "logpoint when expression",
        }
    }

    /// Address under which the browser compiles the script.
    pub fn source_url(self) -> (r: &'static str)
        ensures
            r@ == self.address(),
    {
        match self {
            ScriptUse::Condition => "agent-browser-breakpoint-condition.js",
            ScriptUse::Expression => "agent-browser-logpoint-expression.js",
            ScriptUse::When => "agent-browser-logpoint-when-expression.js",
        }
    }
}

/// A piece of JavaScript whose syntax is to be checked.
pub struct SyntaxCheck {
    pub purpose: ScriptUse,
    pub expression: String,
}

/// Model of a check.
#[verifier::ext_equal]
pub struct SyntaxCheckView {
    pub purpose: ScriptUse,
    pub expression: Chars,
}

impl DeepView for SyntaxCheck {
    type V = SyntaxCheckView;

    open spec fn deep_view(&self) -> SyntaxCheckView {
        SyntaxCheckView { purpose: self.purpose, expression: self.expression@ }
    }
}

impl SyntaxCheckView {
    /// The request that compiles the expression without running it.
    pub open spec fn request(self, session: Chars, context: Option<u64>) -> RequestView {
        let script = JsonView::object().with(
            "expression"@,
            JsonView::Str("void ("@ + self.expression + ")"@),
        ).with("sourceURL"@, JsonView::Str(self.purpose.address())).with(
            "persistScript"@,
            JsonView::Bool(false),
        );
        RequestView::with_params(
            "Runtime.compileScript"@,
            match context {
                Some(id) => script.with("executionContextId"@, JsonView::Uint(id)),
                None => script,
            },
            session,
        )
    }

    /// What is wrong with the expression, as the reply tells.
    pub open spec fn fault(self, reply: Result<JsonView, Chars>) -> Option<Chars> {
        match reply {
            Err(e) => Some(e),
            Ok(result) => match result.get("exceptionDetails"@) {
                None => None,
                Some(details) => Some(
                    "Invalid "@ + self.purpose.name() + ": "@ + exception_text(details),
                ),
            },
        }
    }
}

/// Description of an exception.
pub open spec fn exception_text(details: JsonView) -> Chars {
    let described = match JsonView::inner(details.get("exception"@), "description"@) {
        Some(v) => v.as_str(),
        None => None,
    };
    match described {
        Some(description) => description,
        None => match details.get_str("text"@) {
            Some(text) => text,
            None => "syntax error"@,
        },
    }
}

fn describe_exception(details: &Json) -> (r: String)
    ensures
        r@ == exception_text(details@),
{
    let described = match Json::inner(details.get("exception"), "description") {
        Some(v) => v.as_str(),
        None => None,
    };
    match described {
        Some(description) => description.to_owned(),
        None => match details.get_str("text") {
            Some(text) => text.to_owned(),
            None => "syntax error".to_owned(),
        },
    }
}

impl SyntaxCheck {
    /// The request that compiles the expression without running it.
    pub fn request(&self, session_id: &str, context: Option<u64>) -> (r: Request)
        ensures
            r@ == self.deep_view().request(session_id@, context),
    {
        let script = Json::object().with(
            "expression",
            Json::Str("void (".to_owned().concat(self.expression.as_str()).concat(")")),
        ).with("sourceURL", Json::text(self.purpose.source_url())).with(
            "persistScript",
            Json::Bool(false),
        );
        let params = match context {
            Some(id) => script.with("executionContextId", Json::Uint(id)),
            None => script,
        };
        Request::with_params("Runtime.compileScript", params, session_id)
    }

    /// What is wrong with the expression, as the reply tells.
    pub fn fault(&self, reply: &Result<Json, String>) -> (r: Option<String>)
        ensures
            r.deep_view() == self.deep_view().fault(text::outcome(*reply)),
    {
        match reply {
            Err(e) => Some(e.clone()),
            Ok(result) => match result.get("exceptionDetails") {
                None => None,
                Some(details) => Some(
                    "Invalid ".to_owned().concat(self.purpose.label()).concat(": ").concat(
                        describe_exception(details).as_str(),
                    ),
                ),
            },
        }
    }
}

/// The JavaScript of a request, in the order in which it is checked.
pub open spec fn checks_of(request: ProbeRequestView) -> Seq<SyntaxCheckView> {
    let first = match request.condition {
        Some(expression) => seq![
            SyntaxCheckView { purpose: ScriptUse::Condition, expression },
        ],
        None => Seq::empty(),
    };
    let middle = first + request.expressions.map_values(
        |expression: Chars| SyntaxCheckView { purpose: ScriptUse::Expression, expression },
    );
    match request.when {
        Some(expression) => middle.push(
            SyntaxCheckView { purpose: ScriptUse::When, expression },
        ),
        None => middle,
    }
}

impl ProbeRequest {
    /// The JavaScript of the request, in the order in which it is checked.
    pub fn checks(&self) -> (r: Vec<SyntaxCheck>)
        ensures
            r.deep_view() == checks_of(self.deep_view()),
    {
        let ghost f = |expression: Chars| SyntaxCheckView {
            purpose: ScriptUse::Expression,
            expression,
        };
        let ghost all = self.expressions.deep_view();
        let mut checks: Vec<SyntaxCheck> = Vec::new();
        if let Some(expression) = &self.condition {
            checks.push(
                SyntaxCheck { purpose: ScriptUse::Condition, expression: expression.clone() },
            );
        }
        let ghost first = checks.deep_view();
        assert(first =~= match self.condition.deep_view() {
            Some(expression) => seq![
                SyntaxCheckView { purpose: ScriptUse::Condition, expression },
            ],
            None => Seq::empty(),
        });
        let mut i: usize = 0;
        assert(first + all.take(0).map_values(f) =~= first);
        while i < self.expressions.len()
            invariant
                f == (|expression: Chars| SyntaxCheckView {
                    purpose: ScriptUse::Expression,
                    expression,
                }),
                all == self.expressions.deep_view(),
                i <= self.expressions.len(),
                checks.deep_view() == first + all.take(i as int).map_values(f),
            decreases self.expressions.len() - i,
        {
            let ghost was = checks.deep_view();
            let check = SyntaxCheck {
                purpose: ScriptUse::Expression,
                expression: self.expressions[i].clone(),
            };
            checks.push(check);
            proof {
                assert(all.take(i + 1) == all.take(i as int).push(self.expressions@[i as int]@));
                assert(all.take(i + 1).map_values(f) =~= all.take(i as int).map_values(f).push(
                    check.deep_view(),
                ));
                assert(checks.deep_view() =~= was.push(check.deep_view()));
                assert(first + all.take(i + 1).map_values(f) =~= was.push(check.deep_view()));
            }
            i = i + 1;
        }
        assert(all.take(i as int) == all);
        if let Some(expression) = &self.when {
            let ghost was = checks.deep_view();
            let check = SyntaxCheck { purpose: ScriptUse::When, expression: expression.clone() };
            checks.push(check);
            assert(checks.deep_view() =~= was.push(check.deep_view()));
        }
        checks
    }
}

} // verus!
