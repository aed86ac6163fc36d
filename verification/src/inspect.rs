//! Commands on a pause or a script: evaluation, stepping and source.

use vstd::prelude::*;

use crate::collections::same_text;
use crate::controller;
use crate::controller::{ControllerState, StateView};
use crate::json::{Json, JsonView};
use crate::operation::{Request, RequestView, Step, StepView};
use crate::queries;
use crate::queries::{
    resolve_live_session, resolve_pause, resolve_script_session, unknown_script_message,
};
use crate::records::{PauseRecord, PauseView};
use crate::reports;
use crate::reports::get_number;
use crate::text;
use crate::text::{byte_len, str_eq, u64_text, Chars};

verus! {

/// Longest source that is handed out whole, in bytes.
pub const MAX_DEBUG_SOURCE_BYTES: usize = 33_554_432;

/// Evaluation of an expression in a call frame.
pub struct Evaluation {
    pub pause_id: String,
    pub session_id: String,
    pub call_frame_id: String,
    pub expression: String,
}

/// Model of an evaluation.
#[verifier::ext_equal]
pub struct EvaluationView {
    pub pause_id: Chars,
    pub session_id: Chars,
    pub call_frame_id: Chars,
    pub expression: Chars,
}

impl DeepView for Evaluation {
    type V = EvaluationView;

    open spec fn deep_view(&self) -> EvaluationView {
        EvaluationView {
            pause_id: self.pause_id@,
            session_id: self.session_id@,
            call_frame_id: self.call_frame_id@,
            expression: self.expression@,
        }
    }
}

/// Whether a call frame is among the frames.
pub open spec fn has_frame(frames: Seq<JsonView>, id: Chars) -> bool {
    exists|i: int|
        0 <= i < frames.len() && (#[trigger] frames[i]).get_str("callFrameId"@) == Some(id)
}

/// The call frame of a pause that a command is about.
pub open spec fn frame_for(pause: PauseView, command: JsonView) -> Result<Chars, Chars> {
    let explicit = command.get_str("callFrameId"@);
    let index = reports::number_or(command, "frame"@, 0);
    if explicit is Some && command.has("frame"@) {
        Err("Use either --frame or --call-frame-id, not both"@)
    } else {
        match explicit {
            Some(id) => if has_frame(pause.call_frames, id) {
                Ok(id)
            } else {
                Err("Call frame '"@ + id + "' does not belong to pause "@ + pause.pause_id)
            },
            None => if index < pause.call_frames.len() && pause.call_frames[index as int].get_str(
                "callFrameId"@,
            ) is Some {
                Ok(pause.call_frames[index as int].get_str("callFrameId"@)->Some_0)
            } else {
                Err("Call frame index "@ + text::decimal(index as nat) + " is out of range"@)
            },
        }
    }
}

impl EvaluationView {
    /// What an evaluation command comes to before its request.
    pub open spec fn start(state: StateView, command: JsonView) -> StepView<EvaluationView> {
        match command.get_str("expression"@) {
            None => StepView::Done(Err("Missing debug eval expression"@)),
            Some(expression) => if !state.connected {
                StepView::Done(Err("Browser not launched"@))
            } else {
                match queries::pause_for(state, command) {
                    Err(e) => StepView::Done(Err(e)),
                    Ok(pause) => match frame_for(pause, command) {
                        Err(e) => StepView::Done(Err(e)),
                        Ok(frame) => StepView::Wait(
                            EvaluationView {
                                pause_id: pause.pause_id,
                                session_id: pause.session_id,
                                call_frame_id: frame,
                                expression,
                            },
                        ),
                    },
                }
            },
        }
    }

    /// The request that the evaluation waits for.
    pub open spec fn request(self) -> RequestView {
        RequestView::with_params(
            "Debugger.evaluateOnCallFrame"@,
            JsonView::object().with("callFrameId"@, JsonView::Str(self.call_frame_id)).with(
                "expression"@,
                JsonView::Str(self.expression),
            ).with("returnByValue"@, JsonView::Bool(true)).with(
                "generatePreview"@,
                JsonView::Bool(true),
            ).with("silent"@, JsonView::Bool(true)),
            self.session_id,
        )
    }

    /// The answer with a reply.
    pub open spec fn answer(self, reply: Result<JsonView, Chars>) -> Result<JsonView, Chars> {
        match reply {
            Err(e) => Err(e),
            Ok(result) => Ok(
                JsonView::object().with("pauseId"@, JsonView::Str(self.pause_id)).with(
                    "callFrameId"@,
                    JsonView::Str(self.call_frame_id),
                ).with("result"@, result.get_or_null("result"@)).with(
                    "exceptionDetails"@,
                    result.get_or_null("exceptionDetails"@),
                ),
            ),
        }
    }
}

fn frame_known(frames: &Vec<Json>, id: &str) -> (r: bool)
    ensures
        r == has_frame(frames.deep_view(), id@),
{
    let ghost all = frames.deep_view();
    let mut i: usize = 0;
    while i < frames.len()
        invariant
            all == frames.deep_view(),
            i <= frames.len(),
            forall|j: int|
                0 <= j < i ==> (#[trigger] all[j]).get_str("callFrameId"@) != Some(id@),
        decreases frames.len() - i,
    {
        assert(all[i as int] == frames@[i as int].deep_view());
        if same_text(frames[i].get_str("callFrameId"), Some(id)) {
            return true;
        }
        i = i + 1;
    }
    false
}

fn resolve_frame(pause: &PauseRecord, command: &Json) -> (r: Result<String, String>)
    ensures
        text::outcome(r) == frame_for(pause.deep_view(), command@),
{
    let explicit = command.get_str("callFrameId");
    let index = get_number(command, "frame", 0);
    if explicit.is_some() && command.has("frame") {
        return Err("Use either --frame or --call-frame-id, not both".to_owned());
    }
    if let Some(id) = explicit {
        return if frame_known(&pause.call_frames, id) {
            Ok(id.to_owned())
        } else {
            Err(
                "Call frame '".to_owned().concat(id).concat("' does not belong to pause ").concat(
                    pause.pause_id.as_str(),
                ),
            )
        };
    }
    if index < pause.call_frames.len() as u64 {
        let frame = &pause.call_frames[index as usize];
        assert(pause.call_frames.deep_view()[index as int] == frame.deep_view());
        if let Some(id) = frame.get_str("callFrameId") {
            return Ok(id.to_owned());
        }
    }
    Err(
        "Call frame index ".to_owned().concat(u64_text(index).as_str()).concat(
            " is out of range",
        ),
    )
}

impl Evaluation {
    /// Starts an evaluation command.
    pub fn start(state: &ControllerState, command: &Json) -> (r: Step<Evaluation>)
        ensures
            r.deep_view() == EvaluationView::start(state@, command@),
    {
        let expression = match command.get_str("expression") {
            Some(expression) => expression,
            None => {
                return Step::Done(Err("Missing debug eval expression".to_owned()));
            },
        };
        if !state.connected {
            return Step::Done(Err("Browser not launched".to_owned()));
        }
        match resolve_pause(state, command) {
            Err(e) => Step::Done(Err(e)),
            Ok(pause) => match resolve_frame(pause, command) {
                Err(e) => Step::Done(Err(e)),
                Ok(call_frame_id) => Step::Wait(
                    Evaluation {
                        pause_id: pause.pause_id.clone(),
                        session_id: pause.session_id.clone(),
                        call_frame_id,
                        expression: expression.to_owned(),
                    },
                ),
            },
        }
    }

    /// The request that the evaluation waits for.
    pub fn request(&self) -> (r: Request)
        ensures
            r@ == self.deep_view().request(),
    {
        Request::with_params(
            "Debugger.evaluateOnCallFrame",
            Json::object().with("callFrameId", Json::text(self.call_frame_id.as_str())).with(
                "expression",
                Json::text(self.expression.as_str()),
            ).with("returnByValue", Json::Bool(true)).with(
                "generatePreview",
                Json::Bool(true),
            ).with("silent", Json::Bool(true)),
            self.session_id.as_str(),
        )
    }

    /// Takes the reply to the request.
    pub fn finish(&self, reply: &Result<Json, String>) -> (r: Result<Json, String>)
        ensures
            text::outcome(r) == self.deep_view().answer(text::outcome(*reply)),
    {
        match reply {
            Err(e) => Err(e.clone()),
            Ok(result) => Ok(
                Json::object().with("pauseId", Json::text(self.pause_id.as_str())).with(
                    "callFrameId",
                    Json::text(self.call_frame_id.as_str()),
                ).with("result", result.get_or_null("result")).with(
                    "exceptionDetails",
                    result.get_or_null("exceptionDetails"),
                ),
            ),
        }
    }
}

/// A command that pauses or moves a session.
pub struct Control {
    pub method: String,
    pub session_id: String,
    pub tab_id: String,
    pub pause_id: Option<String>,
}

/// Model of a control command.
#[verifier::ext_equal]
pub struct ControlView {
    pub method: Chars,
    pub session_id: Chars,
    pub tab_id: Chars,
    pub pause_id: Option<Chars>,
}

impl DeepView for Control {
    type V = ControlView;

    open spec fn deep_view(&self) -> ControlView {
        ControlView {
            method: self.method@,
            session_id: self.session_id@,
            tab_id: self.tab_id@,
            pause_id: self.pause_id.deep_view(),
        }
    }
}

impl ControlView {
    /// What a control command comes to before its request. A session is paused
    /// wherever it is; the other methods act on a pause.
    pub open spec fn start(state: StateView, command: JsonView, method: Chars) -> StepView<
        ControlView,
    > {
        if method == "Debugger.pause"@ {
            match queries::live_session(state, command) {
                Err(e) => StepView::Done(Err(e)),
                Ok((session, tab)) => StepView::Wait(
                    ControlView { method, session_id: session, tab_id: tab, pause_id: None },
                ),
            }
        } else if !state.connected {
            StepView::Done(Err("Browser not launched"@))
        } else {
            match queries::pause_for(state, command) {
                Err(e) => StepView::Done(Err(e)),
                Ok(pause) => StepView::Wait(
                    ControlView {
                        method,
                        session_id: pause.session_id,
                        tab_id: pause.tab_id,
                        pause_id: Some(pause.pause_id),
                    },
                ),
            }
        }
    }

    /// The request that the command waits for.
    pub open spec fn request(self) -> RequestView {
        RequestView::plain(self.method, self.session_id)
    }

    /// The answer with a reply.
    pub open spec fn answer(self, reply: Result<JsonView, Chars>) -> Result<JsonView, Chars> {
        match reply {
            Err(e) => Err(e),
            Ok(_) => Ok(
                match self.pause_id {
                    None => JsonView::object().with("requested"@, JsonView::Str("pause"@)).with(
                        "tabId"@,
                        JsonView::Str(self.tab_id),
                    ).with("sessionId"@, JsonView::Str(self.session_id)),
                    Some(pause) => JsonView::object().with("pauseId"@, JsonView::Str(pause)).with(
                        "tabId"@,
                        JsonView::Str(self.tab_id),
                    ).with("sessionId"@, JsonView::Str(self.session_id)).with(
                        "command"@,
                        JsonView::Str(self.method),
                    ),
                },
            ),
        }
    }
}

impl Control {
    /// Starts a control command.
    pub fn start(state: &ControllerState, command: &Json, method: &str) -> (r: Step<Control>)
        ensures
            r.deep_view() == ControlView::start(state@, command@, method@),
    {
        if str_eq(method, "Debugger.pause") {
            return match resolve_live_session(state, command) {
                Err(e) => Step::Done(Err(e)),
                Ok((session_id, tab_id)) => Step::Wait(
                    Control { method: method.to_owned(), session_id, tab_id, pause_id: None },
                ),
            };
        }
        if !state.connected {
            return Step::Done(Err("Browser not launched".to_owned()));
        }
        match resolve_pause(state, command) {
            Err(e) => Step::Done(Err(e)),
            Ok(pause) => Step::Wait(
                Control {
                    method: method.to_owned(),
                    session_id: pause.session_id.clone(),
                    tab_id: pause.tab_id.clone(),
                    pause_id: Some(pause.pause_id.clone()),
                },
            ),
        }
    }

    /// The request that the command waits for.
    pub fn request(&self) -> (r: Request)
        ensures
            r@ == self.deep_view().request(),
    {
        Request::plain(self.method.as_str(), self.session_id.as_str())
    }

    /// Takes the reply to the request.
    pub fn finish(&self, reply: &Result<Json, String>) -> (r: Result<Json, String>)
        ensures
            text::outcome(r) == self.deep_view().answer(text::outcome(*reply)),
    {
        match reply {
            Err(e) => Err(e.clone()),
            Ok(_) => Ok(
                match &self.pause_id {
                    None => Json::object().with("requested", Json::text("pause")).with(
                        "tabId",
                        Json::text(self.tab_id.as_str()),
                    ).with("sessionId", Json::text(self.session_id.as_str())),
                    Some(pause) => Json::object().with("pauseId", Json::text(pause.as_str())).with(
                        "tabId",
                        Json::text(self.tab_id.as_str()),
                    ).with("sessionId", Json::text(self.session_id.as_str())).with(
                        "command",
                        Json::text(self.method.as_str()),
                    ),
                },
            ),
        }
    }
}

/// Parameters that name a script.
pub open spec fn script_params(script: Chars) -> JsonView {
    JsonView::object().with("scriptId"@, JsonView::Str(script))
}

/// The request for the source of a script.
pub open spec fn source_request(session: Chars, script: Chars) -> RequestView {
    RequestView::with_params("Debugger.getScriptSource"@, script_params(script), session)
}

/// The request for the source of a script.
pub fn request_source(session_id: &str, script_id: &str) -> (r: Request)
    ensures
        r@ == source_request(session_id@, script_id@),
{
    Request::with_params(
        "Debugger.getScriptSource",
        Json::object().with("scriptId", Json::text(script_id)),
        session_id,
    )
}

/// Reading of the source of a script.
pub struct SourceRead {
    pub session_id: String,
    pub script_id: String,
    pub script: Json,
}

/// Model of a reading.
#[verifier::ext_equal]
pub struct SourceReadView {
    pub session_id: Chars,
    pub script_id: Chars,
    pub script: JsonView,
}

impl DeepView for SourceRead {
    type V = SourceReadView;

    open spec fn deep_view(&self) -> SourceReadView {
        SourceReadView {
            session_id: self.session_id@,
            script_id: self.script_id@,
            script: self.script@,
        }
    }
}

impl SourceReadView {
    /// What a source command comes to before its request.
    pub open spec fn start(state: StateView, command: JsonView) -> StepView<SourceReadView> {
        match command.get_str("scriptId"@) {
            None => StepView::Done(Err("Missing compiled script ID"@)),
            Some(script) => if !state.connected {
                StepView::Done(Err("Browser not launched"@))
            } else {
                match queries::script_session_for(state, command, script) {
                    Err(e) => StepView::Done(Err(e)),
                    Ok(session) => match controller::find_script(state.scripts, session, script) {
                        None => StepView::Done(Err(queries::unknown_script(script, session))),
                        Some(found) => StepView::Wait(
                            SourceReadView {
                                session_id: session,
                                script_id: script,
                                script: found.record,
                            },
                        ),
                    },
                }
            },
        }
    }

    /// The request that the reading waits for.
    pub open spec fn request(self) -> RequestView {
        source_request(self.session_id, self.script_id)
    }

    /// The answer with a reply.
    pub open spec fn answer(self, reply: Result<JsonView, Chars>) -> Result<JsonView, Chars> {
        match reply {
            Err(e) => Err(e),
            Ok(result) => {
                let source = result.get_str("scriptSource"@);
                if source is Some && text::utf8_len(source->Some_0) > MAX_DEBUG_SOURCE_BYTES {
                    Err(
                        "Compiled script '"@ + self.script_id + "' exceeds the "@ + text::decimal(
                            MAX_DEBUG_SOURCE_BYTES as nat,
                        ) + " byte source response limit; use source search instead"@,
                    )
                } else {
                    Ok(
                        JsonView::object().with("script"@, self.script).with(
                            "scriptSource"@,
                            result.get_or_null("scriptSource"@),
                        ).with("bytecode"@, result.get_or_null("bytecode"@)),
                    )
                }
            },
        }
    }
}

impl SourceRead {
    /// Starts a source command.
    pub fn start(state: &ControllerState, command: &Json) -> (r: Step<SourceRead>)
        ensures
            r.deep_view() == SourceReadView::start(state@, command@),
    {
        let script_id = match command.get_str("scriptId") {
            Some(id) => id,
            None => {
                return Step::Done(Err("Missing compiled script ID".to_owned()));
            },
        };
        if !state.connected {
            return Step::Done(Err("Browser not launched".to_owned()));
        }
        match resolve_script_session(state, command, script_id) {
            Err(e) => Step::Done(Err(e)),
            Ok(session_id) => match state.script_position(session_id.as_str(), script_id) {
                None => Step::Done(Err(unknown_script_message(script_id, session_id.as_str()))),
                Some(i) => Step::Wait(
                    SourceRead {
                        session_id,
                        script_id: script_id.to_owned(),
                        script: state.scripts[i].record.clone(),
                    },
                ),
            },
        }
    }

    /// The request that the reading waits for.
    pub fn request(&self) -> (r: Request)
        ensures
            r@ == self.deep_view().request(),
    {
        request_source(self.session_id.as_str(), self.script_id.as_str())
    }

    /// Takes the reply to the request.
    pub fn finish(&self, reply: &Result<Json, String>) -> (r: Result<Json, String>)
        ensures
            text::outcome(r) == self.deep_view().answer(text::outcome(*reply)),
    {
        match reply {
            Err(e) => Err(e.clone()),
            Ok(result) => {
                if let Some(source) = result.get_str("scriptSource") {
                    if byte_len(source) > MAX_DEBUG_SOURCE_BYTES {
                        return Err(
                            "Compiled script '".to_owned().concat(self.script_id.as_str()).concat(
                                "' exceeds the ",
                            ).concat(u64_text(MAX_DEBUG_SOURCE_BYTES as u64).as_str()).concat(
                                " byte source response limit; use source search instead",
                            ),
                        );
                    }
                }
                Ok(
                    Json::object().with("script", self.script.clone()).with(
                        "scriptSource",
                        result.get_or_null("scriptSource"),
                    ).with("bytecode", result.get_or_null("bytecode")),
                )
            },
        }
    }
}

} // verus!
