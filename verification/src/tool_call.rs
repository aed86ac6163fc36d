//! Listing and calling of tools, as a machine that says what to wait for next.

use vstd::prelude::*;

use crate::collections::{optional_str, same_text};
use crate::json::{Json, JsonView};
use crate::operation::{Request, RequestView, Step, StepView};
use crate::records::{CdpEvent, CdpEventView};
use crate::text;
use crate::text::{chars_of, str_eq, string_from, u64_text, Chars};
use crate::webmcp;
use crate::webmcp::{
    read_tools, resolve_tool, session_matches, unsupported_enable_error, PageContext,
    PageContextView, CALL_TIMEOUT_PREFIX, DEFAULT_CALL_TIMEOUT_MS, LIST_EVENT_TIMEOUT_MS,
};

verus! {

/// A call that follows a listing.
pub struct Invocation {
    pub tool_name: String,
    pub input: Json,
    pub frame_id: Option<String>,
    pub timeout_ms: u64,
}

/// Model of a call.
#[verifier::ext_equal]
pub struct InvocationView {
    pub tool_name: Chars,
    pub input: JsonView,
    pub frame_id: Option<Chars>,
    pub timeout_ms: u64,
}

impl DeepView for Invocation {
    type V = InvocationView;

    open spec fn deep_view(&self) -> InvocationView {
        InvocationView {
            tool_name: self.tool_name@,
            input: self.input@,
            frame_id: self.frame_id.deep_view(),
            timeout_ms: self.timeout_ms,
        }
    }
}

/// What the machine waits for: the reply to the request that enables tools, the
/// event that brings them, the active page, the reply to the request that
/// invokes the tool, its response, or the reply to the request that cancels it.
pub enum ToolStage {
    Enable,
    Tools,
    Page(Invocation, Json, String),
    Invoke(Invocation, Json, String),
    Respond(Invocation, Json, String),
    Cancel(Invocation, String),
}

/// Model of what the machine waits for.
pub enum ToolStageView {
    Enable,
    Tools,
    Page(InvocationView, JsonView, Chars),
    Invoke(InvocationView, JsonView, Chars),
    Respond(InvocationView, JsonView, Chars),
    Cancel(InvocationView, Chars),
}

impl DeepView for ToolStage {
    type V = ToolStageView;

    open spec fn deep_view(&self) -> ToolStageView {
        match *self {
            ToolStage::Enable => ToolStageView::Enable,
            ToolStage::Tools => ToolStageView::Tools,
            ToolStage::Page(i, tool, frame) => ToolStageView::Page(i.deep_view(), tool@, frame@),
            ToolStage::Invoke(i, tool, frame) => ToolStageView::Invoke(
                i.deep_view(),
                tool@,
                frame@,
            ),
            ToolStage::Respond(i, tool, id) => ToolStageView::Respond(i.deep_view(), tool@, id@),
            ToolStage::Cancel(i, id) => ToolStageView::Cancel(i.deep_view(), id@),
        }
    }
}

/// What the outside has to do next.
pub enum ToolAction {
    Send(Request),
    Listen(u64),
    ReadPage,
}

/// Model of what the outside has to do next.
pub enum ToolActionView {
    Send(RequestView),
    Listen(u64),
    ReadPage,
}

impl DeepView for ToolAction {
    type V = ToolActionView;

    open spec fn deep_view(&self) -> ToolActionView {
        match *self {
            ToolAction::Send(request) => ToolActionView::Send(request@),
            ToolAction::Listen(ms) => ToolActionView::Listen(ms),
            ToolAction::ReadPage => ToolActionView::ReadPage,
        }
    }
}

/// What came in.
pub enum ToolInput {
    Reply(Result<Json, String>),
    Event(CdpEvent),
    Page(Result<PageContext, String>),
    TimedOut,
    Closed,
}

/// Model of what came in.
pub enum ToolInputView {
    Reply(Result<JsonView, Chars>),
    Event(CdpEventView),
    Page(Result<PageContextView, Chars>),
    TimedOut,
    Closed,
}

impl DeepView for ToolInput {
    type V = ToolInputView;

    open spec fn deep_view(&self) -> ToolInputView {
        match *self {
            ToolInput::Reply(reply) => ToolInputView::Reply(text::outcome(reply)),
            ToolInput::Event(event) => ToolInputView::Event(event@),
            ToolInput::Page(page) => ToolInputView::Page(text::outcome(page)),
            ToolInput::TimedOut => ToolInputView::TimedOut,
            ToolInput::Closed => ToolInputView::Closed,
        }
    }
}

/// A listing, or a listing that a call follows.
pub struct ToolRun {
    pub page: PageContext,
    pub goal: Option<Invocation>,
    pub stage: ToolStage,
}

/// Model of a listing or a call.
pub struct ToolRunView {
    pub page: PageContextView,
    pub goal: Option<InvocationView>,
    pub stage: ToolStageView,
}

impl DeepView for ToolRun {
    type V = ToolRunView;

    open spec fn deep_view(&self) -> ToolRunView {
        ToolRunView {
            page: self.page.deep_view(),
            goal: self.goal.deep_view(),
            stage: self.stage.deep_view(),
        }
    }
}

/// The answer to a listing.
pub open spec fn list_answer(tools: Seq<JsonView>, page: PageContextView) -> JsonView {
    JsonView::object().with("tools"@, JsonView::Array(tools)).with(
        "count"@,
        JsonView::Uint(tools.len() as u64),
    ).with("page"@, page.to_json())
}

/// An ASCII letter in lower case; other characters stay.
pub open spec fn lower_char(c: char) -> char {
    if 'A' <= c <= 'Z' {
        (c as u32 + 32) as char
    } else {
        c
    }
}

/// A text with its ASCII letters in lower case.
pub open spec fn lower_case(s: Chars) -> Chars {
    s.map_values(|c: char| lower_char(c))
}

/// Status of a response.
pub open spec fn status_of(response: JsonView) -> Chars {
    lower_case(
        match response.get_str("status"@) {
            Some(status) => status,
            None => "Error"@,
        },
    )
}

/// The error of a response.
pub open spec fn error_of(response: JsonView) -> JsonView {
    let message = JsonView::object().with(
        "message"@,
        JsonView::Str(
            match response.get_str("errorText"@) {
                Some(text) => text,
                None => "WebMCP tool invocation failed"@,
            },
        ),
    );
    match response.get("exception"@) {
        Some(exception) => message.with("exception"@, exception),
        None => message,
    }
}

/// The answer to a call.
pub open spec fn call_answer(
    id: Chars,
    tool: JsonView,
    page: PageContextView,
    response: JsonView,
) -> JsonView {
    let plain = JsonView::object().with("invocationId"@, JsonView::Str(id)).with(
        "status"@,
        JsonView::Str(status_of(response)),
    ).with("tool"@, tool).with("trust"@, JsonView::Str("untrusted"@)).with(
        "page"@,
        page.to_json(),
    );
    let with_output = match response.get("output"@) {
        Some(output) => plain.with("output"@, output),
        None => plain,
    };
    if response.has("errorText"@) || response.has("exception"@) {
        with_output.with("error"@, error_of(response))
    } else {
        with_output
    }
}

/// The message of a call that took too long.
pub open spec fn timeout_message(id: Chars, ms: u64) -> Chars {
    CALL_TIMEOUT_PREFIX@ + " WebMCP invocation "@ + id + " did not respond within "@
        + text::decimal(ms as nat) + "ms and was canceled"@
}

/// The message that no more events come.
pub open spec fn closed_message() -> Chars {
    "WebMCP CDP event channel closed"@
}

impl ToolRunView {
    /// A listing of the tools of a page.
    pub open spec fn listing(page: PageContextView) -> ToolRunView {
        ToolRunView { page, goal: None, stage: ToolStageView::Enable }
    }

    /// A call of a tool of a page.
    pub open spec fn calling(
        page: PageContextView,
        tool_name: Chars,
        input: JsonView,
        frame_id: Option<Chars>,
        timeout_ms: Option<u64>,
    ) -> ToolRunView {
        ToolRunView {
            page,
            goal: Some(
                InvocationView {
                    tool_name,
                    input,
                    frame_id,
                    timeout_ms: match timeout_ms {
                        Some(ms) => ms,
                        None => DEFAULT_CALL_TIMEOUT_MS,
                    },
                },
            ),
            stage: ToolStageView::Enable,
        }
    }

    /// The machine in another stage.
    pub open spec fn at(self, stage: ToolStageView) -> ToolRunView {
        ToolRunView { stage, ..self }
    }

    /// What the outside has to do next.
    pub open spec fn action(self) -> ToolActionView {
        let session = self.page.session_id;
        match self.stage {
            ToolStageView::Enable => ToolActionView::Send(
                RequestView::plain("WebMCP.enable"@, session),
            ),
            ToolStageView::Tools => ToolActionView::Listen(LIST_EVENT_TIMEOUT_MS),
            ToolStageView::Page(_, _, _) => ToolActionView::ReadPage,
            ToolStageView::Invoke(goal, _, frame) => ToolActionView::Send(
                RequestView::with_params(
                    "WebMCP.invokeTool"@,
                    JsonView::object().with("frameId"@, JsonView::Str(frame)).with(
                        "toolName"@,
                        JsonView::Str(goal.tool_name),
                    ).with("input"@, goal.input),
                    session,
                ),
            ),
            ToolStageView::Respond(goal, _, _) => ToolActionView::Listen(goal.timeout_ms),
            ToolStageView::Cancel(_, id) => ToolActionView::Send(
                RequestView::with_params(
                    "WebMCP.cancelInvocation"@,
                    JsonView::object().with("invocationId"@, JsonView::Str(id)),
                    session,
                ),
            ),
        }
    }

    /// The tools are known.
    pub open spec fn with_tools(self, tools: Seq<JsonView>) -> StepView<ToolRunView> {
        match self.goal {
            None => StepView::Done(Ok(list_answer(tools, self.page))),
            Some(goal) => match webmcp::tool_named(tools, goal.tool_name, goal.frame_id) {
                Err(e) => StepView::Done(Err(e)),
                Ok(tool) => match tool.get_str("frameId"@) {
                    None => StepView::Done(Err("WebMCP tool is missing its frameId"@)),
                    Some(frame) => StepView::Wait(
                        self.at(ToolStageView::Page(goal, tool, frame)),
                    ),
                },
            },
        }
    }

    /// What the machine comes to with what came in; what it does not wait for
    /// changes nothing.
    pub open spec fn advance(self, input: ToolInputView) -> StepView<ToolRunView> {
        match (self.stage, input) {
            (ToolStageView::Enable, ToolInputView::Reply(reply)) => match reply {
                Err(e) => StepView::Done(Err(webmcp::enable_failure(e))),
                Ok(_) => StepView::Wait(self.at(ToolStageView::Tools)),
            },
            (ToolStageView::Tools, ToolInputView::Event(event)) => if event.method
                == "WebMCP.toolsAdded"@ && webmcp::event_of_session(
                event,
                self.page.session_id,
            ) {
                self.with_tools(webmcp::tools_in(event.params))
            } else {
                StepView::Wait(self)
            },
            (ToolStageView::Tools, ToolInputView::TimedOut) => self.with_tools(Seq::empty()),
            (ToolStageView::Tools, ToolInputView::Closed) => StepView::Done(
                Err(closed_message()),
            ),
            (ToolStageView::Page(goal, tool, frame), ToolInputView::Page(page)) => match page {
                Err(e) => StepView::Done(Err(e)),
                Ok(page) => StepView::Wait(
                    ToolRunView {
                        page,
                        goal: self.goal,
                        stage: ToolStageView::Invoke(goal, tool, frame),
                    },
                ),
            },
            (ToolStageView::Invoke(goal, tool, _), ToolInputView::Reply(reply)) => match reply {
                Err(e) => StepView::Done(Err("WebMCP.invokeTool failed: "@ + e)),
                Ok(result) => match result.get_str("invocationId"@) {
                    None => StepView::Done(Err("WebMCP.invokeTool returned no invocationId"@)),
                    Some(id) => StepView::Wait(
                        self.at(ToolStageView::Respond(goal, tool, id)),
                    ),
                },
            },
            (ToolStageView::Respond(_, tool, id), ToolInputView::Event(event)) => if event.method
                == "WebMCP.toolResponded"@ && webmcp::event_of_session(
                event,
                self.page.session_id,
            ) && event.params.get_str("invocationId"@) == Some(id) {
                StepView::Done(Ok(call_answer(id, tool, self.page, event.params)))
            } else {
                StepView::Wait(self)
            },
            (ToolStageView::Respond(goal, _, id), ToolInputView::TimedOut) => StepView::Wait(
                self.at(ToolStageView::Cancel(goal, id)),
            ),
            (ToolStageView::Respond(_, _, _), ToolInputView::Closed) => StepView::Done(
                Err(closed_message()),
            ),
            (ToolStageView::Cancel(goal, id), ToolInputView::Reply(_)) => StepView::Done(
                Err(timeout_message(id, goal.timeout_ms)),
            ),
            _ => StepView::Wait(self),
        }
    }
}

/// Starts a listing of the tools of a page.
pub fn list(page: PageContext) -> (r: ToolRun)
    ensures
        r.deep_view() == ToolRunView::listing(page.deep_view()),
{
    ToolRun { page, goal: None, stage: ToolStage::Enable }
}

/// Starts a call of a tool of a page.
pub fn call(
    page: PageContext,
    tool_name: &str,
    input: Json,
    frame_id: Option<&str>,
    timeout_ms: Option<u64>,
) -> (r: ToolRun)
    ensures
        r.deep_view() == ToolRunView::calling(
            page.deep_view(),
            tool_name@,
            input@,
            frame_id.deep_view(),
            timeout_ms,
        ),
{
    let goal = Invocation {
        tool_name: tool_name.to_owned(),
        input,
        frame_id: match frame_id {
            Some(id) => Some(id.to_owned()),
            None => None,
        },
        timeout_ms: match timeout_ms {
            Some(ms) => ms,
            None => DEFAULT_CALL_TIMEOUT_MS,
        },
    };
    ToolRun { page, goal: Some(goal), stage: ToolStage::Enable }
}

fn lowered(c: char) -> (r: char)
    ensures
        r == lower_char(c),
{
    match c {
        'A' => 'a',
        'B' => 'b',
        'C' => 'c',
        'D' => 'd',
        'E' => 'e',
        'F' => 'f',
        'G' => 'g',
        'H' => 'h',
        'I' => 'i',
        'J' => 'j',
        'K' => 'k',
        'L' => 'l',
        'M' => 'm',
        'N' => 'n',
        'O' => 'o',
        'P' => 'p',
        'Q' => 'q',
        'R' => 'r',
        'S' => 's',
        'T' => 't',
        'U' => 'u',
        'V' => 'v',
        'W' => 'w',
        'X' => 'x',
        'Y' => 'y',
        'Z' => 'z',
        other => other,
    }
}

/// A text with its ASCII letters in lower case.
pub fn to_lower_case(s: &str) -> (r: String)
    ensures
        r@ == lower_case(s@),
{
    let chars = chars_of(s);
    let mut lower: Vec<char> = Vec::new();
    let mut i: usize = 0;
    while i < chars.len()
        invariant
            chars@ == s@,
            i == lower.len() <= chars.len(),
            forall|j: int| 0 <= j < i ==> lower@[j] == lower_char(s@[j]),
        decreases chars.len() - i,
    {
        lower.push(lowered(chars[i]));
        i = i + 1;
    }
    let r = string_from(&lower, 0, lower.len());
    assert(r@ =~= lower_case(s@));
    r
}

fn answer_call(id: &str, tool: Json, page: &PageContext, response: &Json) -> (r: Json)
    ensures
        r@ == call_answer(id@, tool@, page.deep_view(), response@),
{
    let status = match response.get_str("status") {
        Some(status) => to_lower_case(status),
        None => to_lower_case("Error"),
    };
    let plain = Json::object().with("invocationId", Json::text(id)).with(
        "status",
        Json::Str(status),
    ).with("tool", tool).with("trust", Json::text("untrusted")).with("page", page.to_json());
    let with_output = match response.get("output") {
        Some(output) => plain.with("output", output.clone()),
        None => plain,
    };
    if response.has("errorText") || response.has("exception") {
        let message = Json::object().with(
            "message",
            match response.get_str("errorText") {
                Some(text) => Json::text(text),
                None => Json::text("WebMCP tool invocation failed"),
            },
        );
        let error = match response.get("exception") {
            Some(exception) => message.with("exception", exception.clone()),
            None => message,
        };
        with_output.with("error", error)
    } else {
        with_output
    }
}

impl ToolRun {
    /// What the outside has to do next.
    pub fn action(&self) -> (r: ToolAction)
        ensures
            r.deep_view() == self.deep_view().action(),
    {
        let session_id = self.page.session_id.as_str();
        match &self.stage {
            ToolStage::Enable => ToolAction::Send(Request::plain("WebMCP.enable", session_id)),
            ToolStage::Tools => ToolAction::Listen(LIST_EVENT_TIMEOUT_MS),
            ToolStage::Page(_, _, _) => ToolAction::ReadPage,
            ToolStage::Invoke(goal, _, frame) => ToolAction::Send(
                Request::with_params(
                    "WebMCP.invokeTool",
                    Json::object().with("frameId", Json::text(frame.as_str())).with(
                        "toolName",
                        Json::text(goal.tool_name.as_str()),
                    ).with("input", goal.input.clone()),
                    session_id,
                ),
            ),
            ToolStage::Respond(goal, _, _) => ToolAction::Listen(goal.timeout_ms),
            ToolStage::Cancel(_, id) => ToolAction::Send(
                Request::with_params(
                    "WebMCP.cancelInvocation",
                    Json::object().with("invocationId", Json::text(id.as_str())),
                    session_id,
                ),
            ),
        }
    }

    fn with_tools(page: PageContext, goal: Option<Invocation>, tools: Vec<Json>) -> (r: Step<
        ToolRun,
    >)
        ensures
            r.deep_view() == (ToolRunView {
                page: page.deep_view(),
                goal: goal.deep_view(),
                stage: ToolStageView::Tools,
            }).with_tools(tools.deep_view()),
    {
        match goal {
            None => {
                let count = tools.len() as u64;
                Step::Done(
                    Ok(
                        Json::object().with("tools", Json::array(tools)).with(
                            "count",
                            Json::Uint(count),
                        ).with("page", page.to_json()),
                    ),
                )
            },
            Some(goal) => match resolve_tool(
                &tools,
                goal.tool_name.as_str(),
                optional_str(&goal.frame_id),
            ) {
                Err(e) => Step::Done(Err(e)),
                Ok(tool) => {
                    let frame = match tool.get_str("frameId") {
                        Some(frame) => frame.to_owned(),
                        None => {
                            return Step::Done(
                                Err("WebMCP tool is missing its frameId".to_owned()),
                            );
                        },
                    };
                    let copy = goal.copy();
                    Step::Wait(
                        ToolRun {
                            page,
                            goal: Some(goal),
                            stage: ToolStage::Page(copy, tool, frame),
                        },
                    )
                },
            },
        }
    }

    /// Takes what came in.
    pub fn advance(self, input: ToolInput) -> (r: Step<ToolRun>)
        ensures
            r.deep_view() == self.deep_view().advance(input.deep_view()),
    {
        let ToolRun { page, goal, stage } = self;
        match (stage, input) {
            (ToolStage::Enable, ToolInput::Reply(reply)) => match reply {
                Err(e) => Step::Done(Err(unsupported_enable_error(e.as_str()))),
                Ok(_) => Step::Wait(ToolRun { page, goal, stage: ToolStage::Tools }),
            },
            (ToolStage::Tools, ToolInput::Event(event)) => {
                if str_eq(event.method.as_str(), "WebMCP.toolsAdded") && session_matches(
                    &event,
                    page.session_id.as_str(),
                ) {
                    let tools = read_tools(&event.params);
                    ToolRun::with_tools(page, goal, tools)
                } else {
                    Step::Wait(ToolRun { page, goal, stage: ToolStage::Tools })
                }
            },
            (ToolStage::Tools, ToolInput::TimedOut) => {
                let none: Vec<Json> = Vec::new();
                assert(none.deep_view() =~= Seq::<JsonView>::empty());
                ToolRun::with_tools(page, goal, none)
            },
            (ToolStage::Tools, ToolInput::Closed) => Step::Done(
                Err("WebMCP CDP event channel closed".to_owned()),
            ),
            (ToolStage::Page(call, tool, frame), ToolInput::Page(fresh)) => match fresh {
                Err(e) => Step::Done(Err(e)),
                Ok(page) => Step::Wait(
                    ToolRun { page, goal, stage: ToolStage::Invoke(call, tool, frame) },
                ),
            },
            (ToolStage::Invoke(call, tool, _), ToolInput::Reply(reply)) => match reply {
                Err(e) => Step::Done(
                    Err("WebMCP.invokeTool failed: ".to_owned().concat(e.as_str())),
                ),
                Ok(result) => match result.get_str("invocationId") {
                    None => Step::Done(
                        Err("WebMCP.invokeTool returned no invocationId".to_owned()),
                    ),
                    Some(id) => Step::Wait(
                        ToolRun { page, goal, stage: ToolStage::Respond(call, tool, id.to_owned()) },
                    ),
                },
            },
            (ToolStage::Respond(call, tool, id), ToolInput::Event(event)) => {
                if str_eq(event.method.as_str(), "WebMCP.toolResponded") && session_matches(
                    &event,
                    page.session_id.as_str(),
                ) && same_text(event.params.get_str("invocationId"), Some(id.as_str())) {
                    Step::Done(Ok(answer_call(id.as_str(), tool, &page, &event.params)))
                } else {
                    Step::Wait(ToolRun { page, goal, stage: ToolStage::Respond(call, tool, id) })
                }
            },
            (ToolStage::Respond(call, _, id), ToolInput::TimedOut) => Step::Wait(
                ToolRun { page, goal, stage: ToolStage::Cancel(call, id) },
            ),
            (ToolStage::Respond(_, _, _), ToolInput::Closed) => Step::Done(
                Err("WebMCP CDP event channel closed".to_owned()),
            ),
            (ToolStage::Cancel(call, id), ToolInput::Reply(_)) => Step::Done(
                Err(
                    CALL_TIMEOUT_PREFIX.to_owned().concat(" WebMCP invocation ").concat(
                        id.as_str(),
                    ).concat(" did not respond within ").concat(
                        u64_text(call.timeout_ms).as_str(),
                    ).concat("ms and was canceled"),
                ),
            ),
            (stage, _) => Step::Wait(ToolRun { page, goal, stage }),
        }
    }
}

impl Invocation {
    fn copy(&self) -> (r: Invocation)
        ensures
            r.deep_view() == self.deep_view(),
    {
        Invocation {
            tool_name: self.tool_name.clone(),
            input: self.input.clone(),
            frame_id: crate::collections::copy_optional(&self.frame_id),
            timeout_ms: self.timeout_ms,
        }
    }
}

} // verus!
