//! Tools of a page: what is read of each, which are listed, and how one is called
//! and its answer told.

use vstd::prelude::*;

use crate::json::JsonView;
use crate::laws::inspection;
use crate::lifecycle;
use crate::operation::StepView;
use crate::records::CdpEventView;
use crate::text;
use crate::text::Chars;
use crate::tool_call;
use crate::tool_call::{InvocationView, ToolActionView, ToolInputView, ToolRunView, ToolStageView};
use crate::webmcp;
use crate::webmcp::PageContextView;

verus! {

/// A tool is listed with its description, its schema, its frame and where it
/// comes from: one that stands for a node of the document is declared, any other
/// is made by a script. Annotations and node are passed on where they are given.
pub proof fn law_tools_are_told_as_registered(tool: JsonView, name: Chars, frame: Chars)
    requires
        tool.get("name"@) == Some(JsonView::Str(name)),
        tool.get("frameId"@) == Some(JsonView::Str(frame)),
    ensures
        match webmcp::tool_of(tool) {
            Some(told) => {
                &&& told.get("name"@) == Some(JsonView::Str(name))
                &&& told.get("frameId"@) == Some(JsonView::Str(frame))
                &&& told.get("description"@) == Some(
                    match tool.get("description"@) {
                        Some(JsonView::Str(words)) => JsonView::Str(words),
                        _ => JsonView::Str(Seq::empty()),
                    },
                )
                &&& match tool.get("inputSchema"@) {
                    Some(schema) => told.get("inputSchema"@) == Some(schema),
                    None => told.get("inputSchema"@) is Some && told.get(
                        "inputSchema"@,
                    )->Some_0.get("type"@) == Some(JsonView::Str("object"@)),
                }
                &&& told.get("source"@) == Some(
                    JsonView::Str(
                        if tool.get("backendNodeId"@) is Some {
                            "declarative"@
                        } else {
                            "imperative"@
                        },
                    ),
                )
                &&& told.get("annotations"@) == tool.get("annotations"@)
                &&& told.get("backendNodeId"@) == tool.get("backendNodeId"@)
            },
            None => false,
        },
{
    reveal_strlit("name");
    reveal_strlit("description");
    reveal_strlit("inputSchema");
    reveal_strlit("frameId");
    reveal_strlit("source");
    reveal_strlit("annotations");
    reveal_strlit("backendNodeId");
    reveal_strlit("type");
    assert("name"@.len() == 4);
    assert("description"@.len() == 11);
    assert("inputSchema"@.len() == 11);
    assert("frameId"@.len() == 7);
    assert("source"@.len() == 6);
    assert("annotations"@.len() == 11);
    assert("backendNodeId"@.len() == 13);
    assert("type"@.len() == 4);
    assert("annotations"@[0] == 'a');
    assert("description"@[0] == 'd');
    assert("inputSchema"@[0] == 'i');
    assert("name"@[0] == 'n');
    assert("type"@[0] == 't');
}

/// What comes through a filtering map.
proof fn lemma_filter_map_holds<A, B>(list: Seq<A>, f: spec_fn(A) -> Option<B>, x: B)
    ensures
        list.filter_map(f).contains(x) <==> exists|i: int|
            0 <= i < list.len() && f(#[trigger] list[i]) == Some(x),
    decreases list.len(),
{
    reveal_with_fuel(Seq::filter_map, 2);
    if list.len() > 0 {
        let rest = list.drop_last();
        lemma_filter_map_holds(rest, f, x);
        let part = rest.filter_map(f);
        let whole = list.filter_map(f);
        if whole.contains(x) {
            let k = choose|k: int| 0 <= k < whole.len() && whole[k] == x;
            if k < part.len() {
                assert(part[k] == x);
                assert(part.contains(x));
                let i = choose|i: int| 0 <= i < rest.len() && f(#[trigger] rest[i]) == Some(x);
                assert(f(list[i]) == Some(x));
            } else {
                assert(f(list[list.len() - 1]) == Some(x));
            }
        }
        if exists|i: int| 0 <= i < list.len() && f(#[trigger] list[i]) == Some(x) {
            let i = choose|i: int| 0 <= i < list.len() && f(#[trigger] list[i]) == Some(x);
            if i < rest.len() {
                assert(f(rest[i]) == Some(x));
                assert(part.contains(x));
                let k = choose|k: int| 0 <= k < part.len() && part[k] == x;
                assert(whole[k] == x);
            } else {
                assert(whole[part.len() as int] == x);
            }
        }
    }
}

/// Every registered tool that has a name and a frame is listed, and nothing else.
pub proof fn law_every_registered_tool_is_listed(
    params: JsonView,
    tools: Seq<JsonView>,
    told: JsonView,
)
    requires
        params.get("tools"@) == Some(JsonView::Array(tools)),
    ensures
        webmcp::tools_in(params).contains(told) <==> exists|i: int|
            0 <= i < tools.len() && webmcp::tool_of(#[trigger] tools[i]) == Some(told),
{
    let f = |t: JsonView| webmcp::tool_of(t);
    let found = tools.filter_map(f);
    lemma_filter_map_holds(tools, f, told);
    let names = webmcp::texts_at(found, "name"@);
    let by_name = text::sorted_by(found, names);
    inspection::lemma_sorted_holds(found, names, told);
    inspection::lemma_sorted_holds(by_name, webmcp::texts_at(by_name, "frameId"@), told);
    if found.contains(told) {
        let i = choose|i: int| 0 <= i < tools.len() && f(#[trigger] tools[i]) == Some(told);
        assert(webmcp::tool_of(tools[i]) == Some(told));
    }
    if exists|i: int| 0 <= i < tools.len() && webmcp::tool_of(#[trigger] tools[i]) == Some(told) {
        let i = choose|i: int|
            0 <= i < tools.len() && webmcp::tool_of(#[trigger] tools[i]) == Some(told);
        assert(f(tools[i]) == Some(told));
    }
}

/// A page that registers no tools has none listed.
pub proof fn law_pages_without_tools_list_none(params: JsonView)
    requires
        !(params.get("tools"@) matches Some(JsonView::Array(_))),
    ensures
        webmcp::tools_in(params).len() == 0,
{
    reveal(Seq::filter_map);
    let none = Seq::<JsonView>::empty();
    assert(none.filter_map(|t: JsonView| webmcp::tool_of(t)) == none);
    inspection::lemma_sorted_holds(none, webmcp::texts_at(none, "name"@), JsonView::Null);
    let by_name = text::sorted_by(none, webmcp::texts_at(none, "name"@));
    inspection::lemma_sorted_holds(
        by_name,
        webmcp::texts_at(by_name, "frameId"@),
        JsonView::Null,
    );
}

/// A tool is meant by its name, and by its frame where one is given; what is
/// missing or ambiguous is refused under its own code, with its name.
pub proof fn law_tools_are_meant_by_name_and_frame(
    tools: Seq<JsonView>,
    tool: JsonView,
    name: Chars,
    frame: Option<Chars>,
)
    ensures
        webmcp::is_tool(tool, name, frame) <==> tool.get("name"@) == Some(JsonView::Str(name))
            && (frame matches Some(id) ==> tool.get("frameId"@) == Some(JsonView::Str(id))),
        webmcp::tool_named(tools, name, frame) matches Err(message) ==> {
            let found = tools.filter(|t: JsonView| webmcp::is_tool(t, name, frame));
            &&& found.len() != 1
            &&& found.len() == 0 ==> message == "webmcp_tool_not_found:"@
                + " No WebMCP tool named '"@ + name + "'"@ + (match frame {
                Some(id) => " in frame "@ + id,
                None => Seq::empty(),
            }) + " is registered on the active page"@
            &&& found.len() > 1 ==> message == "webmcp_tool_ambiguous:"@ + " WebMCP tool '"@ + name
                + "' is registered in multiple frames ("@ + text::joined(
                found.filter_map(|t: JsonView| t.get_str("frameId"@)),
                ", "@,
            ) + "). Retry with --frame-id <id>"@
        },
{
}

/// Events belong to the session that they carry; one without a session belongs
/// to the browser itself.
pub proof fn law_events_belong_to_their_session(event: CdpEventView, session: Chars, other: Chars)
    requires
        session != other,
        session.len() > 0,
    ensures
        event.session_id == Some(session) ==> webmcp::event_of_session(event, session)
            && !webmcp::event_of_session(event, other),
        event.session_id is None ==> !webmcp::event_of_session(event, session)
            && webmcp::event_of_session(event, Seq::empty()),
{
}

/// Failures of the tool commands are told apart by their beginning; any other is
/// a failed command. The text of a refusal begins as its code says.
pub proof fn law_failures_are_told_apart(rest: Chars, message: Chars, error: Chars)
    ensures
        webmcp::code_of("webmcp_unsupported:"@ + rest) == "webmcp_unsupported"@,
        webmcp::code_of("webmcp_tool_not_found:"@ + rest) == "webmcp_tool_not_found"@,
        webmcp::code_of("webmcp_tool_ambiguous:"@ + rest) == "webmcp_tool_ambiguous"@,
        webmcp::code_of("webmcp_call_timeout:"@ + rest) == "webmcp_call_timeout"@,
        message.len() == 0 || message[0] != 'w' ==> webmcp::code_of(message)
            == "webmcp_command_failed"@,
        webmcp::unsupported_message(message) == "webmcp_unsupported:"@ + " "@ + message,
        webmcp::enable_failure(error) == "webmcp_unsupported:"@ + " "@ + (
        "Chrome does not expose the WebMCP CDP domain. Launch Chrome with WebMCP enabled and retry: "@
            + error),
{
    reveal_strlit("webmcp_unsupported:");
    reveal_strlit("webmcp_tool_not_found:");
    reveal_strlit("webmcp_tool_ambiguous:");
    reveal_strlit("webmcp_call_timeout:");
    let a = "webmcp_unsupported:"@;
    let b = "webmcp_tool_not_found:"@;
    let c = "webmcp_tool_ambiguous:"@;
    let d = "webmcp_call_timeout:"@;
    assert(a.len() == 19 && b.len() == 22 && c.len() == 22 && d.len() == 20);
    assert(a[7] == 'u' && b[7] == 't' && c[7] == 't' && d[7] == 'c');
    assert(b[12] == 'n' && c[12] == 'a');
    assert(a[0] == 'w' && b[0] == 'w' && c[0] == 'w' && d[0] == 'w');
    assert((a + rest).subrange(0, a.len() as int) =~= a);
    assert((b + rest).subrange(0, b.len() as int) =~= b);
    assert((c + rest).subrange(0, c.len() as int) =~= c);
    assert((d + rest).subrange(0, d.len() as int) =~= d);
    lemma_other_beginning(a, b + rest, 7);
    lemma_other_beginning(a, c + rest, 7);
    lemma_other_beginning(b, c + rest, 12);
    lemma_other_beginning(a, d + rest, 7);
    lemma_other_beginning(b, d + rest, 7);
    lemma_other_beginning(c, d + rest, 7);
    if message.len() == 0 || message[0] != 'w' {
        if message.len() > 0 {
            lemma_other_beginning(a, message, 0);
            lemma_other_beginning(b, message, 0);
            lemma_other_beginning(c, message, 0);
            lemma_other_beginning(d, message, 0);
        }
    }
}

/// What differs from a text does not begin with it.
proof fn lemma_other_beginning(head: Chars, whole: Chars, i: int)
    requires
        0 <= i < head.len(),
        i < whole.len(),
        head[i] != whole[i],
    ensures
        !head.is_prefix_of(whole),
{
    if head.is_prefix_of(whole) {
        assert(whole.subrange(0, head.len() as int)[i] == head[i]);
    }
}

/// Answers carry their version, and keep what they held.
pub proof fn law_answers_carry_the_first_version(value: JsonView, key: Chars)
    ensures
        webmcp::versioned(value).get("apiVersion"@) == Some(JsonView::Uint(1)),
        value is Object && key != "apiVersion"@ ==> webmcp::versioned(value).get(key) == value.get(
            key,
        ),
        !(value is Object) ==> webmcp::versioned(value).get("value"@) == Some(value),
{
    reveal_strlit("apiVersion");
    reveal_strlit("value");
    assert("apiVersion"@.len() == 10);
    assert("value"@.len() == 5);
}

/// The page of a command is the active one, told with its own address; without
/// an active page, or with one that is not known, the command fails.
pub proof fn law_commands_run_on_the_active_page(
    session: Chars,
    target: Chars,
    active: Option<u32>,
    pages: Seq<(u32, Chars)>,
    error: Chars,
    other: Result<Chars, Chars>,
)
    ensures
        webmcp::context_of(Err(error), other, active, pages) == Err::<PageContextView, Chars>(error),
        webmcp::context_of(Ok(session), Err(error), active, pages) == Err::<PageContextView, Chars>(
            error,
        ),
        match webmcp::context_of(Ok(session), Ok(target), active, pages) {
            Ok(page) => {
                &&& active is Some
                &&& page.session_id == session
                &&& page.target_id == target
                &&& page.tab_id == lifecycle::tab_name(active->Some_0)
                &&& holds_page(pages, active->Some_0, page.url)
                &&& page.to_json().get("tabId"@) == Some(JsonView::Str(page.tab_id))
                &&& page.to_json().get("targetId"@) == Some(JsonView::Str(target))
                &&& page.to_json().get("url"@) == Some(JsonView::Str(page.url))
            },
            Err(message) => {
                &&& message == "No active page"@
                &&& active matches Some(tab) ==> forall|url: Chars|
                    !(#[trigger] holds_page(pages, tab, url))
            },
        },
{
    reveal_strlit("tabId");
    reveal_strlit("targetId");
    reveal_strlit("url");
    assert("tabId"@.len() == 5);
    assert("targetId"@.len() == 8);
    assert("url"@.len() == 3);
    if let Some(tab) = active {
        lemma_page_url(pages, tab);
    }
}

/// Whether a page is among those that are known, with its address.
pub open spec fn holds_page(pages: Seq<(u32, Chars)>, tab: u32, url: Chars) -> bool {
    exists|i: int| 0 <= i < pages.len() && #[trigger] pages[i] == (tab, url)
}

proof fn lemma_page_url(pages: Seq<(u32, Chars)>, tab: u32)
    ensures
        match webmcp::page_url(pages, tab) {
            Some(url) => holds_page(pages, tab, url),
            None => forall|url: Chars| !(#[trigger] holds_page(pages, tab, url)),
        },
    decreases pages.len(),
{
    if pages.len() > 0 {
        let rest = pages.drop_last();
        lemma_page_url(rest, tab);
        match webmcp::page_url(rest, tab) {
            Some(url) => {
                let i = choose|i: int| 0 <= i < rest.len() && #[trigger] rest[i] == (tab, url);
                assert(pages[i] == (tab, url));
            },
            None => {
                if pages.last().0 == tab {
                    assert(pages[pages.len() - 1] == (tab, pages.last().1));
                }
                assert forall|url: Chars| #[trigger]
                    holds_page(pages, tab, url) implies pages.last().0 == tab by {
                    let i = choose|i: int|
                        0 <= i < pages.len() && #[trigger] pages[i] == (tab, url);
                    if i < rest.len() {
                        assert(rest[i] == (tab, url));
                        assert(holds_page(rest, tab, url));
                    }
                }
            },
        }
    }
}

/// A listing and a call both enable the tools of the page and wait for them, for
/// a second at most. A call waits for its answer as long as it is told, or half
/// a minute.
pub proof fn law_runs_begin_with_the_tools(
    page: PageContextView,
    name: Chars,
    input: JsonView,
    frame: Option<Chars>,
    timeout: Option<u64>,
    run: ToolRunView,
    reply: JsonView,
    error: Chars,
)
    requires
        run == ToolRunView::listing(page) || run == ToolRunView::calling(
            page,
            name,
            input,
            frame,
            timeout,
        ),
    ensures
        run.page == page,
        match run.action() {
            ToolActionView::Send(request) => request.method == "WebMCP.enable"@ && request.params
                is None && request.session_id == page.session_id,
            _ => false,
        },
        run.advance(ToolInputView::Reply(Err(error))) == StepView::<ToolRunView>::Done(
            Err(webmcp::enable_failure(error)),
        ),
        match run.advance(ToolInputView::Reply(Ok(reply))) {
            StepView::Wait(next) => {
                &&& next.page == run.page
                &&& next.goal == run.goal
                &&& next.stage is Tools
                &&& next.action() == ToolActionView::Listen(1_000)
            },
            StepView::Done(_) => false,
        },
        ToolRunView::listing(page).goal is None,
        match ToolRunView::calling(page, name, input, frame, timeout).goal {
            Some(goal) => {
                &&& goal.tool_name == name
                &&& goal.input == input
                &&& goal.frame_id == frame
                &&& goal.timeout_ms == (match timeout {
                    Some(ms) => ms,
                    None => 30_000,
                })
            },
            None => false,
        },
{
}

/// The tools of a page are those of the first event that brings them; none, if
/// none comes in time. A closed channel ends the run.
pub proof fn law_tools_come_with_their_event(run: ToolRunView, event: CdpEventView)
    requires
        run.stage is Tools,
    ensures
        run.advance(ToolInputView::Event(event)) == (if event.method == "WebMCP.toolsAdded"@
            && webmcp::event_of_session(event, run.page.session_id) {
            run.with_tools(webmcp::tools_in(event.params))
        } else {
            StepView::Wait(run)
        }),
        run.advance(ToolInputView::TimedOut) == run.with_tools(Seq::empty()),
        run.advance(ToolInputView::Closed) == StepView::<ToolRunView>::Done(
            Err("WebMCP CDP event channel closed"@),
        ),
{
}

/// A listing answers with the tools, their number and the page.
pub proof fn law_listings_tell_every_tool(run: ToolRunView, tools: Seq<JsonView>)
    requires
        run.goal is None,
        tools.len() <= u64::MAX,
    ensures
        match run.with_tools(tools) {
            StepView::Done(Ok(answer)) => {
                &&& answer.get("tools"@) == Some(JsonView::Array(tools))
                &&& answer.get("count"@) == Some(JsonView::Uint(tools.len() as u64))
                &&& answer.get("page"@) == Some(run.page.to_json())
            },
            _ => false,
        },
{
    reveal_strlit("tools");
    reveal_strlit("count");
    reveal_strlit("page");
    assert("tools"@.len() == 5);
    assert("count"@.len() == 5);
    assert("page"@.len() == 4);
    assert("count"@[0] == 'c');
    assert("tools"@[0] == 't');
}

/// A call reads the page again and then invokes the tool that is meant: in its
/// own frame, under its own name, with the input of the call, on the page as it
/// is by then.
pub proof fn law_the_tool_that_is_meant_is_invoked(
    run: ToolRunView,
    goal: InvocationView,
    tools: Seq<JsonView>,
    tool: JsonView,
    frame: Chars,
    page: PageContextView,
    error: Chars,
)
    requires
        run.goal == Some(goal),
        tool.get("frameId"@) == Some(JsonView::Str(frame)),
    ensures
        webmcp::tool_named(tools, goal.tool_name, goal.frame_id) == Err::<JsonView, Chars>(error)
            ==> run.with_tools(tools) == StepView::<ToolRunView>::Done(Err(error)),
        webmcp::tool_named(tools, goal.tool_name, goal.frame_id) == Ok::<JsonView, Chars>(tool)
            ==> match run.with_tools(tools) {
            StepView::Wait(next) => {
                &&& next.action() is ReadPage
                &&& next.advance(ToolInputView::Page(Err(error)))
                    == StepView::<ToolRunView>::Done(Err(error))
                &&& match next.advance(ToolInputView::Page(Ok(page))) {
                    StepView::Wait(last) => {
                        &&& last.page == page
                        &&& last.stage == ToolStageView::Invoke(goal, tool, frame)
                        &&& match last.action() {
                            ToolActionView::Send(request) => {
                                &&& request.method == "WebMCP.invokeTool"@
                                &&& request.session_id == page.session_id
                                &&& request.params is Some
                                &&& request.params->Some_0.get("frameId"@) == Some(
                                    JsonView::Str(frame),
                                )
                                &&& request.params->Some_0.get("toolName"@) == Some(
                                    JsonView::Str(goal.tool_name),
                                )
                                &&& request.params->Some_0.get("input"@) == Some(goal.input)
                            },
                            _ => false,
                        }
                    },
                    StepView::Done(_) => false,
                }
            },
            StepView::Done(_) => false,
        },
{
    reveal_strlit("frameId");
    reveal_strlit("toolName");
    reveal_strlit("input");
    assert("frameId"@.len() == 7);
    assert("toolName"@.len() == 8);
    assert("input"@.len() == 5);
}

/// A tool without a frame cannot be called.
pub proof fn law_tools_need_a_frame(
    run: ToolRunView,
    goal: InvocationView,
    tools: Seq<JsonView>,
    tool: JsonView,
)
    requires
        run.goal == Some(goal),
        webmcp::tool_named(tools, goal.tool_name, goal.frame_id) == Ok::<JsonView, Chars>(tool),
        !(tool.get("frameId"@) matches Some(JsonView::Str(_))),
    ensures
        run.with_tools(tools) == StepView::<ToolRunView>::Done(
            Err("WebMCP tool is missing its frameId"@),
        ),
{
}

/// A call waits for the answer to its own invocation, for as long as it may
/// take, and answers with it. What the browser refuses is told.
pub proof fn law_calls_wait_for_their_own_answer(
    run: ToolRunView,
    goal: InvocationView,
    tool: JsonView,
    frame: Chars,
    result: JsonView,
    id: Chars,
    event: CdpEventView,
    error: Chars,
)
    requires
        run.stage == ToolStageView::Invoke(goal, tool, frame),
        result.get("invocationId"@) == Some(JsonView::Str(id)),
    ensures
        run.advance(ToolInputView::Reply(Err(error))) == StepView::<ToolRunView>::Done(
            Err("WebMCP.invokeTool failed: "@ + error),
        ),
        match run.advance(ToolInputView::Reply(Ok(result))) {
            StepView::Wait(next) => {
                &&& next.page == run.page
                &&& next.stage == ToolStageView::Respond(goal, tool, id)
                &&& next.action() == ToolActionView::Listen(goal.timeout_ms)
                &&& next.advance(ToolInputView::Event(event)) == (if event.method
                    == "WebMCP.toolResponded"@ && webmcp::event_of_session(
                    event,
                    run.page.session_id,
                ) && event.params.get("invocationId"@) == Some(JsonView::Str(id)) {
                    StepView::Done(Ok(tool_call::call_answer(id, tool, run.page, event.params)))
                } else {
                    StepView::Wait(next)
                })
                &&& next.advance(ToolInputView::Closed) == StepView::<ToolRunView>::Done(
                    Err("WebMCP CDP event channel closed"@),
                )
            },
            StepView::Done(_) => false,
        },
{
}

/// An invocation without an identifier cannot be waited for.
pub proof fn law_invocations_need_an_identifier(
    run: ToolRunView,
    goal: InvocationView,
    tool: JsonView,
    frame: Chars,
    result: JsonView,
)
    requires
        run.stage == ToolStageView::Invoke(goal, tool, frame),
        !(result.get("invocationId"@) matches Some(JsonView::Str(_))),
    ensures
        run.advance(ToolInputView::Reply(Ok(result))) == StepView::<ToolRunView>::Done(
            Err("WebMCP.invokeTool returned no invocationId"@),
        ),
{
}

/// The answer of a call names the invocation, the tool and the page, and says
/// that what the page returned is not to be trusted. It holds the output, the
/// status in small letters, and an error exactly where the page told one.
pub proof fn law_answers_of_calls_tell_what_came(
    id: Chars,
    tool: JsonView,
    page: PageContextView,
    response: JsonView,
)
    ensures
        ({
            let answer = tool_call::call_answer(id, tool, page, response);
            let failed = response.get("errorText"@) is Some || response.get("exception"@) is Some;
            &&& answer.get("invocationId"@) == Some(JsonView::Str(id))
            &&& answer.get("tool"@) == Some(tool)
            &&& answer.get("trust"@) == Some(JsonView::Str("untrusted"@))
            &&& answer.get("page"@) == Some(page.to_json())
            &&& answer.get("output"@) == response.get("output"@)
            &&& match (response.get("status"@), answer.get("status"@)) {
                (Some(JsonView::Str(status)), Some(JsonView::Str(told))) => in_small_letters(
                    status,
                    told,
                ),
                (_, Some(JsonView::Str(told))) => told == "error"@,
                _ => false,
            }
            &&& answer.get("error"@) is Some <==> failed
            &&& failed ==> {
                let error = answer.get("error"@)->Some_0;
                &&& error.get("message"@) == Some(
                    match response.get("errorText"@) {
                        Some(JsonView::Str(words)) => JsonView::Str(words),
                        _ => JsonView::Str("WebMCP tool invocation failed"@),
                    },
                )
                &&& error.get("exception"@) == response.get("exception"@)
            }
        }),
{
    reveal_strlit("invocationId");
    reveal_strlit("status");
    reveal_strlit("tool");
    reveal_strlit("trust");
    reveal_strlit("page");
    reveal_strlit("output");
    reveal_strlit("error");
    reveal_strlit("message");
    reveal_strlit("exception");
    assert("invocationId"@.len() == 12);
    assert("status"@.len() == 6);
    assert("tool"@.len() == 4);
    assert("trust"@.len() == 5);
    assert("page"@.len() == 4);
    assert("output"@.len() == 6);
    assert("error"@.len() == 5);
    assert("message"@.len() == 7);
    assert("exception"@.len() == 9);
    assert("error"@[0] == 'e');
    assert("output"@[0] == 'o');
    assert("page"@[0] == 'p');
    assert("status"@[0] == 's');
    assert("tool"@[0] == 't');
    assert("trust"@[0] == 't');
    reveal_strlit("Error");
    reveal_strlit("error");
    assert(tool_call::lower_case("Error"@) =~= "error"@);
}

/// Whether a text is another one in small letters.
pub open spec fn in_small_letters(given: Chars, told: Chars) -> bool {
    &&& told.len() == given.len()
    &&& forall|i: int|
        0 <= i < given.len() ==> (if 'A' <= #[trigger] given[i] <= 'Z' {
            told[i] as u32 == given[i] as u32 + 32
        } else {
            told[i] == given[i]
        })
}

/// A call that took too long says for how long it was waited for.
pub proof fn law_late_calls_say_how_late(id: Chars, ms: u64)
    ensures
        tool_call::timeout_message(id, ms) == "webmcp_call_timeout:"@ + " WebMCP invocation "@ + id
            + " did not respond within "@ + text::decimal(ms as nat) + "ms and was canceled"@,
{
}

} // verus!
