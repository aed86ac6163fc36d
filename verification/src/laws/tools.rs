//! Tools of a page: how they are listed, called and how failures are told.

use vstd::prelude::*;

use crate::json::JsonView;
use crate::laws::order;
use crate::laws::tables;
use crate::operation::StepView;
use crate::records::CdpEventView;
use crate::text;
use crate::text::Chars;
use crate::tool_call;
use crate::tool_call::{ToolActionView, ToolInputView, ToolRunView, ToolStageView};
use crate::webmcp;

verus! {

proof fn lemma_prefix(head: Chars, rest: Chars)
    ensures
        head.is_prefix_of(head + rest),
{
    assert((head + rest).subrange(0, head.len() as int) =~= head);
}

proof fn lemma_other_prefix(a: Chars, b: Chars, message: Chars, i: int)
    requires
        a.is_prefix_of(message),
        0 <= i < a.len(),
        i < b.len(),
        a[i] != b[i],
    ensures
        !b.is_prefix_of(message),
{
    assert(a == message.subrange(0, a.len() as int));
    assert(message[i] == a[i]);
    if b.is_prefix_of(message) {
        assert(b == message.subrange(0, b.len() as int));
        assert(message[i] == b[i]);
    }
}

/// Every kind of failure has a code of its own, by the start of its message:
/// a browser without tools, a tool that is not there, one that is there more
/// than once, and a call that took too long.
pub proof fn law_failures_have_stable_codes(message: Chars)
    ensures
        webmcp::UNSUPPORTED_PREFIX@.is_prefix_of(message) ==> webmcp::code_of(message)
            == "webmcp_unsupported"@,
        webmcp::TOOL_NOT_FOUND_PREFIX@.is_prefix_of(message) ==> webmcp::code_of(message)
            == "webmcp_tool_not_found"@,
        webmcp::TOOL_AMBIGUOUS_PREFIX@.is_prefix_of(message) ==> webmcp::code_of(message)
            == "webmcp_tool_ambiguous"@,
        webmcp::CALL_TIMEOUT_PREFIX@.is_prefix_of(message) ==> webmcp::code_of(message)
            == "webmcp_call_timeout"@,
{
    reveal_strlit("webmcp_unsupported:");
    reveal_strlit("webmcp_tool_not_found:");
    reveal_strlit("webmcp_tool_ambiguous:");
    reveal_strlit("webmcp_call_timeout:");
    let a = webmcp::UNSUPPORTED_PREFIX@;
    let b = webmcp::TOOL_NOT_FOUND_PREFIX@;
    let c = webmcp::TOOL_AMBIGUOUS_PREFIX@;
    let d = webmcp::CALL_TIMEOUT_PREFIX@;
    assert(a[7] == 'u' && b[7] == 't' && c[7] == 't' && d[7] == 'c');
    assert(b[12] == 'n' && c[12] == 'a');
    if b.is_prefix_of(message) {
        lemma_other_prefix(b, a, message, 7);
    }
    if c.is_prefix_of(message) {
        lemma_other_prefix(c, a, message, 7);
        lemma_other_prefix(c, b, message, 12);
    }
    if d.is_prefix_of(message) {
        lemma_other_prefix(d, a, message, 7);
        lemma_other_prefix(d, b, message, 7);
        lemma_other_prefix(d, c, message, 7);
    }
}

/// The messages of this module carry the codes of their kinds.
pub proof fn law_messages_carry_their_codes(
    message: Chars,
    tools: Seq<JsonView>,
    name: Chars,
    frame: Option<Chars>,
    id: Chars,
    ms: u64,
)
    ensures
        webmcp::code_of(webmcp::unsupported_message(message)) == "webmcp_unsupported"@,
        webmcp::code_of(webmcp::enable_failure(message)) == "webmcp_unsupported"@,
        webmcp::code_of(tool_call::timeout_message(id, ms)) == "webmcp_call_timeout"@,
        match webmcp::tool_named(tools, name, frame) {
            Ok(_) => true,
            Err(e) => webmcp::code_of(e) == "webmcp_tool_not_found"@ || webmcp::code_of(e)
                == "webmcp_tool_ambiguous"@,
        },
{
    let first = webmcp::unsupported_message(message);
    let text = "Chrome does not expose the WebMCP CDP domain. Launch Chrome with WebMCP enabled and retry: "@
        + message;
    assert(first =~= webmcp::UNSUPPORTED_PREFIX@ + (" "@ + message));
    lemma_prefix(webmcp::UNSUPPORTED_PREFIX@, " "@ + message);
    law_failures_have_stable_codes(first);
    assert(webmcp::enable_failure(message) =~= webmcp::UNSUPPORTED_PREFIX@ + (" "@ + text));
    lemma_prefix(webmcp::UNSUPPORTED_PREFIX@, " "@ + text);
    law_failures_have_stable_codes(webmcp::enable_failure(message));
    let late = tool_call::timeout_message(id, ms);
    let rest = " WebMCP invocation "@ + id + " did not respond within "@ + text::decimal(
        ms as nat,
    ) + "ms and was canceled"@;
    assert(late =~= webmcp::CALL_TIMEOUT_PREFIX@ + rest);
    lemma_prefix(webmcp::CALL_TIMEOUT_PREFIX@, rest);
    law_failures_have_stable_codes(late);
    if let Err(e) = webmcp::tool_named(tools, name, frame) {
        let found = tools.filter(|t: JsonView| webmcp::is_tool(t, name, frame));
        law_failures_have_stable_codes(e);
        if found.len() == 0 {
            let tail = " No WebMCP tool named '"@ + name + "'"@ + (match frame {
                Some(id) => " in frame "@ + id,
                None => Seq::empty(),
            }) + " is registered on the active page"@;
            assert(e =~= webmcp::TOOL_NOT_FOUND_PREFIX@ + tail);
            lemma_prefix(webmcp::TOOL_NOT_FOUND_PREFIX@, tail);
        } else {
            let tail = " WebMCP tool '"@ + name + "' is registered in multiple frames ("@
                + text::joined(found.filter_map(|t: JsonView| t.get_str("frameId"@)), ", "@)
                + "). Retry with --frame-id <id>"@;
            assert(e =~= webmcp::TOOL_AMBIGUOUS_PREFIX@ + tail);
            lemma_prefix(webmcp::TOOL_AMBIGUOUS_PREFIX@, tail);
        }
    }
}

/// Every response carries its version, and what it held before.
pub proof fn law_responses_carry_their_version(value: JsonView, key: Chars)
    requires
        key != "apiVersion"@,
    ensures
        webmcp::versioned(value).get_u64("apiVersion"@) == Some(webmcp::API_VERSION),
        value is Object ==> webmcp::versioned(value).get(key) == value.get(key),
        !(value is Object) ==> webmcp::versioned(value).get("value"@) == Some(value),
{
    reveal_strlit("apiVersion");
    reveal_strlit("value");
    assert("apiVersion"@.len() == 10);
    assert("value"@.len() == 5);
}

/// Tools are listed by frame, and those of a frame by name; each is listed
/// exactly as it was.
pub proof fn law_tools_are_listed_in_order(tools: Seq<JsonView>)
    ensures
        ({
            let sorted = webmcp::sorted_tools(tools);
            &&& sorted.len() == tools.len()
            &&& forall|i: int, j: int|
                0 <= i < j < sorted.len() ==> !text::text_lt(
                    webmcp::text_or_empty(#[trigger] sorted[j], "frameId"@),
                    webmcp::text_or_empty(#[trigger] sorted[i], "frameId"@),
                )
            &&& forall|i: int, j: int|
                0 <= i < j < sorted.len() && webmcp::text_or_empty(
                    #[trigger] sorted[i],
                    "frameId"@,
                ) == webmcp::text_or_empty(#[trigger] sorted[j], "frameId"@) ==> !text::text_lt(
                    webmcp::text_or_empty(sorted[j], "name"@),
                    webmcp::text_or_empty(sorted[i], "name"@),
                )
            &&& forall|i: int| 0 <= i < sorted.len() ==> tools.contains(#[trigger] sorted[i])
            &&& forall|i: int| 0 <= i < tools.len() ==> sorted.contains(#[trigger] tools[i])
        }),
{
    let names = webmcp::texts_at(tools, "name"@);
    let by_name = text::sorted_by(tools, names);
    let frames = webmcp::texts_at(by_name, "frameId"@);
    let sorted = webmcp::sorted_tools(tools);
    let name_of = |v: JsonView| webmcp::text_or_empty(v, "name"@);
    let frame_of = |v: JsonView| webmcp::text_or_empty(v, "frameId"@);
    order::law_sorted_ascends(tools, names, name_of);
    order::law_sorted_ascends(by_name, frames, frame_of);
    let order = text::stable_order(frames);
    order::law_sort_is_a_stable_rearrangement(frames);
    text::lemma_stable_order_range(frames);
    assert forall|i: int, j: int| 0 <= i < j < sorted.len() implies !text::text_lt(
        webmcp::text_or_empty(#[trigger] sorted[j], "frameId"@),
        webmcp::text_or_empty(#[trigger] sorted[i], "frameId"@),
    ) by {
        assert(!text::text_lt(frame_of(sorted[j]), frame_of(sorted[i])));
    }
    assert forall|i: int, j: int|
        0 <= i < j < sorted.len() && webmcp::text_or_empty(#[trigger] sorted[i], "frameId"@)
            == webmcp::text_or_empty(#[trigger] sorted[j], "frameId"@) implies !text::text_lt(
        webmcp::text_or_empty(sorted[j], "name"@),
        webmcp::text_or_empty(sorted[i], "name"@),
    ) by {
        assert(order::precedes(frames, order[i], order[j]));
        assert(sorted[i] == by_name[order[i]] && sorted[j] == by_name[order[j]]);
        order::law_text_order_is_total(frames[order[i]], frames[order[i]]);
        assert(order[i] < order[j]);
        assert(!text::text_lt(name_of(by_name[order[j]]), name_of(by_name[order[i]])));
    }
    assert forall|i: int| 0 <= i < sorted.len() implies tools.contains(#[trigger] sorted[i]) by {
        assert(by_name.contains(sorted[i]));
        let k = by_name.index_of(sorted[i]);
        assert(tools.contains(by_name[k]));
    }
    assert forall|i: int| 0 <= i < tools.len() implies sorted.contains(#[trigger] tools[i]) by {
        assert(by_name.contains(tools[i]));
        let k = by_name.index_of(tools[i]);
        assert(sorted.contains(by_name[k]));
    }
}

/// Positions of tools in the order in which they are listed.
pub open spec fn tool_order(tools: Seq<JsonView>) -> Seq<int> {
    let names = webmcp::texts_at(tools, "name"@);
    let frames = webmcp::texts_at(text::sorted_by(tools, names), "frameId"@);
    let first = text::stable_order(names);
    text::stable_order(frames).map_values(|i: int| first[i])
}

/// Whether a tool is listed before another: by frame, then by name, then by
/// position.
pub open spec fn listed_before(tools: Seq<JsonView>, i: int, j: int) -> bool {
    let frame = webmcp::text_or_empty(tools[i], "frameId"@);
    let other_frame = webmcp::text_or_empty(tools[j], "frameId"@);
    let name = webmcp::text_or_empty(tools[i], "name"@);
    let other_name = webmcp::text_or_empty(tools[j], "name"@);
    text::text_lt(frame, other_frame) || (frame == other_frame && (text::text_lt(name, other_name)
        || (name == other_name && i < j)))
}

/// Listing takes every tool exactly once, and tools of the same frame and name
/// keep their order.
pub proof fn law_listing_is_a_stable_rearrangement(tools: Seq<JsonView>)
    ensures
        ({
            let order = tool_order(tools);
            let sorted = webmcp::sorted_tools(tools);
            &&& order.len() == tools.len() == sorted.len()
            &&& forall|v: int| #[trigger] order.contains(v) <==> 0 <= v < tools.len()
            &&& forall|i: int|
                0 <= i < sorted.len() ==> #[trigger] sorted[i] == tools[order[i]]
            &&& forall|i: int, j: int|
                0 <= i < j < order.len() ==> listed_before(
                    tools,
                    #[trigger] order[i],
                    #[trigger] order[j],
                )
        }),
{
    let names = webmcp::texts_at(tools, "name"@);
    let by_name = text::sorted_by(tools, names);
    let frames = webmcp::texts_at(by_name, "frameId"@);
    let first = text::stable_order(names);
    let second = text::stable_order(frames);
    let order = tool_order(tools);
    let sorted = webmcp::sorted_tools(tools);
    order::law_sort_is_a_stable_rearrangement(names);
    order::law_sort_is_a_stable_rearrangement(frames);
    text::lemma_stable_order_range(names);
    text::lemma_stable_order_range(frames);
    assert forall|v: int| #[trigger] order.contains(v) <==> 0 <= v < tools.len() by {
        if order.contains(v) {
            let q = order.index_of(v);
            assert(first.contains(first[second[q]]));
        }
        if 0 <= v < tools.len() {
            let p = first.index_of(v);
            assert(first.contains(v));
            assert(second.contains(p));
            assert(order[second.index_of(p)] == v);
        }
    }
    assert forall|i: int, j: int| 0 <= i < j < order.len() implies listed_before(
        tools,
        #[trigger] order[i],
        #[trigger] order[j],
    ) by {
        assert(order::precedes(frames, second[i], second[j]));
        assert(frames[second[i]] == webmcp::text_or_empty(tools[order[i]], "frameId"@));
        assert(frames[second[j]] == webmcp::text_or_empty(tools[order[j]], "frameId"@));
        if frames[second[i]] == frames[second[j]] {
            order::law_text_order_is_total(frames[second[i]], frames[second[j]]);
            assert(order::precedes(names, first[second[i]], first[second[j]]));
        }
    }
}

/// What is listed keeps the name and the frame of the tool; what lacks one of
/// them is not listed.
pub proof fn law_listed_tools_keep_name_and_frame(tool: JsonView)
    ensures
        webmcp::tool_of(tool) is Some <==> tool.get_str("name"@) is Some && tool.get_str(
            "frameId"@,
        ) is Some,
        match webmcp::tool_of(tool) {
            Some(listed) => listed.get_str("name"@) == tool.get_str("name"@) && listed.get_str(
                "frameId"@,
            ) == tool.get_str("frameId"@),
            None => true,
        },
{
    reveal_strlit("name");
    reveal_strlit("description");
    reveal_strlit("inputSchema");
    reveal_strlit("frameId");
    reveal_strlit("source");
    reveal_strlit("annotations");
    reveal_strlit("backendNodeId");
    assert("name"@.len() == 4);
    assert("description"@.len() == 11);
    assert("inputSchema"@.len() == 11);
    assert("frameId"@.len() == 7);
    assert("source"@.len() == 6);
    assert("annotations"@.len() == 11);
    assert("backendNodeId"@.len() == 13);
}

/// A tool is called only where its name, with the frame if one is given, stands
/// for exactly one tool.
pub proof fn law_only_unambiguous_tools_are_called(
    tools: Seq<JsonView>,
    name: Chars,
    frame: Option<Chars>,
)
    ensures
        match webmcp::tool_named(tools, name, frame) {
            Ok(tool) => {
                &&& tools.contains(tool)
                &&& webmcp::is_tool(tool, name, frame)
                &&& forall|other: JsonView|
                    tools.contains(other) && #[trigger] webmcp::is_tool(other, name, frame)
                        ==> other == tool
            },
            Err(_) => true,
        },
        webmcp::tool_named(tools, name, frame) is Ok <==> tools.filter(
            |t: JsonView| webmcp::is_tool(t, name, frame),
        ).len() == 1,
{
    broadcast use tables::lemma_filter_holds;

    let found = tools.filter(|t: JsonView| webmcp::is_tool(t, name, frame));
    if found.len() == 1 {
        assert(found.contains(found[0]));
        assert forall|other: JsonView|
            tools.contains(other) && #[trigger] webmcp::is_tool(other, name, frame) implies other
            == found[0] by {
            assert(found.contains(other));
            let i = found.index_of(other);
            assert(i == 0);
        }
    }
}

/// Events of other sessions neither bring tools nor answer a call.
pub proof fn law_events_of_other_sessions_change_nothing(
    run: ToolRunView,
    event: CdpEventView,
)
    requires
        !webmcp::event_of_session(event, run.page.session_id),
    ensures
        run.advance(ToolInputView::Event(event)) == StepView::Wait(run),
{
}

/// A call that takes too long is canceled in the browser before it fails.
pub proof fn law_late_calls_are_canceled(
    run: ToolRunView,
    goal: tool_call::InvocationView,
    tool: JsonView,
    id: Chars,
    reply: Result<JsonView, Chars>,
)
    requires
        run.stage == ToolStageView::Respond(goal, tool, id),
    ensures
        ({
            let canceling = run.at(ToolStageView::Cancel(goal, id));
            &&& run.advance(ToolInputView::TimedOut) == StepView::Wait(canceling)
            &&& canceling.action() matches ToolActionView::Send(request)
            &&& request.method == "WebMCP.cancelInvocation"@
            &&& request.params == Some(
                JsonView::object().with("invocationId"@, JsonView::Str(id)),
            )
            &&& canceling.advance(ToolInputView::Reply(reply)) == StepView::<ToolRunView>::Done(
                Err(tool_call::timeout_message(id, goal.timeout_ms)),
            )
        }),
{
}

} // verus!
