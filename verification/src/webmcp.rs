//! Tools that a page registers: listing them and calling one.

use vstd::prelude::*;

use crate::collections::same_text;
use crate::json::{Json, JsonView};
use crate::lifecycle;
use crate::lifecycle::format_tab_id;
use crate::queries::sort_values;
use crate::records::{CdpEvent, CdpEventView};
use crate::text;
use crate::text::{byte_len, join, starts_with, str_eq, Chars};

verus! {

/// Version of the responses.
pub const API_VERSION: u64 = 1;

/// How long a listing waits for the tools, in milliseconds.
pub const LIST_EVENT_TIMEOUT_MS: u64 = 1_000;

/// How long a call waits where it does not say so, in milliseconds.
pub const DEFAULT_CALL_TIMEOUT_MS: u64 = 30_000;

/// Start of messages of a browser without tools.
pub const UNSUPPORTED_PREFIX: &'static str = "webmcp_unsupported:";

/// Start of messages of a tool that is not there.
pub const TOOL_NOT_FOUND_PREFIX: &'static str = "webmcp_tool_not_found:";

/// Start of messages of a tool that is there more than once.
pub const TOOL_AMBIGUOUS_PREFIX: &'static str = "webmcp_tool_ambiguous:";

/// Start of messages of a call that took too long.
pub const CALL_TIMEOUT_PREFIX: &'static str = "webmcp_call_timeout:";

/// The message of a browser without tools.
pub open spec fn unsupported_message(message: Chars) -> Chars {
    UNSUPPORTED_PREFIX@ + " "@ + message
}

/// The message of a browser without tools.
pub fn unsupported(message: &str) -> (r: String)
    ensures
        r@ == unsupported_message(message@),
{
    UNSUPPORTED_PREFIX.to_owned().concat(" ").concat(message)
}

/// The code of a message, by its start.
pub open spec fn code_of(message: Chars) -> Chars {
    if UNSUPPORTED_PREFIX@.is_prefix_of(message) {
        "webmcp_unsupported"@
    } else if TOOL_NOT_FOUND_PREFIX@.is_prefix_of(message) {
        "webmcp_tool_not_found"@
    } else if TOOL_AMBIGUOUS_PREFIX@.is_prefix_of(message) {
        "webmcp_tool_ambiguous"@
    } else if CALL_TIMEOUT_PREFIX@.is_prefix_of(message) {
        "webmcp_call_timeout"@
    } else {
        "webmcp_command_failed"@
    }
}

/// The code of a message, by its start.
pub fn error_code(message: &str) -> (r: &'static str)
    ensures
        r@ == code_of(message@),
{
    if starts_with(message, UNSUPPORTED_PREFIX) {
        "webmcp_unsupported"
    } else if starts_with(message, TOOL_NOT_FOUND_PREFIX) {
        "webmcp_tool_not_found"
    } else if starts_with(message, TOOL_AMBIGUOUS_PREFIX) {
        "webmcp_tool_ambiguous"
    } else if starts_with(message, CALL_TIMEOUT_PREFIX) {
        "webmcp_call_timeout"
    } else {
        "webmcp_command_failed"
    }
}

/// A response with its version.
pub open spec fn versioned(value: JsonView) -> JsonView {
    match value {
        JsonView::Object(_) => value.with("apiVersion"@, JsonView::Uint(API_VERSION)),
        _ => JsonView::object().with("apiVersion"@, JsonView::Uint(API_VERSION)).with(
            "value"@,
            value,
        ),
    }
}

/// A response with its version.
pub fn with_api_version(value: Json) -> (r: Json)
    ensures
        r@ == versioned(value@),
{
    if let Json::Object(_) = &value {
        value.with("apiVersion", Json::Uint(API_VERSION))
    } else {
        Json::object().with("apiVersion", Json::Uint(API_VERSION)).with("value", value)
    }
}

/// Whether an event is of a session; one without session is of the browser's
/// own, whose identifier is empty.
pub open spec fn event_of_session(event: CdpEventView, session: Chars) -> bool {
    match event.session_id {
        Some(id) => id == session,
        None => session.len() == 0,
    }
}

/// Whether an event is of a session.
pub fn session_matches(event: &CdpEvent, session_id: &str) -> (r: bool)
    ensures
        r == event_of_session(event@, session_id@),
{
    match &event.session_id {
        Some(id) => str_eq(id.as_str(), session_id),
        None => {
            let empty = byte_len(session_id) == 0;
            proof {
                text::lemma_len_bounds(session_id@);
                if session_id@.len() == 0 {
                    assert(text::utf8_len(session_id@) == 0);
                }
            }
            empty
        },
    }
}

/// A tool in the form in which it is listed: what has no name or no frame is
/// no tool.
pub open spec fn tool_of(tool: JsonView) -> Option<JsonView> {
    match (tool.get_str("name"@), tool.get_str("frameId"@)) {
        (Some(name), Some(frame)) => {
            let plain = JsonView::object().with("name"@, JsonView::Str(name)).with(
                "description"@,
                JsonView::Str(text_or_empty(tool, "description"@)),
            ).with(
                "inputSchema"@,
                match tool.get("inputSchema"@) {
                    Some(schema) => schema,
                    None => JsonView::object().with("type"@, JsonView::Str("object"@)),
                },
            ).with("frameId"@, JsonView::Str(frame)).with(
                "source"@,
                JsonView::Str(
                    if tool.has("backendNodeId"@) {
                        "declarative"@
                    } else {
                        "imperative"@
                    },
                ),
            );
            let annotated = match tool.get("annotations"@) {
                Some(annotations) => plain.with("annotations"@, annotations),
                None => plain,
            };
            Some(
                match tool.get("backendNodeId"@) {
                    Some(id) => annotated.with("backendNodeId"@, id),
                    None => annotated,
                },
            )
        },
        _ => None,
    }
}

/// A string of an object; nothing where it has none.
pub open spec fn text_or_empty(object: JsonView, key: Chars) -> Chars {
    match object.get_str(key) {
        Some(text) => text,
        None => Seq::empty(),
    }
}

fn text_at(object: &Json, key: &str) -> (r: String)
    ensures
        r@ == text_or_empty(object@, key@),
{
    match object.get_str(key) {
        Some(text) => text.to_owned(),
        None => {
            let none = String::new();
            assert(none@ =~= Seq::<char>::empty());
            none
        },
    }
}

/// Brings a tool into the form in which it is listed.
pub fn normalize_tool(tool: &Json) -> (r: Option<Json>)
    ensures
        r.deep_view() == tool_of(tool@),
{
    let (name, frame) = match (tool.get_str("name"), tool.get_str("frameId")) {
        (Some(name), Some(frame)) => (name, frame),
        _ => {
            return None;
        },
    };
    let source = if tool.has("backendNodeId") {
        "declarative"
    } else {
        "imperative"
    };
    let schema = match tool.get("inputSchema") {
        Some(schema) => schema.clone(),
        None => Json::object().with("type", Json::text("object")),
    };
    let plain = Json::object().with("name", Json::text(name)).with(
        "description",
        Json::Str(text_at(tool, "description")),
    ).with("inputSchema", schema).with("frameId", Json::text(frame)).with(
        "source",
        Json::text(source),
    );
    let annotated = match tool.get("annotations") {
        Some(annotations) => plain.with("annotations", annotations.clone()),
        None => plain,
    };
    Some(
        match tool.get("backendNodeId") {
            Some(id) => annotated.with("backendNodeId", id.clone()),
            None => annotated,
        },
    )
}

/// Texts of a member of each value.
pub open spec fn texts_at(values: Seq<JsonView>, key: Chars) -> Seq<Chars> {
    values.map_values(|v: JsonView| text_or_empty(v, key))
}

/// Tools by frame, those of a frame by name.
pub open spec fn sorted_tools(tools: Seq<JsonView>) -> Seq<JsonView> {
    let by_name = text::sorted_by(tools, texts_at(tools, "name"@));
    text::sorted_by(by_name, texts_at(by_name, "frameId"@))
}

fn keys_at(values: &Vec<Json>, key: &str) -> (r: Vec<String>)
    ensures
        r.deep_view() == texts_at(values.deep_view(), key@),
{
    let mut keys: Vec<String> = Vec::new();
    let mut i: usize = 0;
    while i < values.len()
        invariant
            i == keys.len() <= values.len(),
            forall|j: int|
                0 <= j < i ==> (#[trigger] keys@[j])@ == text_or_empty(
                    values.deep_view()[j],
                    key@,
                ),
        decreases values.len() - i,
    {
        assert(values.deep_view()[i as int] == values@[i as int]@);
        keys.push(text_at(&values[i], key));
        i = i + 1;
    }
    assert(keys.deep_view() =~= texts_at(values.deep_view(), key@));
    keys
}

/// Brings tools into the order of their frames, those of a frame by name.
pub fn sort_tools(tools: &mut Vec<Json>)
    ensures
        final(tools).deep_view() == sorted_tools(old(tools).deep_view()),
{
    let names = keys_at(tools, "name");
    assert(names.deep_view().len() == tools.deep_view().len());
    let by_name = sort_values(tools, &names);
    let frames = keys_at(&by_name, "frameId");
    assert(frames.deep_view().len() == by_name.deep_view().len());
    *tools = sort_values(&by_name, &frames);
}

/// The message of a browser that does not know the domain.
pub open spec fn enable_failure(error: Chars) -> Chars {
    unsupported_message(
        "Chrome does not expose the WebMCP CDP domain. Launch Chrome with WebMCP enabled and retry: "@
            + error,
    )
}

/// The message of a browser that does not know the domain.
pub fn unsupported_enable_error(error: &str) -> (r: String)
    ensures
        r@ == enable_failure(error@),
{
    let message = "Chrome does not expose the WebMCP CDP domain. Launch Chrome with WebMCP enabled and retry: ".to_owned().concat(
        error,
    );
    unsupported(message.as_str())
}

/// The active page.
pub struct PageContext {
    pub session_id: String,
    pub target_id: String,
    pub tab_id: String,
    pub url: String,
}

/// Model of the active page.
#[verifier::ext_equal]
pub struct PageContextView {
    pub session_id: Chars,
    pub target_id: Chars,
    pub tab_id: Chars,
    pub url: Chars,
}

impl DeepView for PageContext {
    type V = PageContextView;

    open spec fn deep_view(&self) -> PageContextView {
        PageContextView {
            session_id: self.session_id@,
            target_id: self.target_id@,
            tab_id: self.tab_id@,
            url: self.url@,
        }
    }
}

impl PageContextView {
    /// How responses name the page.
    pub open spec fn to_json(self) -> JsonView {
        JsonView::object().with("tabId"@, JsonView::Str(self.tab_id)).with(
            "targetId"@,
            JsonView::Str(self.target_id),
        ).with("url"@, JsonView::Str(self.url))
    }
}

impl PageContext {
    /// How responses name the page.
    pub fn to_json(&self) -> (r: Json)
        ensures
            r@ == self.deep_view().to_json(),
    {
        Json::object().with("tabId", Json::text(self.tab_id.as_str())).with(
            "targetId",
            Json::text(self.target_id.as_str()),
        ).with("url", Json::text(self.url.as_str()))
    }
}

/// Address of the first page of a tab.
pub open spec fn page_url(pages: Seq<(u32, Chars)>, tab: u32) -> Option<Chars>
    decreases pages.len(),
{
    if pages.len() == 0 {
        None
    } else {
        match page_url(pages.drop_last(), tab) {
            Some(url) => Some(url),
            None => if pages.last().0 == tab {
                Some(pages.last().1)
            } else {
                None
            },
        }
    }
}

/// The active page, from what the browser says of its pages.
pub open spec fn context_of(
    session: Result<Chars, Chars>,
    target: Result<Chars, Chars>,
    active: Option<u32>,
    pages: Seq<(u32, Chars)>,
) -> Result<PageContextView, Chars> {
    match (session, target) {
        (Err(e), _) => Err(e),
        (Ok(_), Err(e)) => Err(e),
        (Ok(session_id), Ok(target_id)) => match active {
            None => Err("No active page"@),
            Some(tab) => match page_url(pages, tab) {
                None => Err("No active page"@),
                Some(url) => Ok(
                    PageContextView { session_id, target_id, tab_id: lifecycle::tab_name(tab), url },
                ),
            },
        },
    }
}

proof fn lemma_first_page_stays(pages: Seq<(u32, Chars)>, n: int, tab: u32)
    requires
        0 <= n <= pages.len(),
        page_url(pages.take(n), tab) is Some,
    ensures
        page_url(pages, tab) == page_url(pages.take(n), tab),
    decreases pages.len(),
{
    if n == pages.len() {
        assert(pages.take(n) == pages);
    } else {
        assert(pages.drop_last().take(n) == pages.take(n));
        lemma_first_page_stays(pages.drop_last(), n, tab);
    }
}

fn find_page(pages: &Vec<(u32, String)>, tab: u32) -> (r: Option<String>)
    ensures
        r.deep_view() == page_url(pages.deep_view(), tab),
{
    let ghost all = pages.deep_view();
    let mut i: usize = 0;
    while i < pages.len()
        invariant
            all == pages.deep_view(),
            i <= pages.len(),
            page_url(all.take(i as int), tab) is None,
        decreases pages.len() - i,
    {
        assert(all.take(i + 1).drop_last() == all.take(i as int));
        assert(all.take(i + 1).last() == pages@[i as int].deep_view());
        if pages[i].0 == tab {
            proof {
                lemma_first_page_stays(all, i + 1, tab);
            }
            return Some(pages[i].1.clone());
        }
        i = i + 1;
    }
    assert(all.take(i as int) == all);
    None
}

/// The active page, from what the browser says of its pages.
pub fn active_context(
    session: Result<String, String>,
    target: Result<String, String>,
    active_tab_id: Option<u32>,
    pages: &Vec<(u32, String)>,
) -> (r: Result<PageContext, String>)
    ensures
        text::outcome(r) == context_of(
            text::outcome(session),
            text::outcome(target),
            active_tab_id,
            pages.deep_view(),
        ),
{
    let session_id = match session {
        Ok(id) => id,
        Err(e) => {
            return Err(e);
        },
    };
    let target_id = match target {
        Ok(id) => id,
        Err(e) => {
            return Err(e);
        },
    };
    let tab = match active_tab_id {
        Some(tab) => tab,
        None => {
            return Err("No active page".to_owned());
        },
    };
    match find_page(pages, tab) {
        Some(url) => Ok(PageContext { session_id, target_id, tab_id: format_tab_id(tab), url }),
        None => Err("No active page".to_owned()),
    }
}

/// The tools that an event brings, in the form and order in which they are
/// listed.
pub open spec fn tools_in(params: JsonView) -> Seq<JsonView> {
    let raw = match params.get_array("tools"@) {
        Some(tools) => tools,
        None => Seq::empty(),
    };
    sorted_tools(raw.filter_map(|t: JsonView| tool_of(t)))
}

/// Reads the tools that an event brings.
pub fn read_tools(params: &Json) -> (r: Vec<Json>)
    ensures
        r.deep_view() == tools_in(params@),
{
    let ghost f = |t: JsonView| tool_of(t);
    let mut tools: Vec<Json> = Vec::new();
    match params.get_array("tools") {
        Some(raw) => {
            let ghost all = raw.deep_view();
            let mut i: usize = 0;
            assert(tools.deep_view() =~= all.take(0).filter_map(f)) by {
                reveal(Seq::filter_map);
            }
            while i < raw.len()
                invariant
                    all == raw.deep_view(),
                    f == (|t: JsonView| tool_of(t)),
                    i <= raw.len(),
                    tools.deep_view() == all.take(i as int).filter_map(f),
                decreases raw.len() - i,
            {
                let ghost was = tools.deep_view();
                proof {
                    all.lemma_filter_map_take_succ(f, i as int);
                    assert(all[i as int] == raw@[i as int].deep_view());
                }
                match normalize_tool(&raw[i]) {
                    Some(tool) => {
                        tools.push(tool);
                        assert(tools.deep_view() =~= was + seq![tool@]);
                    },
                    None => {
                        assert(was + Seq::<JsonView>::empty() =~= was);
                    },
                }
                i = i + 1;
            }
            assert(all.take(i as int) == all);
        },
        None => {
            assert(tools.deep_view() =~= Seq::<JsonView>::empty().filter_map(f)) by {
                reveal(Seq::filter_map);
            }
        },
    }
    sort_tools(&mut tools);
    tools
}

/// Whether a tool has a name, and a frame where one is asked for.
pub open spec fn is_tool(tool: JsonView, name: Chars, frame: Option<Chars>) -> bool {
    tool.get_str("name"@) == Some(name) && (frame is None || tool.get_str("frameId"@) == frame)
}

/// The tool of a name, which has to be the only one.
pub open spec fn tool_named(tools: Seq<JsonView>, name: Chars, frame: Option<Chars>) -> Result<
    JsonView,
    Chars,
> {
    let found = tools.filter(|t: JsonView| is_tool(t, name, frame));
    if found.len() == 1 {
        Ok(found[0])
    } else if found.len() == 0 {
        Err(
            TOOL_NOT_FOUND_PREFIX@ + " No WebMCP tool named '"@ + name + "'"@ + (match frame {
                Some(id) => " in frame "@ + id,
                None => Seq::empty(),
            }) + " is registered on the active page"@,
        )
    } else {
        Err(
            TOOL_AMBIGUOUS_PREFIX@ + " WebMCP tool '"@ + name
                + "' is registered in multiple frames ("@ + text::joined(
                found.filter_map(|t: JsonView| t.get_str("frameId"@)),
                ", "@,
            ) + "). Retry with --frame-id <id>"@,
        )
    }
}

fn frames_of(tools: &Vec<Json>) -> (r: Vec<String>)
    ensures
        r.deep_view() == tools.deep_view().filter_map(|t: JsonView| t.get_str("frameId"@)),
{
    let ghost all = tools.deep_view();
    let ghost f = |t: JsonView| t.get_str("frameId"@);
    let mut frames: Vec<String> = Vec::new();
    let mut i: usize = 0;
    assert(frames.deep_view() =~= all.take(0).filter_map(f)) by {
        reveal(Seq::filter_map);
    }
    while i < tools.len()
        invariant
            all == tools.deep_view(),
            f == (|t: JsonView| t.get_str("frameId"@)),
            i <= tools.len(),
            frames.deep_view() == all.take(i as int).filter_map(f),
        decreases tools.len() - i,
    {
        let ghost was = frames.deep_view();
        proof {
            all.lemma_filter_map_take_succ(f, i as int);
            assert(all[i as int] == tools@[i as int].deep_view());
        }
        match tools[i].get_str("frameId") {
            Some(frame) => {
                frames.push(frame.to_owned());
                assert(frames.deep_view() =~= was + seq![frame@]);
            },
            None => {
                assert(was + Seq::<Chars>::empty() =~= was);
            },
        }
        i = i + 1;
    }
    assert(all.take(i as int) == all);
    frames
}

/// Finds the tool of a name, which has to be the only one.
pub fn resolve_tool(tools: &Vec<Json>, tool_name: &str, frame_id: Option<&str>) -> (r: Result<
    Json,
    String,
>)
    ensures
        text::outcome(r) == tool_named(tools.deep_view(), tool_name@, frame_id.deep_view()),
{
    let ghost all = tools.deep_view();
    let ghost pred = |t: JsonView| is_tool(t, tool_name@, frame_id.deep_view());
    let mut found: Vec<Json> = Vec::new();
    let mut i: usize = 0;
    assert(found.deep_view() =~= all.take(0).filter(pred)) by {
        reveal(Seq::filter);
    }
    while i < tools.len()
        invariant
            all == tools.deep_view(),
            pred == (|t: JsonView| is_tool(t, tool_name@, frame_id.deep_view())),
            i <= tools.len(),
            found.deep_view() == all.take(i as int).filter(pred),
        decreases tools.len() - i,
    {
        let ghost was = found.deep_view();
        proof {
            assert(all[i as int] == tools@[i as int].deep_view());
            assert(all.take(i + 1) == all.take(i as int).push(all[i as int]));
            all.take(i as int).lemma_filter_push(all[i as int], pred);
        }
        let tool = &tools[i];
        if same_text(tool.get_str("name"), Some(tool_name)) && (frame_id.is_none() || same_text(
            tool.get_str("frameId"),
            frame_id,
        )) {
            found.push(tool.clone());
            assert(found.deep_view() =~= was.push(all[i as int]));
        }
        i = i + 1;
    }
    assert(all.take(i as int) == all);
    if found.len() == 1 {
        assert(found.deep_view()[0] == found@[0]@);
        return Ok(found.remove(0));
    }
    if found.len() == 0 {
        let place = match frame_id {
            Some(id) => " in frame ".to_owned().concat(id),
            None => {
                let none = String::new();
                assert(none@ =~= Seq::<char>::empty());
                none
            },
        };
        return Err(
            TOOL_NOT_FOUND_PREFIX.to_owned().concat(" No WebMCP tool named '").concat(
                tool_name,
            ).concat("'").concat(place.as_str()).concat(" is registered on the active page"),
        );
    }
    let frames = join(&frames_of(&found), ", ");
    Err(
        TOOL_AMBIGUOUS_PREFIX.to_owned().concat(" WebMCP tool '").concat(tool_name).concat(
            "' is registered in multiple frames (",
        ).concat(frames.as_str()).concat("). Retry with --frame-id <id>"),
    )
}

} // verus!
