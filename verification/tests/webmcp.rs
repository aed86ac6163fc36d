use agent_browser_core::interop::parse_json;
use agent_browser_core::json::Json;
use agent_browser_core::operation::Step;
use agent_browser_core::records::CdpEvent;
use agent_browser_core::tool_call::{call, list, ToolAction, ToolInput, ToolRun};
use agent_browser_core::webmcp::{
    active_context, error_code, normalize_tool, read_tools, resolve_tool, session_matches,
    sort_tools, unsupported, with_api_version, PageContext,
};

fn json(text: &str) -> Json {
    parse_json(text).unwrap()
}

fn page() -> PageContext {
    PageContext {
        session_id: "s1".to_string(),
        target_id: "target-1".to_string(),
        tab_id: "t1".to_string(),
        url: "https://a/".to_string(),
    }
}

fn event(method: &str, session: &str, params: &str) -> ToolInput {
    ToolInput::Event(CdpEvent {
        method: method.to_string(),
        params: json(params),
        session_id: Some(session.to_string()),
    })
}

fn wait(step: Step<ToolRun>) -> ToolRun {
    match step {
        Step::Wait(run) => run,
        Step::Done(_) => panic!("the run ended"),
    }
}

fn done(step: Step<ToolRun>) -> Result<Json, String> {
    match step {
        Step::Wait(_) => panic!("the run waits"),
        Step::Done(result) => result,
    }
}

#[test]
fn normalizes_and_sorts_tools() {
    let imperative = normalize_tool(&json(
        r#"{
            "name": "zeta",
            "description": "Z",
            "inputSchema": { "type": "object" },
            "frameId": "frame-b",
            "stackTrace": { "callFrames": [] }
        }"#,
    ))
    .unwrap();
    let declarative = normalize_tool(&json(
        r#"{
            "name": "alpha",
            "description": "A",
            "inputSchema": { "type": "object" },
            "frameId": "frame-a",
            "backendNodeId": 42
        }"#,
    ))
    .unwrap();
    let mut tools = vec![imperative, declarative];
    sort_tools(&mut tools);
    assert_eq!(tools[0].get_str("name"), Some("alpha"));
    assert_eq!(tools[0].get_str("source"), Some("declarative"));
    assert_eq!(tools[1].get_str("source"), Some("imperative"));
    assert!(tools[1].get("stackTrace").is_none());
}

#[test]
fn resolves_duplicate_names_by_frame() {
    let tools = vec![
        json(r#"{ "name": "search", "frameId": "a" }"#),
        json(r#"{ "name": "search", "frameId": "b" }"#),
    ];
    let error = resolve_tool(&tools, "search", None).err().unwrap();
    assert_eq!(error_code(&error), "webmcp_tool_ambiguous");
    assert_eq!(
        resolve_tool(&tools, "search", Some("b"))
            .ok()
            .unwrap()
            .get_str("frameId"),
        Some("b")
    );
    assert_eq!(
        error,
        "webmcp_tool_ambiguous: WebMCP tool 'search' is registered in multiple frames (a, b). Retry with --frame-id <id>"
    );
    assert_eq!(
        resolve_tool(&tools, "find", Some("b")).err().unwrap(),
        "webmcp_tool_not_found: No WebMCP tool named 'find' in frame b is registered on the active page"
    );
}

#[test]
fn exposes_stable_error_codes() {
    assert_eq!(
        error_code(&unsupported("Safari backend")),
        "webmcp_unsupported"
    );
    assert_eq!(
        error_code("webmcp_unsupported: no method"),
        "webmcp_unsupported"
    );
    assert_eq!(
        error_code("webmcp_tool_not_found: missing"),
        "webmcp_tool_not_found"
    );
    assert_eq!(
        error_code("webmcp_call_timeout: late"),
        "webmcp_call_timeout"
    );
    assert_eq!(error_code("anything else"), "webmcp_command_failed");
}

#[test]
fn responses_carry_their_version() {
    let object = with_api_version(json(r#"{ "tools": [] }"#));
    assert_eq!(object.get_u64("apiVersion"), Some(1));
    assert_eq!(object.get_array("tools").unwrap().len(), 0);
    let other = with_api_version(Json::Uint(3));
    assert_eq!(other.get_u64("apiVersion"), Some(1));
    assert_eq!(other.get_u64("value"), Some(3));
}

#[test]
fn tools_without_name_or_frame_are_left_out() {
    let tools = read_tools(&json(
        r#"{ "tools": [ { "name": "a" }, { "frameId": "f" }, { "name": "b", "frameId": "f" },
                        { "name": "a", "frameId": "f" }, { "name": "z", "frameId": "e" } ] }"#,
    ));
    let names: Vec<&str> = tools.iter().map(|t| t.get_str("name").unwrap()).collect();
    assert_eq!(names, vec!["z", "a", "b"]);
    assert_eq!(tools[0].get_str("description"), Some(""));
    assert_eq!(
        tools[0].get("inputSchema").unwrap().get_str("type"),
        Some("object")
    );
}

#[test]
fn events_without_session_are_of_the_browser() {
    let of = |session: Option<&str>| CdpEvent {
        method: "m".to_string(),
        params: Json::Null,
        session_id: session.map(|s| s.to_string()),
    };
    assert!(session_matches(&of(Some("s1")), "s1"));
    assert!(!session_matches(&of(Some("s2")), "s1"));
    assert!(!session_matches(&of(None), "s1"));
    assert!(session_matches(&of(None), ""));
}

#[test]
fn the_active_page_needs_a_session_and_a_tab() {
    let pages = vec![(1, "https://a/".to_string()), (2, "https://b/".to_string())];
    let context = active_context(Ok("s".to_string()), Ok("t".to_string()), Some(2), &pages)
        .ok()
        .unwrap();
    assert_eq!(context.tab_id, "t2");
    assert_eq!(context.url, "https://b/");
    assert_eq!(
        active_context(Ok("s".to_string()), Ok("t".to_string()), None, &pages)
            .err()
            .unwrap(),
        "No active page"
    );
    assert_eq!(
        active_context(Err("down".to_string()), Ok("t".to_string()), Some(1), &pages)
            .err()
            .unwrap(),
        "down"
    );
}

#[test]
fn tools_are_listed() {
    let run = list(page());
    assert!(matches!(run.action(), ToolAction::Send(r) if r.method == "WebMCP.enable"));
    let run = wait(run.advance(ToolInput::Reply(Ok(Json::object()))));
    assert!(matches!(run.action(), ToolAction::Listen(1_000)));
    let run = wait(run.advance(event("WebMCP.toolsAdded", "s2", r#"{ "tools": [] }"#)));
    let answer = done(run.advance(event(
        "WebMCP.toolsAdded",
        "s1",
        r#"{ "tools": [ { "name": "a", "frameId": "f" } ] }"#,
    )))
    .ok()
    .unwrap();
    assert_eq!(answer.get_array("tools").unwrap().len(), 1);
    let late = wait(list(page()).advance(ToolInput::Reply(Ok(Json::object()))));
    let answer = done(late.advance(ToolInput::TimedOut)).ok().unwrap();
    assert_eq!(answer.get_array("tools").unwrap().len(), 0);
    let refused = done(list(page()).advance(ToolInput::Reply(Err("no domain".to_string()))));
    assert_eq!(
        error_code(&refused.err().unwrap()),
        "webmcp_unsupported"
    );
}

fn invoked() -> ToolRun {
    let run = call(page(), "a", json(r#"{ "q": 1 }"#), None, Some(50));
    let run = wait(run.advance(ToolInput::Reply(Ok(Json::object()))));
    let run = wait(run.advance(event(
        "WebMCP.toolsAdded",
        "s1",
        r#"{ "tools": [ { "name": "a", "frameId": "f" } ] }"#,
    )));
    assert!(matches!(run.action(), ToolAction::ReadPage));
    let run = wait(run.advance(ToolInput::Page(Ok(page()))));
    match run.action() {
        ToolAction::Send(request) => {
            assert_eq!(request.method, "WebMCP.invokeTool");
            let params = request.params.unwrap();
            assert_eq!(params.get_str("frameId"), Some("f"));
            assert_eq!(params.get_str("toolName"), Some("a"));
            assert_eq!(params.get("input").unwrap().get_u64("q"), Some(1));
        }
        _ => panic!("nothing is sent"),
    }
    wait(run.advance(ToolInput::Reply(Ok(json(r#"{ "invocationId": "i1" }"#)))))
}

#[test]
fn a_tool_is_called() {
    let run = invoked();
    let run = wait(run.advance(event(
        "WebMCP.toolResponded",
        "s1",
        r#"{ "invocationId": "i2", "status": "Completed" }"#,
    )));
    let answer = done(run.advance(event(
        "WebMCP.toolResponded",
        "s1",
        r#"{ "invocationId": "i1", "status": "Completed", "output": { "n": 1 } }"#,
    )))
    .ok()
    .unwrap();
    assert_eq!(answer.get_str("invocationId"), Some("i1"));
    assert_eq!(answer.get_str("status"), Some("completed"));
    assert_eq!(answer.get("output").unwrap().get_u64("n"), Some(1));
}

#[test]
fn a_late_call_is_canceled() {
    let run = wait(invoked().advance(ToolInput::TimedOut));
    match run.action() {
        ToolAction::Send(request) => assert_eq!(request.method, "WebMCP.cancelInvocation"),
        _ => panic!("nothing is sent"),
    }
    let error = done(run.advance(ToolInput::Reply(Err("too late".to_string()))))
        .err()
        .unwrap();
    assert_eq!(
        error,
        "webmcp_call_timeout: WebMCP invocation i1 did not respond within 50ms and was canceled"
    );
}

#[test]
fn tools_of_the_same_frame_and_name_keep_their_order() {
    let mut tools: Vec<Json> = [
        ("f2", "a", 1),
        ("f1", "b", 2),
        ("f1", "a", 3),
        ("f1", "b", 4),
        ("f1", "a", 5),
    ]
    .iter()
    .map(|(frame, name, mark)| {
        Json::object()
            .with("frameId", Json::text(frame))
            .with("name", Json::text(name))
            .with("mark", Json::Uint(*mark))
    })
    .collect();
    sort_tools(&mut tools);
    let marks: Vec<u64> = tools.iter().map(|t| t.get_u64("mark").unwrap()).collect();
    assert_eq!(marks, vec![3, 5, 2, 4, 1]);
}
