use agent_browser_core::breakpoint::{
    one_based_location, required_one_based, same_cdp_location, select_breakpoint_location,
    BreakpointResolutionRequest,
};
use agent_browser_core::dispatch::{Action, DebuggerController, Execution, Progress};
use agent_browser_core::interop::parse_json;
use agent_browser_core::json::Json;
use agent_browser_core::logpoint::build_logpoint_condition;
use agent_browser_core::operation::Request;
use agent_browser_core::probe_request::ProbeRequest;
use agent_browser_core::probe_set::ProbeNumbers;
use agent_browser_core::records::{CdpEvent, PageInfo, ProbeKind};

fn json(text: &str) -> Json {
    parse_json(text).unwrap()
}

fn event(method: &str, session: &str, params: &str) -> CdpEvent {
    CdpEvent {
        method: method.to_string(),
        params: json(params),
        session_id: Some(session.to_string()),
    }
}

/// A debugger with one page, whose script "9" is known.
fn debugger() -> DebuggerController {
    let mut debugger = DebuggerController::new();
    debugger.attach_browser(
        1,
        &vec![PageInfo {
            tab_id: 1,
            target_id: "target-1".to_string(),
            session_id: "s1".to_string(),
        }],
        Some(1),
    );
    debugger.state.enabled_sessions.push("s1".to_string());
    debugger.state.handle_event(
        2,
        1,
        &event(
            "Runtime.executionContextCreated",
            "s1",
            r#"{ "context": { "id": 4, "name": "top", "origin": "https://a" } }"#,
        ),
    );
    debugger.state.handle_event(
        2,
        1,
        &event(
            "Debugger.scriptParsed",
            "s1",
            r#"{ "scriptId": "9", "url": "https://a/x.js", "executionContextId": 4 }"#,
        ),
    );
    debugger
}

fn reply(text: &str) -> Result<Json, String> {
    match text.strip_prefix("error: ") {
        Some(message) => Err(message.to_string()),
        None => Ok(json(text)),
    }
}

fn request(execution: &Execution) -> Request {
    match execution.action() {
        Action::Send(request) => request,
        Action::Listen(_) => panic!("the command listens"),
    }
}

fn run(
    debugger: &mut DebuggerController,
    numbers: &mut ProbeNumbers,
    command: &str,
    replies: &[&str],
) -> (Json, Vec<Request>) {
    let mut sent = Vec::new();
    let mut left = replies.iter();
    let mut progress = debugger.execute_fast(5, &json(command), &None, &None);
    loop {
        match progress {
            Progress::Answer(answer) => {
                assert!(left.next().is_none());
                return (answer, sent);
            }
            Progress::Wait(execution) => {
                sent.push(request(&execution));
                let answered = reply(left.next().unwrap());
                progress = debugger.advance(execution, numbers, 6, &answered);
            }
        }
    }
}

fn methods(sent: &[Request]) -> Vec<&str> {
    sent.iter().map(|r| r.method.as_str()).collect()
}

const SOURCE: &str = r#"{ "scriptSource": "let a = 1;\nlet b = 2;\nfinish();" }"#;
const PLACES: &str = r#"{ "locations": [
    { "scriptId": "9", "lineNumber": 1, "columnNumber": 4 },
    { "scriptId": "9", "lineNumber": 2, "columnNumber": 0 } ] }"#;

#[test]
fn breakpoint_location_selection_is_bounded_and_one_based() {
    let source = "let a = 1;\nlet emoji = '😀';\nfinish();";
    let locations = vec![
        json(r#"{ "scriptId": "7", "lineNumber": 9, "columnNumber": 4 }"#),
        json(r#"{ "scriptId": "7", "lineNumber": 0, "columnNumber": 4 }"#),
        json(r#"{ "scriptId": "7", "lineNumber": 1, "columnNumber": 4 }"#),
        json(r#"{ "scriptId": "7", "lineNumber": 2, "columnNumber": 0 }"#),
    ];
    let request = |line, column, column_explicit, mode: &str, max_utf16_distance| {
        BreakpointResolutionRequest {
            line,
            column,
            column_explicit,
            mode: mode.to_string(),
            max_lines: 3,
            max_utf16_distance,
        }
    };
    let (strict, reason, distance) =
        select_breakpoint_location(&locations, &request(1, 5, true, "strict", 512), source)
            .ok()
            .unwrap();
    assert_eq!(strict.get_u64("lineNumber"), Some(0));
    assert_eq!(reason, "exact");
    assert_eq!(distance, 0);

    assert!(
        select_breakpoint_location(&locations, &request(1, 6, true, "strict", 512), source)
            .is_err()
    );
    let (line_strict, reason, _) =
        select_breakpoint_location(&locations, &request(2, 1, false, "strict", 512), source)
            .ok()
            .unwrap();
    assert_eq!(line_strict.get_u64("lineNumber"), Some(1));
    assert_eq!(reason, "first-breakable-on-requested-line");
    let (after, _, _) =
        select_breakpoint_location(&locations, &request(1, 6, true, "after", 512), source)
            .ok()
            .unwrap();
    assert_eq!(after.get_u64("lineNumber"), Some(1));
    let (before, _, _) =
        select_breakpoint_location(&locations, &request(2, 6, true, "before", 512), source)
            .ok()
            .unwrap();
    assert_eq!(before.get_u64("lineNumber"), Some(1));
    assert!(
        select_breakpoint_location(&locations, &request(1, 6, true, "after", 1), source).is_err()
    );
}

#[test]
fn the_nearest_location_prefers_forward() {
    let source = "abcdef";
    let locations = vec![
        json(r#"{ "lineNumber": 0, "columnNumber": 1 }"#),
        json(r#"{ "lineNumber": 0, "columnNumber": 5 }"#),
    ];
    let request = |column, mode: &str| BreakpointResolutionRequest {
        line: 1,
        column,
        column_explicit: true,
        mode: mode.to_string(),
        max_lines: 3,
        max_utf16_distance: 512,
    };
    let (tied, reason, distance) = select_breakpoint_location(&locations, &request(4, "nearest"), source)
        .ok()
        .unwrap();
    assert_eq!(tied.get_u64("columnNumber"), Some(5));
    assert_eq!(reason, "nearest-after-within-function");
    assert_eq!(distance, 2);
    let (closer, reason, distance) = select_breakpoint_location(&locations, &request(3, "nearest"), source)
        .ok()
        .unwrap();
    assert_eq!(closer.get_u64("columnNumber"), Some(1));
    assert_eq!(reason, "nearest-before-within-function");
    assert_eq!(distance, 1);
    let (forward, _, _) =
        select_breakpoint_location(&locations, &request(3, "nearest-forward"), source)
            .ok()
            .unwrap();
    assert_eq!(forward.get_u64("columnNumber"), Some(5));
}

#[test]
fn unbreakable_locations_are_told() {
    let request = BreakpointResolutionRequest {
        line: 1,
        column: 2,
        column_explicit: true,
        mode: "nearest-forward".to_string(),
        max_lines: 3,
        max_utf16_distance: 512,
    };
    assert_eq!(
        select_breakpoint_location(&vec![], &request, "abc").err().unwrap(),
        "No breakable compiled JavaScript location found for 1:2 in 'after' mode within 3 line(s) and 512 UTF-16 code units"
    );
    assert_eq!(
        select_breakpoint_location(&vec![], &request, "").err().unwrap(),
        "Requested compiled JavaScript location 1:2 is outside the script"
    );
}

#[test]
fn locations_are_told_from_one() {
    let location = json(r#"{ "scriptId": "9", "lineNumber": 0, "columnNumber": 4 }"#);
    let told = one_based_location(&location);
    assert_eq!(told.get_str("scriptId"), Some("9"));
    assert_eq!(told.get_u64("line"), Some(1));
    assert_eq!(told.get_u64("column"), Some(5));
    assert!(same_cdp_location(
        &location,
        &json(r#"{ "scriptId": "9", "lineNumber": 0, "columnNumber": 4, "type": "call" }"#)
    ));
    assert!(!same_cdp_location(
        &location,
        &json(r#"{ "scriptId": "9", "lineNumber": 0, "columnNumber": 5 }"#)
    ));
    assert_eq!(required_one_based(&json(r#"{ "line": 3 }"#), "line"), Ok(3));
    assert!(required_one_based(&json(r#"{ "line": 0 }"#), "line").is_err());
    assert!(required_one_based(&json("{}"), "line").is_err());
}

#[test]
fn logpoint_condition_uses_binding_and_bounded_serializer() {
    let condition = build_logpoint_condition(
        "__agent_browser_debug_hit_random",
        "nonce",
        "probe-1",
        "physical-1",
        Some("state.ready"),
        &vec!["state".to_string(), "total".to_string()],
    );
    assert!(condition.contains("__agent_browser_debug_hit_random"));
    assert!(condition.contains("state.ready"));
    assert!(condition.contains("max-properties"));
    assert!(condition.contains("payload-too-large"));
    assert!(condition.contains("Object.getOwnPropertyDescriptor"));
    assert!(!condition.contains("console.log"));
    assert!(condition.ends_with("()"));
}

#[test]
fn logpoint_expressions_are_quoted() {
    let condition = build_logpoint_condition("b", "n", "p", "q", None, &vec!["a[\"x\"]".to_string()]);
    assert!(condition.contains(r#"{expression:"a[\"x\"]",value:__abSer((a["x"]),0)}"#));
    assert!(condition.contains(r#"nonce:"n",probeId:"p",physicalBindingId:"q""#));
    assert!(condition.contains(r#"globalThis["b"]"#));
    assert!(condition.contains("__abRun=true"));
}

fn fault(command: &str, kind: ProbeKind) -> String {
    ProbeRequest::read(&json(command), kind).err().unwrap()
}

#[test]
fn requests_are_checked_in_order() {
    assert_eq!(fault("{}", ProbeKind::Breakpoint), "Missing compiled script ID");
    assert_eq!(
        fault(r#"{ "scriptId": "9", "line": 1, "column": 0 }"#, ProbeKind::Breakpoint),
        "column must be one-based and greater than zero"
    );
    assert_eq!(
        fault(r#"{ "scriptId": "9", "line": 1, "mode": "odd" }"#, ProbeKind::Breakpoint),
        "Breakpoint mode must be 'strict', 'before', 'after', or 'nearest'"
    );
    assert_eq!(
        fault(r#"{ "scriptId": "9", "line": 1, "maxLines": 501 }"#, ProbeKind::Breakpoint),
        "maxLines must be between 1 and 500"
    );
    assert_eq!(
        fault(r#"{ "scriptId": "9", "line": 1, "maxUtf16Distance": 0 }"#, ProbeKind::Breakpoint),
        "maxUtf16Distance must be between 1 and 1000000"
    );
    assert_eq!(
        fault(r#"{ "scriptId": "9", "line": 1, "expressions": [1] }"#, ProbeKind::Logpoint),
        "Every logpoint expression must be a string"
    );
    assert_eq!(
        fault(r#"{ "scriptId": "9", "line": 1, "when": "x" }"#, ProbeKind::Breakpoint),
        "Breakpoint probes do not accept logpoint expressions or when"
    );
    assert_eq!(
        fault(r#"{ "scriptId": "9", "line": 1, "condition": "x" }"#, ProbeKind::Logpoint),
        "Logpoint probes use when instead of condition"
    );
    assert_eq!(
        fault(r#"{ "scriptId": "9", "line": 1 }"#, ProbeKind::Logpoint),
        "A logpoint needs at least one --expression"
    );
    let request = ProbeRequest::read(
        &json(r#"{ "scriptId": "9", "line": 3 }"#),
        ProbeKind::Breakpoint,
    )
    .ok()
    .unwrap();
    assert_eq!(request.column, 1);
    assert!(!request.column_explicit);
    assert_eq!(request.mode, "after");
    assert_eq!(request.max_lines, 3);
    assert_eq!(request.max_utf16_distance, 512);
    assert!(request
        .location()
        .same(&json(r#"{ "scriptId": "9", "lineNumber": 2, "columnNumber": 0 }"#)));
}

#[test]
fn a_breakpoint_is_checked_located_and_installed() {
    let mut debugger = debugger();
    let mut numbers = ProbeNumbers::new();
    let (answer, sent) = run(
        &mut debugger,
        &mut numbers,
        r#"{ "id": "1", "action": "debug_breakpoint_set", "scriptId": "9", "line": 2, "condition": "b > 1" }"#,
        &["{}", SOURCE, PLACES, r#"{ "breakpointId": "cdp-1", "actualLocation": { "scriptId": "9", "lineNumber": 1, "columnNumber": 4 } }"#],
    );
    assert_eq!(
        methods(&sent),
        vec![
            "Runtime.compileScript",
            "Debugger.getScriptSource",
            "Debugger.getPossibleBreakpoints",
            "Debugger.setBreakpoint"
        ]
    );
    let checked = sent[0].params.as_ref().unwrap();
    assert_eq!(checked.get_str("expression"), Some("void (b > 1)"));
    assert_eq!(checked.get_u64("executionContextId"), Some(4));
    let asked = sent[2].params.as_ref().unwrap();
    assert_eq!(asked.get_bool("restrictToFunction"), Some(true));
    assert_eq!(
        sent[3].params.as_ref().unwrap().get_str("condition"),
        Some("b > 1")
    );
    let probe = answer.get("data").unwrap();
    assert_eq!(probe.get_str("probeId"), Some("probe-1-1"));
    assert_eq!(probe.get_str("status"), Some("bound"));
    assert_eq!(numbers.next, 3);
    let state = &debugger.state;
    assert_eq!(state.physical_probes.len(), 1);
    let installed = state.physical_probes.get("physical-1-2").unwrap();
    assert_eq!(installed.cdp_breakpoint_id, "cdp-1");
    assert_eq!(installed.actual_location.get_u64("line"), Some(2));
    assert_eq!(
        state.physical_by_cdp_breakpoint.get("cdp-1").unwrap(),
        "physical-1-2"
    );
}

#[test]
fn a_faulty_condition_installs_nothing() {
    let mut debugger = debugger();
    let mut numbers = ProbeNumbers::new();
    let (answer, sent) = run(
        &mut debugger,
        &mut numbers,
        r#"{ "id": "1", "action": "debug_breakpoint_set", "scriptId": "9", "line": 2, "condition": "b >" }"#,
        &[r#"{ "exceptionDetails": { "text": "Uncaught", "exception": { "description": "SyntaxError: oops" } } }"#],
    );
    assert_eq!(sent.len(), 1);
    assert!(answer.get_str("error").unwrap().ends_with("SyntaxError: oops"));
    assert_eq!(numbers.next, 1);
    assert_eq!(debugger.state.physical_probes.len(), 0);
}

#[test]
fn no_location_installs_nothing() {
    let mut debugger = debugger();
    let mut numbers = ProbeNumbers::new();
    let (answer, sent) = run(
        &mut debugger,
        &mut numbers,
        r#"{ "id": "1", "action": "debug_breakpoint_set", "scriptId": "9", "line": 2 }"#,
        &[SOURCE, r#"{ "locations": [] }"#],
    );
    assert_eq!(
        methods(&sent),
        vec!["Debugger.getScriptSource", "Debugger.getPossibleBreakpoints"]
    );
    assert_eq!(answer.get_bool("success"), Some(false));
    assert_eq!(numbers.next, 1);
    assert_eq!(debugger.state.logical_probes.len(), 0);
}

#[test]
fn earlier_locations_are_verified() {
    let mut debugger = debugger();
    let mut numbers = ProbeNumbers::new();
    let before = r#"{ "locations": [ { "scriptId": "9", "lineNumber": 0, "columnNumber": 4 } ] }"#;
    let (answer, sent) = run(
        &mut debugger,
        &mut numbers,
        r#"{ "id": "1", "action": "debug_breakpoint_set", "scriptId": "9", "line": 2, "mode": "before" }"#,
        &[SOURCE, PLACES, before, PLACES, r#"{ "breakpointId": "cdp-1" }"#],
    );
    assert_eq!(
        methods(&sent),
        vec![
            "Debugger.getScriptSource",
            "Debugger.getPossibleBreakpoints",
            "Debugger.getPossibleBreakpoints",
            "Debugger.getPossibleBreakpoints",
            "Debugger.setBreakpoint"
        ]
    );
    let place = sent[4].params.as_ref().unwrap().get("location").unwrap();
    assert_eq!(place.get_u64("lineNumber"), Some(0));
    assert_eq!(answer.get_bool("success"), Some(true));
    let (refused, _) = run(
        &mut debugger,
        &mut numbers,
        r#"{ "id": "2", "action": "debug_breakpoint_set", "scriptId": "9", "line": 2, "mode": "before" }"#,
        &[SOURCE, PLACES, before, r#"{ "locations": [] }"#],
    );
    assert_eq!(refused.get_bool("success"), Some(false));
}

#[test]
fn a_page_that_moved_on_gets_its_breakpoint_removed() {
    let mut debugger = debugger();
    let mut numbers = ProbeNumbers::new();
    let command = json(
        r#"{ "id": "1", "action": "debug_breakpoint_set", "scriptId": "9", "line": 2 }"#,
    );
    let mut progress = debugger.execute_fast(5, &command, &None, &None);
    for text in [SOURCE, PLACES] {
        if let Progress::Wait(execution) = progress {
            progress = debugger.advance(execution, &mut numbers, 6, &reply(text));
        } else {
            panic!("the command ended early");
        }
    }
    debugger.state.handle_event(
        7,
        1,
        &event("Runtime.executionContextsCleared", "s1", "{}"),
    );
    if let Progress::Wait(execution) = progress {
        assert_eq!(request(&execution).method, "Debugger.setBreakpoint");
        progress = debugger.advance(
            execution,
            &mut numbers,
            8,
            &reply(r#"{ "breakpointId": "cdp-1" }"#),
        );
    }
    if let Progress::Wait(execution) = progress {
        let request = request(&execution);
        assert_eq!(request.method, "Debugger.removeBreakpoint");
        assert_eq!(request.params.unwrap().get_str("breakpointId"), Some("cdp-1"));
        progress = debugger.advance(execution, &mut numbers, 9, &reply("{}"));
    }
    match progress {
        Progress::Answer(answer) => assert_eq!(answer.get_bool("success"), Some(false)),
        Progress::Wait(_) => panic!("the command waits"),
    }
    assert_eq!(debugger.state.physical_probes.len(), 0);
}

const LOGPOINT: &str = r#"{ "id": "1", "action": "debug_logpoint_set", "scriptId": "9", "line": 2, "expressions": ["b"], "tags": { "phase": "x" } }"#;

fn with_logpoint(debugger: &mut DebuggerController, numbers: &mut ProbeNumbers) -> Vec<Request> {
    let (answer, sent) = run(
        debugger,
        numbers,
        LOGPOINT,
        &["{}", SOURCE, PLACES, "{}", r#"{ "breakpointId": "cdp-1" }"#],
    );
    assert_eq!(answer.get_bool("success"), Some(true));
    sent
}

fn call(debugger: &DebuggerController, nonce: &str, binding: &str) -> CdpEvent {
    let payload = Json::object()
        .with("nonce", Json::text(nonce))
        .with("probeId", Json::text("probe-1-1"))
        .with("physicalBindingId", Json::text(binding))
        .with("values", json(r#"[ { "expression": "b", "value": 2 } ]"#));
    CdpEvent {
        method: "Runtime.bindingCalled".to_string(),
        params: Json::object()
            .with("name", Json::text(&debugger.state.binding_name))
            .with(
                "payload",
                Json::text(&agent_browser_core::interop::json_text(&payload)),
            )
            .with("executionContextId", Json::Uint(4)),
        session_id: Some("s1".to_string()),
    }
}

#[test]
fn a_logpoint_brings_its_binding_and_reports_hits() {
    let mut debugger = debugger();
    let mut numbers = ProbeNumbers::new();
    let sent = with_logpoint(&mut debugger, &mut numbers);
    assert_eq!(
        methods(&sent),
        vec![
            "Runtime.compileScript",
            "Debugger.getScriptSource",
            "Debugger.getPossibleBreakpoints",
            "Runtime.addBinding",
            "Debugger.setBreakpoint"
        ]
    );
    assert_eq!(debugger.state.binding_sessions, vec!["s1"]);
    let nonce = debugger.state.binding_nonce.clone();
    let genuine = call(&debugger, &nonce, "physical-1-2");
    assert!(debugger.state.handle_event(7, 1, &genuine));
    let hit = debugger.state.events.back().unwrap();
    assert_eq!(hit.kind, "logpoint-hit");
    assert_eq!(hit.data.get_str("scriptId"), Some("9"));
    assert_eq!(hit.data.get("tags").unwrap().get_str("phase"), Some("x"));
    assert_eq!(hit.data.get_array("values").unwrap().len(), 1);
}

#[test]
fn forged_calls_are_rejected() {
    let mut debugger = debugger();
    let mut numbers = ProbeNumbers::new();
    with_logpoint(&mut debugger, &mut numbers);
    let nonce = debugger.state.binding_nonce.clone();
    for forged in [
        call(&debugger, "guess", "physical-1-2"),
        call(&debugger, &nonce, "physical-1-9"),
    ] {
        assert!(debugger.state.handle_event(7, 1, &forged));
        let event = debugger.state.events.back().unwrap();
        assert_eq!(event.kind, "logpoint-rejected");
        assert_eq!(
            event.data.get_str("reason"),
            Some("binding-validation-failed")
        );
    }
    let mut garbage = call(&debugger, &nonce, "physical-1-2");
    garbage.params = garbage.params.with("payload", Json::text("{"));
    debugger.state.handle_event(8, 1, &garbage);
    assert_eq!(
        debugger.state.events.back().unwrap().data.get_str("reason"),
        Some("invalid-json-payload")
    );
    let mut long = call(&debugger, &nonce, "physical-1-2");
    long.params = long.params.with("payload", Json::text(&"x".repeat(70_000)));
    debugger.state.handle_event(8, 1, &long);
    assert_eq!(
        debugger.state.events.back().unwrap().data.get_str("reason"),
        Some("payload-too-large")
    );
}

#[test]
fn the_last_logpoint_takes_the_binding() {
    let mut debugger = debugger();
    let mut numbers = ProbeNumbers::new();
    with_logpoint(&mut debugger, &mut numbers);
    let (answer, sent) = run(
        &mut debugger,
        &mut numbers,
        r#"{ "id": "2", "action": "debug_logpoint_remove", "probeId": "probe-1-1" }"#,
        &["error: gone", "{}", "{}"],
    );
    assert_eq!(
        methods(&sent),
        vec!["Debugger.removeBreakpoint", "Runtime.evaluate", "Runtime.removeBinding"]
    );
    let data = answer.get("data").unwrap();
    assert_eq!(data.get_bool("removed"), Some(true));
    assert_eq!(data.get_array("cleanupErrors").unwrap()[0].as_str(), Some("gone"));
    assert_eq!(debugger.state.binding_sessions.len(), 0);
    assert_eq!(debugger.state.logical_probes.len(), 0);
    assert_eq!(debugger.state.physical_probes.len(), 0);
    assert_eq!(debugger.state.physical_by_cdp_breakpoint.len(), 0);
    let (unknown, _) = run(
        &mut debugger,
        &mut numbers,
        r#"{ "id": "3", "action": "debug_logpoint_remove", "probeId": "probe-1-1" }"#,
        &[],
    );
    assert_eq!(
        unknown.get_str("error"),
        Some("Unknown logpoint 'probe-1-1'")
    );
}

#[test]
fn contexts_take_their_installations() {
    let mut debugger = debugger();
    let mut numbers = ProbeNumbers::new();
    with_logpoint(&mut debugger, &mut numbers);
    debugger.state.handle_event(
        8,
        1,
        &event(
            "Runtime.executionContextDestroyed",
            "s1",
            r#"{ "executionContextId": 4 }"#,
        ),
    );
    assert_eq!(debugger.state.physical_probes.len(), 0);
    let probe = debugger.state.logical_probes.get("probe-1-1").unwrap();
    assert_eq!(probe.physical_ids.len(), 0);
    assert_eq!(probe.status, "execution-context-destroyed");
}

#[test]
fn a_lost_connection_leaves_stale_probes() {
    let mut debugger = debugger();
    let mut numbers = ProbeNumbers::new();
    with_logpoint(&mut debugger, &mut numbers);
    debugger.detach_browser(9, "browser-closed");
    assert_eq!(debugger.state.physical_probes.len(), 0);
    let probe = debugger.state.logical_probes.get("probe-1-1").unwrap();
    assert_eq!(probe.status, "stale");
    assert_eq!(probe.physical_ids.len(), 0);
}

#[test]
fn disabling_takes_probes_away() {
    let mut debugger = debugger();
    let mut numbers = ProbeNumbers::new();
    with_logpoint(&mut debugger, &mut numbers);
    let (answer, sent) = run(
        &mut debugger,
        &mut numbers,
        r#"{ "id": "2", "action": "debug_disable" }"#,
        &["error: context is gone", "{}", "{}"],
    );
    assert_eq!(
        methods(&sent),
        vec!["Runtime.evaluate", "Runtime.removeBinding", "Debugger.disable"]
    );
    assert_eq!(answer.get_bool("success"), Some(true));
    assert_eq!(debugger.state.logical_probes.len(), 0);
    assert_eq!(debugger.state.binding_sessions.len(), 0);
    assert!(debugger
        .state
        .events
        .iter()
        .any(|e| e.kind == "binding-residue"));
}

#[test]
fn unresolved_owners_rebind_nothing() {
    let mut debugger = debugger();
    let mut numbers = ProbeNumbers::new();
    let (answer, _) = run(
        &mut debugger,
        &mut numbers,
        r#"{ "id": "1", "action": "debug_breakpoint_set", "scriptId": "9", "line": 2, "persist": true }"#,
        &[SOURCE, PLACES, r#"{ "breakpointId": "cdp-1" }"#],
    );
    assert_eq!(
        answer.get("data").unwrap().get_str("status"),
        Some("bound-awaiting-owner-evidence")
    );
    debugger.state.handle_event(
        7,
        1,
        &event(
            "Debugger.scriptParsed",
            "s1",
            r#"{ "scriptId": "10", "url": "https://a/x.js", "executionContextId": 4 }"#,
        ),
    );
    let rebinds = debugger.state.reconcile_persistent_probes(1, "s1", "10");
    assert_eq!(rebinds.len(), 0);
    assert_eq!(
        debugger.state.logical_probes.get("probe-1-1").unwrap().status,
        "awaiting-owner-evidence"
    );
}

#[test]
fn resolved_owners_rebind_persistent_probes() {
    let mut debugger = debugger();
    let mut numbers = ProbeNumbers::new();
    run(
        &mut debugger,
        &mut numbers,
        r#"{ "id": "1", "action": "debug_breakpoint_set", "scriptId": "9", "line": 2, "persist": true }"#,
        &[SOURCE, PLACES, r#"{ "breakpointId": "cdp-1" }"#],
    );
    debugger.state.handle_event(
        7,
        1,
        &event(
            "Debugger.scriptParsed",
            "s1",
            r#"{ "scriptId": "10", "url": "https://a/x.js", "executionContextId": 4 }"#,
        ),
    );
    let last = debugger.state.scripts.len() - 1;
    let owner = json(r#"{ "status": "resolved", "ownerId": null }"#);
    let record = debugger.state.scripts[last].record.clone();
    debugger.state.scripts[last].record = record.with("runtimeOwner", owner);
    let rebinds = debugger.state.reconcile_persistent_probes(1, "s1", "10");
    assert_eq!(rebinds.len(), 1);
    assert_eq!(rebinds[0].probe_id, "probe-1-1");
    assert_eq!(rebinds[0].command.get_str("rebindProbeId"), Some("probe-1-1"));
    assert_eq!(rebinds[0].command.get_str("scriptId"), Some("10"));
    assert_eq!(rebinds[0].command.get_u64("line"), Some(2));
    let command = rebinds[0]
        .command
        .clone()
        .with("id", Json::text("2"))
        .with("action", Json::text("debug_breakpoint_set"));
    let text = agent_browser_core::interop::json_text(&command);
    let (answer, _) = run(
        &mut debugger,
        &mut numbers,
        &text,
        &[SOURCE, PLACES, r#"{ "breakpointId": "cdp-2" }"#],
    );
    assert_eq!(answer.get("data").unwrap().get_str("status"), Some("rebound"));
    let probe = debugger.state.logical_probes.get("probe-1-1").unwrap();
    assert_eq!(probe.physical_ids, vec!["physical-1-2", "physical-1-3"]);
    assert_eq!(
        debugger
            .state
            .reconcile_persistent_probes(1, "s1", "10")
            .len(),
        0
    );
}

#[test]
fn other_connections_and_documents_inherit_no_probe() {
    for part in ["connectionGeneration", "documentGeneration"] {
        let mut debugger = debugger();
        let mut numbers = ProbeNumbers::new();
        run(
            &mut debugger,
            &mut numbers,
            r#"{ "id": "1", "action": "debug_breakpoint_set", "scriptId": "9", "line": 2, "persist": true }"#,
            &[SOURCE, PLACES, r#"{ "breakpointId": "cdp-1" }"#],
        );
        debugger.state.handle_event(
            7,
            1,
            &event(
                "Debugger.scriptParsed",
                "s1",
                r#"{ "scriptId": "10", "url": "https://a/x.js", "executionContextId": 4 }"#,
            ),
        );
        let last = debugger.state.scripts.len() - 1;
        let owner = json(r#"{ "status": "resolved", "ownerId": null }"#);
        let record = debugger.state.scripts[last].record.clone();
        debugger.state.scripts[last].record = record.with("runtimeOwner", owner);
        let mut probe = debugger.state.logical_probes.get("probe-1-1").unwrap().clone();
        probe.target = probe.target.with(part, Json::Uint(7));
        debugger
            .state
            .logical_probes
            .insert("probe-1-1".to_string(), probe);
        let rebinds = debugger.state.reconcile_persistent_probes(1, "s1", "10");
        assert_eq!(rebinds.len(), 0);
    }
}

#[test]
fn failed_rebindings_are_noted() {
    let mut debugger = debugger();
    let mut numbers = ProbeNumbers::new();
    run(
        &mut debugger,
        &mut numbers,
        r#"{ "id": "1", "action": "debug_breakpoint_set", "scriptId": "9", "line": 2, "persist": true }"#,
        &[SOURCE, PLACES, r#"{ "breakpointId": "cdp-1" }"#],
    );
    debugger
        .state
        .note_rebind_failure(9, "s1", "10", "probe-1-1", "no location");
    let probe = debugger.state.logical_probes.get("probe-1-1").unwrap();
    assert_eq!(probe.status, "rebind-failed");
    assert_eq!(probe.physical_ids, vec!["physical-1-2"]);
    let last = debugger.state.events.back().unwrap();
    assert_eq!(last.kind, "probe-rebind-failed");
    assert_eq!(last.data.get_str("error"), Some("no location"));

    let known = debugger.state.logical_probes.len();
    debugger
        .state
        .note_rebind_failure(9, "s1", "10", "probe-1-9", "no location");
    assert_eq!(debugger.state.logical_probes.len(), known);
}

#[test]
fn probes_are_listed_by_kind_and_removed_once() {
    let mut debugger = debugger();
    let mut numbers = ProbeNumbers::new();
    for id in ["cdp-1", "cdp-2"] {
        run(
            &mut debugger,
            &mut numbers,
            r#"{ "id": "1", "action": "debug_breakpoint_set", "scriptId": "9", "line": 2 }"#,
            &[SOURCE, PLACES, &format!(r#"{{ "breakpointId": "{}" }}"#, id)],
        );
    }
    let (listed, _) = run(
        &mut debugger,
        &mut numbers,
        r#"{ "id": "2", "action": "debug_breakpoint_list" }"#,
        &[],
    );
    let probes = listed.get("data").unwrap().get_array("probes").unwrap();
    assert_eq!(probes.len(), 2);
    assert_eq!(probes[0].get_str("probeId"), Some("probe-1-1"));
    assert_eq!(probes[1].get_str("probeId"), Some("probe-1-3"));
    let (listed, _) = run(
        &mut debugger,
        &mut numbers,
        r#"{ "id": "3", "action": "debug_logpoint_list" }"#,
        &[],
    );
    assert!(listed
        .get("data")
        .unwrap()
        .get_array("probes")
        .unwrap()
        .is_empty());

    let remove = r#"{ "id": "4", "action": "debug_breakpoint_remove", "probeId": "probe-1-1" }"#;
    let (removed, sent) = run(&mut debugger, &mut numbers, remove, &["error: already gone"]);
    assert_eq!(methods(&sent), vec!["Debugger.removeBreakpoint"]);
    let data = removed.get("data").unwrap();
    assert_eq!(data.get_bool("removed"), Some(true));
    let errors = data.get_array("cleanupErrors").unwrap();
    assert_eq!(errors[0].as_str(), Some("already gone"));
    assert!(debugger.state.physical_by_cdp_breakpoint.get("cdp-1").is_none());
    assert!(debugger.state.physical_by_cdp_breakpoint.get("cdp-2").is_some());

    let (again, _) = run(&mut debugger, &mut numbers, remove, &[]);
    assert_eq!(
        again.get_str("error"),
        Some("Unknown breakpoint 'probe-1-1'")
    );
}

#[test]
fn a_new_connection_keeps_stale_probes() {
    let mut debugger = debugger();
    let mut numbers = ProbeNumbers::new();
    with_logpoint(&mut debugger, &mut numbers);
    debugger.attach_browser(9, &vec![], None);
    assert_eq!(debugger.state.connection_generation, 2);
    assert_eq!(debugger.state.physical_probes.len(), 0);
    assert_eq!(debugger.state.physical_by_cdp_breakpoint.len(), 0);
    let probe = debugger.state.logical_probes.get("probe-1-1").unwrap();
    assert_eq!(probe.status, "stale");
    assert_eq!(probe.physical_ids.len(), 0);
}
