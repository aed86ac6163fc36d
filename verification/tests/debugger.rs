use agent_browser_core::controller::{ControllerState, MAX_DEBUG_EVENTS};
use agent_browser_core::dispatch::{succeeded, Action, DebuggerController, Progress};
use agent_browser_core::events::{runtime_owner, sort_unique};
use agent_browser_core::interop::parse_json;
use agent_browser_core::json::Json;
use agent_browser_core::policy::{fast_policy_categories, PolicyResult};
use agent_browser_core::probe_set::ProbeNumbers;
use agent_browser_core::queries::resolve_pause;
use agent_browser_core::records::{CdpEvent, PageInfo, PauseRecord};

fn json(text: &str) -> Json {
    parse_json(text).unwrap()
}

fn page(tab_id: u32, target_id: &str, session_id: &str) -> PageInfo {
    PageInfo {
        tab_id,
        target_id: target_id.to_string(),
        session_id: session_id.to_string(),
    }
}

fn event(method: &str, session: &str, params: &str) -> CdpEvent {
    CdpEvent {
        method: method.to_string(),
        params: json(params),
        session_id: Some(session.to_string()),
    }
}

fn attached() -> DebuggerController {
    let mut debugger = DebuggerController::new();
    debugger.attach_browser(
        1,
        &vec![page(1, "target-1", "s1"), page(2, "target-2", "s2")],
        Some(1),
    );
    debugger
}

fn answer(progress: Progress) -> Json {
    match progress {
        Progress::Answer(answer) => answer,
        Progress::Wait(_) => panic!("the command waits"),
    }
}

fn run(
    debugger: &mut DebuggerController,
    command: &str,
    replies: Vec<Result<&str, &str>>,
) -> (Json, Vec<(String, String)>) {
    let mut numbers = ProbeNumbers::new();
    let mut sent = Vec::new();
    let mut replies = replies.into_iter();
    let mut progress = debugger.execute_fast(5, &json(command), &None, &None);
    loop {
        match progress {
            Progress::Answer(answer) => return (answer, sent),
            Progress::Wait(execution) => {
                let request = match execution.action() {
                    Action::Send(request) => request,
                    Action::Listen(_) => panic!("the command listens"),
                };
                sent.push((request.method, request.session_id));
                let reply = match replies.next().unwrap() {
                    Ok(text) => Ok(json(text)),
                    Err(text) => Err(text.to_string()),
                };
                progress = debugger.advance(execution, &mut numbers, 6, &reply);
            }
        }
    }
}

fn pause(index: usize, session_id: &str) -> PauseRecord {
    PauseRecord {
        pause_id: format!("pause-1-{}", index + 1),
        connection_generation: 1,
        tab_id: format!("t{}", index + 1),
        session_id: session_id.to_string(),
        document_generation: 1,
        reason: "other".to_string(),
        hit_breakpoints: Vec::new(),
        probe_ids: Vec::new(),
        call_frames: Vec::new(),
        data: None,
    }
}

fn two_pauses() -> ControllerState {
    let mut state = ControllerState::initial();
    for (index, session_id) in ["s1", "s2"].iter().enumerate() {
        state
            .paused_sessions
            .insert(session_id.to_string(), pause(index, session_id));
    }
    state
}

#[test]
fn multiple_pauses_require_an_explicit_selector() {
    let state = two_pauses();
    let error = resolve_pause(&state, &json("{}")).err().unwrap();
    assert!(error.contains("specify --tab, --session, or --pause-id"));
    assert_eq!(
        resolve_pause(&state, &json(r#"{ "tabId": "t2" }"#))
            .ok()
            .unwrap()
            .session_id,
        "s2"
    );
}

#[test]
fn pauses_are_selected_in_three_ways() {
    let state = two_pauses();
    let by = |command: &str| resolve_pause(&state, &json(command)).map(|p| p.session_id.clone());
    assert_eq!(by(r#"{ "pauseId": "pause-1-1" }"#), Ok("s1".to_string()));
    assert_eq!(by(r#"{ "sessionId": "s2" }"#), Ok("s2".to_string()));
    assert_eq!(
        by(r#"{ "pauseId": "gone" }"#),
        Err("Unknown or stale pause ID 'gone'".to_string())
    );
    assert_eq!(
        by(r#"{ "sessionId": "s3" }"#),
        Err("Session 's3' is not paused".to_string())
    );
    assert_eq!(
        by(r#"{ "tabId": "t9" }"#),
        Err("Tab 't9' is not paused".to_string())
    );
    assert_eq!(
        by(r#"{ "tabId": "t1", "sessionId": "s1" }"#),
        Err("Use exactly one of pause ID, tab ID, or CDP session ID".to_string())
    );
    assert_eq!(
        by("{}"),
        Err(
            "2 JavaScript sessions are paused; specify --tab, --session, or --pause-id".to_string()
        )
    );
    let none = ControllerState::initial();
    assert_eq!(
        resolve_pause(&none, &json("{}")).err().unwrap(),
        "No JavaScript session is paused"
    );
    let mut one = ControllerState::initial();
    one.paused_sessions.insert("s1".to_string(), pause(0, "s1"));
    assert_eq!(
        resolve_pause(&one, &json("{}")).ok().unwrap().pause_id,
        "pause-1-1"
    );
}

#[test]
fn event_ring_reports_evicted_sequence() {
    let mut state = ControllerState::initial();
    for _ in 0..=MAX_DEBUG_EVENTS {
        state.push_event(0, "test", None, Json::object());
    }
    assert_eq!(state.events.len(), MAX_DEBUG_EVENTS);
    assert_eq!(state.dropped_through_sequence, Some(1));
}

#[test]
fn event_ring_is_bounded_by_bytes() {
    let mut state = ControllerState::initial();
    let long = "x".repeat(3_000_000);
    for _ in 0..4 {
        state.push_event(0, "test", None, Json::object().with("text", Json::text(&long)));
    }
    assert_eq!(state.events.len(), 2);
    assert!(state.event_bytes <= 8_388_608);
    assert_eq!(state.dropped_through_sequence, Some(2));
    assert_eq!(state.latest_sequence, 4);
    state.push_event(0, "test", None, Json::text(&"y".repeat(9_000_000)));
    assert_eq!(state.events.len(), 0);
    assert_eq!(state.event_bytes, 0);
    assert_eq!(state.dropped_through_sequence, Some(5));
}

#[test]
fn events_are_read_behind_a_cursor() {
    let mut state = ControllerState::initial();
    for kind in ["a", "b", "c"] {
        state.push_event(7, kind, None, Json::object());
    }
    let answer = state.events(&json(r#"{ "since": 1 }"#));
    let events = answer.get_array("events").unwrap();
    assert_eq!(events.len(), 2);
    assert_eq!(events[0].get_str("type"), Some("b"));
    assert_eq!(events[0].get_u64("sequence"), Some(2));
    assert_eq!(answer.get_u64("oldestSequence"), Some(1));
    assert_eq!(answer.get_u64("latestSequence"), Some(3));
    assert_eq!(answer.get_bool("gap"), Some(false));
    let cleared = state.events(&json(r#"{ "clear": true }"#));
    assert_eq!(cleared.get_array("events").unwrap().len(), 3);
    assert_eq!(state.events.len(), 0);
    assert_eq!(state.latest_sequence, 3);
    let empty = state.events(&json("{}"));
    assert!(matches!(empty.get("oldestSequence"), Some(Json::Null)));
}

#[test]
fn dropped_events_are_reported_as_a_gap() {
    let mut state = ControllerState::initial();
    for _ in 0..=MAX_DEBUG_EVENTS {
        state.push_event(0, "test", None, Json::object());
    }
    let old = state.events(&json(r#"{ "since": 0 }"#));
    assert_eq!(old.get_bool("bufferGap"), Some(true));
    assert_eq!(old.get_bool("gap"), Some(true));
    assert_eq!(old.get_u64("droppedThroughSequence"), Some(1));
    let recent = state.events(&json(r#"{ "since": 2 }"#));
    assert_eq!(recent.get_bool("bufferGap"), Some(false));
    assert_eq!(
        recent.get_array("events").unwrap().len(),
        MAX_DEBUG_EVENTS - 1
    );
}

#[test]
fn transport_gap_records_a_distinct_cursor() {
    let mut controller = DebuggerController::new();
    controller.state.connection_generation = 7;
    assert!(controller.state.record_transport_gap(0, 7, 3));
    let state = &controller.state;
    assert_eq!(state.last_transport_gap_sequence, Some(1));
    assert_eq!(state.events[0].to_json().get_str("type"), Some("transport-gap"));
    assert_eq!(
        state.events[0]
            .to_json()
            .get("data")
            .unwrap()
            .get_u64("droppedEventCount"),
        Some(3)
    );
}

#[test]
fn transport_gaps_of_another_connection_are_ignored() {
    let mut controller = DebuggerController::new();
    controller.state.connection_generation = 7;
    assert!(!controller.state.record_transport_gap(0, 6, 3));
    assert_eq!(controller.state.latest_sequence, 0);
    controller.state.record_transport_gap(0, 7, 3);
    let before = controller.state.events(&json(r#"{ "since": 0 }"#));
    assert_eq!(before.get_bool("transportGap"), Some(true));
    assert_eq!(before.get_bool("bufferGap"), Some(false));
    let behind = controller.state.events(&json(r#"{ "since": 1 }"#));
    assert_eq!(behind.get_bool("transportGap"), Some(false));
}

#[test]
fn runtime_owner_does_not_infer_host_from_default_context() {
    let owner = runtime_owner(&json(
        r#"{ "executionContextAuxData": { "isDefault": true, "frameId": "frame-1" } }"#,
    ));
    assert_eq!(owner.get_str("status"), Some("unknown"));
    assert!(matches!(owner.get("ownerId"), Some(Json::Null)));
    let evidence = owner.get_array("evidence").unwrap();
    assert!(evidence
        .iter()
        .any(|e| e.same(&json(r#"{ "kind": "execution-context-default" }"#))));
    assert!(evidence
        .iter()
        .any(|e| e.same(&json(r#"{ "kind": "frame-id", "value": "frame-1" }"#))));

    let unknown = runtime_owner(&json(
        r#"{ "executionContextAuxData": { "isDefault": false, "frameId": "frame-1" } }"#,
    ));
    assert_eq!(unknown.get_str("status"), Some("unknown"));
    assert!(matches!(unknown.get("ownerId"), Some(Json::Null)));
}

#[test]
fn logpoints_and_conditional_breakpoints_require_evaluate_policy() {
    assert_eq!(
        fast_policy_categories(&json(r#"{ "action": "debug_logpoint_set" }"#)),
        vec!["debug.control", "evaluate"]
    );
    assert_eq!(
        fast_policy_categories(&json(
            r#"{ "action": "debug_breakpoint_set", "condition": "ready" }"#
        )),
        vec!["debug.control", "evaluate"]
    );
    assert_eq!(
        fast_policy_categories(&json(r#"{ "action": "debug_breakpoint_set" }"#)),
        vec!["debug.control"]
    );
}

#[test]
fn categories_of_the_other_commands() {
    let of = |action: &str| fast_policy_categories(&Json::object().with("action", Json::text(action)));
    assert_eq!(of("debug_eval"), vec!["evaluate"]);
    assert_eq!(of("debug_status"), vec!["debug.inspect"]);
    assert_eq!(of("debug_resume"), vec!["debug.control"]);
    assert_eq!(
        fast_policy_categories(&json(
            r#"{ "action": "debug_breakpoint_set", "condition": "  \t " }"#
        )),
        vec!["debug.control"]
    );
}

#[test]
fn attaching_gives_the_connection_a_secret_of_its_own() {
    let debugger = attached();
    let state = &debugger.state;
    assert!(state.binding_name.starts_with("__agent_browser_debug_hit_"));
    assert_eq!(
        state.binding_name.len(),
        "__agent_browser_debug_hit_".len() + 32
    );
    assert_eq!(state.binding_nonce.len(), 32);
    assert!(state.binding_nonce.chars().all(|c| c.is_ascii_hexdigit()));
    assert_ne!(
        attached().state.binding_nonce,
        state.binding_nonce
    );
    assert_eq!(state.connection_generation, 1);
    assert_eq!(state.active_session, Some("s1".to_string()));
    let kinds: Vec<&str> = state.events.iter().map(|e| e.kind.as_str()).collect();
    assert_eq!(
        kinds,
        vec!["connection-attached", "target-attached", "target-attached"]
    );
}

#[test]
fn a_denial_counts_before_a_confirmation() {
    let mut debugger = attached();
    let command = json(r#"{ "id": "7", "action": "debug_logpoint_set" }"#);
    let denied = answer(debugger.execute_fast(
        2,
        &command,
        &Some(vec![
            PolicyResult::RequiresConfirmation,
            PolicyResult::Deny("not here".to_string()),
        ]),
        &Some(vec![true, true]),
    ));
    assert_eq!(denied.get_bool("success"), Some(false));
    assert_eq!(denied.get_str("error"), Some("not here"));
    assert!(debugger.pending_confirmation.is_none());
}

#[test]
fn a_confirmed_command_runs_once() {
    let mut debugger = attached();
    let command = json(r#"{ "id": "7", "action": "debug_status" }"#);
    let asked = answer(debugger.execute_fast(
        2,
        &command,
        &Some(vec![PolicyResult::RequiresConfirmation]),
        &None,
    ));
    let data = asked.get("data").unwrap();
    assert_eq!(data.get_bool("confirmation_required"), Some(true));
    assert_eq!(data.get_str("confirmation_id"), Some("7"));
    assert_eq!(data.get_str("action"), Some("debug.inspect"));
    let confirm = json(r#"{ "id": "8", "action": "confirm", "confirmationId": "7" }"#);
    assert!(debugger.has_pending_confirmation(&confirm));
    let done = answer(debugger.execute_fast(3, &confirm, &None, &None));
    assert_eq!(done.get_str("id"), Some("8"));
    let data = done.get("data").unwrap();
    assert_eq!(data.get_bool("confirmed"), Some(true));
    assert_eq!(data.get("result").unwrap().get_str("id"), Some("7"));
    let again = answer(debugger.execute_fast(4, &confirm, &None, &None));
    assert_eq!(
        again.get_str("error"),
        Some("No matching pending debugger confirmation")
    );
}

#[test]
fn a_denied_confirmation_drops_the_command() {
    let mut debugger = attached();
    let command = json(r#"{ "id": "7", "action": "debug_enable" }"#);
    answer(debugger.execute_fast(2, &command, &None, &Some(vec![true])));
    let deny = json(r#"{ "id": "8", "action": "deny", "confirmationId": "7" }"#);
    let dropped = answer(debugger.execute_fast(3, &deny, &None, &None));
    assert_eq!(dropped.get("data").unwrap().get_bool("denied"), Some(true));
    assert!(debugger.pending_confirmation.is_none());
    assert_eq!(debugger.state.enabled_sessions.len(), 0);
}

#[test]
fn enabling_asks_for_three_domains() {
    let mut debugger = attached();
    let (answer, sent) = run(
        &mut debugger,
        r#"{ "id": "1", "action": "debug_enable" }"#,
        vec![Ok("{}"), Ok(r#"{ "debuggerId": "d" }"#), Err("no page events")],
    );
    let methods: Vec<&str> = sent.iter().map(|(m, _)| m.as_str()).collect();
    assert_eq!(
        methods,
        vec!["Runtime.enable", "Debugger.enable", "Page.enable"]
    );
    assert!(sent.iter().all(|(_, s)| s == "s1"));
    assert_eq!(answer.get_bool("success"), Some(true));
    assert_eq!(debugger.state.enabled_sessions, vec!["s1"]);
}

#[test]
fn a_failed_enabling_is_undone() {
    let mut debugger = attached();
    let (answer, _) = run(
        &mut debugger,
        r#"{ "id": "1", "action": "debug_enable" }"#,
        vec![Ok("{}"), Err("refused")],
    );
    assert_eq!(answer.get_str("error"), Some("refused"));
    assert_eq!(debugger.state.enabled_sessions.len(), 0);
}

#[test]
fn other_engines_cannot_be_debugged() {
    let mut debugger = attached();
    debugger.set_engine("webkit");
    let (answer, sent) = run(
        &mut debugger,
        r#"{ "id": "1", "action": "debug_enable" }"#,
        vec![],
    );
    assert_eq!(
        answer.get_str("error"),
        Some("Compiled JavaScript debugging is only supported with the Chrome engine; current engine is webkit")
    );
    assert_eq!(sent.len(), 0);
}

#[test]
fn two_selectors_are_one_too_many() {
    let mut debugger = attached();
    let (answer, _) = run(
        &mut debugger,
        r#"{ "id": "1", "action": "debug_enable", "allTabs": true, "tabId": "t1" }"#,
        vec![],
    );
    assert_eq!(
        answer.get_str("error"),
        Some("allTabs cannot be combined with a page or pause selector")
    );
}

#[test]
fn pauses_come_and_go_with_events() {
    let mut debugger = attached();
    let paused = event(
        "Debugger.paused",
        "s1",
        r#"{ "reason": "other", "callFrames": [ { "callFrameId": "f0" }, { "callFrameId": "f1" } ] }"#,
    );
    assert!(debugger.state.handle_event(2, 1, &paused));
    assert_eq!(debugger.paused_session_ids(), vec!["s1"]);
    let record = debugger.active_tab_paused().unwrap();
    assert_eq!(record.get_str("pauseId"), Some("pause-1-4"));
    assert_eq!(record.get_str("tabId"), Some("t1"));
    let (answer, sent) = run(
        &mut debugger,
        r#"{ "id": "1", "action": "debug_eval", "expression": "x", "frame": 1 }"#,
        vec![Ok(r#"{ "result": { "value": 3 } }"#)],
    );
    assert_eq!(sent[0].0, "Debugger.evaluateOnCallFrame");
    assert_eq!(
        answer.get("data").unwrap().get_str("callFrameId"),
        Some("f1")
    );
    let (refused, _) = run(
        &mut debugger,
        r#"{ "id": "2", "action": "debug_eval", "expression": "x", "callFrameId": "f9" }"#,
        vec![],
    );
    assert_eq!(
        refused.get_str("error"),
        Some("Call frame 'f9' does not belong to pause pause-1-4")
    );
    assert!(debugger
        .state
        .handle_event(3, 1, &event("Debugger.resumed", "s1", "{}")));
    assert_eq!(debugger.paused_session_ids().len(), 0);
}

#[test]
fn events_of_another_connection_change_nothing() {
    let mut debugger = attached();
    let before = debugger.state.latest_sequence;
    let paused = event("Debugger.paused", "s1", "{}");
    assert!(!debugger.state.handle_event(2, 2, &paused));
    assert_eq!(debugger.paused_session_ids().len(), 0);
    assert_eq!(debugger.state.latest_sequence, before);
}

#[test]
fn navigation_drops_pauses_and_scripts() {
    let mut debugger = attached();
    debugger.state.enabled_sessions.push("s1".to_string());
    let commit = |loader: &str| {
        event(
            "Page.frameNavigated",
            "s1",
            &format!(r#"{{ "frame": {{ "loaderId": "{}", "url": "https://a/" }} }}"#, loader),
        )
    };
    debugger.state.handle_event(2, 1, &commit("L1"));
    let parsed = event(
        "Debugger.scriptParsed",
        "s1",
        r#"{ "scriptId": "9", "url": "https://a/x.js", "executionContextId": 1 }"#,
    );
    debugger.state.handle_event(3, 1, &parsed);
    debugger
        .state
        .handle_event(4, 1, &event("Debugger.paused", "s1", "{}"));
    assert_eq!(debugger.state.scripts.len(), 1);
    debugger.state.handle_event(5, 1, &commit("L2"));
    assert_eq!(debugger.state.scripts.len(), 0);
    assert_eq!(debugger.paused_session_ids().len(), 0);
    assert_eq!(
        debugger.state.sessions.get("s1").unwrap().document_generation,
        2
    );
    let kinds: Vec<&str> = debugger
        .state
        .events
        .iter()
        .map(|e| e.kind.as_str())
        .collect();
    assert_eq!(
        &kinds[kinds.len() - 2..],
        &["document-invalidated", "document-committed"]
    );
}

#[test]
fn a_detached_target_leaves_nothing() {
    let mut debugger = attached();
    debugger.state.enabled_sessions.push("s2".to_string());
    debugger
        .state
        .handle_event(2, 1, &event("Debugger.paused", "s2", "{}"));
    let detached = CdpEvent {
        method: "Target.detachedFromTarget".to_string(),
        params: json(r#"{ "sessionId": "s2" }"#),
        session_id: None,
    };
    assert!(debugger.state.handle_event(3, 1, &detached));
    assert!(debugger.state.sessions.get("s2").is_none());
    assert_eq!(debugger.state.enabled_sessions.len(), 0);
    assert_eq!(debugger.paused_session_ids().len(), 0);
}

#[test]
fn closed_pages_are_dropped_and_new_ones_reported() {
    let mut debugger = attached();
    debugger.sync_pages(
        2,
        &vec![page(2, "target-2", "s2"), page(3, "target-3", "s3")],
        Some(3),
    );
    assert!(debugger.state.sessions.get("s1").is_none());
    assert_eq!(
        debugger.state.sessions.get("s3").unwrap().tab_id,
        "t3"
    );
    assert_eq!(debugger.state.active_session, Some("s3".to_string()));
    let kinds: Vec<&str> = debugger
        .state
        .events
        .iter()
        .skip(3)
        .map(|e| e.kind.as_str())
        .collect();
    assert_eq!(
        kinds,
        vec!["target-detached", "session-detached", "target-attached"]
    );
}

#[test]
fn detaching_twice_is_detaching_once() {
    let mut debugger = attached();
    assert!(debugger.detach_browser(2, "browser-closed"));
    let sequence = debugger.state.latest_sequence;
    assert!(!debugger.detach_browser(3, "browser-closed"));
    assert_eq!(debugger.state.latest_sequence, sequence);
    assert_eq!(debugger.state.sessions.len(), 0);
    let (answer, _) = run(
        &mut debugger,
        r#"{ "id": "1", "action": "debug_enable" }"#,
        vec![],
    );
    assert_eq!(answer.get_str("error"), Some("Browser not launched"));
}

#[test]
fn paused_pages_are_not_disabled_unless_resumed() {
    let mut debugger = attached();
    debugger.state.enabled_sessions.push("s1".to_string());
    debugger
        .state
        .handle_event(2, 1, &event("Debugger.paused", "s1", "{}"));
    let (refused, _) = run(
        &mut debugger,
        r#"{ "id": "1", "action": "debug_disable" }"#,
        vec![],
    );
    assert_eq!(
        refused.get_str("error"),
        Some("Cannot disable Debugger while 1 session(s) are paused; resume them first or use `debug disable --resume`")
    );
    let (done, sent) = run(
        &mut debugger,
        r#"{ "id": "2", "action": "debug_disable", "resume": true }"#,
        vec![Ok("{}"), Ok("{}")],
    );
    let methods: Vec<&str> = sent.iter().map(|(m, _)| m.as_str()).collect();
    assert_eq!(methods, vec!["Debugger.resume", "Debugger.disable"]);
    assert_eq!(done.get("data").unwrap().get_bool("disabled"), Some(true));
    assert_eq!(debugger.paused_session_ids().len(), 0);
    assert_eq!(debugger.state.enabled_sessions.len(), 0);
}

#[test]
fn sources_are_searched_script_by_script() {
    let mut debugger = attached();
    debugger.state.enabled_sessions.push("s1".to_string());
    for id in ["9", "10"] {
        let parsed = event(
            "Debugger.scriptParsed",
            "s1",
            &format!(r#"{{ "scriptId": "{}", "url": "https://a/{}.js" }}"#, id, id),
        );
        debugger.state.handle_event(2, 1, &parsed);
    }
    let (answer, sent) = run(
        &mut debugger,
        r#"{ "id": "1", "action": "debug_source_search", "query": "aa", "maxResults": 2 }"#,
        vec![
            Ok(r#"{ "scriptSource": "x😀aaa" }"#),
            Ok(r#"{ "scriptSource": "y\naaaa" }"#),
        ],
    );
    assert_eq!(sent.len(), 2);
    assert_eq!(sent[0].0, "Debugger.getScriptSource");
    let matches = answer.get("data").unwrap().get_array("matches").unwrap();
    assert_eq!(matches.len(), 2);
    assert_eq!(matches[0].get_str("scriptId"), Some("10"));
    assert_eq!(matches[0].get_u64("line"), Some(1));
    assert_eq!(matches[0].get_u64("column"), Some(4));
    assert_eq!(matches[0].get_u64("endColumn"), Some(6));
    assert_eq!(matches[0].get_u64("byteOffset"), Some(5));
    assert_eq!(matches[0].get_str("context"), Some("x😀aaa"));
    assert_eq!(matches[1].get_str("scriptId"), Some("9"));
    assert_eq!(matches[1].get_u64("line"), Some(2));
    assert_eq!(matches[1].get_u64("byteOffset"), Some(2));
}

#[test]
fn scripts_are_read_whole() {
    let mut debugger = attached();
    debugger.state.enabled_sessions.push("s1".to_string());
    let parsed = event(
        "Debugger.scriptParsed",
        "s1",
        r#"{ "scriptId": "9", "url": "https://a/x.js", "startLine": 0, "startColumn": 4 }"#,
    );
    debugger.state.handle_event(2, 1, &parsed);
    let (answer, _) = run(
        &mut debugger,
        r#"{ "id": "1", "action": "debug_source", "scriptId": "9" }"#,
        vec![Ok(r#"{ "scriptSource": "let a;" }"#)],
    );
    let data = answer.get("data").unwrap();
    assert_eq!(data.get_str("scriptSource"), Some("let a;"));
    let script = data.get("script").unwrap();
    assert_eq!(script.get_u64("startLine"), Some(1));
    assert_eq!(script.get_u64("startColumn"), Some(5));
    assert_eq!(script.get_bool("rebindable"), Some(false));
    let (unknown, _) = run(
        &mut debugger,
        r#"{ "id": "2", "action": "debug_source", "scriptId": "99" }"#,
        vec![],
    );
    assert_eq!(unknown.get_bool("success"), Some(false));
}

#[test]
fn lists_are_sorted_without_repeats() {
    let list = vec!["b".to_string(), "a".to_string(), "b".to_string(), "aa".to_string()];
    assert_eq!(sort_unique(&list), vec!["a", "aa", "b"]);
}

#[test]
fn events_commands_wait_for_news() {
    let mut debugger = attached();
    let latest = debugger.state.latest_sequence;
    let at_once = format!(
        r#"{{ "id": "e", "action": "debug_events", "wait": 50, "since": {} }}"#,
        latest - 1
    );
    let told = answer(debugger.execute_fast(5, &json(&at_once), &None, &None));
    let events = told.get("data").unwrap().get_array("events").unwrap();
    assert_eq!(events.len(), 1);

    let waits = format!(
        r#"{{ "id": "e", "action": "debug_events", "wait": 50, "since": {} }}"#,
        latest
    );
    let waiting = match debugger.execute_fast(5, &json(&waits), &None, &None) {
        Progress::Wait(execution) => execution,
        Progress::Answer(_) => panic!("the command is answered"),
    };
    assert!(matches!(waiting.action(), Action::Listen(50)));
    debugger.state.record_transport_gap(6, 1, 3);
    let mut numbers = ProbeNumbers::new();
    let told = answer(debugger.advance(waiting, &mut numbers, 7, &Ok(Json::Null)));
    let events = told.get("data").unwrap().get_array("events").unwrap();
    assert_eq!(events.len(), 1);
    assert_eq!(events[0].get_u64("sequence"), Some(latest + 1));
    assert_eq!(
        told.get("data").unwrap().get_bool("transportGap"),
        Some(true)
    );
}

#[test]
fn commands_that_alter_probes_are_known() {
    let mut debugger = attached();
    assert!(debugger.alters_probes(&json(r#"{ "action": "debug_disable" }"#)));
    assert!(debugger.alters_probes(&json(r#"{ "action": "debug_logpoint_remove" }"#)));
    assert!(!debugger.alters_probes(&json(r#"{ "action": "debug_enable" }"#)));

    let set = json(r#"{ "id": "c1", "action": "debug_logpoint_set" }"#);
    debugger.execute_fast(5, &set, &None, &Some(vec![true, false]));
    assert!(debugger.alters_probes(&json(r#"{ "action": "confirm", "confirmationId": "c1" }"#)));
    assert!(!debugger.alters_probes(&json(r#"{ "action": "confirm", "confirmationId": "c2" }"#)));
    assert!(!debugger.alters_probes(&json(r#"{ "action": "deny", "confirmationId": "c1" }"#)));
}

#[test]
fn confirmed_commands_succeed_by_their_result() {
    assert!(succeeded(&json(r#"{ "success": true, "data": { "removed": true } }"#)));
    assert!(!succeeded(&json(r#"{ "success": false, "error": "no" }"#)));
    assert!(succeeded(&json(
        r#"{ "success": true, "data": { "confirmed": true, "result": { "success": true } } }"#
    )));
    assert!(!succeeded(&json(
        r#"{ "success": true, "data": { "confirmed": true, "result": { "success": false } } }"#
    )));
}

#[test]
fn frames_belong_to_their_pause() {
    let mut debugger = attached();
    let paused = event(
        "Debugger.paused",
        "s1",
        r#"{ "reason": "other", "callFrames": [ { "callFrameId": "f0" } ] }"#,
    );
    debugger.state.handle_event(2, 1, &paused);
    let failing = [
        (
            r#"{ "action": "debug_eval", "expression": "x", "callFrameId": "f7" }"#,
            "Call frame 'f7' does not belong to pause pause-1-4",
        ),
        (
            r#"{ "action": "debug_eval", "expression": "x", "frame": 1 }"#,
            "Call frame index 1 is out of range",
        ),
        (
            r#"{ "action": "debug_eval", "frame": 0 }"#,
            "Missing debug eval expression",
        ),
        (
            r#"{ "action": "debug_eval", "expression": "x", "frame": 0, "callFrameId": "f0" }"#,
            "Use either a frame index or call frame ID, not both",
        ),
    ];
    for (command, message) in failing {
        let (told, sent) = run(&mut debugger, command, vec![]);
        assert_eq!(told.get_str("error"), Some(message));
        assert_eq!(sent.len(), 0);
    }
}

#[test]
fn pauses_are_continued_step_by_step() {
    let mut debugger = attached();
    let (refused, _) = run(
        &mut debugger,
        r#"{ "action": "debug_step_over" }"#,
        vec![],
    );
    assert_eq!(refused.get_bool("success"), Some(false));
    debugger
        .state
        .handle_event(2, 1, &event("Debugger.paused", "s2", "{}"));
    for (action, method) in [
        ("debug_step_over", "Debugger.stepOver"),
        ("debug_step_into", "Debugger.stepInto"),
        ("debug_step_out", "Debugger.stepOut"),
        ("debug_resume", "Debugger.resume"),
    ] {
        let command = format!(r#"{{ "action": "{}" }}"#, action);
        let (told, sent) = run(&mut debugger, &command, vec![Ok("{}")]);
        assert_eq!(sent, vec![(method.to_string(), "s2".to_string())]);
        assert_eq!(
            told.get("data").unwrap().get_str("command"),
            Some(method)
        );
    }
    let (status, _) = run(&mut debugger, r#"{ "action": "debug_status" }"#, vec![]);
    let data = status.get("data").unwrap();
    assert_eq!(data.get_bool("paused"), Some(true));
    assert_eq!(data.get_array("pauses").unwrap().len(), 1);
    assert_eq!(data.get_array("sessions").unwrap().len(), 2);
    let (status, _) = run(
        &mut debugger,
        r#"{ "action": "debug_status", "tabId": "t1" }"#,
        vec![],
    );
    let data = status.get("data").unwrap();
    assert_eq!(data.get_bool("paused"), Some(false));
}

#[test]
fn long_sources_are_refused() {
    let mut debugger = attached();
    debugger.state.enabled_sessions.push("s1".to_string());
    let parsed = event(
        "Debugger.scriptParsed",
        "s1",
        r#"{ "scriptId": "9", "url": "https://a/9.js" }"#,
    );
    debugger.state.handle_event(2, 1, &parsed);
    let limit = 33_554_432;
    for (length, taken) in [(limit, true), (limit + 1, false)] {
        let source = format!(r#"{{ "scriptSource": "{}" }}"#, "a".repeat(length));
        let (told, _) = run(
            &mut debugger,
            r#"{ "action": "debug_source", "scriptId": "9" }"#,
            vec![Ok(&source)],
        );
        assert_eq!(told.get_bool("success"), Some(taken));
        if !taken {
            assert_eq!(
                told.get_str("error"),
                Some("Compiled script '9' exceeds the 33554432 byte source response limit; use source search instead")
            );
        }
    }
}

#[test]
fn parsed_scripts_are_told_by_events() {
    let parsed = event("Debugger.scriptParsed", "s1", r#"{ "scriptId": "9" }"#);
    assert_eq!(
        parsed.parsed_script(),
        Some(("s1".to_string(), "9".to_string()))
    );
    let failed = event("Debugger.scriptFailedToParse", "s1", r#"{ "scriptId": "9" }"#);
    assert!(failed.parsed_script().is_none());
    let nameless = event("Debugger.scriptParsed", "s1", "{}");
    assert!(nameless.parsed_script().is_none());
}
