use agent_browser_core::autosave::{
    auto_names, save_auto_state_transactional, AutoPlaces, AutoSave, AutoStep, FileAction,
    FileReply,
};
use agent_browser_core::crypto::{decrypt_data, decrypt_text, encrypt_data, encrypt_with};
use agent_browser_core::interop::{json_text, parse_json};
use agent_browser_core::json::Json;
use agent_browser_core::records::CdpEvent;
use agent_browser_core::save::{
    load_state, save_file, save_state, save_target, LoadAction, LoadStep, SaveAction, SaveInput,
    SaveStep, SaveTarget,
};
use agent_browser_core::state_files::{
    dispatch_state_command, find_auto_state_file, is_encrypted_state, is_state_file,
    rename_target, state_clean, state_clear, state_cleared, state_list, state_rename, FileEntry,
    FileTime, StateCommand,
};
use agent_browser_core::state_read::{
    state_show, validate_state_file, FileContent, FileRequest, ReadStep, StateRead,
};
use agent_browser_core::storage::{
    blank_html_response_b64, collect_frame_origins, normalize_included_origin,
    parse_origin_storage, store_expression, OriginStorage, StorageEntry, StorageState,
};
use agent_browser_core::storage_visit::{Visit, VisitAction, VisitInput, VisitStep};

fn json(text: &str) -> Json {
    parse_json(text).unwrap()
}

fn entry(name: &str, value: &str) -> StorageEntry {
    StorageEntry {
        name: name.to_string(),
        value: value.to_string(),
    }
}

fn file(name: &str, secs: i64) -> FileEntry {
    FileEntry {
        name: name.to_string(),
        path: format!("/sessions/{}", name),
        size: 2,
        modified: Some(FileTime { secs, nanos: 0 }),
    }
}

#[test]
fn test_storage_state_serialization() {
    let state = StorageState {
        cookies: vec![json(r#"{ "name": "session", "value": "abc123", "domain": ".example.com", "path": "/", "httpOnly": true, "sameSite": "Lax" }"#)],
        origins: vec![OriginStorage {
            origin: "https://example.com".to_string(),
            local_storage: vec![entry("key", "val")],
            session_storage: vec![],
        }],
    };

    let parsed = json(&json_text(&state.to_json()));
    let cookies = parsed.get_array("cookies").unwrap();
    assert_eq!(cookies.len(), 1);
    assert_eq!(cookies[0].get_str("name"), Some("session"));
    let origins = parsed.get_array("origins").unwrap();
    assert_eq!(origins.len(), 1);
    assert_eq!(origins[0].get_array("localStorage").unwrap().len(), 1);
}

#[test]
fn test_storage_state_empty() {
    let state = StorageState {
        cookies: vec![],
        origins: vec![],
    };
    let text = json_text(&state.to_json());
    assert_eq!(text, r#"{"cookies":[],"origins":[]}"#);
    let parsed = json(&text);
    assert!(parsed.get_array("cookies").unwrap().is_empty());
    assert!(parsed.get_array("origins").unwrap().is_empty());
}

fn read_text(path: &str, result: Result<&str, &str>) -> Result<String, String> {
    match StateRead::start(path, None, true) {
        ReadStep::Done(result) => result,
        ReadStep::Wait(reading) => {
            assert!(matches!(reading.request(), FileRequest::Text(ref p) if p == path));
            let content = FileContent::Text(match result {
                Ok(text) => Ok(text.to_string()),
                Err(text) => Err(text.to_string()),
            });
            match reading.advance(content) {
                ReadStep::Done(result) => result,
                ReadStep::Wait(_) => panic!("the reading waits"),
            }
        }
    }
}

#[test]
fn test_state_show_nonexistent_file() {
    let path = "/tmp/nonexistent-agent-browser-state-file.json";
    let read = read_text(path, Err("No such file or directory"));
    let result = state_show(
        path,
        "nonexistent-agent-browser-state-file.json",
        0,
        None,
        &read,
        &Err(String::new()),
    );
    assert!(result.is_err());
    assert_eq!(
        result.err().unwrap(),
        "Failed to read state file: No such file or directory"
    );
}

#[test]
fn a_state_is_shown() {
    let read: Result<String, String> = Ok("{}".to_string());
    let state = StorageState {
        cookies: vec![Json::object(), Json::object()],
        origins: vec![],
    };
    let shown = state_show(
        "/s/a.json.enc",
        "a.json.enc",
        9,
        Some(FileTime { secs: 5, nanos: 7 }),
        &read,
        &Ok(state),
    )
    .ok()
    .unwrap();
    assert_eq!(shown.get_str("filename"), Some("a.json.enc"));
    assert_eq!(shown.get_u64("size"), Some(9));
    assert_eq!(shown.get_u64("modified"), Some(5));
    assert_eq!(shown.get_bool("encrypted"), Some(true));
    assert_eq!(shown.get_str("summary"), Some("2 cookies, 0 origins"));
    let invalid = state_show("/s/a.json", "a.json", 9, None, &read, &Err("eof".to_string()));
    assert_eq!(invalid.err().unwrap(), "Invalid state file: eof");
}

#[test]
fn files_are_validated() {
    assert!(validate_state_file(&Ok("{}".to_string()), &Ok(())).is_ok());
    assert_eq!(
        validate_state_file(&Ok("{".to_string()), &Err("eof".to_string())),
        Err("Invalid state file: eof".to_string())
    );
    assert_eq!(
        validate_state_file(&Err("gone".to_string()), &Ok(())),
        Err("gone".to_string())
    );
}

#[test]
fn test_state_clear_nonexistent_file() {
    let result = state_cleared(
        "/tmp/nonexistent-agent-browser-state-file.json",
        &Err("No such file or directory".to_string()),
    );
    assert!(result.is_err());
    let done = state_cleared("/tmp/a.json", &Ok(())).ok().unwrap();
    assert_eq!(done.get_str("deleted"), Some("/tmp/a.json"));
}

#[test]
fn test_state_file_matcher_includes_transactional_backups() {
    assert!(is_state_file("auth.json"));
    assert!(is_state_file("auth.json.enc"));
    assert!(is_state_file("auth.json.previous"));
    assert!(is_state_file("auth.json.enc.previous"));
    assert!(is_encrypted_state("auth.json.enc.previous"));
    assert!(!is_state_file("auth.txt"));
    assert!(!is_encrypted_state("auth.json"));
}

#[test]
fn test_state_clear_removes_transactional_backups() {
    let files = vec![
        file("auth-test.json", 1),
        file("notes.txt", 1),
        file("auth-test.json.previous", 1),
        file("auth-test.json.enc.previous", 1),
    ];
    let (result, gone) = state_clear(&files);
    assert_eq!(result.get_u64("deleted"), Some(3));
    assert_eq!(
        gone,
        vec![
            "/sessions/auth-test.json",
            "/sessions/auth-test.json.previous",
            "/sessions/auth-test.json.enc.previous"
        ]
    );
}

#[test]
fn old_states_are_cleaned() {
    let day = 86_400;
    let mut files = vec![
        file("old.json", 0),
        file("edge.json", 10 * day),
        file("new.json", 12 * day),
        file("old.txt", 0),
        file("future.json", 99 * day),
    ];
    files.push(FileEntry {
        name: "unknown.json".to_string(),
        path: "/sessions/unknown.json".to_string(),
        size: 0,
        modified: None,
    });
    let now = FileTime {
        secs: 20 * day,
        nanos: 0,
    };
    let listing = Some(files);
    let (answer, gone) = state_clean(&listing, now, 10);
    assert_eq!(gone, vec!["/sessions/old.json"]);
    assert_eq!(answer.get_u64("cleaned"), Some(1));
    assert_eq!(answer.get_u64("keptCount"), Some(4));
    assert_eq!(answer.get_u64("days"), Some(10));
    let later = FileTime {
        secs: 20 * day,
        nanos: 1,
    };
    assert_eq!(state_clean(&listing, later, 10).1.len(), 2);
    let (answer, gone) = state_clean(&None, later, u64::MAX);
    assert!(gone.is_empty());
    assert_eq!(answer.get_u64("keptCount"), Some(0));
    assert_eq!(answer.get_u64("days"), Some(u64::MAX));
}

#[test]
fn test_state_rename_nonexistent() {
    let result = state_rename(
        "/tmp/nonexistent-agent-browser-state-file.json",
        false,
        "/tmp/new-name.json",
        &Ok(()),
    );
    assert!(result.is_err());
    assert!(result.err().unwrap().contains("not found"));
}

#[test]
fn a_renamed_state_stays_beside_the_old_one() {
    assert_eq!(rename_target("new"), "new.json");
    assert_eq!(rename_target(r"C:\x"), r"C:\x.json");
    let done = state_rename("/s/a.json", true, "/s/new.json", &Ok(())).ok().unwrap();
    assert_eq!(done.get_bool("renamed"), Some(true));
    assert_eq!(done.get_str("to"), Some("/s/new.json"));
    assert_eq!(
        state_rename("/s/a.json", true, "/s/new.json", &Err("denied".to_string()))
            .err()
            .unwrap(),
        "Failed to rename state: denied"
    );
}

#[test]
fn test_state_list_returns_json() {
    let result = state_list("/sessions", &None).ok().unwrap();
    assert!(result.get("files").is_some());
    assert!(result.get("directory").is_some());
}

#[test]
fn states_are_listed() {
    let listing = Ok(vec![file("a.json", 4), file("a.txt", 4), file("b.json.enc", -3)]);
    let result = state_list("/sessions", &Some(listing)).ok().unwrap();
    let files = result.get_array("files").unwrap();
    assert_eq!(files.len(), 2);
    assert_eq!(files[0].get_str("filename"), Some("a.json"));
    assert_eq!(files[0].get_bool("encrypted"), Some(false));
    assert_eq!(files[0].get_u64("modified"), Some(4));
    assert_eq!(files[1].get_bool("encrypted"), Some(true));
    assert_eq!(files[1].get_u64("modified"), Some(0));
    assert_eq!(
        state_list("/sessions", &Some(Err("denied".to_string())))
            .err()
            .unwrap(),
        "Failed to read sessions dir: denied"
    );
}

#[test]
fn the_latest_automatic_state_is_found() {
    let files = vec![
        file("auth-1.json", 5),
        file("auth-2.json.enc", 9),
        file("auth-3.json", 9),
        file("auth-4.json.previous", 99),
        file("other-5.json", 99),
    ];
    assert_eq!(
        find_auto_state_file("auth", true, &files),
        Some("/sessions/auth-2.json.enc".to_string())
    );
    assert_eq!(find_auto_state_file("auth", false, &files), None);
    assert_eq!(find_auto_state_file("none", true, &files), None);
}

#[test]
fn test_encrypt_decrypt_roundtrip() {
    let plain = b"hello world";
    let key = "test-secret-key";
    let encrypted = encrypt_data(plain, key).unwrap();
    assert!(encrypted.len() > 12);
    assert_ne!(&encrypted[12..], plain);
    let decrypted = decrypt_data(&encrypted, key).unwrap();
    assert_eq!(decrypted, plain);
    assert_ne!(encrypt_data(plain, key).unwrap(), encrypted);
}

#[test]
fn test_decrypt_wrong_key_fails() {
    let plain = b"secret data";
    let encrypted = encrypt_data(plain, "key1").unwrap();
    let result = decrypt_data(&encrypted, "key2");
    assert!(result.is_err());
    assert_eq!(result.unwrap_err(), "Decryption failed: aead::Error");
}

#[test]
fn encryption_is_a_function_of_key_nonce_and_data() {
    let sealed = encrypt_with(b"", "key", vec![0; 12]).unwrap();
    assert_eq!(sealed.len(), 28);
    assert_eq!(encrypt_with(b"", "key", vec![0; 12]).unwrap(), sealed);
    assert_ne!(encrypt_with(b"", "kez", vec![0; 12]).unwrap(), sealed);
    assert_eq!(decrypt_data(&sealed, "key").unwrap(), b"");
    assert_eq!(
        decrypt_data(&[0; 12], "key").unwrap_err(),
        "Ciphertext too short"
    );
    let odd = encrypt_with(&[0xff], "key", vec![1; 12]).unwrap();
    assert_eq!(
        decrypt_text(&odd, "key").unwrap_err(),
        "Decrypted state is not valid UTF-8: invalid utf-8 sequence of 1 bytes from index 0"
    );
}

#[test]
fn saved_states_are_read_back() {
    let name = match save_target(None, "auth", &Ok(()), "7") {
        Ok(SaveTarget::InSessions(name)) => name,
        _ => panic!("the session has a name"),
    };
    assert_eq!(name, "auth-7.json");
    let path = format!("/sessions/{}", name);
    let saved = save_file(&path, Some("key"), r#"{"cookies":[]}"#)
        .ok()
        .unwrap();
    assert_eq!(saved.path, "/sessions/auth-7.json.enc");
    let reading = match StateRead::start(&saved.path, Some("key".to_string()), false) {
        ReadStep::Wait(reading) => reading,
        ReadStep::Done(_) => panic!("nothing is read"),
    };
    assert!(matches!(reading.request(), FileRequest::Bytes(ref p) if *p == saved.path));
    let text = match reading.advance(FileContent::Bytes(Ok(saved.bytes))) {
        ReadStep::Done(result) => result.unwrap(),
        ReadStep::Wait(_) => panic!("the reading waits"),
    };
    assert_eq!(text, r#"{"cookies":[]}"#);
    let plain = save_file("/tmp/x.json", None, "{}").ok().unwrap();
    assert_eq!(plain.path, "/tmp/x.json");
    assert_eq!(plain.bytes, b"{}");
    assert!(matches!(
        save_target(Some("/tmp/x.json"), "a b", &Err("bad name".to_string()), "7"),
        Ok(SaveTarget::Given(ref path)) if path == "/tmp/x.json"
    ));
    let unnamed = save_target(None, "a b", &Err("bad name".to_string()), "7");
    assert_eq!(unnamed.err().unwrap(), "bad name");
}

#[test]
fn an_encrypted_file_stands_in_for_a_missing_one() {
    let bytes = encrypt_data(b"{}", "key").unwrap();
    let reading = match StateRead::start("/s/a.json", Some("key".to_string()), false) {
        ReadStep::Wait(reading) => reading,
        ReadStep::Done(_) => panic!("nothing is read"),
    };
    let reading = match reading.advance(FileContent::Text(Err("missing".to_string()))) {
        ReadStep::Wait(reading) => reading,
        ReadStep::Done(_) => panic!("the reading ended"),
    };
    assert!(matches!(reading.request(), FileRequest::Bytes(ref p) if p == "/s/a.json.enc"));
    match reading.advance(FileContent::Bytes(Ok(bytes))) {
        ReadStep::Done(result) => assert_eq!(result, Ok("{}".to_string())),
        ReadStep::Wait(_) => panic!("the reading waits"),
    }
    match StateRead::start("/s/a.json.enc", None, false) {
        ReadStep::Done(result) => assert_eq!(
            result,
            Err("Encrypted state file requires AGENT_BROWSER_ENCRYPTION_KEY".to_string())
        ),
        ReadStep::Wait(_) => panic!("the reading waits"),
    }
}

#[test]
fn test_normalize_included_origin_uses_only_scheme_host_and_port() {
    assert_eq!(
        normalize_included_origin("https://sso.example.com/login?next=%2F").unwrap(),
        "https://sso.example.com"
    );
    assert_eq!(
        normalize_included_origin("http://localhost:4173/path").unwrap(),
        "http://localhost:4173"
    );
    assert!(normalize_included_origin("file:///tmp/auth.html").is_err());
    assert!(normalize_included_origin("sso.example.com").is_err());
    assert_eq!(
        normalize_included_origin("file:///tmp/auth.html").unwrap_err(),
        "Invalid include origin 'file:///tmp/auth.html': only HTTP(S) origins are supported"
    );
    assert_eq!(
        normalize_included_origin("sso.example.com").unwrap_err(),
        "Invalid include origin 'sso.example.com': expected an absolute HTTP(S) URL"
    );
}

#[test]
fn origins_of_frames_are_collected() {
    let tree = json(
        r#"{ "frame": { "url": "https://a.example/x" }, "childFrames": [
               { "frame": { "url": "about:blank" } },
               { "frame": { "url": "https://b.example:8443/" }, "childFrames": [
                   { "frame": { "url": "https://a.example/y" } } ] } ] }"#,
    );
    let mut origins = vec!["https://c.example".to_string()];
    collect_frame_origins(&tree, &mut origins);
    assert_eq!(
        origins,
        vec![
            "https://c.example",
            "https://a.example",
            "https://b.example:8443"
        ]
    );
}

#[test]
fn storage_of_a_page_is_read() {
    let data = json(
        r#"{ "origin": "https://a", "localStorage": [ { "name": "k", "value": "v" } ] }"#,
    );
    let origin = parse_origin_storage(&data).unwrap();
    assert_eq!(origin.origin, "https://a");
    assert_eq!(origin.local_storage[0].name, "k");
    assert_eq!(origin.session_storage.len(), 0);
    assert!(parse_origin_storage(&json(r#"{ "origin": "null" }"#)).is_none());
    assert!(parse_origin_storage(&json("{}")).is_none());
}

#[test]
fn entries_are_stored_by_script() {
    assert_eq!(
        store_expression("localStorage", &entry("k\"", "v\n")),
        r#"localStorage.setItem("k\"", "v\n")"#
    );
}

#[test]
fn intercepted_requests_get_a_blank_page() {
    let text = blank_html_response_b64();
    assert!(text.starts_with("SFRUUC8xLjEgMjAwIE9LDQpDb250ZW50LVR5cGU6IHRleHQvaHRtbA0K"));
    assert_eq!(text.len() % 4, 0);
}

#[test]
fn test_dispatch_state_command_routes_state_list() {
    let result = dispatch_state_command(&json(r#"{ "action": "state_list" }"#));
    assert!(result.is_some());
    assert!(matches!(result.unwrap(), Ok(StateCommand::List)));
}

#[test]
fn test_dispatch_state_command_returns_none_for_unknown() {
    assert!(dispatch_state_command(&json(r#"{ "action": "navigate" }"#)).is_none());
}

#[test]
fn test_dispatch_state_command_returns_none_for_missing_action() {
    assert!(dispatch_state_command(&json("{}")).is_none());
}

#[test]
fn test_dispatch_state_show_missing_path() {
    let result = dispatch_state_command(&json(r#"{ "action": "state_show" }"#)).unwrap();
    assert!(result.is_err());
    assert_eq!(result.err().unwrap(), "Missing 'path' parameter");
}

#[test]
fn test_dispatch_state_rename_missing_params() {
    let result = dispatch_state_command(&json(r#"{ "action": "state_rename" }"#)).unwrap();
    assert!(result.is_err());
    assert_eq!(result.err().unwrap(), "Missing 'path' parameter");

    let command = json(r#"{ "action": "state_rename", "path": "/tmp/test.json" }"#);
    let result = dispatch_state_command(&command).unwrap();
    assert!(result.is_err());
    assert_eq!(result.err().unwrap(), "Missing 'name' parameter");
}

#[test]
fn the_other_state_commands_are_routed() {
    assert!(matches!(
        dispatch_state_command(&json(r#"{ "action": "state_clean" }"#)),
        Some(Ok(StateCommand::Clean(30)))
    ));
    assert!(matches!(
        dispatch_state_command(&json(r#"{ "action": "state_clear" }"#)),
        Some(Ok(StateCommand::Clear(None)))
    ));
    assert!(matches!(
        dispatch_state_command(&json(r#"{ "action": "state_clear", "path": "a" }"#)),
        Some(Ok(StateCommand::Clear(Some(_))))
    ));
}

fn waiting(step: AutoStep) -> AutoSave {
    match step {
        AutoStep::Wait(machine) => machine,
        AutoStep::Done(_) => panic!("the saving ended"),
    }
}

fn ended(step: AutoStep) -> Result<String, String> {
    match step {
        AutoStep::Wait(_) => panic!("the saving waits"),
        AutoStep::Done(result) => result,
    }
}

fn places(session: &str, id: &str, process: u32) -> AutoPlaces {
    let names = auto_names(session, id, process);
    let temp_dir = format!("/s/{}", names.temp_dir);
    AutoPlaces {
        dir: "/s".to_string(),
        candidate: format!("{}/{}", temp_dir, names.candidate),
        temp_dir,
        file: format!("/s/{}", names.file),
    }
}

fn saved_candidate() -> AutoSave {
    let start = save_auto_state_transactional(&Ok(()), places("auth", "7", 42), false);
    let machine = waiting(start);
    assert!(matches!(machine.action(), FileAction::CreateDir(ref p) if p == "/s"));
    let machine = waiting(machine.advance(FileReply::Done(Ok(()))));
    assert!(matches!(machine.action(), FileAction::CreateDir(ref p) if p == "/s/.tmp"));
    let machine = waiting(machine.advance(FileReply::Done(Ok(()))));
    let candidate = "/s/.tmp/auth-7-candidate-42.json";
    assert!(matches!(machine.action(), FileAction::Save(ref p) if p == candidate));
    let machine = waiting(machine.advance(FileReply::Saved(Ok(candidate.to_string()))));
    assert!(matches!(machine.action(), FileAction::Validate(ref p) if p == candidate));
    machine
}

#[test]
fn a_valid_state_takes_the_place_of_the_old_one() {
    let machine = waiting(saved_candidate().advance(FileReply::Done(Ok(()))));
    assert!(matches!(machine.action(), FileAction::Look(ref p) if p == "/s/auth-7.json"));
    let machine = waiting(machine.advance(FileReply::Found(true)));
    assert!(matches!(machine.action(), FileAction::Remove(ref p) if p == "/s/auth-7.json.previous"));
    let machine = waiting(machine.advance(FileReply::Done(Err("none".to_string()))));
    assert!(matches!(machine.action(), FileAction::Rename(ref a, ref b)
        if a == "/s/auth-7.json" && b == "/s/auth-7.json.previous"));
    let machine = waiting(machine.advance(FileReply::Done(Ok(()))));
    assert!(matches!(machine.action(), FileAction::Rename(ref a, ref b)
        if a == "/s/.tmp/auth-7-candidate-42.json" && b == "/s/auth-7.json"));
    let machine = waiting(machine.advance(FileReply::Done(Ok(()))));
    let machine = waiting(machine.advance(FileReply::Found(true)));
    assert!(matches!(machine.action(), FileAction::Remove(ref p) if p == "/s/auth-7.json.previous"));
    assert_eq!(
        ended(machine.advance(FileReply::Done(Ok(())))),
        Ok("/s/auth-7.json".to_string())
    );
}

#[test]
fn an_invalid_state_is_discarded() {
    let machine = waiting(saved_candidate().advance(FileReply::Done(Err("bad".to_string()))));
    assert!(matches!(machine.action(), FileAction::Remove(ref p)
        if p == "/s/.tmp/auth-7-candidate-42.json"));
    assert_eq!(
        ended(machine.advance(FileReply::Done(Ok(())))),
        Err("bad".to_string())
    );
}

#[test]
fn a_failed_promotion_is_undone() {
    let machine = waiting(saved_candidate().advance(FileReply::Done(Ok(()))));
    let machine = waiting(machine.advance(FileReply::Found(true)));
    let machine = waiting(machine.advance(FileReply::Done(Ok(()))));
    let machine = waiting(machine.advance(FileReply::Done(Ok(()))));
    let machine = waiting(machine.advance(FileReply::Done(Err("full".to_string()))));
    let machine = waiting(machine.advance(FileReply::Found(true)));
    let machine = waiting(machine.advance(FileReply::Found(false)));
    assert!(matches!(machine.action(), FileAction::Rename(ref a, ref b)
        if a == "/s/auth-7.json.previous" && b == "/s/auth-7.json"));
    assert_eq!(
        ended(machine.advance(FileReply::Done(Ok(())))),
        Err("Failed to promote state /s/.tmp/auth-7-candidate-42.json to /s/auth-7.json: full".to_string())
    );
}

#[test]
fn automatic_saving_needs_a_name() {
    let step =
        save_auto_state_transactional(&Err("bad".to_string()), places("a b", "7", 1), true);
    assert_eq!(ended(step), Err("bad".to_string()));
}

#[test]
fn an_automatic_saving_has_names_of_its_own() {
    let names = auto_names("auth", "7", 42);
    assert_eq!(names.file, "auth-7.json");
    assert_eq!(names.temp_dir, ".tmp");
    assert_eq!(names.candidate, "auth-7-candidate-42.json");
    let machine = waiting(save_auto_state_transactional(&Ok(()), places("auth", "7", 42), true));
    assert_eq!(machine.paths.candidate, "/s/.tmp/auth-7-candidate-42.json");
    assert_eq!(machine.paths.file, "/s/auth-7.json.enc");
    assert_eq!(machine.paths.previous, "/s/auth-7.json.enc.previous");
    assert!(is_encrypted_state(&machine.paths.file));
    assert!(is_state_file(&machine.paths.previous));
}

fn visiting(step: VisitStep) -> Visit {
    match step {
        VisitStep::Wait(visit) => visit,
        VisitStep::Done(_) => panic!("the visit ended"),
    }
}

fn event(method: &str, session: &str, params: &str) -> VisitInput {
    VisitInput::Event(CdpEvent {
        method: method.to_string(),
        params: json(params),
        session_id: Some(session.to_string()),
    })
}

fn ok() -> VisitInput {
    VisitInput::Reply(Ok(Json::object()))
}

#[test]
fn origins_are_visited_behind_an_interception() {
    let visit = visiting(Visit::collect(&vec!["https://a//".to_string()]));
    match visit.action() {
        VisitAction::Create(request) => {
            assert_eq!(request.method, "Target.createTarget");
            assert_eq!(request.session_id, "");
            let params = request.params.unwrap();
            assert_eq!(params.get_str("url"), Some("about:blank"));
            assert_eq!(params.get_bool("background"), Some(true));
        }
        _ => panic!("no page is created"),
    }
    let visit = visiting(visit.advance(VisitInput::Id(Err("no background".to_string()))));
    match visit.action() {
        VisitAction::Create(request) => assert!(!request.params.unwrap().has("background")),
        _ => panic!("no page is created"),
    }
    let visit = visiting(visit.advance(VisitInput::Id(Ok("t9".to_string()))));
    match visit.action() {
        VisitAction::Attach(request) => {
            assert_eq!(request.method, "Target.attachToTarget");
            let params = request.params.unwrap();
            assert_eq!(params.get_str("targetId"), Some("t9"));
            assert_eq!(params.get_bool("flatten"), Some(true));
        }
        _ => panic!("no page is attached to"),
    }
    let mut visit = visiting(visit.advance(VisitInput::Id(Ok("s9".to_string()))));
    for method in [
        "Page.enable",
        "Runtime.enable",
        "Network.enable",
        "Network.setRequestInterception",
    ] {
        assert!(matches!(visit.action(), VisitAction::Send(ref r) if r.method == method));
        visit = visiting(visit.advance(ok()));
    }
    match visit.action() {
        VisitAction::Post(request) => {
            assert_eq!(request.method, "Page.navigate");
            assert_eq!(request.params.unwrap().get_str("url"), Some("https://a/"));
        }
        _ => panic!("nothing is sent"),
    }
    let visit = visiting(visit.advance(ok()));
    assert!(matches!(visit.action(), VisitAction::Listen(5000, 2000)));
    let visit = visiting(visit.advance(event("Page.loadEventFired", "s1", "{}")));
    let visit = visiting(visit.advance(event(
        "Network.requestIntercepted",
        "s9",
        r#"{ "interceptionId": "i" }"#,
    )));
    match visit.action() {
        VisitAction::Send(request) => {
            assert_eq!(request.method, "Network.continueInterceptedRequest");
            let params = request.params.unwrap();
            assert_eq!(params.get_str("interceptionId"), Some("i"));
            assert_eq!(
                params.get_str("rawResponse"),
                Some(blank_html_response_b64().as_str())
            );
        }
        _ => panic!("nothing is sent"),
    }
    let visit = visiting(visit.advance(ok()));
    let visit = visiting(visit.advance(event("Page.loadEventFired", "s9", "{}")));
    match visit.action() {
        VisitAction::Evaluate(request) => {
            assert_eq!(request.method, "Runtime.evaluate");
            assert_eq!(request.session_id, "s9");
            let params = request.params.unwrap();
            assert_eq!(params.get_bool("returnByValue"), Some(true));
            assert_eq!(params.get_bool("awaitPromise"), Some(false));
        }
        _ => panic!("nothing is evaluated"),
    }
    let visit = visiting(visit.advance(VisitInput::Reply(Ok(json(
        r#"{ "origin": "https://a", "localStorage": [ { "name": "k", "value": "v" } ] }"#,
    )))));
    match visit.action() {
        VisitAction::Close(request) => {
            assert_eq!(request.method, "Target.closeTarget");
            assert_eq!(request.params.unwrap().get_str("targetId"), Some("t9"));
        }
        _ => panic!("no page is closed"),
    }
    match visit.advance(ok()) {
        VisitStep::Done(found) => assert_eq!(found.ok().unwrap()[0].origin, "https://a"),
        VisitStep::Wait(_) => panic!("the visit waits"),
    }
}

#[test]
fn session_storage_is_restored_in_the_active_page() {
    let origins = vec![OriginStorage {
        origin: "https://a".to_string(),
        local_storage: vec![],
        session_storage: vec![entry("k", "v")],
    }];
    assert!(matches!(
        Visit::restore_local(&origins),
        VisitStep::Done(Ok(_))
    ));
    let mut visit = visiting(Visit::restore_session("s1", &origins));
    for _ in 0..5 {
        visit = visiting(visit.advance(ok()));
    }
    let visit = visiting(visit.advance(event("Page.loadEventFired", "s1", "{}")));
    match visit.action() {
        VisitAction::Evaluate(request) => assert_eq!(
            request.params.unwrap().get_str("expression"),
            Some(r#"sessionStorage.setItem("k", "v")"#)
        ),
        _ => panic!("nothing is evaluated"),
    }
    let visit = visiting(visit.advance(ok()));
    match visit.action() {
        VisitAction::Send(request) => {
            assert_eq!(request.method, "Network.setRequestInterception");
            assert_eq!(
                request.params.unwrap().get_array("patterns").unwrap().len(),
                0
            );
        }
        _ => panic!("nothing is sent"),
    }
    assert!(matches!(visit.advance(ok()), VisitStep::Done(Ok(_))));
}

#[test]
fn a_late_origin_ends_a_restoration() {
    let origins = vec![OriginStorage {
        origin: "https://a".to_string(),
        local_storage: vec![],
        session_storage: vec![entry("k", "v")],
    }];
    let mut visit = visiting(Visit::restore_session("s1", &origins));
    for _ in 0..5 {
        visit = visiting(visit.advance(ok()));
    }
    let visit = visiting(visit.advance(VisitInput::TimedOut));
    match visit.advance(ok()) {
        VisitStep::Done(Err(e)) => {
            assert_eq!(e, "Timed out preparing storage origin https://a")
        }
        _ => panic!("the visit goes on"),
    }
}

#[test]
fn saving_reads_cookies_frames_and_storage() {
    let machine = save_state("s1", &vec![], &vec![]);
    assert!(matches!(machine.action(), SaveAction::ReadCookies));
    let machine = match machine.advance(SaveInput::Cookies(Ok(vec![Json::object()]))) {
        SaveStep::Wait(machine) => machine,
        SaveStep::Done(_) => panic!("the saving ended"),
    };
    assert!(matches!(machine.action(), SaveAction::Send(ref r) if r.method == "Page.getFrameTree"));
    let refused = save_state("s1", &vec![], &vec!["ftp://x".to_string()]);
    match refused.advance(SaveInput::Cookies(Ok(vec![]))) {
        SaveStep::Done(Err(e)) => assert_eq!(
            e,
            "Invalid include origin 'ftp://x': only HTTP(S) origins are supported"
        ),
        _ => panic!("the saving goes on"),
    }
}

#[test]
fn origins_are_visited_once() {
    let visited = vec![
        "https://a".to_string(),
        "https://b".to_string(),
        "https://a".to_string(),
    ];
    let mut machine = save_state("s1", &visited, &vec!["https://b/x".to_string()]);
    let replies = [
        SaveInput::Cookies(Ok(vec![])),
        SaveInput::Other(VisitInput::Reply(Ok(json(
            r#"{ "frameTree": { "frame": { "url": "https://a/page" } } }"#,
        )))),
        SaveInput::Other(VisitInput::Reply(Ok(json(r#"{ "origin": "https://b" }"#)))),
        SaveInput::Other(VisitInput::Id(Ok("t9".to_string()))),
        SaveInput::Other(VisitInput::Id(Ok("s9".to_string()))),
    ];
    for reply in replies {
        machine = match machine.advance(reply) {
            SaveStep::Wait(machine) => machine,
            SaveStep::Done(_) => panic!("the saving ended"),
        };
    }
    let mut visits = Vec::new();
    loop {
        let input = match machine.action() {
            SaveAction::Visit(VisitAction::Post(request)) => {
                visits.push(request.params.unwrap().get_str("url").unwrap().to_string());
                ok()
            }
            SaveAction::Visit(VisitAction::Listen(_, _)) => VisitInput::TimedOut,
            _ => ok(),
        };
        machine = match machine.advance(SaveInput::Other(input)) {
            SaveStep::Wait(machine) => machine,
            SaveStep::Done(result) => {
                assert!(result.is_ok());
                break;
            }
        };
    }
    assert_eq!(visits, vec!["https://a/"]);
}

#[test]
fn loading_sets_cookies_first() {
    let state = StorageState {
        cookies: vec![Json::object()],
        origins: vec![],
    };
    let machine = match load_state("s1", state) {
        LoadStep::Wait(machine) => machine,
        LoadStep::Done(_) => panic!("the loading ended"),
    };
    assert!(matches!(machine.action(), LoadAction::SetCookies(ref c) if c.len() == 1));
    assert!(matches!(machine.advance(ok()), LoadStep::Done(Ok(_))));
    let empty = StorageState {
        cookies: vec![],
        origins: vec![],
    };
    assert!(matches!(load_state("s1", empty), LoadStep::Done(Ok(_))));
}
