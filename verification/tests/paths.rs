use agent_browser_core::paths::{
    accepts_directory, agent_browser_home, fallback_name, get_sessions_dir, get_state_dir,
    home_name, probe_name, resolve_agent_browser_home, Creation, FallbackSearch, FallbackStep,
    HomeChoice, PathFacts,
};
use std::path::{Path, PathBuf};

fn below(dir: &str, names: &[String]) -> PathBuf {
    names.iter().fold(PathBuf::from(dir), |path, name| path.join(name))
}

#[test]
fn explicit_home_wins_without_being_probed() {
    let explicit = PathBuf::from("/explicit/agent-browser-home");
    let result = resolve_agent_browser_home(
        Some(explicit.clone()),
        Some(PathBuf::from("/default/home")),
        PathBuf::from("/fallback"),
    );
    assert!(matches!(result, HomeChoice::Chosen(ref path) if *path == explicit));
    assert_eq!(result.settle(false), explicit);
}

#[test]
fn unwritable_default_uses_fallback() {
    let not_a_directory = PathBuf::from("/tmp/x/file");
    let fallback = PathBuf::from("/tmp/x/fallback");
    let result = resolve_agent_browser_home(None, Some(not_a_directory.clone()), fallback.clone());
    assert!(matches!(result, HomeChoice::Probe(ref path, _) if *path == not_a_directory));
    assert_eq!(result.settle(false), fallback);
}

#[test]
fn writable_default_is_preserved() {
    let default = PathBuf::from("/tmp/x/state");
    let fallback = PathBuf::from("/tmp/x/fallback");
    assert_eq!(
        resolve_agent_browser_home(None, Some(default.clone()), fallback).settle(true),
        default
    );
}

#[test]
fn without_a_home_the_fallback_is_taken() {
    let choice = resolve_agent_browser_home(None, None, "/tmp/x/fallback");
    assert!(matches!(choice, HomeChoice::Chosen("/tmp/x/fallback")));
}

#[test]
fn an_empty_setting_is_none() {
    let choice = agent_browser_home(Some(""), true, Some("/home/user/.agent-browser"), "/f");
    assert_eq!(choice.settle(true), "/home/user/.agent-browser");
    let choice = agent_browser_home(Some("/set"), false, Some("/home/user/.agent-browser"), "/f");
    assert_eq!(choice.settle(false), "/set");
    let choice = agent_browser_home(None, false, Some("/home/user/.agent-browser"), "/f");
    assert_eq!(choice.settle(false), "/f");
}

#[test]
fn the_directories_have_fixed_names() {
    assert_eq!(home_name(), ".agent-browser");
    assert_eq!(fallback_name(77), "agent-browser-77");
}

#[test]
fn test_sessions_dir_path() {
    let dir = below("/home/user/.agent-browser", &get_sessions_dir(None));
    assert!(dir.to_string_lossy().contains("sessions"));
}

#[test]
fn test_get_state_dir_namespace_scopes_sessions() {
    let home = "/tmp/agent-browser-state-test";
    let expected_state = PathBuf::from(home)
        .join("namespaces")
        .join("worktree-one")
        .join("state");
    let expected_sessions = expected_state.join("sessions");
    assert_eq!(below(home, &get_state_dir(Some("worktree-one"))), expected_state);
    assert_eq!(
        below(home, &get_sessions_dir(Some("worktree-one"))),
        expected_sessions
    );
}

#[test]
fn an_empty_namespace_is_none() {
    assert!(get_state_dir(Some("")).is_empty());
    assert!(get_state_dir(None).is_empty());
    assert_eq!(get_sessions_dir(Some("")), ["sessions"]);
    assert_eq!(below("/h", &get_sessions_dir(None)), Path::new("/h/sessions"));
}

#[test]
fn a_hundred_directories_are_tried() {
    let mut search = FallbackSearch::start(1000);
    assert_eq!(search.path(), "/tmp/agent-browser-1000");
    let mut tried = 1;
    loop {
        match search.refused() {
            FallbackStep::Try(next) => {
                assert_eq!(next.path(), format!("/tmp/agent-browser-1000-{}", tried));
                search = next;
                tried += 1;
            }
            FallbackStep::Exhausted => break,
        }
    }
    assert_eq!(tried, 100);
    assert_eq!(FallbackSearch::give_up(1000, 77), "agent-browser-1000-77");
}

#[test]
fn only_own_directories_are_accepted() {
    let facts = |is_dir, is_symlink, owner| {
        Some(PathFacts {
            is_dir,
            is_symlink,
            owner,
        })
    };
    assert!(accepts_directory(Creation::Created, facts(true, false, 7), 7));
    assert!(accepts_directory(Creation::Existed, facts(true, false, 7), 7));
    assert!(!accepts_directory(Creation::Existed, facts(true, false, 8), 7));
    assert!(!accepts_directory(Creation::Existed, facts(true, true, 7), 7));
    assert!(!accepts_directory(Creation::Existed, facts(false, false, 7), 7));
    assert!(!accepts_directory(Creation::Failed, facts(true, false, 7), 7));
    assert!(!accepts_directory(Creation::Created, None, 7));
}

#[test]
fn probes_have_a_name_of_their_own() {
    assert_eq!(probe_name(12, 3), ".write-probe-12-3");
}
