//! Where the program keeps its files.
//!
//! How a path is written differs from platform to platform. So a directory is
//! given here by the names that lead to it from another one, and the home
//! directory is chosen among paths of any type.

use vstd::prelude::*;

use crate::text;
use crate::text::{u64_text, Chars};

verus! {

/// Directories that are tried before the temporary one is taken.
pub const FALLBACK_ATTEMPTS: u32 = 100;

/// The home directory of the program, as far as it is known without asking
/// whether a directory can be written to.
pub enum HomeChoice<P> {
    Chosen(P),
    Probe(P, P),
}

impl<P> HomeChoice<P> {
    /// The home directory, once it is known whether the default can be written
    /// to.
    pub open spec fn settled(self, writable: bool) -> P {
        match self {
            HomeChoice::Chosen(path) => path,
            HomeChoice::Probe(path, fallback) => if writable {
                path
            } else {
                fallback
            },
        }
    }

    /// The home directory, once it is known whether the default can be written
    /// to.
    pub fn settle(self, writable: bool) -> (r: P)
        ensures
            r == self.settled(writable),
    {
        match self {
            HomeChoice::Chosen(path) => path,
            HomeChoice::Probe(path, fallback) => if writable {
                path
            } else {
                fallback
            },
        }
    }
}

/// An explicit directory counts as it is; the default counts where it can be
/// written to.
pub open spec fn home_choice<P>(
    explicit: Option<P>,
    default_home: Option<P>,
    fallback: P,
) -> HomeChoice<P> {
    match explicit {
        Some(path) => HomeChoice::Chosen(path),
        None => match default_home {
            Some(path) => HomeChoice::Probe(path, fallback),
            None => HomeChoice::Chosen(fallback),
        },
    }
}

/// Chooses the home directory of the program.
pub fn resolve_agent_browser_home<P>(
    explicit: Option<P>,
    default_home: Option<P>,
    fallback: P,
) -> (r: HomeChoice<P>)
    ensures
        r == home_choice(explicit, default_home, fallback),
{
    match explicit {
        Some(path) => HomeChoice::Chosen(path),
        None => match default_home {
            Some(path) => HomeChoice::Probe(path, fallback),
            None => HomeChoice::Chosen(fallback),
        },
    }
}

/// The home directory, from the environment and the user's own home directory.
/// An empty setting is none.
pub open spec fn home_from<P>(
    setting: Option<P>,
    empty: bool,
    default_home: Option<P>,
    fallback: P,
) -> HomeChoice<P> {
    home_choice(
        if empty {
            None
        } else {
            setting
        },
        default_home,
        fallback,
    )
}

/// Chooses the home directory of the program. `empty` says whether the setting
/// of the environment is an empty text; the default is [`home_name`] in the
/// user's own home directory.
pub fn agent_browser_home<P>(
    setting: Option<P>,
    empty: bool,
    default_home: Option<P>,
    fallback: P,
) -> (r: HomeChoice<P>)
    ensures
        r == home_from(setting, empty, default_home, fallback),
{
    if empty {
        resolve_agent_browser_home(None, default_home, fallback)
    } else {
        resolve_agent_browser_home(setting, default_home, fallback)
    }
}

/// Name of the program's directory in the user's own home directory.
pub fn home_name() -> (r: String)
    ensures
        r@ == ".agent-browser"@,
{
    ".agent-browser".to_owned()
}

/// The directory of a user that is tried at an attempt.
pub open spec fn fallback_path(uid: u32, attempt: u32) -> Chars {
    if attempt == 0 {
        "/tmp/agent-browser-"@ + text::decimal(uid as nat)
    } else {
        "/tmp/agent-browser-"@ + text::decimal(uid as nat) + "-"@ + text::decimal(attempt as nat)
    }
}

/// Name of the directory that is left when every attempt failed.
pub open spec fn last_resort(uid: u32, process: u32) -> Chars {
    "agent-browser-"@ + text::decimal(uid as nat) + "-"@ + text::decimal(process as nat)
}

/// A search for a directory that only its user can use: one attempt after the
/// other.
pub struct FallbackSearch {
    pub uid: u32,
    pub attempt: u32,
}

/// What a search came to.
pub enum FallbackStep {
    Try(FallbackSearch),
    Exhausted,
}

impl FallbackSearch {
    /// The search before its first attempt.
    pub fn start(uid: u32) -> (r: FallbackSearch)
        ensures
            r.uid == uid,
            r.attempt == 0,
    {
        FallbackSearch { uid, attempt: 0 }
    }

    /// The directory to try.
    pub fn path(&self) -> (r: String)
        ensures
            r@ == fallback_path(self.uid, self.attempt),
    {
        let base = "/tmp/agent-browser-".to_owned().concat(u64_text(self.uid as u64).as_str());
        if self.attempt == 0 {
            base
        } else {
            base.concat("-").concat(u64_text(self.attempt as u64).as_str())
        }
    }

    /// Goes on after the directory could not be used.
    pub fn refused(self) -> (r: FallbackStep)
        ensures
            match r {
                FallbackStep::Try(next) => self.attempt + 1 < FALLBACK_ATTEMPTS && next.uid
                    == self.uid && next.attempt == self.attempt + 1,
                FallbackStep::Exhausted => self.attempt + 1 >= FALLBACK_ATTEMPTS,
            },
    {
        if self.attempt < FALLBACK_ATTEMPTS - 1 {
            FallbackStep::Try(FallbackSearch { uid: self.uid, attempt: self.attempt + 1 })
        } else {
            FallbackStep::Exhausted
        }
    }

    /// Name of the directory that is left when every attempt failed, in the
    /// temporary directory.
    pub fn give_up(uid: u32, process: u32) -> (r: String)
        ensures
            r@ == last_resort(uid, process),
    {
        "agent-browser-".to_owned().concat(u64_text(uid as u64).as_str()).concat("-").concat(
            u64_text(process as u64).as_str(),
        )
    }
}

/// Name of the fallback in the temporary directory, where users have no number.
pub fn fallback_name(process: u32) -> (r: String)
    ensures
        r@ == "agent-browser-"@ + text::decimal(process as nat),
{
    "agent-browser-".to_owned().concat(u64_text(process as u64).as_str())
}

/// How the creation of a directory ended.
#[derive(Clone, Copy, PartialEq, Eq, Structural)]
pub enum Creation {
    Created,
    Existed,
    Failed,
}

/// What is known of a path without following links.
#[derive(Clone, Copy)]
pub struct PathFacts {
    pub is_dir: bool,
    pub is_symlink: bool,
    pub owner: u32,
}

/// Whether a directory belongs to the user: it is a directory, no link, and the
/// user's own.
pub open spec fn owned_directory(creation: Creation, facts: Option<PathFacts>, uid: u32) -> bool {
    creation != Creation::Failed && facts is Some && facts->Some_0.is_dir
        && !facts->Some_0.is_symlink && facts->Some_0.owner == uid
}

/// Whether a directory may be made private and used.
pub fn accepts_directory(creation: Creation, facts: Option<PathFacts>, uid: u32) -> (r: bool)
    ensures
        r == owned_directory(creation, facts, uid),
{
    match (creation, facts) {
        (Creation::Failed, _) => false,
        (_, None) => false,
        (_, Some(f)) => f.is_dir && !f.is_symlink && f.owner == uid,
    }
}

/// Name of the file that shows whether a directory can be written to.
pub fn probe_name(process: u32, number: u64) -> (r: String)
    ensures
        r@ == ".write-probe-"@ + text::decimal(process as nat) + "-"@ + text::decimal(
            number as nat,
        ),
{
    ".write-probe-".to_owned().concat(u64_text(process as u64).as_str()).concat("-").concat(
        u64_text(number).as_str(),
    )
}

/// The names that lead from the home directory to that of the state: none, or
/// those of a part that a namespace has for itself. An empty namespace is none.
pub open spec fn state_names(namespace: Option<Chars>) -> Seq<Chars> {
    match namespace {
        Some(name) => if name.len() > 0 {
            seq!["namespaces"@, name, "state"@]
        } else {
            seq![]
        },
        None => seq![],
    }
}

/// The names that lead from the home directory to that of the state.
pub fn get_state_dir(namespace: Option<&str>) -> (r: Vec<String>)
    ensures
        r.deep_view() == state_names(namespace.deep_view()),
{
    let mut names: Vec<String> = Vec::new();
    if let Some(name) = namespace {
        if !name.is_empty() {
            names.push("namespaces".to_owned());
            names.push(name.to_owned());
            names.push("state".to_owned());
        }
    }
    names
}

/// The names that lead from the home directory to that of the saved sessions.
pub open spec fn sessions_names(namespace: Option<Chars>) -> Seq<Chars> {
    state_names(namespace).push("sessions"@)
}

/// The names that lead from the home directory to that of the saved sessions.
pub fn get_sessions_dir(namespace: Option<&str>) -> (r: Vec<String>)
    ensures
        r.deep_view() == sessions_names(namespace.deep_view()),
{
    let mut names = get_state_dir(namespace);
    names.push("sessions".to_owned());
    names
}

} // verus!
