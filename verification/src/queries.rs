//! Selection of sessions, pauses and scripts, and the read-only commands.


use vstd::prelude::*;

use crate::collections;
use crate::collections::{set_contains, StrMap};
use crate::controller;
use crate::controller::{ControllerState, StateView};
use crate::json::{Json, JsonView};
use crate::lifecycle;
use crate::lifecycle::find_tab;
use crate::records::{copy_values, PauseRecord, PauseView, ScriptView, SessionView};
use crate::text;
use crate::text::{contains, sort_order, str_eq, u64_text, Chars};

verus! {

/// Whether a command names a session or a tab.
pub open spec fn selects_session(command: JsonView) -> bool {
    command.has("sessionId"@) || command.has("tabId"@)
}

/// Whether a command names a session or a tab.
pub fn has_session_selector(command: &Json) -> (r: bool)
    ensures
        r == selects_session(command@),
{
    command.has("sessionId") || command.has("tabId")
}

/// The session that a command is about: the one it names, or the active one.
pub open spec fn session_for(state: StateView, command: JsonView) -> Result<Chars, Chars> {
    if command.has("sessionId"@) && command.has("tabId"@) {
        Err("Use either a tab ID or a CDP session ID, not both"@)
    } else {
        match command.get_str("sessionId"@) {
            Some(session) => if collections::lookup(state.sessions, session) is Some {
                Ok(session)
            } else {
                Err("Unknown CDP session '"@ + session + "'"@)
            },
            None => match command.get_str("tabId"@) {
                Some(tab) => match lifecycle::session_of_tab(state.sessions, tab) {
                    Some(session) => Ok(session.session_id),
                    None => Err("Unknown tab '"@ + tab + "'"@),
                },
                None => match state.active_session {
                    Some(session) => Ok(session),
                    None => Err("No active CDP session"@),
                },
            },
        }
    }
}

/// The session that a command is about: the one it names, or the active one.
pub fn resolve_session_id(state: &ControllerState, command: &Json) -> (r: Result<String, String>)
    ensures
        text::outcome(r) == session_for(state@, command@),
{
    if command.has("sessionId") && command.has("tabId") {
        return Err("Use either a tab ID or a CDP session ID, not both".to_owned());
    }
    if let Some(session_id) = command.get_str("sessionId") {
        if state.sessions.contains(session_id) {
            return Ok(session_id.to_owned());
        }
        return Err("Unknown CDP session '".to_owned().concat(session_id).concat("'"));
    }
    if let Some(tab_id) = command.get_str("tabId") {
        return match find_tab(&state.sessions, tab_id) {
            Some(session) => Ok(session.session_id.clone()),
            None => Err("Unknown tab '".to_owned().concat(tab_id).concat("'")),
        };
    }
    match &state.active_session {
        Some(session_id) => Ok(session_id.clone()),
        None => Err("No active CDP session".to_owned()),
    }
}

/// What a pause is looked up by.
pub enum PauseKey {
    Pause,
    Tab,
}

/// The text that a pause is looked up by.
pub open spec fn pause_key(pause: PauseView, key: PauseKey) -> Chars {
    match key {
        PauseKey::Pause => pause.pause_id,
        PauseKey::Tab => pause.tab_id,
    }
}

/// The first pause with a given identifier or tab.
pub open spec fn pause_with(
    table: Seq<(Chars, PauseView)>,
    key: PauseKey,
    value: Chars,
) -> Option<PauseView>
    decreases table.len(),
{
    if table.len() == 0 {
        None
    } else {
        match pause_with(table.drop_last(), key, value) {
            Some(pause) => Some(pause),
            None => if pause_key(table.last().1, key) == value {
                Some(table.last().1)
            } else {
                None
            },
        }
    }
}

proof fn lemma_first_pause_stays(
    table: Seq<(Chars, PauseView)>,
    n: int,
    key: PauseKey,
    value: Chars,
)
    requires
        0 <= n <= table.len(),
        pause_with(table.take(n), key, value) is Some,
    ensures
        pause_with(table, key, value) == pause_with(table.take(n), key, value),
    decreases table.len(),
{
    if n == table.len() {
        assert(table.take(n) == table);
    } else {
        assert(table.drop_last().take(n) == table.take(n));
        lemma_first_pause_stays(table.drop_last(), n, key, value);
    }
}

fn find_pause<'a>(table: &'a StrMap<PauseRecord>, key: PauseKey, value: &str) -> (r: Option<
    &'a PauseRecord,
>)
    ensures
        r.deep_view() == pause_with(table@, key, value@),
{
    let mut i: usize = 0;
    while i < table.entries.len()
        invariant
            i <= table.entries.len() == table@.len(),
            pause_with(table@.take(i as int), key, value@) is None,
        decreases table.entries.len() - i,
    {
        let pause = &table.entries[i].1;
        assert(table@.take(i + 1).drop_last() == table@.take(i as int));
        assert(table@.take(i + 1).last() == table@[i as int]);
        let found = match key {
            PauseKey::Pause => str_eq(pause.pause_id.as_str(), value),
            PauseKey::Tab => str_eq(pause.tab_id.as_str(), value),
        };
        if found {
            proof {
                lemma_first_pause_stays(table@, i + 1, key, value@);
            }
            return Some(pause);
        }
        i = i + 1;
    }
    assert(table@.take(i as int) == table@);
    None
}

/// The pause that a command is about: the one it names, or the only one.
pub open spec fn pause_for(state: StateView, command: JsonView) -> Result<PauseView, Chars> {
    let by_pause = command.has("pauseId"@);
    let by_session = command.has("sessionId"@);
    let by_tab = command.has("tabId"@);
    if by_pause && by_session || by_pause && by_tab || by_session && by_tab {
        Err("Use exactly one of pause ID, tab ID, or CDP session ID"@)
    } else if command.get_str("pauseId"@) is Some {
        let id = command.get_str("pauseId"@)->Some_0;
        match pause_with(state.paused_sessions, PauseKey::Pause, id) {
            Some(pause) => Ok(pause),
            None => Err("Unknown or stale pause ID '"@ + id + "'"@),
        }
    } else if command.get_str("sessionId"@) is Some {
        let id = command.get_str("sessionId"@)->Some_0;
        match collections::lookup(state.paused_sessions, id) {
            Some(pause) => Ok(pause),
            None => Err("Session '"@ + id + "' is not paused"@),
        }
    } else if command.get_str("tabId"@) is Some {
        let id = command.get_str("tabId"@)->Some_0;
        match pause_with(state.paused_sessions, PauseKey::Tab, id) {
            Some(pause) => Ok(pause),
            None => Err("Tab '"@ + id + "' is not paused"@),
        }
    } else if state.paused_sessions.len() == 0 {
        Err("No JavaScript session is paused"@)
    } else if state.paused_sessions.len() == 1 {
        Ok(state.paused_sessions[0].1)
    } else {
        Err(
            text::decimal(state.paused_sessions.len())
                + " JavaScript sessions are paused; specify --tab, --session, or --pause-id"@,
        )
    }
}

/// The pause that a command is about: the one it names, or the only one.
pub fn resolve_pause<'a>(state: &'a ControllerState, command: &Json) -> (r: Result<
    &'a PauseRecord,
    String,
>)
    ensures
        text::outcome(r) == pause_for(state@, command@),
{
    let by_pause = command.has("pauseId");
    let by_session = command.has("sessionId");
    let by_tab = command.has("tabId");
    if by_pause && by_session || by_pause && by_tab || by_session && by_tab {
        return Err("Use exactly one of pause ID, tab ID, or CDP session ID".to_owned());
    }
    if let Some(id) = command.get_str("pauseId") {
        return match find_pause(&state.paused_sessions, PauseKey::Pause, id) {
            Some(pause) => Ok(pause),
            None => Err("Unknown or stale pause ID '".to_owned().concat(id).concat("'")),
        };
    }
    if let Some(id) = command.get_str("sessionId") {
        return match state.paused_sessions.get(id) {
            Some(pause) => Ok(pause),
            None => Err("Session '".to_owned().concat(id).concat("' is not paused")),
        };
    }
    if let Some(id) = command.get_str("tabId") {
        return match find_pause(&state.paused_sessions, PauseKey::Tab, id) {
            Some(pause) => Ok(pause),
            None => Err("Tab '".to_owned().concat(id).concat("' is not paused")),
        };
    }
    let count = state.paused_sessions.len();
    if count == 0 {
        Err("No JavaScript session is paused".to_owned())
    } else if count == 1 {
        Ok(&state.paused_sessions.entries[0].1)
    } else {
        Err(
            u64_text(count as u64).concat(
                " JavaScript sessions are paused; specify --tab, --session, or --pause-id",
            ),
        )
    }
}

/// Sessions that know a script.
pub open spec fn sessions_with_script(state: StateView, script: Chars) -> Seq<Chars> {
    state.scripts.filter(|x: ScriptView| x.script_id == script).map_values(
        |x: ScriptView| x.session_id,
    )
}

/// The message that a session does not know a script.
pub open spec fn unknown_script(script: Chars, session: Chars) -> Chars {
    "Unknown script '"@ + script + "' in session '"@ + session + "'"@
}

/// The message that a session does not know a script.
pub fn unknown_script_message(script_id: &str, session_id: &str) -> (r: String)
    ensures
        r@ == unknown_script(script_id@, session_id@),
{
    "Unknown script '".to_owned().concat(script_id).concat("' in session '").concat(
        session_id,
    ).concat("'")
}

/// The session whose script a command is about.
pub open spec fn script_session_for(state: StateView, command: JsonView, script: Chars) -> Result<
    Chars,
    Chars,
> {
    if selects_session(command) {
        match session_for(state, command) {
            Err(e) => Err(e),
            Ok(session) => if controller::find_script(state.scripts, session, script) is Some {
                Ok(session)
            } else {
                Err(unknown_script(script, session))
            },
        }
    } else {
        let owners = sessions_with_script(state, script);
        if owners.len() == 0 {
            Err("Unknown compiled script ID '"@ + script + "'"@)
        } else if owners.len() == 1 {
            Ok(owners[0])
        } else if state.active_session is Some && owners.contains(state.active_session->Some_0) {
            Ok(state.active_session->Some_0)
        } else {
            Err(
                "Script ID '"@ + script + "' exists in "@ + text::decimal(owners.len())
                    + " sessions; specify --tab or --session"@,
            )
        }
    }
}

fn owners_of_script(state: &ControllerState, script_id: &str) -> (r: Vec<String>)
    ensures
        r.deep_view() == sessions_with_script(state@, script_id@),
{
    let ghost all = state@.scripts;
    let ghost pred = |x: ScriptView| x.script_id == script_id@;
    let ghost f = |x: ScriptView| x.session_id;
    let mut owners: Vec<String> = Vec::new();
    let mut i: usize = 0;
    assert(owners.deep_view() =~= all.take(0).filter(pred).map_values(f)) by {
        reveal(Seq::filter);
    }
    while i < state.scripts.len()
        invariant
            all == state.scripts.deep_view(),
            pred == (|x: ScriptView| x.script_id == script_id@),
            f == (|x: ScriptView| x.session_id),
            i <= state.scripts.len(),
            owners.deep_view() == all.take(i as int).filter(pred).map_values(f),
        decreases state.scripts.len() - i,
    {
        let x = &state.scripts[i];
        let ghost was = all.take(i as int).filter(pred);
        let ghost before = owners.deep_view();
        proof {
            assert(all[i as int] == x.deep_view());
            assert(all.take(i + 1) == all.take(i as int).push(all[i as int]));
            all.take(i as int).lemma_filter_push(all[i as int], pred);
        }
        if str_eq(x.script_id.as_str(), script_id) {
            owners.push(x.session_id.clone());
            assert(owners.deep_view() =~= before.push(x.session_id@));
            assert(was.push(all[i as int]).map_values(f) =~= was.map_values(f).push(
                x.session_id@,
            ));
        }
        i = i + 1;
    }
    assert(all.take(i as int) == all);
    owners
}

/// The session whose script a command is about.
pub fn resolve_script_session(state: &ControllerState, command: &Json, script_id: &str) -> (r:
    Result<String, String>)
    ensures
        text::outcome(r) == script_session_for(state@, command@, script_id@),
{
    if has_session_selector(command) {
        return match resolve_session_id(state, command) {
            Err(e) => Err(e),
            Ok(session_id) => if state.script_position(
                session_id.as_str(),
                script_id,
            ).is_some() {
                Ok(session_id)
            } else {
                Err(unknown_script_message(script_id, session_id.as_str()))
            },
        };
    }
    let owners = owners_of_script(state, script_id);
    if owners.len() == 0 {
        return Err("Unknown compiled script ID '".to_owned().concat(script_id).concat("'"));
    }
    assert(owners.deep_view()[0] == owners@[0]@);
    if owners.len() == 1 {
        return Ok(owners[0].clone());
    }
    if let Some(active) = &state.active_session {
        if set_contains(&owners, active.as_str()) {
            return Ok(active.clone());
        }
    }
    Err(
        "Script ID '".to_owned().concat(script_id).concat("' exists in ").concat(
            u64_text(owners.len() as u64).as_str(),
        ).concat(" sessions; specify --tab or --session"),
    )
}

/// A page session that a command can be sent to: identifier and tab.
pub open spec fn live_session(state: StateView, command: JsonView) -> Result<
    (Chars, Chars),
    Chars,
> {
    if !state.connected {
        Err("Browser not launched"@)
    } else {
        match session_for(state, command) {
            Err(e) => Err(e),
            Ok(id) => match collections::lookup(state.sessions, id) {
                Some(session) => Ok((id, session.tab_id)),
                None => Err("Unknown CDP session '"@ + id + "'"@),
            },
        }
    }
}

/// A page session that a command can be sent to: identifier and tab.
pub fn resolve_live_session(state: &ControllerState, command: &Json) -> (r: Result<
    (String, String),
    String,
>)
    ensures
        text::outcome(r) == live_session(state@, command@),
{
    if !state.connected {
        return Err("Browser not launched".to_owned());
    }
    match resolve_session_id(state, command) {
        Err(e) => Err(e),
        Ok(id) => match state.sessions.get(id.as_str()) {
            Some(session) => {
                let tab = session.tab_id.clone();
                Ok((id, tab))
            },
            None => Err("Unknown CDP session '".to_owned().concat(id.as_str()).concat("'")),
        },
    }
}

/// Brings values into the order of their keys.
pub fn sort_values(items: &Vec<Json>, keys: &Vec<String>) -> (r: Vec<Json>)
    requires
        items.len() == keys.len(),
    ensures
        r.deep_view() == text::sorted_by(items.deep_view(), keys.deep_view()),
{
    let order = sort_order(keys);
    let mut sorted: Vec<Json> = Vec::new();
    let mut i: usize = 0;
    while i < order.len()
        invariant
            i == sorted.len() <= order.len(),
            items.len() == keys.len(),
            forall|j: int| 0 <= j < order.len() ==> (#[trigger] order@[j]) < keys.len(),
            forall|j: int|
                0 <= j < i ==> (#[trigger] sorted@[j])@ == items.deep_view()[order@[j] as int],
        decreases order.len() - i,
    {
        assert(order@[i as int] < keys.len());
        sorted.push(items[order[i]].clone());
        i = i + 1;
    }
    assert(sorted.deep_view() =~= text::sorted_by(items.deep_view(), keys.deep_view()));
    sorted
}

/// The pauses that a status command reports.
pub open spec fn status_pauses(state: StateView, command: JsonView) -> Result<
    Seq<JsonView>,
    Chars,
> {
    if command.has("pauseId"@) {
        match pause_for(state, command) {
            Err(e) => Err(e),
            Ok(pause) => Ok(seq![pause.to_json()]),
        }
    } else if selects_session(command) {
        match session_for(state, command) {
            Err(e) => Err(e),
            Ok(id) => match collections::lookup(state.paused_sessions, id) {
                Some(pause) => Ok(seq![pause.to_json()]),
                None => Ok(Seq::empty()),
            },
        }
    } else {
        let pauses = collections::values(state.paused_sessions);
        Ok(
            text::sorted_by(
                pauses.map_values(|p: PauseView| p.to_json()),
                pauses.map_values(|p: PauseView| p.pause_id),
            ),
        )
    }
}

/// How a status command reports a session.
pub open spec fn session_status(state: StateView, session: SessionView) -> JsonView {
    JsonView::object().with("tabId"@, JsonView::Str(session.tab_id)).with(
        "targetId"@,
        JsonView::Str(session.target_id),
    ).with("sessionId"@, JsonView::Str(session.session_id)).with(
        "documentGeneration"@,
        JsonView::Uint(session.document_generation),
    ).with(
        "enabled"@,
        JsonView::Bool(state.enabled_sessions.contains(session.session_id)),
    ).with(
        "paused"@,
        JsonView::Bool(collections::lookup(state.paused_sessions, session.session_id) is Some),
    )
}

/// Whether a status command reports a session.
pub open spec fn status_lists(state: StateView, command: JsonView, session: SessionView) -> bool {
    !selects_session(command) || session_for(state, command) == Ok::<Chars, Chars>(
        session.session_id,
    )
}

/// The sessions that a status command reports.
pub open spec fn status_sessions(state: StateView, command: JsonView) -> Seq<JsonView> {
    let sessions = collections::values(state.sessions).filter(
        |s: SessionView| status_lists(state, command, s),
    );
    text::sorted_by(
        sessions.map_values(|s: SessionView| session_status(state, s)),
        sessions.map_values(|s: SessionView| s.tab_id),
    )
}

/// Answer to a status command.
pub open spec fn status_answer(state: StateView, command: JsonView) -> Result<JsonView, Chars> {
    match status_pauses(state, command) {
        Err(e) => Err(e),
        Ok(pauses) => Ok(
            JsonView::object().with(
                "connectionGeneration"@,
                JsonView::Uint(state.connection_generation),
            ).with("engine"@, JsonView::Str(state.engine)).with(
                "enabledSessions"@,
                JsonView::Uint(state.enabled_sessions.len() as u64),
            ).with("paused"@, JsonView::Bool(pauses.len() > 0)).with(
                "pauses"@,
                JsonView::Array(pauses),
            ).with("sessions"@, JsonView::Array(status_sessions(state, command))),
        ),
    }
}

fn one_value(value: Json) -> (r: Vec<Json>)
    ensures
        r.deep_view() == seq![value@],
{
    let mut list: Vec<Json> = Vec::new();
    list.push(value);
    assert(list.deep_view() =~= seq![value@]);
    list
}

impl ControllerState {
    fn all_pauses(&self) -> (r: Vec<Json>)
        ensures
            r.deep_view() == text::sorted_by(
                collections::values(self@.paused_sessions).map_values(|p: PauseView| p.to_json()),
                collections::values(self@.paused_sessions).map_values(|p: PauseView| p.pause_id),
            ),
    {
        let ghost table = self@.paused_sessions;
        let mut items: Vec<Json> = Vec::new();
        let mut keys: Vec<String> = Vec::new();
        let mut i: usize = 0;
        while i < self.paused_sessions.entries.len()
            invariant
                table == self@.paused_sessions,
                i == items.len() == keys.len(),
                i <= self.paused_sessions.entries.len() == table.len(),
                forall|j: int|
                    0 <= j < i ==> (#[trigger] items@[j])@ == table[j].1.to_json(),
                forall|j: int| 0 <= j < i ==> (#[trigger] keys@[j])@ == table[j].1.pause_id,
            decreases self.paused_sessions.entries.len() - i,
        {
            let pause = &self.paused_sessions.entries[i].1;
            assert(table[i as int].1 == pause.deep_view());
            items.push(pause.to_json());
            keys.push(pause.pause_id.clone());
            i = i + 1;
        }
        proof {
            let list = collections::values(table);
            assert(items.deep_view() =~= list.map_values(|p: PauseView| p.to_json()));
            assert(keys.deep_view() =~= list.map_values(|p: PauseView| p.pause_id));
        }
        sort_values(&items, &keys)
    }

    fn listed_sessions(&self, command: &Json) -> (r: Vec<Json>)
        ensures
            r.deep_view() == status_sessions(self@, command@),
    {
        let ghost list = collections::values(self@.sessions);
        let ghost pred = |s: SessionView| status_lists(self@, command@, s);
        let ghost f = |s: SessionView| session_status(self@, s);
        let ghost g = |s: SessionView| s.tab_id;
        let filtered = has_session_selector(command);
        let selected = resolve_session_id(self, command);
        let mut items: Vec<Json> = Vec::new();
        let mut keys: Vec<String> = Vec::new();
        let mut i: usize = 0;
        proof {
            reveal(Seq::filter);
            assert(items.deep_view() =~= list.take(0).filter(pred).map_values(f));
            assert(keys.deep_view() =~= list.take(0).filter(pred).map_values(g));
        }
        while i < self.sessions.entries.len()
            invariant
                list == collections::values(self@.sessions),
                pred == (|s: SessionView| status_lists(self@, command@, s)),
                f == (|s: SessionView| session_status(self@, s)),
                g == (|s: SessionView| s.tab_id),
                filtered == selects_session(command@),
                text::outcome(selected) == session_for(self@, command@),
                i <= self.sessions.entries.len() == list.len(),
                items.deep_view() == list.take(i as int).filter(pred).map_values(f),
                keys.deep_view() == list.take(i as int).filter(pred).map_values(g),
            decreases self.sessions.entries.len() - i,
        {
            let session = &self.sessions.entries[i].1;
            let ghost item = session.deep_view();
            let ghost was = list.take(i as int).filter(pred);
            let ghost items_before = items.deep_view();
            let ghost keys_before = keys.deep_view();
            proof {
                assert(self@.sessions[i as int].1 == item);
                assert(list[i as int] == item);
                assert(list.take(i + 1) == list.take(i as int).push(item));
                list.take(i as int).lemma_filter_push(item, pred);
            }
            let shown = if filtered {
                match &selected {
                    Ok(id) => str_eq(id.as_str(), session.session_id.as_str()),
                    Err(_) => false,
                }
            } else {
                true
            };
            assert(shown == pred(item));
            if shown {
                items.push(
                    Json::object().with("tabId", Json::text(session.tab_id.as_str())).with(
                        "targetId",
                        Json::text(session.target_id.as_str()),
                    ).with("sessionId", Json::text(session.session_id.as_str())).with(
                        "documentGeneration",
                        Json::Uint(session.document_generation),
                    ).with(
                        "enabled",
                        Json::Bool(
                            set_contains(&self.enabled_sessions, session.session_id.as_str()),
                        ),
                    ).with(
                        "paused",
                        Json::Bool(self.paused_sessions.contains(session.session_id.as_str())),
                    ),
                );
                keys.push(session.tab_id.clone());
                proof {
                    assert(items.deep_view() =~= items_before.push(f(item)));
                    assert(keys.deep_view() =~= keys_before.push(g(item)));
                    assert(was.push(item).map_values(f) =~= was.map_values(f).push(f(item)));
                    assert(was.push(item).map_values(g) =~= was.map_values(g).push(g(item)));
                }
            }
            i = i + 1;
        }
        assert(list.take(i as int) == list);
        assert(items.deep_view().len() == keys.deep_view().len());
        sort_values(&items, &keys)
    }

    /// Answers a status command.
    pub fn status(&self, command: &Json) -> (r: Result<Json, String>)
        ensures
            text::outcome(r) == status_answer(self@, command@),
    {
        let pauses = if command.has("pauseId") {
            match resolve_pause(self, command) {
                Ok(pause) => one_value(pause.to_json()),
                Err(e) => {
                    return Err(e);
                },
            }
        } else if has_session_selector(command) {
            match resolve_session_id(self, command) {
                Err(e) => {
                    return Err(e);
                },
                Ok(id) => match self.paused_sessions.get(id.as_str()) {
                    Some(pause) => one_value(pause.to_json()),
                    None => {
                        let none: Vec<Json> = Vec::new();
                        assert(none.deep_view() =~= Seq::<JsonView>::empty());
                        none
                    },
                },
            }
        } else {
            self.all_pauses()
        };
        let sessions = self.listed_sessions(command);
        Ok(
            Json::object().with(
                "connectionGeneration",
                Json::Uint(self.connection_generation),
            ).with("engine", Json::text(self.engine.as_str())).with(
                "enabledSessions",
                Json::Uint(self.enabled_sessions.len() as u64),
            ).with("paused", Json::Bool(pauses.len() > 0)).with(
                "pauses",
                Json::array(pauses),
            ).with("sessions", Json::array(sessions)),
        )
    }

    /// Answers a stack command.
    pub fn stack(&self, command: &Json) -> (r: Result<Json, String>)
        ensures
            text::outcome(r) == stack_answer(self@, command@),
    {
        match resolve_pause(self, command) {
            Err(e) => Err(e),
            Ok(pause) => Ok(
                Json::object().with("pauseId", Json::text(pause.pause_id.as_str())).with(
                    "tabId",
                    Json::text(pause.tab_id.as_str()),
                ).with("sessionId", Json::text(pause.session_id.as_str())).with(
                    "callFrames",
                    Json::array(copy_values(&pause.call_frames)),
                ),
            ),
        }
    }

    /// The pause of the active tab.
    pub fn active_tab_paused(&self) -> (r: Option<Json>)
        ensures
            r.deep_view() == active_pause(self@),
    {
        match &self.active_session {
            None => None,
            Some(id) => match self.paused_sessions.get(id.as_str()) {
                Some(pause) => Some(pause.to_json()),
                None => None,
            },
        }
    }

    /// Identifiers of the paused sessions.
    pub fn paused_session_ids(&self) -> (r: Vec<String>)
        ensures
            r.deep_view() == collections::keys(self@.paused_sessions),
    {
        let mut ids: Vec<String> = Vec::new();
        let mut i: usize = 0;
        while i < self.paused_sessions.entries.len()
            invariant
                i == ids.len() <= self.paused_sessions.entries.len(),
                forall|j: int|
                    0 <= j < i ==> (#[trigger] ids@[j])@ == self@.paused_sessions[j].0,
            decreases self.paused_sessions.entries.len() - i,
        {
            ids.push(self.paused_sessions.entries[i].0.clone());
            i = i + 1;
        }
        assert(ids.deep_view() =~= collections::keys(self@.paused_sessions));
        ids
    }
}

/// Answer to a stack command.
pub open spec fn stack_answer(state: StateView, command: JsonView) -> Result<JsonView, Chars> {
    match pause_for(state, command) {
        Err(e) => Err(e),
        Ok(pause) => Ok(
            JsonView::object().with("pauseId"@, JsonView::Str(pause.pause_id)).with(
                "tabId"@,
                JsonView::Str(pause.tab_id),
            ).with("sessionId"@, JsonView::Str(pause.session_id)).with(
                "callFrames"@,
                JsonView::Array(pause.call_frames),
            ),
        ),
    }
}

/// The pause of the active tab.
pub open spec fn active_pause(state: StateView) -> Option<JsonView> {
    match state.active_session {
        None => None,
        Some(id) => match collections::lookup(state.paused_sessions, id) {
            Some(pause) => Some(pause.to_json()),
            None => None,
        },
    }
}

} // verus!
