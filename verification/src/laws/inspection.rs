//! What can be asked of the debugger: which session, pause or script a command
//! means, what is sent for it, and what it is answered.

use vstd::prelude::*;

use crate::collections;
use crate::controller;
use crate::controller::StateView;
use crate::inspect::{ControlView, EvaluationView, SourceReadView};
use crate::json::JsonView;
use crate::laws::order;
use crate::laws::tables;
use crate::lifecycle;
use crate::operation::StepView;
use crate::queries;
use crate::queries::PauseKey;
use crate::records::{LogicalView, PauseView, PhysicalTable, PhysicalView, ProbeKind, ScriptView, SessionView};
use crate::reports;
use crate::search;
use crate::search::SearchView;
use crate::text;
use crate::text::Chars;

verus! {

/// Member of a command, where it is a text.
pub open spec fn text_of(command: JsonView, key: Chars) -> Option<Chars> {
    match command.get(key) {
        Some(JsonView::Str(s)) => Some(s),
        _ => None,
    }
}

/// Whether a table holds a value under some key.
pub open spec fn among<W>(table: Seq<(Chars, W)>, value: W) -> bool {
    exists|i: int| 0 <= i < table.len() && (#[trigger] table[i]).1 == value
}

/// The session of a tab is one of the table, and there is one wherever a session
/// of the table has the tab.
pub proof fn lemma_session_of_tab(table: Seq<(Chars, SessionView)>, tab: Chars)
    ensures
        match lifecycle::session_of_tab(table, tab) {
            Some(session) => among(table, session) && session.tab_id == tab,
            None => forall|i: int| 0 <= i < table.len() ==> (#[trigger] table[i]).1.tab_id != tab,
        },
    decreases table.len(),
{
    if table.len() > 0 {
        let rest = table.drop_last();
        lemma_session_of_tab(rest, tab);
        assert forall|i: int| 0 <= i < rest.len() implies rest[i] == #[trigger] table[i] by {}
        match lifecycle::session_of_tab(rest, tab) {
            Some(session) => {
                let i = choose|i: int| 0 <= i < rest.len() && (#[trigger] rest[i]).1 == session;
                assert(table[i].1 == session);
            },
            None => {
                assert(table[table.len() - 1] == table.last());
            },
        }
    }
}

/// The session that a command means: the one that it names, the one of the tab
/// that it names, or the active one where it names neither. What it names has to
/// be there, and it may not name both.
pub proof fn law_commands_mean_the_session_they_name(state: StateView, command: JsonView)
    ensures
        match queries::session_for(state, command) {
            Ok(id) => {
                &&& !(command.get("sessionId"@) is Some && command.get("tabId"@) is Some)
                &&& match text_of(command, "sessionId"@) {
                    Some(named) => id == named && collections::lookup(state.sessions, id) is Some,
                    None => match text_of(command, "tabId"@) {
                        Some(tab) => exists|i: int|
                            0 <= i < state.sessions.len() && (
                            #[trigger] state.sessions[i]).1.tab_id == tab
                                && state.sessions[i].1.session_id == id,
                        None => state.active_session == Some(id),
                    },
                }
            },
            Err(_) => {
                ||| command.get("sessionId"@) is Some && command.get("tabId"@) is Some
                ||| text_of(command, "sessionId"@) matches Some(named) && collections::lookup(
                    state.sessions,
                    named,
                ) is None
                ||| text_of(command, "tabId"@) matches Some(tab) && forall|i: int|
                    0 <= i < state.sessions.len() ==> (#[trigger] state.sessions[i]).1.tab_id
                        != tab
                ||| text_of(command, "sessionId"@) is None && text_of(command, "tabId"@) is None
                    && state.active_session is None
            },
        },
{
    if let Some(tab) = text_of(command, "tabId"@) {
        lemma_session_of_tab(state.sessions, tab);
    }
}

proof fn lemma_pause_with(table: Seq<(Chars, PauseView)>, key: PauseKey, value: Chars)
    ensures
        match queries::pause_with(table, key, value) {
            Some(pause) => among(table, pause) && queries::pause_key(pause, key) == value,
            None => forall|i: int|
                0 <= i < table.len() ==> queries::pause_key((#[trigger] table[i]).1, key)
                    != value,
        },
    decreases table.len(),
{
    if table.len() > 0 {
        let rest = table.drop_last();
        lemma_pause_with(rest, key, value);
        assert forall|i: int| 0 <= i < rest.len() implies rest[i] == #[trigger] table[i] by {}
        match queries::pause_with(rest, key, value) {
            Some(pause) => {
                let i = choose|i: int| 0 <= i < rest.len() && (#[trigger] rest[i]).1 == pause;
                assert(table[i].1 == pause);
            },
            None => {
                assert(table[table.len() - 1] == table.last());
            },
        }
    }
}

/// The pause that a command means: the one with the identifier that it names, the
/// one of the session or of the tab that it names, or the only one. A command
/// that names more than one of them, or what is not paused, means none.
pub proof fn law_commands_mean_the_pause_they_name(state: StateView, command: JsonView)
    ensures
        match queries::pause_for(state, command) {
            Ok(pause) => {
                &&& among(state.paused_sessions, pause)
                &&& text_of(command, "pauseId"@) matches Some(id) ==> pause.pause_id == id
                &&& text_of(command, "sessionId"@) matches Some(id) ==> collections::lookup(
                    state.paused_sessions,
                    id,
                ) == Some(pause)
                &&& text_of(command, "tabId"@) matches Some(id) ==> pause.tab_id == id
                &&& text_of(command, "pauseId"@) is None && text_of(command, "sessionId"@) is None
                    && text_of(command, "tabId"@) is None ==> state.paused_sessions.len() == 1
                &&& !(command.get("pauseId"@) is Some && command.get("sessionId"@) is Some)
                &&& !(command.get("pauseId"@) is Some && command.get("tabId"@) is Some)
                &&& !(command.get("sessionId"@) is Some && command.get("tabId"@) is Some)
            },
            Err(_) => {
                ||| command.get("pauseId"@) is Some && command.get("sessionId"@) is Some
                ||| command.get("pauseId"@) is Some && command.get("tabId"@) is Some
                ||| command.get("sessionId"@) is Some && command.get("tabId"@) is Some
                ||| text_of(command, "pauseId"@) matches Some(id) && forall|i: int|
                    0 <= i < state.paused_sessions.len() ==> (
                    #[trigger] state.paused_sessions[i]).1.pause_id != id
                ||| text_of(command, "sessionId"@) matches Some(id) && collections::lookup(
                    state.paused_sessions,
                    id,
                ) is None
                ||| text_of(command, "tabId"@) matches Some(id) && forall|i: int|
                    0 <= i < state.paused_sessions.len() ==> (
                    #[trigger] state.paused_sessions[i]).1.tab_id != id
                ||| state.paused_sessions.len() != 1
            },
        },
{
    if let Some(id) = text_of(command, "pauseId"@) {
        lemma_pause_with(state.paused_sessions, PauseKey::Pause, id);
    }
    if let Some(id) = text_of(command, "tabId"@) {
        lemma_pause_with(state.paused_sessions, PauseKey::Tab, id);
    }
    if let Some(id) = text_of(command, "sessionId"@) {
        tables::lemma_lookup_member(state.paused_sessions, id);
        if let Some(pause) = collections::lookup(state.paused_sessions, id) {
            let i = choose|i: int|
                0 <= i < state.paused_sessions.len() && state.paused_sessions[i] == (id, pause);
            assert(state.paused_sessions[i].1 == pause);
        }
    }
}

proof fn lemma_find_script(scripts: Seq<ScriptView>, session: Chars, script: Chars)
    ensures
        match controller::find_script(scripts, session, script) {
            Some(found) => scripts.contains(found) && found.session_id == session
                && found.script_id == script,
            None => forall|i: int|
                0 <= i < scripts.len() ==> (#[trigger] scripts[i]).session_id != session
                    || scripts[i].script_id != script,
        },
    decreases scripts.len(),
{
    if scripts.len() > 0 {
        let rest = scripts.drop_last();
        lemma_find_script(rest, session, script);
        assert forall|i: int| 0 <= i < rest.len() implies rest[i] == #[trigger] scripts[i] by {}
        if let Some(found) = controller::find_script(rest, session, script) {
            if rest.contains(found) {
                let i = choose|i: int| 0 <= i < rest.len() && rest[i] == found;
                assert(scripts[i] == found);
            }
        }
        assert(scripts[scripts.len() - 1] == scripts.last());
    }
}

/// A script is looked for in the session that a command names, and is found
/// there or nowhere. Where no session is named, a script that only one session
/// has is that one's; of several the active session's is meant.
pub proof fn law_commands_mean_a_script_that_is_there(
    state: StateView,
    command: JsonView,
    script: Chars,
)
    ensures
        match queries::script_session_for(state, command, script) {
            Ok(session) => {
                &&& exists|i: int|
                    0 <= i < state.scripts.len() && (#[trigger] state.scripts[i]).session_id
                        == session && state.scripts[i].script_id == script
                &&& command.get("sessionId"@) is Some || command.get("tabId"@) is Some
                    ==> queries::session_for(state, command) == Ok::<Chars, Chars>(session)
                &&& command.get("sessionId"@) is None && command.get("tabId"@) is None
                    && state.active_session != Some(session) ==> forall|i: int|
                    0 <= i < state.scripts.len() && (#[trigger] state.scripts[i]).script_id
                        == script ==> state.scripts[i].session_id == session
            },
            Err(_) => true,
        },
{
    broadcast use tables::lemma_filter_holds;

    let keep = |x: ScriptView| x.script_id == script;
    let kept = state.scripts.filter(keep);
    let owners = queries::sessions_with_script(state, script);
    assert(owners == kept.map_values(|x: ScriptView| x.session_id));
    if let Ok(session) = queries::script_session_for(state, command, script) {
        if queries::selects_session(command) {
            lemma_find_script(state.scripts, session, script);
            let found = controller::find_script(state.scripts, session, script)->Some_0;
            let i = choose|i: int| 0 <= i < state.scripts.len() && state.scripts[i] == found;
            assert(state.scripts[i].session_id == session);
        } else {
            assert(owners.contains(session)) by {
                assert(owners[0] == owners[0]);
            }
            let k = choose|k: int| 0 <= k < owners.len() && owners[k] == session;
            assert(kept.contains(kept[k]));
            assert(state.scripts.contains(kept[k]));
            let i = choose|i: int| 0 <= i < state.scripts.len() && state.scripts[i] == kept[k];
            assert(state.scripts[i].session_id == session);
            if state.active_session != Some(session) {
                assert forall|j: int|
                    0 <= j < state.scripts.len() && (#[trigger] state.scripts[j]).script_id
                        == script implies state.scripts[j].session_id == session by {
                    assert(kept.contains(state.scripts[j]));
                    let m = choose|m: int| 0 <= m < kept.len() && kept[m] == state.scripts[j];
                    assert(owners.len() == 1);
                    assert(owners[m] == state.scripts[j].session_id);
                }
            }
        }
    }
}

/// An evaluation runs the expression of the command in a frame of the pause that
/// the command means: the frame that it names, the one at the index that it
/// gives, or the top one. It is answered with the value that came.
pub proof fn law_evaluations_run_in_the_chosen_frame(
    state: StateView,
    command: JsonView,
    result: JsonView,
    error: Chars,
)
    ensures
        match EvaluationView::start(state, command) {
            StepView::Wait(machine) => {
                let pause = queries::pause_for(state, command)->Ok_0;
                let request = machine.request();
                let params = request.params->Some_0;
                let frame = params.get_str("callFrameId"@);
                &&& state.connected
                &&& queries::pause_for(state, command) is Ok
                &&& request.method == "Debugger.evaluateOnCallFrame"@
                &&& request.session_id == pause.session_id
                &&& request.params is Some
                &&& text_of(command, "expression"@) is Some
                &&& params.get_str("expression"@) == text_of(command, "expression"@)
                &&& params.get_bool("returnByValue"@) == Some(true)
                &&& params.get_bool("generatePreview"@) == Some(true)
                &&& params.get_bool("silent"@) == Some(true)
                &&& frame is Some
                &&& match text_of(command, "callFrameId"@) {
                    Some(id) => {
                        &&& command.get("frame"@) is None
                        &&& frame == Some(id)
                        &&& exists|i: int|
                            0 <= i < pause.call_frames.len() && text_of(
                                #[trigger] pause.call_frames[i],
                                "callFrameId"@,
                            ) == Some(id)
                    },
                    None => {
                        let index = match command.get("frame"@) {
                            Some(JsonView::Uint(n)) => n as int,
                            _ => 0,
                        };
                        &&& 0 <= index < pause.call_frames.len()
                        &&& text_of(pause.call_frames[index], "callFrameId"@) == frame
                    },
                }
                &&& machine.answer(Err(error)) == Err::<JsonView, Chars>(error)
                &&& match machine.answer(Ok(result)) {
                    Ok(answer) => {
                        &&& answer.get_str("pauseId"@) == Some(pause.pause_id)
                        &&& answer.get_str("callFrameId"@) == frame
                        &&& answer.get("result"@) == Some(
                            match result.get("result"@) {
                                Some(v) => v,
                                None => JsonView::Null,
                            },
                        )
                        &&& answer.get("exceptionDetails"@) == Some(
                            match result.get("exceptionDetails"@) {
                                Some(v) => v,
                                None => JsonView::Null,
                            },
                        )
                    },
                    Err(_) => false,
                }
            },
            StepView::Done(outcome) => outcome is Err,
        },
{
    reveal_strlit("callFrameId");
    reveal_strlit("expression");
    reveal_strlit("returnByValue");
    reveal_strlit("generatePreview");
    reveal_strlit("silent");
    reveal_strlit("pauseId");
    reveal_strlit("result");
    reveal_strlit("exceptionDetails");
    assert("callFrameId"@.len() == 11);
    assert("expression"@.len() == 10);
    assert("returnByValue"@.len() == 13);
    assert("generatePreview"@.len() == 15);
    assert("silent"@.len() == 6);
    assert("pauseId"@.len() == 7);
    assert("result"@.len() == 6);
    assert("exceptionDetails"@.len() == 16);
    assert("result"@[0] == 'r');
    assert("silent"@[0] == 's');
}

/// A command that controls execution is sent as it is to the session of the
/// pause that it means, and a pause to the session that it means. The answer
/// says which.
pub proof fn law_controls_go_to_the_right_session(
    state: StateView,
    command: JsonView,
    method: Chars,
    result: JsonView,
    error: Chars,
)
    ensures
        match ControlView::start(state, command, method) {
            StepView::Wait(machine) => {
                &&& state.connected
                &&& machine.request().method == method
                &&& machine.request().params is None
                &&& machine.answer(Err(error)) == Err::<JsonView, Chars>(error)
                &&& machine.answer(Ok(result)) is Ok
                &&& if method == "Debugger.pause"@ {
                    let answer = machine.answer(Ok(result))->Ok_0;
                    &&& queries::session_for(state, command) == Ok::<Chars, Chars>(
                        machine.request().session_id,
                    )
                    &&& answer.get_str("requested"@) == Some("pause"@)
                    &&& answer.get_str("sessionId"@) == Some(machine.request().session_id)
                    &&& answer.get_str("tabId"@) == Some(machine.tab_id)
                    &&& collections::lookup(state.sessions, machine.request().session_id) is Some
                    &&& collections::lookup(
                        state.sessions,
                        machine.request().session_id,
                    )->Some_0.tab_id == machine.tab_id
                } else {
                    let answer = machine.answer(Ok(result))->Ok_0;
                    let pause = queries::pause_for(state, command)->Ok_0;
                    &&& queries::pause_for(state, command) is Ok
                    &&& machine.request().session_id == pause.session_id
                    &&& answer.get_str("pauseId"@) == Some(pause.pause_id)
                    &&& answer.get_str("sessionId"@) == Some(pause.session_id)
                    &&& answer.get_str("tabId"@) == Some(pause.tab_id)
                    &&& answer.get_str("command"@) == Some(method)
                }
            },
            StepView::Done(outcome) => outcome is Err,
        },
{
    reveal_strlit("requested");
    reveal_strlit("tabId");
    reveal_strlit("sessionId");
    reveal_strlit("pauseId");
    reveal_strlit("command");
    assert("requested"@.len() == 9);
    assert("tabId"@.len() == 5);
    assert("sessionId"@.len() == 9);
    assert("pauseId"@.len() == 7);
    assert("command"@.len() == 7);
    assert("command"@[0] == 'c');
    assert("pauseId"@[0] == 'p');
    assert("requested"@[0] == 'r');
    assert("sessionId"@[0] == 's');
}

/// Reading a source asks for that of the script that the command means, and
/// answers with it, unless it is longer than thirty-two mebibytes.
pub proof fn law_sources_are_read_as_they_are(
    state: StateView,
    command: JsonView,
    result: JsonView,
    source: Chars,
    error: Chars,
)
    requires
        result.get("scriptSource"@) == Some(JsonView::Str(source)),
    ensures
        match SourceReadView::start(state, command) {
            StepView::Wait(machine) => {
                let request = machine.request();
                let script = text_of(command, "scriptId"@)->Some_0;
                &&& state.connected
                &&& text_of(command, "scriptId"@) is Some
                &&& request.method == "Debugger.getScriptSource"@
                &&& queries::script_session_for(state, command, script) == Ok::<Chars, Chars>(
                    request.session_id,
                )
                &&& request.params is Some
                &&& request.params->Some_0.get_str("scriptId"@) == Some(script)
                &&& machine.answer(Err(error)) == Err::<JsonView, Chars>(error)
                &&& text::utf8_len(source) > 33_554_432 ==> machine.answer(Ok(result)) is Err
                &&& text::utf8_len(source) <= 33_554_432 ==> {
                    let answer = machine.answer(Ok(result))->Ok_0;
                    &&& machine.answer(Ok(result)) is Ok
                    &&& answer.get_str("scriptSource"@) == Some(source)
                    &&& exists|i: int|
                        0 <= i < state.scripts.len() && (#[trigger] state.scripts[i]).session_id
                            == request.session_id && state.scripts[i].script_id == script
                            && answer.get("script"@) == Some(state.scripts[i].record)
                }
            },
            StepView::Done(outcome) => outcome is Err,
        },
{
    reveal_strlit("scriptId");
    reveal_strlit("script");
    reveal_strlit("scriptSource");
    reveal_strlit("bytecode");
    assert("scriptId"@.len() == 8);
    assert("script"@.len() == 6);
    assert("scriptSource"@.len() == 12);
    assert("bytecode"@.len() == 8);
    assert("bytecode"@[0] == 'b');
    assert("scriptId"@[0] == 's');
    if let StepView::Wait(machine) = SourceReadView::start(state, command) {
        lemma_find_script(state.scripts, machine.session_id, machine.script_id);
        let found = controller::find_script(
            state.scripts,
            machine.session_id,
            machine.script_id,
        )->Some_0;
        let i = choose|i: int| 0 <= i < state.scripts.len() && state.scripts[i] == found;
        assert(state.scripts[i].record == machine.script);
    }
}

/// A stack is that of the pause that the command means, with all its frames.
pub proof fn law_stacks_are_those_of_the_pause(state: StateView, command: JsonView)
    ensures
        match (queries::stack_answer(state, command), queries::pause_for(state, command)) {
            (Ok(answer), Ok(pause)) => {
                &&& answer.get_str("pauseId"@) == Some(pause.pause_id)
                &&& answer.get_str("tabId"@) == Some(pause.tab_id)
                &&& answer.get_str("sessionId"@) == Some(pause.session_id)
                &&& answer.get_array("callFrames"@) == Some(pause.call_frames)
            },
            (Err(a), Err(b)) => a == b,
            _ => false,
        },
{
    reveal_strlit("pauseId");
    reveal_strlit("tabId");
    reveal_strlit("sessionId");
    reveal_strlit("callFrames");
    assert("pauseId"@.len() == 7);
    assert("tabId"@.len() == 5);
    assert("sessionId"@.len() == 9);
    assert("callFrames"@.len() == 10);
}

/// Members of an array of texts.
pub open spec fn texts_told(value: Option<JsonView>, texts: Seq<Chars>) -> bool {
    &&& value is Some
    &&& value->Some_0 is Array
    &&& value->Some_0->Array_0.len() == texts.len()
    &&& forall|i: int|
        0 <= i < texts.len() ==> #[trigger] value->Some_0->Array_0[i] == JsonView::Str(texts[i])
}

/// A pause is told with everything that is known of it.
pub proof fn law_pauses_are_told_in_full(pause: PauseView)
    ensures
        ({
            let told = pause.to_json();
            &&& told.get_str("pauseId"@) == Some(pause.pause_id)
            &&& told.get_u64("connectionGeneration"@) == Some(pause.connection_generation)
            &&& told.get_str("tabId"@) == Some(pause.tab_id)
            &&& told.get_str("sessionId"@) == Some(pause.session_id)
            &&& told.get_u64("documentGeneration"@) == Some(pause.document_generation)
            &&& told.get_str("reason"@) == Some(pause.reason)
            &&& texts_told(told.get("hitBreakpoints"@), pause.hit_breakpoints)
            &&& texts_told(told.get("probeIds"@), pause.probe_ids)
            &&& told.get_array("callFrames"@) == Some(pause.call_frames)
            &&& told.get("data"@) == Some(
                match pause.data {
                    Some(data) => data,
                    None => JsonView::Null,
                },
            )
        }),
{
    reveal_strlit("pauseId");
    reveal_strlit("connectionGeneration");
    reveal_strlit("tabId");
    reveal_strlit("sessionId");
    reveal_strlit("documentGeneration");
    reveal_strlit("reason");
    reveal_strlit("hitBreakpoints");
    reveal_strlit("probeIds");
    reveal_strlit("callFrames");
    reveal_strlit("data");
    assert("pauseId"@.len() == 7);
    assert("connectionGeneration"@.len() == 20);
    assert("tabId"@.len() == 5);
    assert("sessionId"@.len() == 9);
    assert("documentGeneration"@.len() == 18);
    assert("reason"@.len() == 6);
    assert("hitBreakpoints"@.len() == 14);
    assert("probeIds"@.len() == 8);
    assert("callFrames"@.len() == 10);
    assert("data"@.len() == 4);
}

/// An installation is told with everything that is known of it.
pub proof fn law_installations_are_told_in_full(physical: PhysicalView)
    ensures
        ({
            let told = physical.to_json();
            &&& told.get_str("physicalId"@) == Some(physical.physical_id)
            &&& told.get_str("cdpBreakpointId"@) == Some(physical.cdp_breakpoint_id)
            &&& told.get_str("probeId"@) == Some(physical.probe_id)
            &&& told.get_u64("connectionGeneration"@) == Some(physical.connection_generation)
            &&& told.get_str("sessionId"@) == Some(physical.session_id)
            &&& told.get_u64("documentGeneration"@) == Some(physical.document_generation)
            &&& told.get_str("scriptId"@) == Some(physical.script_id)
            &&& told.get_u64("executionContextId"@) == physical.execution_context_id
            &&& told.get("requestedLocation"@) == Some(physical.requested_location)
            &&& told.get("actualLocation"@) == Some(physical.actual_location)
        }),
{
    reveal_strlit("physicalId");
    reveal_strlit("cdpBreakpointId");
    reveal_strlit("probeId");
    reveal_strlit("connectionGeneration");
    reveal_strlit("sessionId");
    reveal_strlit("documentGeneration");
    reveal_strlit("scriptId");
    reveal_strlit("executionContextId");
    reveal_strlit("requestedLocation");
    reveal_strlit("actualLocation");
    assert("physicalId"@.len() == 10);
    assert("cdpBreakpointId"@.len() == 15);
    assert("probeId"@.len() == 7);
    assert("connectionGeneration"@.len() == 20);
    assert("sessionId"@.len() == 9);
    assert("documentGeneration"@.len() == 18);
    assert("scriptId"@.len() == 8);
    assert("executionContextId"@.len() == 18);
    assert("requestedLocation"@.len() == 17);
    assert("actualLocation"@.len() == 14);
    assert("documentGeneration"@[0] == 'd');
    assert("executionContextId"@[0] == 'e');
}

proof fn lemma_filter_map_holds(ids: Seq<Chars>, physical: PhysicalTable, id: Chars)
    requires
        ids.contains(id),
        collections::lookup(physical, id) is Some,
    ensures
        ids.filter_map(
            |id: Chars| crate::records::binding_json(physical, id),
        ).contains(collections::lookup(physical, id)->Some_0.to_json()),
    decreases ids.len(),
{
    reveal_with_fuel(Seq::filter_map, 2);
    let f = |id: Chars| crate::records::binding_json(physical, id);
    let rest = ids.drop_last();
    let value = collections::lookup(physical, id)->Some_0.to_json();
    let part = rest.filter_map(f);
    let whole = ids.filter_map(f);
    if ids.last() == id {
        assert(whole == part.push(value));
        assert(whole[part.len() as int] == value);
    } else {
        let i = choose|i: int| 0 <= i < ids.len() && ids[i] == id;
        assert(rest[i] == id);
        lemma_filter_map_holds(rest, physical, id);
        let j = choose|j: int| 0 <= j < part.len() && part[j] == value;
        assert(whole[j] == value);
    }
}

/// A probe is told with everything that is known of it, and with its
/// installations.
pub proof fn law_probes_are_told_in_full(probe: LogicalView, physical: PhysicalTable, id: Chars)
    ensures
        ({
            let told = probe.to_json(physical);
            &&& told.get_str("probeId"@) == Some(probe.probe_id)
            &&& told.get_str("kind"@) == Some(
                if probe.kind == ProbeKind::Breakpoint {
                    "breakpoint"@
                } else {
                    "logpoint"@
                },
            )
            &&& told.get_bool("enabled"@) == Some(probe.enabled)
            &&& told.get_bool("persistent"@) == Some(probe.persistent)
            &&& told.get_str("status"@) == Some(probe.status)
            &&& told.get_str("condition"@) == probe.condition
            &&& told.get_str("when"@) == probe.when
            &&& texts_told(told.get("expressions"@), probe.expressions)
            &&& told.get("tags"@) == Some(probe.tags)
            &&& told.get("target"@) == Some(probe.target)
            &&& told.get_array("bindings"@) is Some
            &&& probe.physical_ids.contains(id) && collections::lookup(physical, id) is Some
                ==> told.get_array("bindings"@)->Some_0.contains(
                collections::lookup(physical, id)->Some_0.to_json(),
            )
        }),
{
    reveal_strlit("probeId");
    reveal_strlit("kind");
    reveal_strlit("enabled");
    reveal_strlit("persistent");
    reveal_strlit("status");
    reveal_strlit("condition");
    reveal_strlit("when");
    reveal_strlit("expressions");
    reveal_strlit("tags");
    reveal_strlit("target");
    reveal_strlit("bindings");
    assert("probeId"@.len() == 7);
    assert("kind"@.len() == 4);
    assert("enabled"@.len() == 7);
    assert("persistent"@.len() == 10);
    assert("status"@.len() == 6);
    assert("condition"@.len() == 9);
    assert("when"@.len() == 4);
    assert("expressions"@.len() == 11);
    assert("tags"@.len() == 4);
    assert("target"@.len() == 6);
    assert("bindings"@.len() == 8);
    assert("enabled"@[0] == 'e');
    assert("kind"@[0] == 'k');
    assert("probeId"@[0] == 'p');
    assert("status"@[0] == 's');
    assert("tags"@[0] == 't');
    assert("target"@[0] == 't');
    assert("when"@[0] == 'w');
    if probe.physical_ids.contains(id) && collections::lookup(physical, id) is Some {
        lemma_filter_map_holds(probe.physical_ids, physical, id);
    }
}

/// A sorted list holds what the list holds.
pub proof fn lemma_sorted_holds<T>(items: Seq<T>, keys: Seq<Chars>, x: T)
    requires
        items.len() == keys.len(),
    ensures
        text::sorted_by(items, keys).contains(x) <==> items.contains(x),
        text::sorted_by(items, keys).len() == items.len(),
{
    order::law_sort_is_a_stable_rearrangement(keys);
    text::lemma_stable_order_range(keys);
    let order = text::stable_order(keys);
    let sorted = text::sorted_by(items, keys);
    if items.contains(x) {
        let i = choose|i: int| 0 <= i < items.len() && items[i] == x;
        assert(order.contains(i));
        let p = choose|p: int| 0 <= p < order.len() && order[p] == i;
        assert(sorted[p] == x);
    }
    if sorted.contains(x) {
        let p = choose|p: int| 0 <= p < sorted.len() && sorted[p] == x;
        assert(order.contains(order[p]));
        assert(items[order[p]] == x);
    }
}

/// Whether a script is one that a list should hold: of the session, where one is
/// chosen, and with an address that holds the filter, where there is one.
pub open spec fn wanted_script(
    script: ScriptView,
    session: Option<Chars>,
    filter: Option<Chars>,
) -> bool {
    &&& session matches Some(id) ==> script.session_id == id
    &&& filter matches Some(needle) ==> script.record.get("url"@) matches Some(
        JsonView::Str(url),
    ) && exists|at: int|
        0 <= at && at + needle.len() <= url.len() && #[trigger] url.subrange(
            at,
            at + needle.len(),
        ) == needle
}

proof fn lemma_wanted(script: ScriptView, session: Option<Chars>, filter: Option<Chars>)
    ensures
        reports::script_chosen(script, session, filter) <==> wanted_script(
            script,
            session,
            filter,
        ),
{
    if let Some(needle) = filter {
        if let Some(JsonView::Str(url)) = script.record.get("url"@) {
            if text::occurs(url, needle) {
                let at = choose|at: int| text::occurs_at(url, needle, at);
                assert(url.subrange(at, at + needle.len()) == needle);
            }
            if exists|at: int|
                0 <= at && at + needle.len() <= url.len() && #[trigger] url.subrange(
                    at,
                    at + needle.len(),
                ) == needle {
                let at = choose|at: int|
                    0 <= at && at + needle.len() <= url.len() && #[trigger] url.subrange(
                        at,
                        at + needle.len(),
                    ) == needle;
                assert(text::occurs_at(url, needle, at));
            }
        }
    }
}

/// The scripts that a command selects are those that it wants: of its session,
/// with its filter in their address, and all of them; they ascend by identifier.
pub proof fn law_selected_scripts_are_those_wanted(
    scripts: Seq<ScriptView>,
    session: Option<Chars>,
    filter: Option<Chars>,
    script: ScriptView,
)
    ensures
        reports::selected_scripts(scripts, session, filter).contains(script) <==> scripts.contains(
            script,
        ) && wanted_script(script, session, filter),
        forall|i: int, j: int|
            0 <= i < j < reports::selected_scripts(scripts, session, filter).len()
                ==> !text::text_lt(
                (#[trigger] reports::selected_scripts(scripts, session, filter)[j]).script_id,
                (#[trigger] reports::selected_scripts(scripts, session, filter)[i]).script_id,
            ),
{
    broadcast use tables::lemma_filter_holds;

    let chosen = scripts.filter(|x: ScriptView| reports::script_chosen(x, session, filter));
    let keys = chosen.map_values(|x: ScriptView| x.script_id);
    lemma_wanted(script, session, filter);
    lemma_sorted_holds(chosen, keys, script);
    order::law_sorted_ascends(chosen, keys, |x: ScriptView| x.script_id);
    assert(chosen.contains(script) <==> scripts.contains(script) && reports::script_chosen(
        script,
        session,
        filter,
    ));
}

/// A list of scripts holds the record of every script that the command selects,
/// and no other.
pub proof fn law_scripts_are_listed_as_recorded(
    state: StateView,
    command: JsonView,
    script: ScriptView,
)
    ensures
        match reports::scripts_answer(state, command) {
            Ok(answer) => {
                let selecting = command.get("sessionId"@) is Some || command.get("tabId"@) is Some;
                let session = if selecting {
                    Some(queries::session_for(state, command)->Ok_0)
                } else {
                    None
                };
                let list = answer.get_array("scripts"@)->Some_0;
                &&& selecting ==> queries::session_for(state, command) is Ok
                &&& answer.get_u64("connectionGeneration"@) == Some(state.connection_generation)
                &&& answer.get_array("scripts"@) is Some
                &&& state.scripts.contains(script) && wanted_script(
                    script,
                    session,
                    text_of(command, "filter"@),
                ) ==> list.contains(script.record)
                &&& forall|k: int|
                    0 <= k < list.len() ==> listed_script(
                        state,
                        session,
                        text_of(command, "filter"@),
                        #[trigger] list[k],
                    )
            },
            Err(_) => command.get("sessionId"@) is Some || command.get("tabId"@) is Some,
        },
{
    reveal_strlit("connectionGeneration");
    reveal_strlit("scripts");
    assert("connectionGeneration"@.len() == 20);
    assert("scripts"@.len() == 7);
    if let Ok(session) = reports::restricted_session(state, command) {
        let filter = text_of(command, "filter"@);
        assert(filter == command.get_str("filter"@));
        let chosen = reports::selected_scripts(state.scripts, session, filter);
        let list = chosen.map_values(|x: ScriptView| x.record);
        law_selected_scripts_are_those_wanted(state.scripts, session, filter, script);
        if state.scripts.contains(script) && wanted_script(script, session, filter) {
            let k = choose|k: int| 0 <= k < chosen.len() && chosen[k] == script;
            assert(list[k] == script.record);
        }
        assert forall|k: int| 0 <= k < list.len() implies listed_script(
            state,
            session,
            filter,
            #[trigger] list[k],
        ) by {
            law_selected_scripts_are_those_wanted(state.scripts, session, filter, chosen[k]);
            assert(chosen.contains(chosen[k]));
            let i = choose|i: int|
                0 <= i < state.scripts.len() && state.scripts[i] == chosen[k];
            assert(state.scripts[i].record == list[k]);
        }
    }
}

/// Whether a record is that of a script that is wanted.
pub open spec fn listed_script(
    state: StateView,
    session: Option<Chars>,
    filter: Option<Chars>,
    record: JsonView,
) -> bool {
    exists|i: int|
        0 <= i < state.scripts.len() && (#[trigger] state.scripts[i]).record == record
            && wanted_script(state.scripts[i], session, filter)
}

/// A list of probes holds every probe of its kind as it is told, and no probe of
/// another kind; they ascend by identifier.
pub proof fn law_probes_are_listed_by_kind(
    state: StateView,
    kind: ProbeKind,
    i: int,
)
    requires
        0 <= i < state.logical_probes.len(),
    ensures
        ({
            let answer = reports::probes_answer(state, kind);
            let list = answer.get_array("probes"@)->Some_0;
            let probe = state.logical_probes[i].1;
            &&& answer.get_str("kind"@) == Some(
                if kind == ProbeKind::Breakpoint {
                    "breakpoint"@
                } else {
                    "logpoint"@
                },
            )
            &&& answer.get_array("probes"@) is Some
            &&& probe.kind == kind ==> list.contains(probe.to_json(state.physical_probes))
            &&& forall|k: int|
                0 <= k < list.len() ==> listed_probe(state, kind, #[trigger] list[k])
        }),
{
    broadcast use tables::lemma_filter_holds;

    reveal_strlit("kind");
    reveal_strlit("probes");
    assert("kind"@.len() == 4);
    assert("probes"@.len() == 6);
    let values = collections::values(state.logical_probes);
    let probes = values.filter(|p: LogicalView| p.kind == kind);
    let items = probes.map_values(|p: LogicalView| p.to_json(state.physical_probes));
    let keys = probes.map_values(|p: LogicalView| p.probe_id);
    let list = text::sorted_by(items, keys);
    let probe = state.logical_probes[i].1;
    if probe.kind == kind {
        assert(values[i] == probe);
        assert(probes.contains(probe));
        let k = choose|k: int| 0 <= k < probes.len() && probes[k] == probe;
        assert(items[k] == probe.to_json(state.physical_probes));
        lemma_sorted_holds(items, keys, items[k]);
    }
    assert forall|k: int| 0 <= k < list.len() implies listed_probe(
        state,
        kind,
        #[trigger] list[k],
    ) by {
        lemma_sorted_holds(items, keys, list[k]);
        assert(list.contains(list[k]));
        let m = choose|m: int| 0 <= m < items.len() && items[m] == list[k];
        assert(probes.contains(probes[m]));
        assert(values.contains(probes[m]));
        let j = choose|j: int| 0 <= j < values.len() && values[j] == probes[m];
        assert(state.logical_probes[j].1.to_json(state.physical_probes) == list[k]);
    }
}

/// Whether a JSON value tells a probe of a kind.
pub open spec fn listed_probe(state: StateView, kind: ProbeKind, told: JsonView) -> bool {
    exists|j: int|
        0 <= j < state.logical_probes.len() && (#[trigger] state.logical_probes[j]).1.to_json(
            state.physical_probes,
        ) == told && state.logical_probes[j].1.kind == kind
}

/// Whether a JSON value tells the state of a session.
pub open spec fn tells_session(told: JsonView, state: StateView, session: SessionView) -> bool {
    &&& told.get_str("tabId"@) == Some(session.tab_id)
    &&& told.get_str("targetId"@) == Some(session.target_id)
    &&& told.get_str("sessionId"@) == Some(session.session_id)
    &&& told.get_u64("documentGeneration"@) == Some(session.document_generation)
    &&& told.get_bool("enabled"@) == Some(state.enabled_sessions.contains(session.session_id))
    &&& told.get_bool("paused"@) == Some(
        collections::lookup(state.paused_sessions, session.session_id) is Some,
    )
}

/// Whether one of some JSON values tells the state of a session.
pub open spec fn one_tells(list: Seq<JsonView>, state: StateView, session: SessionView) -> bool {
    exists|k: int| 0 <= k < list.len() && tells_session(#[trigger] list[k], state, session)
}

/// A status lists every session, or the one that the command means, each with
/// whether it is enabled and paused; and every pause, or the ones of what the
/// command names. It says whether any of them is paused.
pub proof fn law_a_status_tells_every_session_and_pause(
    state: StateView,
    command: JsonView,
    i: int,
    j: int,
)
    requires
        0 <= i < state.sessions.len(),
        0 <= j < state.paused_sessions.len(),
        command.get("pauseId"@) is None,
    ensures
        match queries::status_answer(state, command) {
            Ok(answer) => {
                let selecting = command.get("sessionId"@) is Some || command.get("tabId"@) is Some;
                let session = state.sessions[i].1;
                let sessions = answer.get_array("sessions"@)->Some_0;
                let pauses = answer.get_array("pauses"@)->Some_0;
                &&& answer.get_u64("connectionGeneration"@) == Some(state.connection_generation)
                &&& answer.get_str("engine"@) == Some(state.engine)
                &&& answer.get_u64("enabledSessions"@) == Some(
                    state.enabled_sessions.len() as u64,
                )
                &&& answer.get_array("sessions"@) is Some
                &&& answer.get_array("pauses"@) is Some
                &&& answer.get_bool("paused"@) == Some(pauses.len() > 0)
                &&& !selecting ==> one_tells(sessions, state, session) && pauses.contains(
                    state.paused_sessions[j].1.to_json(),
                ) && pauses.len() == state.paused_sessions.len()
                &&& selecting ==> {
                    let id = queries::session_for(state, command)->Ok_0;
                    &&& queries::session_for(state, command) is Ok
                    &&& session.session_id == id ==> one_tells(sessions, state, session)
                    &&& forall|k: int|
                        0 <= k < sessions.len() ==> (#[trigger] sessions[k]).get_str(
                            "sessionId"@,
                        ) == Some(id)
                    &&& match collections::lookup(state.paused_sessions, id) {
                        Some(pause) => pauses == seq![pause.to_json()],
                        None => pauses.len() == 0,
                    }
                }
            },
            Err(_) => queries::session_for(state, command) is Err,
        },
{
    broadcast use tables::lemma_filter_holds;

    reveal_strlit("connectionGeneration");
    reveal_strlit("engine");
    reveal_strlit("enabledSessions");
    reveal_strlit("paused");
    reveal_strlit("pauses");
    reveal_strlit("sessions");
    reveal_strlit("tabId");
    reveal_strlit("targetId");
    reveal_strlit("sessionId");
    reveal_strlit("documentGeneration");
    reveal_strlit("enabled");
    assert("connectionGeneration"@.len() == 20);
    assert("engine"@.len() == 6);
    assert("enabledSessions"@.len() == 15);
    assert("paused"@.len() == 6);
    assert("pauses"@.len() == 6);
    assert("sessions"@.len() == 8);
    assert("tabId"@.len() == 5);
    assert("targetId"@.len() == 8);
    assert("sessionId"@.len() == 9);
    assert("documentGeneration"@.len() == 18);
    assert("enabled"@.len() == 7);
    assert("engine"@[0] == 'e');
    assert("paused"@[0] == 'p');
    assert("paused"@[5] == 'd');
    assert("pauses"@[0] == 'p');
    assert("pauses"@[5] == 's');
    assert("sessions"@[0] == 's');
    assert("targetId"@[0] == 't');
    let values = collections::values(state.sessions);
    let kept = values.filter(|s: SessionView| queries::status_lists(state, command, s));
    let items = kept.map_values(|s: SessionView| queries::session_status(state, s));
    let keys = kept.map_values(|s: SessionView| s.tab_id);
    let list = text::sorted_by(items, keys);
    let session = state.sessions[i].1;
    assert(list == queries::status_sessions(state, command));
    if queries::status_lists(state, command, session) {
        assert(values[i] == session);
        assert(kept.contains(session));
        let k = choose|k: int| 0 <= k < kept.len() && kept[k] == session;
        assert(items[k] == queries::session_status(state, session));
        assert(tells_session(items[k], state, session));
        lemma_sorted_holds(items, keys, items[k]);
        let m = choose|m: int| 0 <= m < list.len() && list[m] == items[k];
        assert(tells_session(list[m], state, session));
    }
    if queries::selects_session(command) {
        assert forall|k: int| 0 <= k < list.len() implies (#[trigger] list[k]).get_str(
            "sessionId"@,
        ) == Some(queries::session_for(state, command)->Ok_0) || queries::session_for(
            state,
            command,
        ) is Err by {
            lemma_sorted_holds(items, keys, list[k]);
            assert(list.contains(list[k]));
            let m = choose|m: int| 0 <= m < items.len() && items[m] == list[k];
            assert(kept.contains(kept[m]));
            assert(tells_session(items[m], state, kept[m]));
        }
    } else {
        let paused = collections::values(state.paused_sessions);
        let told = paused.map_values(|p: PauseView| p.to_json());
        let ids = paused.map_values(|p: PauseView| p.pause_id);
        assert(told[j] == state.paused_sessions[j].1.to_json());
        lemma_sorted_holds(told, ids, told[j]);
    }
}

/// A search looks through the scripts that its command selects, for its query,
/// up to the number of matches that it asks for: a hundred where it does not
/// say, and a thousand at most.
pub proof fn law_searches_look_where_they_are_told(state: StateView, command: JsonView)
    ensures
        match SearchView::start(state, command) {
            StepView::Wait(search) => {
                let selecting = command.get("sessionId"@) is Some || command.get("tabId"@) is Some;
                let session = if selecting {
                    Some(queries::session_for(state, command)->Ok_0)
                } else {
                    None
                };
                let chosen = reports::selected_scripts(
                    state.scripts,
                    session,
                    text_of(command, "filter"@),
                );
                &&& state.connected
                &&& text_of(command, "query"@) == Some(search.query)
                &&& search.query.len() > 0
                &&& chosen.len() > 0
                &&& search.script == chosen[0]
                &&& search.rest == chosen.skip(1)
                &&& search.matches.len() == 0
                &&& search.searched == 0
                &&& search.limit == (match command.get("maxResults"@) {
                    Some(JsonView::Uint(n)) => if n > 1000 {
                        1000
                    } else {
                        n as int
                    },
                    _ => 100,
                })
            },
            StepView::Done(_) => true,
        },
        text_of(command, "query"@) is None ==> SearchView::start(state, command) matches StepView::Done(
            Err(_),
        ),
        text_of(command, "query"@) matches Some(query) && query.len() == 0 ==> SearchView::start(
            state,
            command,
        ) matches StepView::Done(Err(_)),
        !state.connected ==> SearchView::start(state, command) matches StepView::Done(Err(_)),
{
    assert(search::MAX_MATCHES <= usize::MAX) by {
        assert(usize::BITS == 32 || usize::BITS == 64);
    }
}

/// The pause of the active session is told where there is one.
pub proof fn law_the_active_pause_is_that_of_the_active_session(state: StateView)
    ensures
        match state.active_session {
            Some(id) => match collections::lookup(state.paused_sessions, id) {
                Some(pause) => queries::active_pause(state) == Some(pause.to_json()),
                None => queries::active_pause(state) is None,
            },
            None => queries::active_pause(state) is None,
        },
{
}

/// A command reaches the session that it means, with its tab, if the browser is
/// there and the session is known; else it says what is missing.
pub proof fn law_commands_reach_known_sessions(
    state: StateView,
    command: JsonView,
    id: Chars,
    error: Chars,
)
    ensures
        !state.connected ==> queries::live_session(state, command) == Err::<(Chars, Chars), Chars>(
            "Browser not launched"@,
        ),
        state.connected && queries::session_for(state, command) == Err::<Chars, Chars>(error)
            ==> queries::live_session(state, command) == Err::<(Chars, Chars), Chars>(error),
        state.connected && queries::session_for(state, command) == Ok::<Chars, Chars>(id)
            ==> queries::live_session(state, command) == (match collections::lookup(
            state.sessions,
            id,
        ) {
            Some(session) => Ok((id, session.tab_id)),
            None => Err("Unknown CDP session '"@ + id + "'"@),
        }),
{
}

/// What is not known is told by its name: a script with its session.
pub proof fn law_unknown_scripts_are_named(script: Chars, session: Chars)
    ensures
        queries::unknown_script(script, session) == "Unknown script '"@ + script
            + "' in session '"@ + session + "'"@,
{
}

} // verus!
