//! Which command does what, which categories it needs, and what it is answered.

use vstd::prelude::*;

use crate::activation::{DisableView, EnableView};
use crate::controller::StateView;
use crate::dispatch;
use crate::dispatch::{
    ActionView, DebuggerView, ExecutionView, OperationView, PendingConfirmationView, ProgressView,
};
use crate::events;
use crate::inspect::{ControlView, EvaluationView, SourceReadView};
use crate::json::JsonView;
use crate::operation::StepView;
use crate::policy;
use crate::policy::{DecisionView, PolicyView};
use crate::probe_remove::RemoveProbeView;
use crate::probe_request;
use crate::probe_request::{ProbeRequestView, ScriptUse, SyntaxCheckView};
use crate::probe_set::{ProbeStageView, SetProbeView};
use crate::queries;
use crate::records::ProbeKind;
use crate::reports;
use crate::search::SearchView;
use crate::text::Chars;

verus! {

/// Whether a command names an action.
pub open spec fn is_for(command: JsonView, action: Chars) -> bool {
    command.get("action"@) == Some(JsonView::Str(action))
}

/// A step of a machine, as one of an operation.
pub open spec fn lifted<W>(step: StepView<W>, lift: spec_fn(W) -> OperationView) -> StepView<
    OperationView,
> {
    match step {
        StepView::Wait(machine) => StepView::Wait(lift(machine)),
        StepView::Done(result) => StepView::Done(result),
    }
}

/// Every action does what its name says: it starts its own machine, or is
/// answered at once, on the present state. An action that is none fails.
pub proof fn law_actions_do_what_they_say(state: StateView, now: u64, command: JsonView)
    ensures
        is_for(command, "debug_enable"@) ==> dispatch::authorized(state, now, command) == (
            EnableView::start(state, command).0,
            lifted(
                EnableView::start(state, command).1,
                |m: EnableView| OperationView::Enable(m),
            ),
        ),
        is_for(command, "debug_disable"@) ==> dispatch::authorized(state, now, command) == (
            DisableView::start(state, now, command).0,
            lifted(
                DisableView::start(state, now, command).1,
                |m: DisableView| OperationView::Disable(m),
            ),
        ),
        is_for(command, "debug_status"@) ==> dispatch::authorized(state, now, command) == (
            state,
            StepView::<OperationView>::Done(queries::status_answer(state, command)),
        ),
        is_for(command, "debug_stack"@) ==> dispatch::authorized(state, now, command) == (
            state,
            StepView::<OperationView>::Done(queries::stack_answer(state, command)),
        ),
        is_for(command, "debug_eval"@) ==> dispatch::authorized(state, now, command) == (
            state,
            lifted(
                EvaluationView::start(state, command),
                |m: EvaluationView| OperationView::Evaluate(m),
            ),
        ),
        is_for(command, "debug_scripts"@) ==> dispatch::authorized(state, now, command) == (
            state,
            StepView::<OperationView>::Done(reports::scripts_answer(state, command)),
        ),
        is_for(command, "debug_source"@) ==> dispatch::authorized(state, now, command) == (
            state,
            lifted(
                SourceReadView::start(state, command),
                |m: SourceReadView| OperationView::Source(m),
            ),
        ),
        is_for(command, "debug_source_search"@) ==> dispatch::authorized(state, now, command) == (
            state,
            lifted(
                SearchView::start(state, command),
                |m: SearchView| OperationView::Search(m),
            ),
        ),
        command.get("action"@) is None ==> dispatch::authorized(state, now, command).0 == state
            && dispatch::authorized(state, now, command).1 matches StepView::Done(Err(_)),
{
    reveal_strlit("debug_enable");
    reveal_strlit("debug_disable");
    reveal_strlit("debug_status");
    reveal_strlit("debug_stack");
    reveal_strlit("debug_eval");
    reveal_strlit("debug_pause");
    reveal_strlit("debug_resume");
    reveal_strlit("debug_step_over");
    reveal_strlit("debug_step_into");
    reveal_strlit("debug_step_out");
    reveal_strlit("debug_events");
    reveal_strlit("debug_scripts");
    reveal_strlit("debug_source");
    reveal_strlit("debug_source_search");
    reveal_strlit("debug_breakpoint_set");
    reveal_strlit("debug_breakpoint_list");
    reveal_strlit("debug_breakpoint_remove");
    reveal_strlit("debug_logpoint_set");
    reveal_strlit("debug_logpoint_list");
    reveal_strlit("debug_logpoint_remove");
    assert("debug_enable"@.len() == 12);
    assert("debug_disable"@.len() == 13);
    assert("debug_status"@.len() == 12);
    assert("debug_stack"@.len() == 11);
    assert("debug_eval"@.len() == 10);
    assert("debug_pause"@.len() == 11);
    assert("debug_resume"@.len() == 12);
    assert("debug_step_over"@.len() == 15);
    assert("debug_step_into"@.len() == 15);
    assert("debug_step_out"@.len() == 14);
    assert("debug_events"@.len() == 12);
    assert("debug_scripts"@.len() == 13);
    assert("debug_source"@.len() == 12);
    assert("debug_source_search"@.len() == 19);
    assert("debug_breakpoint_set"@.len() == 20);
    assert("debug_breakpoint_list"@.len() == 21);
    assert("debug_breakpoint_remove"@.len() == 23);
    assert("debug_logpoint_set"@.len() == 18);
    assert("debug_logpoint_list"@.len() == 19);
    assert("debug_logpoint_remove"@.len() == 21);
    assert("debug_breakpoint_list"@[6] == 'b');
    assert("debug_disable"@[6] == 'd');
    assert("debug_enable"@[6] == 'e');
    assert("debug_enable"@[7] == 'n');
    assert("debug_events"@[6] == 'e');
    assert("debug_events"@[7] == 'v');
    assert("debug_logpoint_list"@[6] == 'l');
    assert("debug_logpoint_remove"@[6] == 'l');
    assert("debug_pause"@[6] == 'p');
    assert("debug_resume"@[6] == 'r');
    assert("debug_scripts"@[6] == 's');
    assert("debug_source"@[6] == 's');
    assert("debug_source"@[7] == 'o');
    assert("debug_source_search"@[6] == 's');
    assert("debug_stack"@[6] == 's');
    assert("debug_status"@[6] == 's');
    assert("debug_status"@[7] == 't');
    assert("debug_step_into"@[11] == 'i');
    assert("debug_step_over"@[11] == 'o');
    if command.get("action"@) is None {
        assert(policy::action_of(command).len() == 0);
    }
}

/// Whether a control command sends a method.
pub open spec fn controls(state: StateView, now: u64, command: JsonView, method: Chars) -> bool {
    dispatch::authorized(state, now, command) == (
        state,
        lifted(
            ControlView::start(state, command, method),
            |m: ControlView| OperationView::Control(m),
        ),
    )
}

/// Every command that controls execution sends the method of its name, and
/// probes are set, listed and removed by kind.
pub proof fn law_controls_and_probes_do_what_they_say(state: StateView, now: u64, command: JsonView)
    ensures
        is_for(command, "debug_pause"@) ==> controls(state, now, command, "Debugger.pause"@),
        is_for(command, "debug_resume"@) ==> controls(state, now, command, "Debugger.resume"@),
        is_for(command, "debug_step_over"@) ==> controls(
            state,
            now,
            command,
            "Debugger.stepOver"@,
        ),
        is_for(command, "debug_step_into"@) ==> controls(
            state,
            now,
            command,
            "Debugger.stepInto"@,
        ),
        is_for(command, "debug_step_out"@) ==> controls(state, now, command, "Debugger.stepOut"@),
        is_for(command, "debug_breakpoint_set"@) ==> dispatch::authorized(state, now, command) == (
            state,
            lifted(
                SetProbeView::start(state, command, ProbeKind::Breakpoint),
                |m: SetProbeView| OperationView::Probe(m),
            ),
        ),
        is_for(command, "debug_logpoint_set"@) ==> dispatch::authorized(state, now, command) == (
            state,
            lifted(
                SetProbeView::start(state, command, ProbeKind::Logpoint),
                |m: SetProbeView| OperationView::Probe(m),
            ),
        ),
        is_for(command, "debug_breakpoint_list"@) ==> dispatch::authorized(state, now, command)
            == (
            state,
            StepView::<OperationView>::Done(
                Ok(reports::probes_answer(state, ProbeKind::Breakpoint)),
            ),
        ),
        is_for(command, "debug_logpoint_list"@) ==> dispatch::authorized(state, now, command) == (
            state,
            StepView::<OperationView>::Done(Ok(reports::probes_answer(state, ProbeKind::Logpoint))),
        ),
        is_for(command, "debug_breakpoint_remove"@) ==> dispatch::authorized(state, now, command)
            == (
            RemoveProbeView::start(state, now, command, ProbeKind::Breakpoint).0,
            lifted(
                RemoveProbeView::start(state, now, command, ProbeKind::Breakpoint).1,
                |m: RemoveProbeView| OperationView::Remove(m),
            ),
        ),
        is_for(command, "debug_logpoint_remove"@) ==> dispatch::authorized(state, now, command)
            == (
            RemoveProbeView::start(state, now, command, ProbeKind::Logpoint).0,
            lifted(
                RemoveProbeView::start(state, now, command, ProbeKind::Logpoint).1,
                |m: RemoveProbeView| OperationView::Remove(m),
            ),
        ),
{
    reveal_strlit("debug_enable");
    reveal_strlit("debug_disable");
    reveal_strlit("debug_status");
    reveal_strlit("debug_stack");
    reveal_strlit("debug_eval");
    reveal_strlit("debug_pause");
    reveal_strlit("debug_resume");
    reveal_strlit("debug_step_over");
    reveal_strlit("debug_step_into");
    reveal_strlit("debug_step_out");
    reveal_strlit("debug_events");
    reveal_strlit("debug_scripts");
    reveal_strlit("debug_source");
    reveal_strlit("debug_source_search");
    reveal_strlit("debug_breakpoint_set");
    reveal_strlit("debug_breakpoint_list");
    reveal_strlit("debug_breakpoint_remove");
    reveal_strlit("debug_logpoint_set");
    reveal_strlit("debug_logpoint_list");
    reveal_strlit("debug_logpoint_remove");
    assert("debug_enable"@.len() == 12);
    assert("debug_disable"@.len() == 13);
    assert("debug_status"@.len() == 12);
    assert("debug_stack"@.len() == 11);
    assert("debug_eval"@.len() == 10);
    assert("debug_pause"@.len() == 11);
    assert("debug_resume"@.len() == 12);
    assert("debug_step_over"@.len() == 15);
    assert("debug_step_into"@.len() == 15);
    assert("debug_step_out"@.len() == 14);
    assert("debug_events"@.len() == 12);
    assert("debug_scripts"@.len() == 13);
    assert("debug_source"@.len() == 12);
    assert("debug_source_search"@.len() == 19);
    assert("debug_breakpoint_set"@.len() == 20);
    assert("debug_breakpoint_list"@.len() == 21);
    assert("debug_breakpoint_remove"@.len() == 23);
    assert("debug_logpoint_set"@.len() == 18);
    assert("debug_logpoint_list"@.len() == 19);
    assert("debug_logpoint_remove"@.len() == 21);
    assert("debug_breakpoint_list"@[6] == 'b');
    assert("debug_disable"@[6] == 'd');
    assert("debug_enable"@[6] == 'e');
    assert("debug_enable"@[7] == 'n');
    assert("debug_events"@[6] == 'e');
    assert("debug_events"@[7] == 'v');
    assert("debug_logpoint_list"@[6] == 'l');
    assert("debug_logpoint_remove"@[6] == 'l');
    assert("debug_pause"@[6] == 'p');
    assert("debug_resume"@[6] == 'r');
    assert("debug_scripts"@[6] == 's');
    assert("debug_source"@[6] == 's');
    assert("debug_source"@[7] == 'o');
    assert("debug_source_search"@[6] == 's');
    assert("debug_stack"@[6] == 's');
    assert("debug_status"@[6] == 's');
    assert("debug_status"@[7] == 't');
    assert("debug_step_into"@[11] == 'i');
    assert("debug_step_over"@[11] == 'o');
}

/// An operation sends what its machine asks for, and a reply goes to that
/// machine. What reads changes nothing.
pub proof fn law_operations_follow_their_machines(
    operation: OperationView,
    state: StateView,
    number: u64,
    now: u64,
    reply: Result<JsonView, Chars>,
)
    ensures
        match operation {
            OperationView::Events(_) => true,
            OperationView::Enable(m) => {
                &&& operation.action() == ActionView::Send(m.request())
                &&& operation.advance(state, number, now, reply) == (
                    m.advance(state, reply).0,
                    number,
                    lifted(m.advance(state, reply).1, |m: EnableView| OperationView::Enable(m)),
                )
            },
            OperationView::Disable(m) => {
                &&& operation.action() == ActionView::Send(m.request())
                &&& operation.advance(state, number, now, reply) == (
                    m.advance(state, now, reply).0,
                    number,
                    lifted(
                        m.advance(state, now, reply).1,
                        |m: DisableView| OperationView::Disable(m),
                    ),
                )
            },
            OperationView::Evaluate(m) => {
                &&& operation.action() == ActionView::Send(m.request())
                &&& operation.advance(state, number, now, reply) == (
                    state,
                    number,
                    StepView::<OperationView>::Done(m.answer(reply)),
                )
            },
            OperationView::Control(m) => {
                &&& operation.action() == ActionView::Send(m.request())
                &&& operation.advance(state, number, now, reply) == (
                    state,
                    number,
                    StepView::<OperationView>::Done(m.answer(reply)),
                )
            },
            OperationView::Source(m) => {
                &&& operation.action() == ActionView::Send(m.request())
                &&& operation.advance(state, number, now, reply) == (
                    state,
                    number,
                    StepView::<OperationView>::Done(m.answer(reply)),
                )
            },
            OperationView::Search(m) => {
                &&& operation.action() == ActionView::Send(m.request())
                &&& operation.advance(state, number, now, reply) == (
                    state,
                    number,
                    lifted(m.advance(reply), |m: SearchView| OperationView::Search(m)),
                )
            },
            OperationView::Probe(m) => {
                &&& operation.action() == ActionView::Send(m.request())
                &&& operation.advance(state, number, now, reply) == (
                    m.advance(state, number, now, reply).0,
                    m.advance(state, number, now, reply).1,
                    lifted(
                        m.advance(state, number, now, reply).2,
                        |m: SetProbeView| OperationView::Probe(m),
                    ),
                )
            },
            OperationView::Remove(m) => {
                &&& operation.action() == ActionView::Send(m.request())
                &&& operation.advance(state, number, now, reply) == (
                    m.advance(state, now, reply).0,
                    number,
                    lifted(
                        m.advance(state, now, reply).1,
                        |m: RemoveProbeView| OperationView::Remove(m),
                    ),
                )
            },
        },
{
}

/// Actions that change execution or probes.
pub open spec fn changes_execution(action: Chars) -> bool {
    action == "debug_enable"@ || action == "debug_disable"@ || action == "debug_pause"@ || action
        == "debug_resume"@ || action == "debug_step_over"@ || action == "debug_step_into"@
        || action == "debug_step_out"@ || sets_or_removes(action)
}

/// Actions that set or remove a probe.
pub open spec fn sets_or_removes(action: Chars) -> bool {
    action == "debug_breakpoint_set"@ || action == "debug_breakpoint_remove"@ || action
        == "debug_logpoint_set"@ || action == "debug_logpoint_remove"@
}

/// Actions that only look.
pub open spec fn looks_only(action: Chars) -> bool {
    action == "debug_scripts"@ || action == "debug_source"@ || action == "debug_source_search"@
        || action == "debug_stack"@ || action == "debug_status"@ || action == "debug_events"@
        || action == "debug_breakpoint_list"@ || action == "debug_logpoint_list"@
}

/// What only looks needs the category of inspection, what changes execution or
/// probes that of control, and an evaluation that of evaluation. A logpoint, and
/// a breakpoint with a condition that is not blank, need evaluation too. These
/// are all actions that the debugger takes.
pub proof fn law_actions_need_their_categories(command: JsonView, action: Chars)
    requires
        is_for(command, action),
    ensures
        looks_only(action) ==> policy::categories_of(command) == seq!["debug.inspect"@],
        action == "debug_eval"@ ==> policy::categories_of(command) == seq!["evaluate"@],
        changes_execution(action) && action != "debug_breakpoint_set"@ && action
            != "debug_logpoint_set"@ ==> policy::categories_of(command) == seq![
            "debug.control"@,
        ],
        action == "debug_logpoint_set"@ ==> policy::categories_of(command) == seq![
            "debug.control"@,
            "evaluate"@,
        ],
        action == "debug_breakpoint_set"@ ==> policy::categories_of(command) == (
        match command.get("condition"@) {
            Some(JsonView::Str(condition)) => if exists|i: int|
                0 <= i < condition.len() && !policy::is_white(#[trigger] condition[i]) {
                seq!["debug.control"@, "evaluate"@]
            } else {
                seq!["debug.control"@]
            },
            _ => seq!["debug.control"@],
        }),
        policy::fast_action(action) <==> looks_only(action) || changes_execution(action) || action
            == "debug_eval"@,
{
    reveal_strlit("debug_enable");
    reveal_strlit("debug_disable");
    reveal_strlit("debug_status");
    reveal_strlit("debug_stack");
    reveal_strlit("debug_eval");
    reveal_strlit("debug_pause");
    reveal_strlit("debug_resume");
    reveal_strlit("debug_step_over");
    reveal_strlit("debug_step_into");
    reveal_strlit("debug_step_out");
    reveal_strlit("debug_events");
    reveal_strlit("debug_scripts");
    reveal_strlit("debug_source");
    reveal_strlit("debug_source_search");
    reveal_strlit("debug_breakpoint_set");
    reveal_strlit("debug_breakpoint_list");
    reveal_strlit("debug_breakpoint_remove");
    reveal_strlit("debug_logpoint_set");
    reveal_strlit("debug_logpoint_list");
    reveal_strlit("debug_logpoint_remove");
    assert("debug_enable"@.len() == 12);
    assert("debug_disable"@.len() == 13);
    assert("debug_status"@.len() == 12);
    assert("debug_stack"@.len() == 11);
    assert("debug_eval"@.len() == 10);
    assert("debug_pause"@.len() == 11);
    assert("debug_resume"@.len() == 12);
    assert("debug_step_over"@.len() == 15);
    assert("debug_step_into"@.len() == 15);
    assert("debug_step_out"@.len() == 14);
    assert("debug_events"@.len() == 12);
    assert("debug_scripts"@.len() == 13);
    assert("debug_source"@.len() == 12);
    assert("debug_source_search"@.len() == 19);
    assert("debug_breakpoint_set"@.len() == 20);
    assert("debug_breakpoint_list"@.len() == 21);
    assert("debug_breakpoint_remove"@.len() == 23);
    assert("debug_logpoint_set"@.len() == 18);
    assert("debug_logpoint_list"@.len() == 19);
    assert("debug_logpoint_remove"@.len() == 21);
    assert("debug_breakpoint_list"@[6] == 'b');
    assert("debug_disable"@[6] == 'd');
    assert("debug_enable"@[6] == 'e');
    assert("debug_enable"@[7] == 'n');
    assert("debug_events"@[6] == 'e');
    assert("debug_events"@[7] == 'v');
    assert("debug_logpoint_list"@[6] == 'l');
    assert("debug_logpoint_remove"@[6] == 'l');
    assert("debug_pause"@[6] == 'p');
    assert("debug_resume"@[6] == 'r');
    assert("debug_scripts"@[6] == 's');
    assert("debug_source"@[6] == 's');
    assert("debug_source"@[7] == 'o');
    assert("debug_source_search"@[6] == 's');
    assert("debug_stack"@[6] == 's');
    assert("debug_status"@[6] == 's');
    assert("debug_status"@[7] == 't');
    assert("debug_step_into"@[11] == 'i');
    assert("debug_step_over"@[11] == 'o');
    reveal_strlit("evaluate");
    reveal_strlit("debug.control");
    reveal_strlit("debug.inspect");
    assert("evaluate"@.len() == 8);
    assert("debug.control"@.len() == 13);
    assert("debug.inspect"@.len() == 13);
    assert("debug.control"@[6] == 'c');
    assert("debug.inspect"@[6] == 'i');
    if let Some(JsonView::Str(condition)) = command.get("condition"@) {
        if policy::is_blank(condition) {
            assert forall|i: int| 0 <= i < condition.len() implies policy::is_white(
                #[trigger] condition[i],
            ) by {}
        }
    }
}

/// A blank is a space, a tab, a line terminator or another white character of
/// Unicode; letters, digits and signs are none.
pub proof fn law_blanks_are_white(c: char)
    ensures
        c == ' ' || c == '\t' || c == '\n' || c == '\r' || c == '\u{a0}' || c == '\u{2028}' || c
            == '\u{2029}' || c == '\u{3000}' ==> policy::is_white(c),
        '!' <= c <= '~' ==> !policy::is_white(c),
{
}

/// Whether an answer tells success with data.
pub open spec fn succeeds_with(answer: JsonView, id: Chars, data: JsonView) -> bool {
    &&& answer.get_str("id"@) == Some(id)
    &&& answer.get_bool("success"@) == Some(true)
    &&& answer.get("data"@) == Some(data)
    &&& answer.get("error"@) is None
}

/// Whether an answer tells failure with a message.
pub open spec fn fails_with(answer: JsonView, id: Chars, message: Chars) -> bool {
    &&& answer.get_str("id"@) == Some(id)
    &&& answer.get_bool("success"@) == Some(false)
    &&& answer.get_str("error"@) == Some(message)
    &&& answer.get("data"@) is None
}

/// A command is answered under its own identifier: with what it came to, or with
/// what went wrong.
pub proof fn law_answers_tell_how_it_went(id: Chars, result: Result<JsonView, Chars>)
    ensures
        match result {
            Ok(data) => succeeds_with(policy::response(id, result), id, data),
            Err(message) => fails_with(policy::response(id, result), id, message),
        },
{
    reveal_strlit("id");
    reveal_strlit("success");
    reveal_strlit("data");
    reveal_strlit("error");
    assert("id"@.len() == 2);
    assert("success"@.len() == 7);
    assert("data"@.len() == 4);
    assert("error"@.len() == 5);
}

/// An allowed command is run and answered under its identifier as soon as it is
/// done. A denied one fails with the reason. One that needs a confirmation is
/// kept, under its own identifier, and the answer says for which categories.
pub proof fn law_commands_are_run_denied_or_kept(
    debugger: DebuggerView,
    now: u64,
    command: JsonView,
    id: Chars,
    policy: Option<Seq<PolicyView>>,
    wanted: Option<Seq<bool>>,
)
    requires
        command.get("id"@) == Some(JsonView::Str(id)),
        policy::action_of(command) != "confirm"@,
        policy::action_of(command) != "deny"@,
        policy::selector_fault(command) is None,
    ensures
        match policy::decision(policy::categories_of(command), policy, wanted) {
            DecisionView::Allow => {
                let (after, step) = dispatch::authorized(debugger.state, now, command);
                let (next, progress) = debugger.execute(now, command, policy, wanted);
                &&& next.state == after
                &&& next.pending == debugger.pending
                &&& match (step, progress) {
                    (StepView::Wait(operation), ProgressView::Wait(execution)) => execution == (
                    ExecutionView { id, confirmed: None, operation }),
                    (StepView::Done(Ok(data)), ProgressView::Answer(answer)) => succeeds_with(
                        answer,
                        id,
                        data,
                    ),
                    (StepView::Done(Err(message)), ProgressView::Answer(answer)) => fails_with(
                        answer,
                        id,
                        message,
                    ),
                    _ => false,
                }
            },
            DecisionView::Deny(reason) => {
                let (next, progress) = debugger.execute(now, command, policy, wanted);
                &&& next == debugger
                &&& progress is Answer
                &&& fails_with(progress->Answer_0, id, reason)
            },
            DecisionView::Confirm(category) => {
                let (next, progress) = debugger.execute(now, command, policy, wanted);
                let data = progress->Answer_0.get("data"@)->Some_0;
                &&& next.state == debugger.state
                &&& next.pending == Some(
                    PendingConfirmationView { confirmation_id: id, category, command },
                )
                &&& progress is Answer
                &&& progress->Answer_0.get_str("id"@) == Some(id)
                &&& progress->Answer_0.get_bool("success"@) == Some(true)
                &&& progress->Answer_0.get("data"@) is Some
                &&& data.get_bool("confirmation_required"@) == Some(true)
                &&& data.get_str("confirmation_id"@) == Some(id)
                &&& data.get_str("action"@) == Some(category)
            },
        },
{
    reveal_strlit("id");
    reveal_strlit("success");
    reveal_strlit("data");
    reveal_strlit("error");
    reveal_strlit("confirmation_required");
    reveal_strlit("confirmation_id");
    reveal_strlit("action");
    assert("id"@.len() == 2);
    assert("success"@.len() == 7);
    assert("data"@.len() == 4);
    assert("error"@.len() == 5);
    assert("confirmation_required"@.len() == 21);
    assert("confirmation_id"@.len() == 15);
    assert("action"@.len() == 6);
}

/// A confirmation that matches runs the kept command; it is answered under the
/// identifier of the confirmation, and the answer holds that of the command
/// under its own. A denial that matches drops the command and says so.
pub proof fn law_confirmations_are_answered(
    debugger: DebuggerView,
    now: u64,
    command: JsonView,
    id: Chars,
    kept: PendingConfirmationView,
    policy: Option<Seq<PolicyView>>,
    wanted: Option<Seq<bool>>,
)
    requires
        command.get("id"@) == Some(JsonView::Str(id)),
        debugger.pending == Some(kept),
        command.get("confirmationId"@) == Some(JsonView::Str(kept.confirmation_id)),
    ensures
        is_for(command, "confirm"@) ==> {
            let (after, step) = dispatch::authorized(debugger.state, now, kept.command);
            let (next, progress) = debugger.execute(now, command, policy, wanted);
            let own = policy::id_of(kept.command);
            &&& next.state == after
            &&& next.pending is None
            &&& match (step, progress) {
                (StepView::Wait(operation), ProgressView::Wait(execution)) => execution == (
                ExecutionView { id: own, confirmed: Some((id, kept.category)), operation }),
                (StepView::Done(result), ProgressView::Answer(answer)) => confirmed_with(
                    answer,
                    id,
                    kept.category,
                    own,
                    result,
                ),
                _ => false,
            }
        },
        is_for(command, "deny"@) ==> {
            let (next, progress) = debugger.execute(now, command, policy, wanted);
            let data = progress->Answer_0.get("data"@)->Some_0;
            &&& next.state == debugger.state
            &&& next.pending is None
            &&& progress is Answer
            &&& progress->Answer_0.get_bool("success"@) == Some(true)
            &&& progress->Answer_0.get_str("id"@) == Some(id)
            &&& data.get_bool("denied"@) == Some(true)
            &&& data.get_str("action"@) == Some(kept.category)
        },
{
    reveal_strlit("id");
    reveal_strlit("success");
    reveal_strlit("data");
    reveal_strlit("error");
    reveal_strlit("confirmed");
    reveal_strlit("action");
    reveal_strlit("result");
    reveal_strlit("denied");
    assert("id"@.len() == 2);
    assert("success"@.len() == 7);
    assert("data"@.len() == 4);
    assert("error"@.len() == 5);
    assert("confirmed"@.len() == 9);
    assert("action"@.len() == 6);
    assert("result"@.len() == 6);
    assert("denied"@.len() == 6);
    assert("action"@[0] == 'a');
    assert("denied"@[0] == 'd');
    assert("result"@[0] == 'r');
    reveal_strlit("confirm");
    reveal_strlit("deny");
    assert("confirm"@.len() == 7);
    assert("deny"@.len() == 4);
}

/// Whether an answer tells what a confirmed command came to.
pub open spec fn confirmed_with(
    answer: JsonView,
    id: Chars,
    category: Chars,
    own: Chars,
    result: Result<JsonView, Chars>,
) -> bool {
    let data = answer.get("data"@)->Some_0;
    let inner = data.get("result"@)->Some_0;
    &&& answer.get_str("id"@) == Some(id)
    &&& answer.get_bool("success"@) == Some(true)
    &&& answer.get("data"@) is Some
    &&& data.get_bool("confirmed"@) == Some(true)
    &&& data.get_str("action"@) == Some(category)
    &&& data.get("result"@) is Some
    &&& match result {
        Ok(value) => succeeds_with(inner, own, value),
        Err(message) => fails_with(inner, own, message),
    }
}

/// What a command of several steps is answered in the end.
pub proof fn law_executions_end_with_their_answer(
    id: Chars,
    confirmed: Option<(Chars, Chars)>,
    result: Result<JsonView, Chars>,
)
    ensures
        match confirmed {
            None => match result {
                Ok(data) => succeeds_with(dispatch::final_answer(id, confirmed, result), id, data),
                Err(e) => fails_with(dispatch::final_answer(id, confirmed, result), id, e),
            },
            Some((outer, category)) => confirmed_with(
                dispatch::final_answer(id, confirmed, result),
                outer,
                category,
                id,
                result,
            ),
        },
        dispatch::success_told(dispatch::final_answer(id, confirmed, result)) <==> result is Ok
            && (confirmed is None && result is Ok && result->Ok_0.get(
            "confirmed"@,
        ) == Some(JsonView::Bool(true)) ==> match result->Ok_0.get("result"@) {
            Some(inner) => inner.get("success"@) == Some(JsonView::Bool(true)),
            None => false,
        }),
{
    reveal_strlit("id");
    reveal_strlit("success");
    reveal_strlit("data");
    reveal_strlit("error");
    reveal_strlit("confirmed");
    reveal_strlit("action");
    reveal_strlit("result");
    assert("id"@.len() == 2);
    assert("success"@.len() == 7);
    assert("data"@.len() == 4);
    assert("error"@.len() == 5);
    assert("confirmed"@.len() == 9);
    assert("action"@.len() == 6);
    assert("result"@.len() == 6);
    assert("action"@[0] == 'a');
    assert("result"@[0] == 'r');
}

/// Selectors exclude each other: a tab and a session, a pause and either of them,
/// all tabs and any of them, and a frame and its identifier. Nothing else is
/// refused for its selectors.
pub proof fn law_selectors_exclude_each_other(command: JsonView)
    ensures
        ({
            let tab = command.get("tabId"@) is Some;
            let session = command.get("sessionId"@) is Some;
            let pause = command.get("pauseId"@) is Some;
            let all = command.get("allTabs"@) == Some(JsonView::Bool(true));
            let frame = command.get("frame"@) is Some && command.get("callFrameId"@) is Some;
            policy::selector_fault(command) is Some <==> (tab && session) || (pause && (tab
                || session)) || (all && (tab || session || pause)) || frame
        }),
{
}

/// Whether a request says what a command asked for.
pub open spec fn says_what_was_asked(request: ProbeRequestView, command: JsonView) -> bool {
    let number = |key: Chars, default: int|
        match command.get(key) {
            Some(JsonView::Uint(n)) => n as int,
            _ => default,
        };
    &&& command.get("scriptId"@) == Some(JsonView::Str(request.script_id))
    &&& command.get("line"@) == Some(JsonView::Uint(request.line))
    &&& request.line >= 1
    &&& request.column == number("column"@, 1)
    &&& request.column >= 1
    &&& request.column_explicit == (match command.get("columnExplicit"@) {
        Some(JsonView::Bool(b)) => b,
        _ => command.get("column"@) is Some,
    })
    &&& request.mode == (match command.get("mode"@) {
        Some(JsonView::Str(mode)) => mode,
        _ => "after"@,
    })
    &&& request.mode == "strict"@ || request.mode == "before"@ || request.mode == "after"@
        || request.mode == "nearest"@ || request.mode == "nearest-forward"@
    &&& request.max_lines == number("maxLines"@, 3)
    &&& 1 <= request.max_lines <= 500
    &&& request.max_utf16_distance == number("maxUtf16Distance"@, 512)
    &&& 1 <= request.max_utf16_distance <= 1_000_000
    &&& request.condition == (match command.get("condition"@) {
        Some(JsonView::Str(s)) => Some(s),
        _ => None,
    })
    &&& request.when == (match command.get("when"@) {
        Some(JsonView::Str(s)) => Some(s),
        _ => None,
    })
    &&& request.rebind == (match command.get("rebindProbeId"@) {
        Some(JsonView::Str(s)) => Some(s),
        _ => None,
    })
    &&& request.tags == (match command.get("tags"@) {
        Some(JsonView::Object(members)) => JsonView::Object(members),
        _ => JsonView::object(),
    })
    &&& request.persistent == (command.get("persist"@) == Some(JsonView::Bool(true)))
    &&& match command.get("expressions"@) {
        Some(JsonView::Array(items)) => {
            &&& request.expressions.len() == items.len()
            &&& forall|i: int|
                0 <= i < items.len() ==> #[trigger] items[i] == JsonView::Str(
                    request.expressions[i],
                )
        },
        _ => request.expressions.len() == 0,
    }
}

proof fn lemma_strings_among(items: Seq<JsonView>)
    requires
        probe_request::all_strings(items),
    ensures
        events::strings_among(items).len() == items.len(),
        forall|i: int|
            0 <= i < items.len() ==> #[trigger] items[i] == JsonView::Str(
                events::strings_among(items)[i],
            ),
    decreases items.len(),
{
    reveal_with_fuel(Seq::filter_map, 2);
    if items.len() > 0 {
        let rest = items.drop_last();
        assert forall|i: int| 0 <= i < rest.len() implies (#[trigger] rest[i]).as_str() is Some by {
            assert(items[i].as_str() is Some);
        }
        lemma_strings_among(rest);
        assert(items[items.len() - 1].as_str() is Some);
        let whole = events::strings_among(items);
        let part = events::strings_among(rest);
        assert(whole == part.push(items.last().as_str()->Some_0));
        assert forall|i: int| 0 <= i < items.len() implies #[trigger] items[i] == JsonView::Str(
            whole[i],
        ) by {
            if i < rest.len() {
                assert(rest[i] == items[i]);
                assert(whole[i] == part[i]);
            }
        }
    }
}

/// A command that sets a probe is taken as it says: what it leaves out has its
/// default, after the request, within three lines and five hundred and twelve
/// code units. It is refused if and only if it lacks a script or a line, is out
/// of bounds, or mixes what belongs to breakpoints with what belongs to
/// logpoints.
pub proof fn law_probe_commands_are_taken_as_they_say(command: JsonView, kind: ProbeKind)
    ensures
        match probe_request::probe_request(command, kind) {
            Ok(request) => {
                &&& request.kind == kind
                &&& says_what_was_asked(request, command)
                &&& kind == ProbeKind::Breakpoint ==> request.when is None
                    && request.expressions.len() == 0
                &&& kind == ProbeKind::Logpoint ==> request.condition is None && 1
                    <= request.expressions.len() <= 16
            },
            Err(_) => refusable(command, kind),
        },
{
    if let Some(JsonView::Array(items)) = command.get("expressions"@) {
        if probe_request::all_strings(items) {
            lemma_strings_among(items);
        } else {
            assert(refusable(command, kind)) by {
                let i = choose|i: int|
                    0 <= i < items.len() && (#[trigger] items[i]).as_str() is None;
                assert(!(items[i] is Str));
            }
        }
    }
}

/// Whether something in a command that sets a probe is to be refused.
pub open spec fn refusable(command: JsonView, kind: ProbeKind) -> bool {
    ||| !(command.get("scriptId"@) matches Some(JsonView::Str(_)))
    ||| !(command.get("line"@) matches Some(JsonView::Uint(n)) && n > 0)
    ||| command.get("column"@) == Some(JsonView::Uint(0))
    ||| command.get("mode"@) matches Some(JsonView::Str(mode)) && mode != "strict"@ && mode
        != "before"@ && mode != "after"@ && mode != "nearest"@ && mode != "nearest-forward"@
    ||| command.get("maxLines"@) matches Some(JsonView::Uint(n)) && (n == 0 || n > 500)
    ||| command.get("maxUtf16Distance"@) matches Some(JsonView::Uint(n)) && (n == 0 || n
        > 1_000_000)
    ||| command.get("expressions"@) matches Some(JsonView::Array(items)) && exists|i: int|
        0 <= i < items.len() && !(#[trigger] items[i] is Str)
    ||| kind == ProbeKind::Breakpoint && (command.get("when"@) matches Some(JsonView::Str(_)))
    ||| kind == ProbeKind::Breakpoint && (command.get("expressions"@) matches Some(
        JsonView::Array(items),
    ) && items.len() > 0)
    ||| kind == ProbeKind::Logpoint && (command.get("condition"@) matches Some(JsonView::Str(_)))
    ||| kind == ProbeKind::Logpoint && !(command.get("expressions"@) matches Some(
        JsonView::Array(items),
    ) && 1 <= items.len() <= 16)
    ||| command.get("expressions"@) matches Some(JsonView::Array(items)) && items.len() > 16
}

/// Every text of a probe that the page will evaluate is checked first: the
/// condition, every expression in its order, and the `when` expression. Nothing
/// else is.
pub proof fn law_every_expression_is_checked(request: ProbeRequestView, i: int)
    ensures
        ({
            let checks = probe_request::checks_of(request);
            let first: int = if request.condition is Some {
                1
            } else {
                0
            };
            let last: int = if request.when is Some {
                1
            } else {
                0
            };
            &&& checks.len() == first + request.expressions.len() + last
            &&& request.condition matches Some(e) ==> checks[0] == (SyntaxCheckView {
                purpose: ScriptUse::Condition,
                expression: e,
            })
            &&& 0 <= i < request.expressions.len() ==> checks[first + i] == (SyntaxCheckView {
                purpose: ScriptUse::Expression,
                expression: request.expressions[i],
            })
            &&& request.when matches Some(e) ==> checks.last() == (SyntaxCheckView {
                purpose: ScriptUse::When,
                expression: e,
            })
        }),
{
}

/// A text is checked by having it compiled as an expression, in the context of
/// the script, without being run or kept. It is at fault if and only if the
/// browser says so, and then the message tells what is wrong with it.
pub proof fn law_checks_compile_without_running(
    check: SyntaxCheckView,
    session: Chars,
    context: Option<u64>,
    result: JsonView,
    error: Chars,
)
    ensures
        ({
            let request = check.request(session, context);
            let params = request.params->Some_0;
            &&& request.method == "Runtime.compileScript"@
            &&& request.session_id == session
            &&& request.params is Some
            &&& params.get_str("expression"@) == Some("void ("@ + check.expression + ")"@)
            &&& params.get_bool("persistScript"@) == Some(false)
            &&& params.get_u64("executionContextId"@) == context
        }),
        check.fault(Err(error)) == Some(error),
        check.fault(Ok(result)) is Some <==> result.get("exceptionDetails"@) is Some,
        result.get("exceptionDetails"@) matches Some(details) ==> {
            let name = match check.purpose {
                ScriptUse::Condition => "breakpoint condition"@,
                ScriptUse::Expression => "logpoint expression"@,
                ScriptUse::When => "logpoint when expression"@,
            };
            let described = match details.get("exception"@) {
                Some(exception) => exception.get("description"@),
                None => None,
            };
            let told = match (described, details.get("text"@)) {
                (Some(JsonView::Str(s)), _) => s,
                (_, Some(JsonView::Str(s))) => s,
                _ => "syntax error"@,
            };
            check.fault(Ok(result)) == Some("Invalid "@ + name + ": "@ + told)
        },
{
    reveal_strlit("expression");
    reveal_strlit("sourceURL");
    reveal_strlit("persistScript");
    reveal_strlit("executionContextId");
    assert("expression"@.len() == 10);
    assert("sourceURL"@.len() == 9);
    assert("persistScript"@.len() == 13);
    assert("executionContextId"@.len() == 18);
}

/// Setting a probe checks its texts one after the other, and asks for the source
/// only when all of them are sound; a fault ends it.
pub proof fn law_settings_check_and_then_read(
    machine: SetProbeView,
    state: StateView,
    number: u64,
    now: u64,
    check: SyntaxCheckView,
    rest: Seq<SyntaxCheckView>,
    reply: Result<JsonView, Chars>,
)
    requires
        machine.stage == ProbeStageView::Compile(check, rest),
    ensures
        machine.request() == check.request(
            machine.prepared.session_id,
            match machine.prepared.script.get("executionContextId"@) {
                Some(JsonView::Uint(n)) => Some(n),
                _ => None,
            },
        ),
        machine.advance(state, number, now, reply).0 == state,
        machine.advance(state, number, now, reply).1 == number,
        match check.fault(reply) {
            Some(e) => machine.advance(state, number, now, reply).2
                == StepView::<SetProbeView>::Done(Err(e)),
            None => machine.advance(state, number, now, reply).2 == StepView::Wait(
                SetProbeView {
                    stage: if rest.len() > 0 {
                        ProbeStageView::Compile(rest[0], rest.skip(1))
                    } else {
                        ProbeStageView::Source
                    },
                    ..machine
                },
            ),
        },
{
}

/// A probe is set in a session that has the script and where debugging is
/// enabled, on the record of the script as it stands. A logpoint brings the
/// binding of the connection along where its session lacks it.
pub proof fn law_probes_are_set_where_debugging_is_enabled(
    state: StateView,
    command: JsonView,
    kind: ProbeKind,
)
    ensures
        match SetProbeView::start(state, command, kind) {
            StepView::Wait(machine) => {
                let session = machine.prepared.session_id;
                &&& probe_request::probe_request(command, kind) == Ok::<ProbeRequestView, Chars>(
                    machine.request,
                )
                &&& state.connected
                &&& state.enabled_sessions.contains(session)
                &&& queries::script_session_for(state, command, machine.request.script_id) == Ok::<
                    Chars,
                    Chars,
                >(session)
                &&& machine.prepared.generation == state.connection_generation
                &&& machine.prepared.binding_name == state.binding_name
                &&& machine.prepared.nonce == state.binding_nonce
                &&& machine.prepared.install_binding == (kind == ProbeKind::Logpoint
                    && !state.binding_sessions.contains(session))
                &&& crate::collections::lookup(state.sessions, session) matches Some(known)
                    ==> machine.prepared.document_generation == known.document_generation
                &&& crate::controller::find_script(
                    state.scripts,
                    session,
                    machine.request.script_id,
                ) is Some
                &&& machine.prepared.script == crate::controller::find_script(
                    state.scripts,
                    session,
                    machine.request.script_id,
                )->Some_0.record
                &&& machine.stage == (if probe_request::checks_of(machine.request).len() > 0 {
                    ProbeStageView::Compile(
                        probe_request::checks_of(machine.request)[0],
                        probe_request::checks_of(machine.request).skip(1),
                    )
                } else {
                    ProbeStageView::Source
                })
            },
            StepView::Done(outcome) => outcome is Err,
        },
{
}

} // verus!
