//! The debugger: takes commands, asks for confirmations, and runs operations.

use vstd::prelude::*;

use crate::activation::{Disable, DisableView, Enable, EnableView};
use crate::collections::same_text;
use crate::controller::{ControllerState, StateView};
use crate::inspect::{
    Control, ControlView, Evaluation, EvaluationView, SourceRead, SourceReadView,
};
use crate::json::{Json, JsonView};
use crate::operation::{Request, RequestView, Step, StepView};
use crate::policy;
use crate::policy::{
    decide_policy, error_response, fast_policy_categories, respond, success_response, text_of,
    validate_fast_selectors, DecisionView, FastPolicyDecision, PolicyResult, PolicyView,
};
use crate::probe_remove::{RemoveProbe, RemoveProbeView};
use crate::probe_set::{ProbeNumbers, SetProbe, SetProbeView};
use crate::queries;
use crate::records::{PageInfo, ProbeKind};
use crate::reports;
use crate::reports::get_number;
use crate::search::{Search, SearchView};
use crate::lifecycle;
use crate::text;
use crate::text::{str_eq, Chars};

verus! {

/// A command that waits for the browser.
pub enum Operation {
    Events(Json),
    Enable(Enable),
    Disable(Disable),
    Evaluate(Evaluation),
    Control(Control),
    Source(SourceRead),
    Search(Search),
    Probe(SetProbe),
    Remove(RemoveProbe),
}

/// Model of a command that waits for the browser.
pub enum OperationView {
    Events(JsonView),
    Enable(EnableView),
    Disable(DisableView),
    Evaluate(EvaluationView),
    Control(ControlView),
    Source(SourceReadView),
    Search(SearchView),
    Probe(SetProbeView),
    Remove(RemoveProbeView),
}

impl DeepView for Operation {
    type V = OperationView;

    open spec fn deep_view(&self) -> OperationView {
        match *self {
            Operation::Events(command) => OperationView::Events(command@),
            Operation::Enable(m) => OperationView::Enable(m.deep_view()),
            Operation::Disable(m) => OperationView::Disable(m.deep_view()),
            Operation::Evaluate(m) => OperationView::Evaluate(m.deep_view()),
            Operation::Control(m) => OperationView::Control(m.deep_view()),
            Operation::Source(m) => OperationView::Source(m.deep_view()),
            Operation::Search(m) => OperationView::Search(m.deep_view()),
            Operation::Probe(m) => OperationView::Probe(m.deep_view()),
            Operation::Remove(m) => OperationView::Remove(m.deep_view()),
        }
    }
}

/// What a command waits for: a reply to a request, or an event of the debugger
/// for so many milliseconds.
pub enum Action {
    Send(Request),
    Listen(u64),
}

/// Model of what a command waits for.
pub enum ActionView {
    Send(RequestView),
    Listen(u64),
}

impl DeepView for Action {
    type V = ActionView;

    open spec fn deep_view(&self) -> ActionView {
        match *self {
            Action::Send(request) => ActionView::Send(request@),
            Action::Listen(wait) => ActionView::Listen(wait),
        }
    }
}

/// A step of an enabling, as one of an operation.
pub open spec fn of_enable(step: StepView<EnableView>) -> StepView<OperationView> {
    match step {
        StepView::Wait(m) => StepView::Wait(OperationView::Enable(m)),
        StepView::Done(result) => StepView::Done(result),
    }
}

/// A step of a disabling, as one of an operation.
pub open spec fn of_disable(step: StepView<DisableView>) -> StepView<OperationView> {
    match step {
        StepView::Wait(m) => StepView::Wait(OperationView::Disable(m)),
        StepView::Done(result) => StepView::Done(result),
    }
}

/// A step of an evaluation, as one of an operation.
pub open spec fn of_evaluate(step: StepView<EvaluationView>) -> StepView<OperationView> {
    match step {
        StepView::Wait(m) => StepView::Wait(OperationView::Evaluate(m)),
        StepView::Done(result) => StepView::Done(result),
    }
}

/// A step of a control command, as one of an operation.
pub open spec fn of_control(step: StepView<ControlView>) -> StepView<OperationView> {
    match step {
        StepView::Wait(m) => StepView::Wait(OperationView::Control(m)),
        StepView::Done(result) => StepView::Done(result),
    }
}

/// A step of a reading, as one of an operation.
pub open spec fn of_source(step: StepView<SourceReadView>) -> StepView<OperationView> {
    match step {
        StepView::Wait(m) => StepView::Wait(OperationView::Source(m)),
        StepView::Done(result) => StepView::Done(result),
    }
}

/// A step of a search, as one of an operation.
pub open spec fn of_search(step: StepView<SearchView>) -> StepView<OperationView> {
    match step {
        StepView::Wait(m) => StepView::Wait(OperationView::Search(m)),
        StepView::Done(result) => StepView::Done(result),
    }
}

/// A step of a setting, as one of an operation.
pub open spec fn of_set(step: StepView<SetProbeView>) -> StepView<OperationView> {
    match step {
        StepView::Wait(m) => StepView::Wait(OperationView::Probe(m)),
        StepView::Done(result) => StepView::Done(result),
    }
}

/// A step of a removal, as one of an operation.
pub open spec fn of_remove(step: StepView<RemoveProbeView>) -> StepView<OperationView> {
    match step {
        StepView::Wait(m) => StepView::Wait(OperationView::Remove(m)),
        StepView::Done(result) => StepView::Done(result),
    }
}

/// What an allowed command comes to before its first request.
pub open spec fn authorized(state: StateView, now: u64, command: JsonView) -> (
    StateView,
    StepView<OperationView>,
) {
    let action = policy::action_of(command);
    if action == "debug_enable"@ {
        let (after, step) = EnableView::start(state, command);
        (after, of_enable(step))
    } else if action == "debug_disable"@ {
        let (after, step) = DisableView::start(state, now, command);
        (after, of_disable(step))
    } else if action == "debug_status"@ {
        (state, StepView::Done(queries::status_answer(state, command)))
    } else if action == "debug_stack"@ {
        (state, StepView::Done(queries::stack_answer(state, command)))
    } else if action == "debug_eval"@ {
        (state, of_evaluate(EvaluationView::start(state, command)))
    } else if action == "debug_pause"@ {
        (state, of_control(ControlView::start(state, command, "Debugger.pause"@)))
    } else if action == "debug_resume"@ {
        (state, of_control(ControlView::start(state, command, "Debugger.resume"@)))
    } else if action == "debug_step_over"@ {
        (state, of_control(ControlView::start(state, command, "Debugger.stepOver"@)))
    } else if action == "debug_step_into"@ {
        (state, of_control(ControlView::start(state, command, "Debugger.stepInto"@)))
    } else if action == "debug_step_out"@ {
        (state, of_control(ControlView::start(state, command, "Debugger.stepOut"@)))
    } else if action == "debug_events"@ {
        match reports::events_wait(state, command) {
            Some(_) => (state, StepView::Wait(OperationView::Events(command))),
            None => (
                state.after_events(command),
                StepView::Done(Ok(state.events_answer(command))),
            ),
        }
    } else if action == "debug_scripts"@ {
        (state, StepView::Done(reports::scripts_answer(state, command)))
    } else if action == "debug_source"@ {
        (state, of_source(SourceReadView::start(state, command)))
    } else if action == "debug_source_search"@ {
        (state, of_search(SearchView::start(state, command)))
    } else if action == "debug_breakpoint_set"@ {
        (state, of_set(SetProbeView::start(state, command, ProbeKind::Breakpoint)))
    } else if action == "debug_breakpoint_list"@ {
        (state, StepView::Done(Ok(reports::probes_answer(state, ProbeKind::Breakpoint))))
    } else if action == "debug_breakpoint_remove"@ {
        let (after, step) = RemoveProbeView::start(state, now, command, ProbeKind::Breakpoint);
        (after, of_remove(step))
    } else if action == "debug_logpoint_set"@ {
        (state, of_set(SetProbeView::start(state, command, ProbeKind::Logpoint)))
    } else if action == "debug_logpoint_list"@ {
        (state, StepView::Done(Ok(reports::probes_answer(state, ProbeKind::Logpoint))))
    } else if action == "debug_logpoint_remove"@ {
        let (after, step) = RemoveProbeView::start(state, now, command, ProbeKind::Logpoint);
        (after, of_remove(step))
    } else {
        (state, StepView::Done(Err("Unsupported debugger fast action: "@ + action)))
    }
}

impl OperationView {
    /// Whether the operation is one that a command can come to.
    pub open spec fn sound(self) -> bool {
        match self {
            OperationView::Search(m) => m.looks(),
            OperationView::Probe(m) => m.request.located(),
            _ => true,
        }
    }

    /// What the operation waits for.
    pub open spec fn action(self) -> ActionView {
        match self {
            OperationView::Events(command) => ActionView::Listen(
                reports::number_or(command, "wait"@, 0),
            ),
            OperationView::Enable(m) => ActionView::Send(m.request()),
            OperationView::Disable(m) => ActionView::Send(m.request()),
            OperationView::Evaluate(m) => ActionView::Send(m.request()),
            OperationView::Control(m) => ActionView::Send(m.request()),
            OperationView::Source(m) => ActionView::Send(m.request()),
            OperationView::Search(m) => ActionView::Send(m.request()),
            OperationView::Probe(m) => ActionView::Send(m.request()),
            OperationView::Remove(m) => ActionView::Send(m.request()),
        }
    }

    /// What the operation comes to with a reply; one that listens is answered
    /// whatever came.
    pub open spec fn advance(
        self,
        state: StateView,
        number: u64,
        now: u64,
        reply: Result<JsonView, Chars>,
    ) -> (StateView, u64, StepView<OperationView>) {
        match self {
            OperationView::Events(command) => (
                state.after_events(command),
                number,
                StepView::Done(Ok(state.events_answer(command))),
            ),
            OperationView::Enable(m) => {
                let (after, step) = m.advance(state, reply);
                (after, number, of_enable(step))
            },
            OperationView::Disable(m) => {
                let (after, step) = m.advance(state, now, reply);
                (after, number, of_disable(step))
            },
            OperationView::Evaluate(m) => (state, number, StepView::Done(m.answer(reply))),
            OperationView::Control(m) => (state, number, StepView::Done(m.answer(reply))),
            OperationView::Source(m) => (state, number, StepView::Done(m.answer(reply))),
            OperationView::Search(m) => (state, number, of_search(m.advance(reply))),
            OperationView::Probe(m) => {
                let (after, next, step) = m.advance(state, number, now, reply);
                (after, next, of_set(step))
            },
            OperationView::Remove(m) => {
                let (after, step) = m.advance(state, now, reply);
                (after, number, of_remove(step))
            },
        }
    }
}

impl Operation {
    /// Starts an allowed command.
    pub fn start(state: &mut ControllerState, now: u64, command: &Json) -> (r: Step<Operation>)
        ensures
            (final(state)@, r.deep_view()) == authorized(old(state)@, now, command@),
            r matches Step::Wait(m) ==> m.deep_view().sound(),
    {
        let name = text_of(command, "action");
        let action = name.as_str();
        if str_eq(action, "debug_enable") {
            match Enable::start(state, command) {
                Step::Wait(m) => Step::Wait(Operation::Enable(m)),
                Step::Done(result) => Step::Done(result),
            }
        } else if str_eq(action, "debug_disable") {
            match Disable::start(state, now, command) {
                Step::Wait(m) => Step::Wait(Operation::Disable(m)),
                Step::Done(result) => Step::Done(result),
            }
        } else if str_eq(action, "debug_status") {
            Step::Done(state.status(command))
        } else if str_eq(action, "debug_stack") {
            Step::Done(state.stack(command))
        } else if str_eq(action, "debug_eval") {
            match Evaluation::start(state, command) {
                Step::Wait(m) => Step::Wait(Operation::Evaluate(m)),
                Step::Done(result) => Step::Done(result),
            }
        } else if str_eq(action, "debug_pause") {
            Operation::control(state, command, "Debugger.pause")
        } else if str_eq(action, "debug_resume") {
            Operation::control(state, command, "Debugger.resume")
        } else if str_eq(action, "debug_step_over") {
            Operation::control(state, command, "Debugger.stepOver")
        } else if str_eq(action, "debug_step_into") {
            Operation::control(state, command, "Debugger.stepInto")
        } else if str_eq(action, "debug_step_out") {
            Operation::control(state, command, "Debugger.stepOut")
        } else if str_eq(action, "debug_events") {
            match state.wait_for_events(command) {
                Some(_) => Step::Wait(Operation::Events(command.clone())),
                None => Step::Done(Ok(state.events(command))),
            }
        } else if str_eq(action, "debug_scripts") {
            Step::Done(state.list_scripts(command))
        } else if str_eq(action, "debug_source") {
            match SourceRead::start(state, command) {
                Step::Wait(m) => Step::Wait(Operation::Source(m)),
                Step::Done(result) => Step::Done(result),
            }
        } else if str_eq(action, "debug_source_search") {
            match Search::start(state, command) {
                Step::Wait(m) => Step::Wait(Operation::Search(m)),
                Step::Done(result) => Step::Done(result),
            }
        } else if str_eq(action, "debug_breakpoint_set") {
            Operation::set(state, command, ProbeKind::Breakpoint)
        } else if str_eq(action, "debug_breakpoint_list") {
            Step::Done(Ok(state.list_probes(ProbeKind::Breakpoint)))
        } else if str_eq(action, "debug_breakpoint_remove") {
            Operation::remove(state, now, command, ProbeKind::Breakpoint)
        } else if str_eq(action, "debug_logpoint_set") {
            Operation::set(state, command, ProbeKind::Logpoint)
        } else if str_eq(action, "debug_logpoint_list") {
            Step::Done(Ok(state.list_probes(ProbeKind::Logpoint)))
        } else if str_eq(action, "debug_logpoint_remove") {
            Operation::remove(state, now, command, ProbeKind::Logpoint)
        } else {
            Step::Done(Err("Unsupported debugger fast action: ".to_owned().concat(action)))
        }
    }

    fn control(state: &ControllerState, command: &Json, method: &str) -> (r: Step<Operation>)
        ensures
            r.deep_view() == of_control(ControlView::start(state@, command@, method@)),
            r matches Step::Wait(m) ==> m.deep_view().sound(),
    {
        match Control::start(state, command, method) {
            Step::Wait(m) => Step::Wait(Operation::Control(m)),
            Step::Done(result) => Step::Done(result),
        }
    }

    fn set(state: &ControllerState, command: &Json, kind: ProbeKind) -> (r: Step<Operation>)
        ensures
            r.deep_view() == of_set(SetProbeView::start(state@, command@, kind)),
            r matches Step::Wait(m) ==> m.deep_view().sound(),
    {
        match SetProbe::start(state, command, kind) {
            Step::Wait(m) => Step::Wait(Operation::Probe(m)),
            Step::Done(result) => Step::Done(result),
        }
    }

    fn remove(state: &mut ControllerState, now: u64, command: &Json, kind: ProbeKind) -> (r: Step<
        Operation,
    >)
        ensures
            ({
                let (after, step) = RemoveProbeView::start(old(state)@, now, command@, kind);
                final(state)@ == after && r.deep_view() == of_remove(step)
            }),
            r matches Step::Wait(m) ==> m.deep_view().sound(),
    {
        match RemoveProbe::start(state, now, command, kind) {
            Step::Wait(m) => Step::Wait(Operation::Remove(m)),
            Step::Done(result) => Step::Done(result),
        }
    }

    /// What the operation waits for.
    pub fn action(&self) -> (r: Action)
        requires
            self.deep_view().sound(),
        ensures
            r.deep_view() == self.deep_view().action(),
    {
        match self {
            Operation::Events(command) => Action::Listen(get_number(command, "wait", 0)),
            Operation::Enable(m) => Action::Send(m.request()),
            Operation::Disable(m) => Action::Send(m.request()),
            Operation::Evaluate(m) => Action::Send(m.request()),
            Operation::Control(m) => Action::Send(m.request()),
            Operation::Source(m) => Action::Send(m.request()),
            Operation::Search(m) => Action::Send(m.request()),
            Operation::Probe(m) => Action::Send(m.request()),
            Operation::Remove(m) => Action::Send(m.request()),
        }
    }

    /// Takes the reply to the request; one that listens takes whatever came.
    pub fn advance(
        self,
        state: &mut ControllerState,
        numbers: &mut ProbeNumbers,
        now: u64,
        reply: &Result<Json, String>,
    ) -> (r: Step<Operation>)
        requires
            self.deep_view().sound(),
        ensures
            (final(state)@, final(numbers).next, r.deep_view()) == self.deep_view().advance(
                old(state)@,
                old(numbers).next,
                now,
                text::outcome(*reply),
            ),
            r matches Step::Wait(m) ==> m.deep_view().sound(),
    {
        match self {
            Operation::Events(command) => Step::Done(Ok(state.events(&command))),
            Operation::Enable(m) => match m.advance(state, reply) {
                Step::Wait(next) => Step::Wait(Operation::Enable(next)),
                Step::Done(result) => Step::Done(result),
            },
            Operation::Disable(m) => match m.advance(state, now, reply) {
                Step::Wait(next) => Step::Wait(Operation::Disable(next)),
                Step::Done(result) => Step::Done(result),
            },
            Operation::Evaluate(m) => Step::Done(m.finish(reply)),
            Operation::Control(m) => Step::Done(m.finish(reply)),
            Operation::Source(m) => Step::Done(m.finish(reply)),
            Operation::Search(m) => match m.advance(reply) {
                Step::Wait(next) => Step::Wait(Operation::Search(next)),
                Step::Done(result) => Step::Done(result),
            },
            Operation::Probe(m) => match m.advance(state, numbers, now, reply) {
                Step::Wait(next) => Step::Wait(Operation::Probe(next)),
                Step::Done(result) => Step::Done(result),
            },
            Operation::Remove(m) => match m.advance(state, now, reply) {
                Step::Wait(next) => Step::Wait(Operation::Remove(next)),
                Step::Done(result) => Step::Done(result),
            },
        }
    }
}

/// A command that waits for its confirmation.
pub struct PendingDebugConfirmation {
    pub confirmation_id: String,
    pub category: String,
    pub command: Json,
}

/// Model of a command that waits for its confirmation.
#[verifier::ext_equal]
pub struct PendingConfirmationView {
    pub confirmation_id: Chars,
    pub category: Chars,
    pub command: JsonView,
}

impl DeepView for PendingDebugConfirmation {
    type V = PendingConfirmationView;

    open spec fn deep_view(&self) -> PendingConfirmationView {
        PendingConfirmationView {
            confirmation_id: self.confirmation_id@,
            category: self.category@,
            command: self.command@,
        }
    }
}

/// A command that is being executed; a confirmed one is answered for the
/// confirmation.
pub struct Execution {
    pub id: String,
    pub confirmed: Option<(String, String)>,
    pub operation: Operation,
}

/// Model of a command that is being executed.
pub struct ExecutionView {
    pub id: Chars,
    pub confirmed: Option<(Chars, Chars)>,
    pub operation: OperationView,
}

impl DeepView for Execution {
    type V = ExecutionView;

    open spec fn deep_view(&self) -> ExecutionView {
        ExecutionView {
            id: self.id@,
            confirmed: self.confirmed.deep_view(),
            operation: self.operation.deep_view(),
        }
    }
}

/// What the execution of a command came to.
pub enum Progress {
    Wait(Execution),
    Answer(Json),
}

/// Model of what the execution of a command came to.
pub enum ProgressView {
    Wait(ExecutionView),
    Answer(JsonView),
}

impl DeepView for Progress {
    type V = ProgressView;

    open spec fn deep_view(&self) -> ProgressView {
        match *self {
            Progress::Wait(execution) => ProgressView::Wait(execution.deep_view()),
            Progress::Answer(answer) => ProgressView::Answer(answer@),
        }
    }
}

/// The answer to a command that is done.
pub open spec fn final_answer(
    id: Chars,
    confirmed: Option<(Chars, Chars)>,
    result: Result<JsonView, Chars>,
) -> JsonView {
    let answer = policy::response(id, result);
    match confirmed {
        None => answer,
        Some((confirmation, category)) => policy::success(
            confirmation,
            JsonView::object().with("confirmed"@, JsonView::Bool(true)).with(
                "action"@,
                JsonView::Str(category),
            ).with("result"@, answer),
        ),
    }
}

/// A step of an operation, as progress of its command.
pub open spec fn progress_of(
    id: Chars,
    confirmed: Option<(Chars, Chars)>,
    step: StepView<OperationView>,
) -> ProgressView {
    match step {
        StepView::Wait(operation) => ProgressView::Wait(
            ExecutionView { id, confirmed, operation },
        ),
        StepView::Done(result) => ProgressView::Answer(final_answer(id, confirmed, result)),
    }
}

fn go_on(id: String, confirmed: Option<(String, String)>, step: Step<Operation>) -> (r: Progress)
    requires
        step matches Step::Wait(m) ==> m.deep_view().sound(),
    ensures
        r.deep_view() == progress_of(id@, confirmed.deep_view(), step.deep_view()),
        r matches Progress::Wait(execution) ==> execution.deep_view().operation.sound(),
{
    match step {
        Step::Wait(operation) => Progress::Wait(Execution { id, confirmed, operation }),
        Step::Done(result) => {
            let answer = respond(id.as_str(), result);
            match confirmed {
                None => Progress::Answer(answer),
                Some((confirmation, category)) => Progress::Answer(
                    success_response(
                        confirmation.as_str(),
                        Json::object().with("confirmed", Json::Bool(true)).with(
                            "action",
                            Json::text(category.as_str()),
                        ).with("result", answer),
                    ),
                ),
            }
        },
    }
}

impl Execution {
    /// What the command waits for.
    pub fn action(&self) -> (r: Action)
        requires
            self.deep_view().operation.sound(),
        ensures
            r.deep_view() == self.deep_view().operation.action(),
    {
        self.operation.action()
    }
}

/// The debugger: its state, and the command that waits for a confirmation.
pub struct DebuggerController {
    pub state: ControllerState,
    pub pending_confirmation: Option<PendingDebugConfirmation>,
}

/// Model of the debugger.
pub struct DebuggerView {
    pub state: StateView,
    pub pending: Option<PendingConfirmationView>,
}

impl View for DebuggerController {
    type V = DebuggerView;

    open spec fn view(&self) -> DebuggerView {
        DebuggerView { state: self.state@, pending: self.pending_confirmation.deep_view() }
    }
}

impl DebuggerView {
    /// Whether a command answers the pending confirmation.
    pub open spec fn answers_pending(self, command: JsonView) -> bool {
        self.pending is Some && command.get_str("confirmationId"@) == Some(
            self.pending->Some_0.confirmation_id,
        )
    }

    /// Whether a command sets or removes probes: by itself, or by confirming one
    /// that does.
    pub open spec fn alters_probes(self, command: JsonView) -> bool {
        let action = if policy::action_of(command) == "confirm"@ && self.answers_pending(command) {
            policy::action_of(self.pending->Some_0.command)
        } else {
            policy::action_of(command)
        };
        alters(action)
    }

    /// What a command comes to, given what the policy says of its categories
    /// and which of them the user wants confirmed.
    pub open spec fn execute(
        self,
        now: u64,
        command: JsonView,
        policy: Option<Seq<PolicyView>>,
        wanted: Option<Seq<bool>>,
    ) -> (DebuggerView, ProgressView) {
        let id = policy::id_of(command);
        let action = policy::action_of(command);
        if action == "confirm"@ {
            if self.answers_pending(command) {
                let pending = self.pending->Some_0;
                let (after, step) = authorized(self.state, now, pending.command);
                (
                    DebuggerView { state: after, pending: None },
                    progress_of(
                        policy::id_of(pending.command),
                        Some((id, pending.category)),
                        step,
                    ),
                )
            } else {
                (self, ProgressView::Answer(policy::failure(id, nothing_pending())))
            }
        } else if action == "deny"@ {
            if self.answers_pending(command) {
                (
                    DebuggerView { pending: None, ..self },
                    ProgressView::Answer(
                        policy::success(
                            id,
                            JsonView::object().with("denied"@, JsonView::Bool(true)).with(
                                "action"@,
                                JsonView::Str(self.pending->Some_0.category),
                            ),
                        ),
                    ),
                )
            } else {
                (self, ProgressView::Answer(policy::failure(id, nothing_pending())))
            }
        } else {
            match policy::selector_fault(command) {
                Some(fault) => (self, ProgressView::Answer(policy::failure(id, fault))),
                None => match policy::decision(policy::categories_of(command), policy, wanted) {
                    DecisionView::Deny(reason) => (
                        self,
                        ProgressView::Answer(policy::failure(id, reason)),
                    ),
                    DecisionView::Confirm(category) => (
                        DebuggerView {
                            pending: Some(
                                PendingConfirmationView {
                                    confirmation_id: id,
                                    category,
                                    command,
                                },
                            ),
                            ..self
                        },
                        ProgressView::Answer(
                            policy::success(
                                id,
                                JsonView::object().with(
                                    "confirmation_required"@,
                                    JsonView::Bool(true),
                                ).with("confirmation_id"@, JsonView::Str(id)).with(
                                    "action"@,
                                    JsonView::Str(category),
                                ),
                            ),
                        ),
                    ),
                    DecisionView::Allow => {
                        let (after, step) = authorized(self.state, now, command);
                        (DebuggerView { state: after, ..self }, progress_of(id, None, step))
                    },
                },
            }
        }
    }
}

/// Whether an action sets or removes probes.
pub open spec fn alters(action: Chars) -> bool {
    action == "debug_disable"@ || action == "debug_breakpoint_set"@ || action
        == "debug_breakpoint_remove"@ || action == "debug_logpoint_set"@ || action
        == "debug_logpoint_remove"@
}

/// Whether an answer tells of success: its own, or that of the command that it
/// confirms.
pub open spec fn success_told(answer: JsonView) -> bool {
    answer.flag("success"@) && match answer.get("data"@) {
        Some(data) => data.flag("confirmed"@) ==> match data.get("result"@) {
            Some(result) => result.flag("success"@),
            None => false,
        },
        None => true,
    }
}

/// Whether an answer tells of success: its own, or that of the command that it
/// confirms.
pub fn succeeded(answer: &Json) -> (r: bool)
    ensures
        r == success_told(answer@),
{
    if !answer.flag("success") {
        return false;
    }
    match answer.get("data") {
        Some(data) => if data.flag("confirmed") {
            match data.get("result") {
                Some(result) => result.flag("success"),
                None => false,
            }
        } else {
            true
        },
        None => true,
    }
}

/// The message that no command waits for the confirmation.
pub open spec fn nothing_pending() -> Chars {
    "No matching pending debugger confirmation"@
}

impl DebuggerController {
    /// A debugger without a browser.
    pub fn new() -> (r: Self)
        ensures
            r@ == (DebuggerView { state: StateView::initial(), pending: None }),
    {
        DebuggerController { state: ControllerState::initial(), pending_confirmation: None }
    }

    /// Replaces the connection by one to a browser with the given pages.
    pub fn attach_browser(&mut self, now: u64, pages: &Vec<PageInfo>, active_tab_id: Option<u32>)
        ensures
            exists|suffix: Chars, nonce: Chars|
                lifecycle::is_uuid_text(suffix) && lifecycle::is_uuid_text(nonce)
                    && final(self)@.state == #[trigger] old(self)@.state.attach(
                    now,
                    pages.deep_view(),
                    active_tab_id,
                    suffix,
                    nonce,
                ),
            final(self)@.pending == old(self)@.pending,
    {
        self.state.attach_browser(now, pages, active_tab_id);
    }

    /// Drops the connection. Says whether waiting readers are to be told.
    pub fn detach_browser(&mut self, now: u64, reason: &str) -> (r: bool)
        ensures
            final(self)@.state == old(self)@.state.detach(now, reason@),
            final(self)@.pending == old(self)@.pending,
            r == old(self)@.state.connected,
    {
        self.state.detach_browser(now, reason)
    }

    /// Names the browser engine.
    pub fn set_engine(&mut self, engine: &str)
        ensures
            final(self)@.state == (StateView { engine: engine@, ..old(self)@.state }),
            final(self)@.pending == old(self)@.pending,
    {
        self.state.set_engine(engine);
    }

    /// Takes over the pages that the browser shows now.
    pub fn sync_pages(&mut self, now: u64, pages: &Vec<PageInfo>, active_tab_id: Option<u32>)
        ensures
            final(self)@.state == old(self)@.state.sync(now, pages.deep_view(), active_tab_id),
            final(self)@.pending == old(self)@.pending,
    {
        self.state.sync_pages(now, pages, active_tab_id);
    }

    /// The pause of the active tab.
    pub fn active_tab_paused(&self) -> (r: Option<Json>)
        ensures
            r.deep_view() == queries::active_pause(self@.state),
    {
        self.state.active_tab_paused()
    }

    /// Identifiers of the paused sessions.
    pub fn paused_session_ids(&self) -> (r: Vec<String>)
        ensures
            r.deep_view() == crate::collections::keys(self@.state.paused_sessions),
    {
        self.state.paused_session_ids()
    }

    /// Whether an action is one that the debugger serves.
    pub fn is_fast_action(action: &str) -> (r: bool)
        ensures
            r == policy::fast_action(action@),
    {
        policy::is_fast_action(action)
    }

    /// Whether a command answers the pending confirmation.
    pub fn has_pending_confirmation(&self, command: &Json) -> (r: bool)
        ensures
            r == self@.answers_pending(command@),
    {
        match &self.pending_confirmation {
            Some(pending) => same_text(
                command.get_str("confirmationId"),
                Some(pending.confirmation_id.as_str()),
            ),
            None => false,
        }
    }

    /// Whether a command sets or removes probes: by itself, or by confirming one
    /// that does. Only one such command runs at a time, and listeners are woken
    /// where it succeeds.
    pub fn alters_probes(&self, command: &Json) -> (r: bool)
        ensures
            r == self@.alters_probes(command@),
    {
        let mut name = text_of(command, "action");
        if str_eq(name.as_str(), "confirm") && self.has_pending_confirmation(command) {
            if let Some(pending) = &self.pending_confirmation {
                name = text_of(&pending.command, "action");
            }
        }
        let action = name.as_str();
        str_eq(action, "debug_disable") || str_eq(action, "debug_breakpoint_set") || str_eq(
            action,
            "debug_breakpoint_remove",
        ) || str_eq(action, "debug_logpoint_set") || str_eq(action, "debug_logpoint_remove")
    }

    fn take_pending(&mut self, command: &Json) -> (r: Option<PendingDebugConfirmation>)
        ensures
            final(self)@.state == old(self)@.state,
            old(self)@.answers_pending(command@) ==> r.deep_view() == old(self)@.pending && final(self)@.pending is None,
            !old(self)@.answers_pending(command@) ==> r is None && final(self)@.pending == old(self)@.pending,
    {
        if self.has_pending_confirmation(command) {
            self.pending_confirmation.take()
        } else {
            None
        }
    }

    fn confirm_pending(&mut self, now: u64, command: &Json) -> (r: Progress)
        requires
            policy::action_of(command@) == "confirm"@,
        ensures
            forall|policy: Option<Seq<PolicyView>>, wanted: Option<Seq<bool>>|
                (final(self)@, r.deep_view()) == #[trigger] old(self)@.execute(
                    now,
                    command@,
                    policy,
                    wanted,
                ),
            r matches Progress::Wait(execution) ==> execution.deep_view().operation.sound(),
    {
        let id = text_of(command, "id");
        match self.take_pending(command) {
            None => Progress::Answer(
                error_response(id.as_str(), "No matching pending debugger confirmation"),
            ),
            Some(pending) => {
                let inner = text_of(&pending.command, "id");
                let step = Operation::start(&mut self.state, now, &pending.command);
                go_on(inner, Some((id, pending.category)), step)
            },
        }
    }

    fn deny_pending(&mut self, now: u64, command: &Json) -> (r: Progress)
        requires
            policy::action_of(command@) == "deny"@,
        ensures
            forall|policy: Option<Seq<PolicyView>>, wanted: Option<Seq<bool>>|
                (final(self)@, r.deep_view()) == #[trigger] old(self)@.execute(
                    now,
                    command@,
                    policy,
                    wanted,
                ),
            r is Answer,
    {
        proof {
            reveal_strlit("deny");
            reveal_strlit("confirm");
            assert("deny"@.len() != "confirm"@.len());
        }
        let id = text_of(command, "id");
        match self.take_pending(command) {
            None => Progress::Answer(
                error_response(id.as_str(), "No matching pending debugger confirmation"),
            ),
            Some(pending) => Progress::Answer(
                success_response(
                    id.as_str(),
                    Json::object().with("denied", Json::Bool(true)).with(
                        "action",
                        Json::text(pending.category.as_str()),
                    ),
                ),
            ),
        }
    }

    /// Takes a command, given what the policy says of its categories and which
    /// of them the user wants confirmed.
    pub fn execute_fast(
        &mut self,
        now: u64,
        command: &Json,
        policy: &Option<Vec<PolicyResult>>,
        wanted: &Option<Vec<bool>>,
    ) -> (r: Progress)
        requires
            policy matches Some(results) ==> results.len() == policy::categories_of(
                command@,
            ).len(),
            wanted matches Some(flags) ==> flags.len() == policy::categories_of(command@).len(),
        ensures
            (final(self)@, r.deep_view()) == old(self)@.execute(
                now,
                command@,
                policy.deep_view(),
                wanted.deep_view(),
            ),
            r matches Progress::Wait(execution) ==> execution.deep_view().operation.sound(),
    {
        let id = text_of(command, "id");
        let action = text_of(command, "action");
        if str_eq(action.as_str(), "confirm") {
            return self.confirm_pending(now, command);
        }
        if str_eq(action.as_str(), "deny") {
            return self.deny_pending(now, command);
        }
        if let Err(fault) = validate_fast_selectors(command) {
            return Progress::Answer(error_response(id.as_str(), fault.as_str()));
        }
        let categories = fast_policy_categories(command);
        assert(categories.len() == categories.deep_view().len());
        match decide_policy(&categories, policy, wanted) {
            FastPolicyDecision::Deny(reason) => {
                Progress::Answer(error_response(id.as_str(), reason.as_str()))
            },
            FastPolicyDecision::Confirm(category) => {
                let answer = Json::object().with(
                    "confirmation_required",
                    Json::Bool(true),
                ).with("confirmation_id", Json::text(id.as_str())).with(
                    "action",
                    Json::text(category.as_str()),
                );
                let pending = PendingDebugConfirmation {
                    confirmation_id: id.clone(),
                    category,
                    command: command.clone(),
                };
                self.pending_confirmation = Some(pending);
                Progress::Answer(success_response(id.as_str(), answer))
            },
            FastPolicyDecision::Allow => {
                let step = Operation::start(&mut self.state, now, command);
                go_on(id, None, step)
            },
        }
    }

    /// Takes what a command waited for.
    pub fn advance(
        &mut self,
        execution: Execution,
        numbers: &mut ProbeNumbers,
        now: u64,
        reply: &Result<Json, String>,
    ) -> (r: Progress)
        requires
            execution.deep_view().operation.sound(),
        ensures
            ({
                let (after, next, step) = execution.deep_view().operation.advance(
                    old(self)@.state,
                    old(numbers).next,
                    now,
                    text::outcome(*reply),
                );
                final(self)@.state == after && final(numbers).next == next && r.deep_view()
                    == progress_of(
                    execution.deep_view().id,
                    execution.deep_view().confirmed,
                    step,
                )
            }),
            final(self)@.pending == old(self)@.pending,
            r matches Progress::Wait(next) ==> next.deep_view().operation.sound(),
    {
        let Execution { id, confirmed, operation } = execution;
        let step = operation.advance(&mut self.state, numbers, now, reply);
        go_on(id, confirmed, step)
    }
}

} // verus!
