//! Which commands are allowed, which need a confirmation, and what their
//! selectors may be.

use vstd::prelude::*;

use crate::collections;
use crate::json::{Json, JsonView};
use crate::text;
use crate::text::{chars_of, join, str_eq, Chars};

verus! {

/// What a policy says of a category of actions.
pub enum PolicyResult {
    Allow,
    Deny(String),
    RequiresConfirmation,
}

/// Model of what a policy says.
pub enum PolicyView {
    Allow,
    Deny(Chars),
    RequiresConfirmation,
}

impl DeepView for PolicyResult {
    type V = PolicyView;

    open spec fn deep_view(&self) -> PolicyView {
        match *self {
            PolicyResult::Allow => PolicyView::Allow,
            PolicyResult::Deny(reason) => PolicyView::Deny(reason@),
            PolicyResult::RequiresConfirmation => PolicyView::RequiresConfirmation,
        }
    }
}

/// What becomes of a command.
pub enum FastPolicyDecision {
    Allow,
    Deny(String),
    Confirm(String),
}

/// Model of what becomes of a command.
pub enum DecisionView {
    Allow,
    Deny(Chars),
    Confirm(Chars),
}

impl DeepView for FastPolicyDecision {
    type V = DecisionView;

    open spec fn deep_view(&self) -> DecisionView {
        match *self {
            FastPolicyDecision::Allow => DecisionView::Allow,
            FastPolicyDecision::Deny(reason) => DecisionView::Deny(reason@),
            FastPolicyDecision::Confirm(categories) => DecisionView::Confirm(categories@),
        }
    }
}

/// Whether a character is white space in Unicode.
pub open spec fn is_white(c: char) -> bool {
    let n = c as u32;
    0x09 <= n <= 0x0D || n == 0x20 || n == 0x85 || n == 0xA0 || n == 0x1680 || 0x2000 <= n
        <= 0x200A || n == 0x2028 || n == 0x2029 || n == 0x202F || n == 0x205F || n == 0x3000
}

/// Whether a text holds white space alone.
pub open spec fn is_blank(s: Chars) -> bool {
    forall|i: int| 0 <= i < s.len() ==> is_white(#[trigger] s[i])
}

fn white(c: char) -> (r: bool)
    ensures
        r == is_white(c),
{
    let n: u32 = c as u32;
    (0x09 <= n && n <= 0x0D) || n == 0x20 || n == 0x85 || n == 0xA0 || n == 0x1680 || (0x2000 <= n
        && n <= 0x200A) || n == 0x2028 || n == 0x2029 || n == 0x202F || n == 0x205F || n == 0x3000
}

fn blank(s: &str) -> (r: bool)
    ensures
        r == is_blank(s@),
{
    let chars = chars_of(s);
    let mut i: usize = 0;
    while i < chars.len()
        invariant
            chars@ == s@,
            i <= chars.len(),
            forall|j: int| 0 <= j < i ==> is_white(#[trigger] s@[j]),
        decreases chars.len() - i,
    {
        if !white(chars[i]) {
            assert(!is_white(s@[i as int]));
            return false;
        }
        i = i + 1;
    }
    true
}

/// Whether an action is one that the debugger serves.
pub open spec fn fast_action(action: Chars) -> bool {
    control_action(action) || inspect_action(action) || action == "debug_eval"@
}

/// Whether an action changes how the page runs.
pub open spec fn control_action(action: Chars) -> bool {
    action == "debug_enable"@ || action == "debug_disable"@ || action == "debug_pause"@ || action
        == "debug_resume"@ || action == "debug_step_over"@ || action == "debug_step_into"@
        || action == "debug_step_out"@ || action == "debug_breakpoint_set"@ || action
        == "debug_breakpoint_remove"@ || action == "debug_logpoint_set"@ || action
        == "debug_logpoint_remove"@
}

/// Whether an action only looks.
pub open spec fn inspect_action(action: Chars) -> bool {
    action == "debug_scripts"@ || action == "debug_source"@ || action == "debug_source_search"@
        || action == "debug_stack"@ || action == "debug_status"@ || action == "debug_events"@
        || action == "debug_breakpoint_list"@ || action == "debug_logpoint_list"@
}

fn controls(action: &str) -> (r: bool)
    ensures
        r == control_action(action@),
{
    str_eq(action, "debug_enable") || str_eq(action, "debug_disable") || str_eq(
        action,
        "debug_pause",
    ) || str_eq(action, "debug_resume") || str_eq(action, "debug_step_over") || str_eq(
        action,
        "debug_step_into",
    ) || str_eq(action, "debug_step_out") || str_eq(action, "debug_breakpoint_set") || str_eq(
        action,
        "debug_breakpoint_remove",
    ) || str_eq(action, "debug_logpoint_set") || str_eq(action, "debug_logpoint_remove")
}

fn inspects(action: &str) -> (r: bool)
    ensures
        r == inspect_action(action@),
{
    str_eq(action, "debug_scripts") || str_eq(action, "debug_source") || str_eq(
        action,
        "debug_source_search",
    ) || str_eq(action, "debug_stack") || str_eq(action, "debug_status") || str_eq(
        action,
        "debug_events",
    ) || str_eq(action, "debug_breakpoint_list") || str_eq(action, "debug_logpoint_list")
}

/// Whether an action is one that the debugger serves.
pub fn is_fast_action(action: &str) -> (r: bool)
    ensures
        r == fast_action(action@),
{
    controls(action) || inspects(action) || str_eq(action, "debug_eval")
}

/// The action of a command.
pub open spec fn action_of(command: JsonView) -> Chars {
    match command.get_str("action"@) {
        Some(action) => action,
        None => Seq::empty(),
    }
}

/// The identifier of a command.
pub open spec fn id_of(command: JsonView) -> Chars {
    match command.get_str("id"@) {
        Some(id) => id,
        None => Seq::empty(),
    }
}

/// A string of a command; nothing where it has none.
pub fn text_of(command: &Json, key: &str) -> (r: String)
    ensures
        r@ == (match command@.get_str(key@) {
            Some(text) => text,
            None => Seq::empty(),
        }),
{
    match command.get_str(key) {
        Some(text) => text.to_owned(),
        None => {
            let none = String::new();
            assert(none@ =~= Seq::<char>::empty());
            none
        },
    }
}

/// The category that an action belongs to first of all.
pub open spec fn primary_category(action: Chars) -> Chars {
    if action == "debug_eval"@ {
        "evaluate"@
    } else if control_action(action) {
        "debug.control"@
    } else if inspect_action(action) {
        "debug.inspect"@
    } else {
        action
    }
}

/// Whether a command has page code evaluated beside its first effect.
pub open spec fn evaluates_page_code(command: JsonView) -> bool {
    action_of(command) == "debug_logpoint_set"@ || (action_of(command) == "debug_breakpoint_set"@
        && command.get_str("condition"@) is Some && !is_blank(
        command.get_str("condition"@)->Some_0,
    ))
}

/// The categories that a command needs.
pub open spec fn categories_of(command: JsonView) -> Seq<Chars> {
    let primary = primary_category(action_of(command));
    if evaluates_page_code(command) && primary != "evaluate"@ {
        seq![primary, "evaluate"@]
    } else {
        seq![primary]
    }
}

/// The categories that a command needs.
pub fn fast_policy_categories(command: &Json) -> (r: Vec<String>)
    ensures
        r.deep_view() == categories_of(command@),
{
    let action = text_of(command, "action");
    let primary = if str_eq(action.as_str(), "debug_eval") {
        "evaluate".to_owned()
    } else if controls(action.as_str()) {
        "debug.control".to_owned()
    } else if inspects(action.as_str()) {
        "debug.inspect".to_owned()
    } else {
        action.clone()
    };
    let conditioned = match command.get_str("condition") {
        Some(condition) => !blank(condition),
        None => false,
    };
    let evaluates = str_eq(action.as_str(), "debug_logpoint_set") || (str_eq(
        action.as_str(),
        "debug_breakpoint_set",
    ) && conditioned);
    let plain = !str_eq(primary.as_str(), "evaluate");
    let mut categories: Vec<String> = Vec::new();
    categories.push(primary);
    if evaluates && plain {
        categories.push("evaluate".to_owned());
    }
    assert(categories.deep_view() =~= categories_of(command@));
    categories
}

/// Reason of the first denial.
pub open spec fn first_denial(results: Seq<PolicyView>) -> Option<Chars>
    decreases results.len(),
{
    if results.len() == 0 {
        None
    } else {
        match first_denial(results.drop_last()) {
            Some(reason) => Some(reason),
            None => match results.last() {
                PolicyView::Deny(reason) => Some(reason),
                _ => None,
            },
        }
    }
}

/// Categories that the policy wants confirmed.
pub open spec fn policy_confirmations(categories: Seq<Chars>, results: Seq<PolicyView>) -> Seq<
    Chars,
>
    decreases results.len(),
{
    if results.len() == 0 {
        Seq::empty()
    } else {
        let n = results.len() - 1;
        let rest = policy_confirmations(categories, results.drop_last());
        if results[n] is RequiresConfirmation {
            rest.push(categories[n])
        } else {
            rest
        }
    }
}

/// Categories to confirm, with those that the user wants confirmed.
pub open spec fn all_confirmations(
    confirmed: Seq<Chars>,
    categories: Seq<Chars>,
    wanted: Seq<bool>,
) -> Seq<Chars>
    decreases wanted.len(),
{
    if wanted.len() == 0 {
        confirmed
    } else {
        let n = wanted.len() - 1;
        let rest = all_confirmations(confirmed, categories, wanted.drop_last());
        if wanted[n] {
            collections::set_with(rest, categories[n])
        } else {
            rest
        }
    }
}

/// What becomes of a command, given what the policy says of each of its
/// categories and which of them the user wants confirmed. A denial counts
/// before any confirmation.
pub open spec fn decision(
    categories: Seq<Chars>,
    policy: Option<Seq<PolicyView>>,
    wanted: Option<Seq<bool>>,
) -> DecisionView {
    let results = match policy {
        Some(results) => results,
        None => Seq::empty(),
    };
    match first_denial(results) {
        Some(reason) => DecisionView::Deny(reason),
        None => {
            let confirmed = policy_confirmations(categories, results);
            let all = match wanted {
                Some(flags) => all_confirmations(confirmed, categories, flags),
                None => confirmed,
            };
            if all.len() > 0 {
                DecisionView::Confirm(text::joined(all, ","@))
            } else {
                DecisionView::Allow
            }
        },
    }
}

proof fn lemma_denial_stays(results: Seq<PolicyView>, n: int)
    requires
        0 <= n <= results.len(),
        first_denial(results.take(n)) is Some,
    ensures
        first_denial(results) == first_denial(results.take(n)),
    decreases results.len(),
{
    if n == results.len() {
        assert(results.take(n) == results);
    } else {
        assert(results.drop_last().take(n) == results.take(n));
        lemma_denial_stays(results.drop_last(), n);
    }
}

/// Decides what becomes of a command.
pub fn decide_policy(
    categories: &Vec<String>,
    policy: &Option<Vec<PolicyResult>>,
    wanted: &Option<Vec<bool>>,
) -> (r: FastPolicyDecision)
    requires
        policy matches Some(results) ==> results.len() == categories.len(),
        wanted matches Some(flags) ==> flags.len() == categories.len(),
    ensures
        r.deep_view() == decision(
            categories.deep_view(),
            policy.deep_view(),
            wanted.deep_view(),
        ),
{
    let ghost names = categories.deep_view();
    let mut confirmations: Vec<String> = Vec::new();
    assert(confirmations.deep_view() =~= Seq::<Chars>::empty());
    let ghost results = match policy.deep_view() {
        Some(results) => results,
        None => Seq::empty(),
    };
    if let Some(list) = policy {
        let mut i: usize = 0;
        assert(results.take(0) =~= Seq::<PolicyView>::empty());
        while i < list.len()
            invariant
                names == categories.deep_view(),
                results == list.deep_view(),
                list.len() == categories.len(),
                i <= list.len(),
                policy.deep_view() == Some(results),
                first_denial(results.take(i as int)) is None,
                confirmations.deep_view() == policy_confirmations(names, results.take(i as int)),
            decreases list.len() - i,
        {
            assert(results.take(i + 1).drop_last() == results.take(i as int));
            assert(results.take(i + 1).last() == list@[i as int].deep_view());
            assert(results.take(i + 1)[i as int] == list@[i as int].deep_view());
            assert(names[i as int] == categories@[i as int]@);
            let ghost was = confirmations.deep_view();
            match &list[i] {
                PolicyResult::Allow => {},
                PolicyResult::Deny(reason) => {
                    proof {
                        lemma_denial_stays(results, i + 1);
                    }
                    return FastPolicyDecision::Deny(reason.clone());
                },
                PolicyResult::RequiresConfirmation => {
                    confirmations.push(categories[i].clone());
                    assert(confirmations.deep_view() =~= was.push(names[i as int]));
                },
            }
            i = i + 1;
        }
        assert(results.take(i as int) == results);
    }
    let ghost confirmed = confirmations.deep_view();
    if let Some(list) = wanted {
        let ghost flags = list.deep_view();
        let mut i: usize = 0;
        assert(flags.take(0) =~= Seq::<bool>::empty());
        while i < list.len()
            invariant
                names == categories.deep_view(),
                flags == list.deep_view(),
                list.len() == categories.len(),
                i <= list.len(),
                confirmations.deep_view() == all_confirmations(
                    confirmed,
                    names,
                    flags.take(i as int),
                ),
            decreases list.len() - i,
        {
            assert(flags.take(i + 1).drop_last() == flags.take(i as int));
            assert(flags.take(i + 1)[i as int] == list@[i as int]);
            assert(names[i as int] == categories@[i as int]@);
            if list[i] {
                collections::set_insert(&mut confirmations, categories[i].as_str());
            }
            i = i + 1;
        }
        assert(flags.take(i as int) == flags);
    }
    if confirmations.len() > 0 {
        FastPolicyDecision::Confirm(join(&confirmations, ","))
    } else {
        FastPolicyDecision::Allow
    }
}

/// What is wrong with the selectors of a command.
pub open spec fn selector_fault(command: JsonView) -> Option<Chars> {
    let tab = command.has("tabId"@);
    let session = command.has("sessionId"@);
    let pause = command.has("pauseId"@);
    if tab && session {
        Some("Use either a tab ID or a CDP session ID, not both"@)
    } else if pause && (tab || session) {
        Some("A pause ID cannot be combined with a tab or session selector"@)
    } else if command.flag("allTabs"@) && (tab || session || pause) {
        Some("allTabs cannot be combined with a page or pause selector"@)
    } else if command.has("frame"@) && command.has("callFrameId"@) {
        Some("Use either a frame index or call frame ID, not both"@)
    } else {
        None
    }
}

/// Checks the selectors of a command.
pub fn validate_fast_selectors(command: &Json) -> (r: Result<(), String>)
    ensures
        match selector_fault(command@) {
            Some(fault) => r is Err && r->Err_0@ == fault,
            None => r is Ok,
        },
{
    let tab = command.has("tabId");
    let session = command.has("sessionId");
    let pause = command.has("pauseId");
    if tab && session {
        return Err("Use either a tab ID or a CDP session ID, not both".to_owned());
    }
    if pause && (tab || session) {
        return Err("A pause ID cannot be combined with a tab or session selector".to_owned());
    }
    if command.flag("allTabs") && (tab || session || pause) {
        return Err("allTabs cannot be combined with a page or pause selector".to_owned());
    }
    if command.has("frame") && command.has("callFrameId") {
        return Err("Use either a frame index or call frame ID, not both".to_owned());
    }
    Ok(())
}

/// The response to a command that succeeded.
pub open spec fn success(id: Chars, data: JsonView) -> JsonView {
    JsonView::object().with("id"@, JsonView::Str(id)).with("success"@, JsonView::Bool(true)).with(
        "data"@,
        data,
    )
}

/// The response to a command that failed.
pub open spec fn failure(id: Chars, error: Chars) -> JsonView {
    JsonView::object().with("id"@, JsonView::Str(id)).with("success"@, JsonView::Bool(false)).with(
        "error"@,
        JsonView::Str(error),
    )
}

/// The response to a command.
pub open spec fn response(id: Chars, result: Result<JsonView, Chars>) -> JsonView {
    match result {
        Ok(data) => success(id, data),
        Err(error) => failure(id, error),
    }
}

/// The response to a command that succeeded.
pub fn success_response(id: &str, data: Json) -> (r: Json)
    ensures
        r@ == success(id@, data@),
{
    Json::object().with("id", Json::text(id)).with("success", Json::Bool(true)).with("data", data)
}

/// The response to a command that failed.
pub fn error_response(id: &str, error: &str) -> (r: Json)
    ensures
        r@ == failure(id@, error@),
{
    Json::object().with("id", Json::text(id)).with("success", Json::Bool(false)).with(
        "error",
        Json::text(error),
    )
}

/// The response to a command.
pub fn respond(id: &str, result: Result<Json, String>) -> (r: Json)
    ensures
        r@ == response(id@, text::outcome(result)),
{
    match result {
        Ok(data) => success_response(id, data),
        Err(error) => error_response(id, error.as_str()),
    }
}

} // verus!
