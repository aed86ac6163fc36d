//! Where a probe is set: what the browser is asked for, what is chosen of its
//! offers, and what is installed and recorded.

use vstd::prelude::*;

use crate::breakpoint;
use crate::collections;
use crate::controller;
use crate::controller::StateView;
use crate::json::JsonView;
use crate::laws::news;
use crate::laws::positions;
use crate::laws::source as source_laws;
use crate::laws::tables;
use crate::operation::{RequestView, StepView};
use crate::probe_request::ProbeRequestView;
use crate::probe_set;
use crate::probe_set::{LookupView, PendingView, PlanView, ProbeStageView, SetProbeView};
use crate::records::ProbeKind;
use crate::source;
use crate::text;
use crate::text::Chars;

verus! {

/// Whether a location is that of a script, line and column.
pub open spec fn stands_at(location: JsonView, script: Chars, line: int, column: int) -> bool {
    &&& location.get_str("scriptId"@) == Some(script)
    &&& location.get_u64("lineNumber"@) is Some
    &&& location.get_u64("lineNumber"@)->Some_0 == line
    &&& location.get_u64("columnNumber"@) is Some
    &&& location.get_u64("columnNumber"@)->Some_0 == column
}

/// Whether a line and column are not behind another one.
pub open spec fn not_behind(line: int, column: int, other_line: int, other_column: int) -> bool {
    line < other_line || (line == other_line && column <= other_column)
}

/// Whether a request asks for the locations of a script from one place to
/// another.
pub open spec fn asks_for_range(
    request: RequestView,
    session: Chars,
    within_function: bool,
    start: JsonView,
    end: JsonView,
) -> bool {
    &&& request.method == "Debugger.getPossibleBreakpoints"@
    &&& request.session_id == session
    &&& request.params is Some
    &&& request.params->Some_0.get("start"@) == Some(start)
    &&& request.params->Some_0.get("end"@) == Some(end)
    &&& request.params->Some_0.get_bool("restrictToFunction"@) == Some(within_function)
}

/// The range that the browser is asked for begins at the requested place, stays
/// in its function, and holds every location that may be taken behind it: no
/// column of a line within the allowed distance is behind the end of the range.
/// It goes no further than the first column behind the last allowed line.
pub proof fn law_the_range_holds_every_allowed_location(
    machine: SetProbeView,
    state: StateView,
    number: u64,
    now: u64,
    result: JsonView,
    s: Chars,
    n: int,
    c: int,
)
    requires
        machine.stage is Source,
        machine.request.line >= 1,
        machine.request.column >= 1,
        result.get_str("scriptSource"@) == Some(s),
        text::utf16_len(s) <= u64::MAX,
        machine.request.line - 1 <= n <= machine.request.line - 1 + machine.request.max_lines,
        n < source::lines_of(s).len(),
        0 <= c <= text::utf16_len(
            s.subrange(source::lines_of(s)[n].0, source::lines_of(s)[n].1),
        ),
    ensures
        match machine.advance(state, number, now, Ok(result)) {
            (after, next_number, StepView::Wait(next)) => {
                let params = next.request().params->Some_0;
                let start = params.get("start"@)->Some_0;
                let end = params.get("end"@)->Some_0;
                let script = machine.request.script_id;
                let end_line = end.get_u64("lineNumber"@)->Some_0;
                let end_column = end.get_u64("columnNumber"@)->Some_0;
                &&& after == state
                &&& next_number == number
                &&& next.request == machine.request
                &&& next.prepared == machine.prepared
                &&& asks_for_range(
                    next.request(),
                    machine.prepared.session_id,
                    true,
                    start,
                    end,
                )
                &&& stands_at(
                    start,
                    script,
                    machine.request.line - 1,
                    machine.request.column - 1,
                )
                &&& stands_at(end, script, end_line as int, end_column as int)
                &&& not_behind(n, c, end_line as int, end_column as int)
                &&& not_behind(
                    end_line as int,
                    end_column as int,
                    machine.request.line + machine.request.max_lines,
                    0,
                )
                &&& source::utf16_offset(s, end_line as int, end_column as int) is Some
            },
            _ => false,
        },
{
    source::lemma_lines_of(s);
    positions::lemma_line_count(s);
    text::lemma_len_bounds(s);
    let last = source::lines_of(s).len() - 1;
    let span = source::lines_of(s)[last];
    text::lemma_len_part(s, span.0, span.1);
    let here = source::lines_of(s)[n];
    text::lemma_len_part(s, here.0, here.1);
    reveal_strlit("start");
    reveal_strlit("end");
    reveal_strlit("restrictToFunction");
    reveal_strlit("scriptId");
    reveal_strlit("lineNumber");
    reveal_strlit("columnNumber");
    assert("start"@.len() == 5);
    assert("end"@.len() == 3);
    assert("restrictToFunction"@.len() == 18);
    assert("scriptId"@.len() == 8);
    assert("lineNumber"@.len() == 10);
    assert("columnNumber"@.len() == 12);
}

/// Where earlier locations count, the browser is asked for those before the
/// request too: the range ends at the request and holds every column of a line
/// within the allowed distance before it. It begins no earlier than the first
/// allowed line. Otherwise only what stands at or behind the request is chosen
/// from.
pub proof fn law_earlier_lines_are_asked_for_where_they_count(
    machine: SetProbeView,
    state: StateView,
    number: u64,
    now: u64,
    lookup: LookupView,
    result: JsonView,
    locations: Seq<JsonView>,
    n: int,
    c: int,
)
    requires
        machine.stage == ProbeStageView::Forward(lookup),
        machine.request.line >= 1,
        machine.request.column >= 1,
        result.get_array("locations"@) == Some(locations),
        machine.request.mode == "before"@ || machine.request.mode == "nearest"@,
        source::utf16_offset(
            lookup.source,
            machine.request.line - 1,
            machine.request.column - 1,
        ) is Some,
        0 <= n,
        machine.request.line - 1 - machine.request.max_lines <= n,
        0 <= c,
    ensures
        match machine.advance(state, number, now, Ok(result)) {
            (after, next_number, StepView::Wait(next)) => {
                let params = next.request().params->Some_0;
                let start = params.get("start"@)->Some_0;
                let end = params.get("end"@)->Some_0;
                let script = machine.request.script_id;
                let first = start.get_u64("lineNumber"@)->Some_0;
                &&& after == state
                &&& next_number == number
                &&& asks_for_range(
                    next.request(),
                    machine.prepared.session_id,
                    false,
                    start,
                    end,
                )
                &&& stands_at(start, script, first as int, 0)
                &&& not_behind(first as int, 0, n, c)
                &&& first == 0 || first as int == machine.request.line - 1
                    - machine.request.max_lines
                &&& stands_at(
                    end,
                    script,
                    machine.request.line - 1,
                    machine.request.column - 1,
                )
                &&& next.stage == ProbeStageView::Backward(LookupView { locations, ..lookup })
            },
            _ => false,
        },
{
    reveal_strlit("start");
    reveal_strlit("end");
    reveal_strlit("restrictToFunction");
    reveal_strlit("scriptId");
    reveal_strlit("lineNumber");
    reveal_strlit("columnNumber");
    assert("start"@.len() == 5);
    assert("end"@.len() == 3);
    assert("restrictToFunction"@.len() == 18);
    assert("scriptId"@.len() == 8);
    assert("lineNumber"@.len() == 10);
    assert("columnNumber"@.len() == 12);
}

/// A location before the request is tried by asking the browser what can be
/// reached from it within its function, up to the end of the range. It counts if
/// and only if the anchor is among what came: the same script, line and column,
/// where a column that is left out is the first one.
pub proof fn law_tried_locations_have_to_reach_the_anchor(
    machine: SetProbeView,
    state: StateView,
    number: u64,
    now: u64,
    lookup: LookupView,
    pending: PendingView,
    result: JsonView,
    locations: Seq<JsonView>,
    script: Chars,
    line: u64,
)
    requires
        machine.stage == ProbeStageView::Verify(lookup, pending),
        result.get_array("locations"@) == Some(locations),
        pending.rest.len() > 0,
        pending.anchor.get("scriptId"@) == Some(JsonView::Str(script)),
        pending.anchor.get("lineNumber"@) == Some(JsonView::Uint(line)),
    ensures
        asks_for_range(
            machine.request(),
            machine.prepared.session_id,
            true,
            pending.candidate,
            lookup.end,
        ),
        match machine.advance(state, number, now, Ok(result)) {
            (after, next_number, StepView::Wait(next)) => {
                let reached = exists|i: int|
                    0 <= i < locations.len() && (#[trigger] locations[i]).get("scriptId"@) == Some(
                        JsonView::Str(script),
                    ) && locations[i].get("lineNumber"@) == Some(JsonView::Uint(line))
                        && first_column(locations[i]) == first_column(pending.anchor);
                let found = if reached {
                    LookupView { locations: lookup.locations.push(pending.candidate), ..lookup }
                } else {
                    lookup
                };
                &&& after == state
                &&& next_number == number
                &&& next.stage == ProbeStageView::Verify(
                    found,
                    PendingView {
                        anchor: pending.anchor,
                        candidate: pending.rest[0],
                        rest: pending.rest.skip(1),
                    },
                )
            },
            _ => false,
        },
{
    reveal_strlit("start");
    reveal_strlit("end");
    reveal_strlit("restrictToFunction");
    assert("start"@.len() == 5);
    assert("end"@.len() == 3);
    assert("restrictToFunction"@.len() == 18);
    assert forall|i: int| 0 <= i < locations.len() implies (breakpoint::same_place(
        #[trigger] locations[i],
        pending.anchor,
    ) <==> locations[i].get("scriptId"@) == Some(JsonView::Str(script)) && locations[i].get(
        "lineNumber"@,
    ) == Some(JsonView::Uint(line)) && first_column(locations[i]) == first_column(
        pending.anchor,
    )) by {}
}

/// Column of a location; one that is left out is the first.
pub open spec fn first_column(location: JsonView) -> int {
    match location.get("columnNumber"@) {
        Some(JsonView::Uint(n)) => n as int,
        _ => 0,
    }
}

/// Line of a location, where it has one.
pub open spec fn line_number(location: JsonView) -> Option<int> {
    match location.get("lineNumber"@) {
        Some(JsonView::Uint(n)) => Some(n as int),
        _ => None,
    }
}

/// Offset of a location in a source, where it stands in it.
pub open spec fn offset_in(location: JsonView, s: Chars) -> Option<nat> {
    match line_number(location) {
        Some(line) => source::utf16_offset(s, line, first_column(location)),
        None => None,
    }
}

/// How far two numbers are apart.
pub open spec fn apart(a: int, b: int) -> int {
    if a < b {
        b - a
    } else {
        a - b
    }
}

/// Whether a location may be taken: it stands in the source, within the allowed
/// lines and code units of the request, and where the mode wants it.
pub open spec fn may_be_taken(
    request: ProbeRequestView,
    s: Chars,
    requested: int,
    location: JsonView,
) -> bool {
    let mode = request.mode;
    &&& offset_in(location, s) is Some
    &&& apart(line_number(location)->Some_0, request.line - 1) <= request.max_lines
    &&& apart(offset_in(location, s)->Some_0 as int, requested) <= request.max_utf16_distance
    &&& mode == "strict"@ ==> line_number(location)->Some_0 == request.line - 1 && (
    request.column_explicit ==> first_column(location) == request.column - 1)
    &&& mode == "before"@ ==> offset_in(location, s)->Some_0 <= requested
    &&& mode == "after"@ || mode == "nearest-forward"@ ==> offset_in(location, s)->Some_0
        >= requested
    &&& mode == "strict"@ || mode == "before"@ || mode == "after"@ || mode == "nearest-forward"@
        || mode == "nearest"@
}

proof fn lemma_mode_names()
    ensures
        "strict"@ != "before"@,
        "strict"@ != "after"@,
        "strict"@ != "nearest"@,
        "strict"@ != "nearest-forward"@,
        "before"@ != "after"@,
        "before"@ != "nearest"@,
        "before"@ != "nearest-forward"@,
        "after"@ != "nearest"@,
        "after"@ != "nearest-forward"@,
        "nearest"@ != "nearest-forward"@,
{
    reveal_strlit("strict");
    reveal_strlit("before");
    reveal_strlit("after");
    reveal_strlit("nearest");
    reveal_strlit("nearest-forward");
    assert("strict"@.len() == 6);
    assert("before"@.len() == 6);
    assert("after"@.len() == 5);
    assert("nearest"@.len() == 7);
    assert("nearest-forward"@.len() == 15);
    assert("before"@[0] == 'b');
    assert("strict"@[0] == 's');
}

proof fn lemma_may_be_taken(request: ProbeRequestView, s: Chars, requested: nat, location: JsonView)
    ensures
        request.resolution().candidate(location, s, requested) is Some <==> may_be_taken(
            request,
            s,
            requested as int,
            location,
        ),
        request.resolution().candidate(location, s, requested) matches Some(c) ==> c.distance
            == apart(offset_in(location, s)->Some_0 as int, requested as int) && (c.after
            <==> offset_in(location, s)->Some_0 >= requested),
{
    lemma_mode_names();
}

/// What a chosen place is told to be: exact where it is the requested one, the
/// first of its line where a strict request names no column, and otherwise
/// behind or before the request.
pub open spec fn told_reason(
    request: ProbeRequestView,
    offset: int,
    requested: int,
    reason: Chars,
) -> bool {
    &&& offset == requested ==> reason == "exact"@
    &&& offset != requested && request.mode == "strict"@ && !request.column_explicit ==> reason
        == "first-breakable-on-requested-line"@
    &&& offset > requested && (request.mode != "strict"@ || request.column_explicit) ==> reason
        == "nearest-after-within-function"@
    &&& offset < requested && (request.mode != "strict"@ || request.column_explicit) ==> reason
        == "nearest-before-within-function"@
}

/// What is installed stands at one of the offered locations that may be taken:
/// none of the others is closer to the request, and none that is as close stands
/// at or behind the request where this one stands before it. Where none may be
/// taken, nothing is installed and the command fails.
pub proof fn law_the_closest_allowed_location_is_installed(
    machine: SetProbeView,
    state: StateView,
    number: u64,
    lookup: LookupView,
    requested: nat,
)
    requires
        machine.request.line >= 1,
        machine.request.column >= 1,
        source::utf16_offset(
            lookup.source,
            machine.request.line - 1,
            machine.request.column - 1,
        ) == Some(requested),
    ensures
        match machine.pick(state, number, lookup) {
            (after, _, StepView::Wait(next)) => {
                let plan = plan_of(next);
                let s = lookup.source;
                let request = machine.request;
                &&& after == state
                &&& next.request == request
                &&& next.prepared == machine.prepared
                &&& next.stage == (if machine.prepared.install_binding {
                    ProbeStageView::Bind(plan)
                } else {
                    ProbeStageView::Install(plan)
                })
                &&& lookup.locations.contains(plan.location)
                &&& may_be_taken(request, s, requested as int, plan.location)
                &&& plan.distance == apart(
                    offset_in(plan.location, s)->Some_0 as int,
                    requested as int,
                )
                &&& told_reason(
                    request,
                    offset_in(plan.location, s)->Some_0 as int,
                    requested as int,
                    plan.reason,
                )
                &&& forall|j: int|
                    0 <= j < lookup.locations.len() && may_be_taken(
                        request,
                        s,
                        requested as int,
                        #[trigger] lookup.locations[j],
                    ) ==> {
                        let other = offset_in(lookup.locations[j], s)->Some_0;
                        let mine = offset_in(plan.location, s)->Some_0;
                        &&& apart(mine as int, requested as int) <= apart(
                            other as int,
                            requested as int,
                        )
                        &&& apart(mine as int, requested as int) == apart(
                            other as int,
                            requested as int,
                        ) && other >= requested ==> mine >= requested
                    }
            },
            (after, next_number, StepView::Done(outcome)) => {
                &&& after == state
                &&& next_number == number
                &&& outcome is Err
                &&& forall|j: int|
                    0 <= j < lookup.locations.len() ==> !may_be_taken(
                        machine.request,
                        lookup.source,
                        requested as int,
                        #[trigger] lookup.locations[j],
                    )
            },
        },
{
    let resolution = machine.request.resolution();
    let s = lookup.source;
    let locations = lookup.locations;
    source_laws::law_selection_is_bounded_and_closest(resolution, locations, s, requested);
    assert forall|j: int| 0 <= j < locations.len() implies (resolution.candidate(
        #[trigger] locations[j],
        s,
        requested,
    ) is Some <==> may_be_taken(machine.request, s, requested as int, locations[j])) && (
    resolution.candidate(locations[j], s, requested) matches Some(c) ==> c.distance == apart(
        offset_in(locations[j], s)->Some_0 as int,
        requested as int,
    ) && (c.after <==> offset_in(locations[j], s)->Some_0 >= requested)) by {
        lemma_may_be_taken(machine.request, s, requested, locations[j]);
    }
    lemma_mode_names();
    if let Ok((location, _, _)) = resolution.select(locations, s) {
        lemma_may_be_taken(machine.request, s, requested, location);
    }
}

/// What a setting is about to install.
pub open spec fn plan_of(machine: SetProbeView) -> PlanView {
    match machine.stage {
        ProbeStageView::Bind(plan) => plan,
        ProbeStageView::Install(plan) => plan,
        _ => arbitrary(),
    }
}

/// A request outside the source fails before anything is installed.
pub proof fn law_nothing_is_installed_outside_the_source(
    machine: SetProbeView,
    state: StateView,
    number: u64,
    lookup: LookupView,
)
    requires
        source::utf16_offset(
            lookup.source,
            machine.request.line - 1,
            machine.request.column - 1,
        ) is None,
    ensures
        machine.pick(state, number, lookup).0 == state,
        machine.pick(state, number, lookup).1 == number,
        machine.pick(state, number, lookup).2 is Done,
        machine.pick(state, number, lookup).2->Done_0 is Err,
{
}

/// A new probe and its installation get identifiers that no other has had of
/// this connection: the numbers in them are handed out once. A probe that is
/// bound again keeps its identifier.
pub proof fn law_probes_get_their_own_identifiers(
    machine: SetProbeView,
    state: StateView,
    number: u64,
    lookup: LookupView,
)
    requires
        number < u64::MAX - 1,
        machine.pick(state, number, lookup).2 is Wait,
    ensures
        ({
            let (_, next_number, step) = machine.pick(state, number, lookup);
            let plan = plan_of(step->Wait_0);
            let generation = text::decimal(machine.prepared.generation as nat);
            match machine.request.rebind {
                Some(id) => {
                    &&& plan.probe_id == id
                    &&& plan.physical_id == "physical-"@ + generation + "-"@ + text::decimal(
                        number as nat,
                    )
                    &&& next_number == number + 1
                },
                None => {
                    &&& plan.probe_id == "probe-"@ + generation + "-"@ + text::decimal(
                        number as nat,
                    )
                    &&& plan.physical_id == "physical-"@ + generation + "-"@ + text::decimal(
                        (number + 1) as nat,
                    )
                    &&& next_number == number + 2
                },
            }
        }),
{
}

/// What is planned is installed: the browser is asked to break at the planned
/// location, in the session of the script, under the condition of the probe. A
/// breakpoint has the condition that was asked for, or none. A logpoint first
/// gets the binding through which it reports, where the session lacks it.
pub proof fn law_plans_are_installed(
    machine: SetProbeView,
    state: StateView,
    number: u64,
    now: u64,
    plan: PlanView,
    result: JsonView,
)
    requires
        machine.stage == ProbeStageView::Bind(plan),
    ensures
        machine.request().method == "Runtime.addBinding"@,
        machine.request().session_id == machine.prepared.session_id,
        machine.request().params is Some,
        machine.request().params->Some_0.get_str("name"@) == Some(machine.prepared.binding_name),
        match machine.advance(state, number, now, Ok(result)) {
            (after, next_number, StepView::Wait(next)) => {
                let request = next.request();
                &&& next_number == number
                &&& after.binding_sessions.contains(machine.prepared.session_id)
                &&& after == StateView { binding_sessions: after.binding_sessions, ..state }
                &&& next.stage == ProbeStageView::Install(plan)
                &&& next.request == machine.request
                &&& next.prepared == machine.prepared
                &&& request.method == "Debugger.setBreakpoint"@
                &&& request.session_id == machine.prepared.session_id
                &&& request.params is Some
                &&& request.params->Some_0.get("location"@) == Some(plan.location)
                &&& request.params->Some_0.get_str("condition"@) == Some(plan.condition)
            },
            _ => false,
        },
        machine.request.kind == ProbeKind::Breakpoint ==> machine.condition_for(
            plan.probe_id,
            plan.physical_id,
        ) == (match machine.request.condition {
            Some(condition) => condition,
            None => Seq::empty(),
        }),
{
    reveal_strlit("location");
    reveal_strlit("condition");
    reveal_strlit("name");
    assert("location"@.len() == 8);
    assert("condition"@.len() == 9);
    assert("name"@.len() == 4);
    let set = state.binding_sessions;
    let session = machine.prepared.session_id;
    if !set.contains(session) {
        assert(collections::set_with(set, session) == set.push(session));
        assert(set.push(session)[set.len() as int] == session);
    }
}

/// A probe that was installed is recorded with what was asked for and where the
/// browser put it, and the answer and an event tell the same. The installation
/// is found by its own identifier and by that of the browser.
pub proof fn law_installed_probes_are_recorded(
    machine: SetProbeView,
    state: StateView,
    number: u64,
    now: u64,
    plan: PlanView,
    result: JsonView,
    id: Chars,
    line: u64,
)
    requires
        machine.stage == ProbeStageView::Install(plan),
        machine.request.line >= 1,
        machine.request.column >= 1,
        result.get_str("breakpointId"@) == Some(id),
        !state.moved_on(machine.request, machine.prepared),
        collections::lookup(state.logical_probes, plan.probe_id) is None,
        result.get("actualLocation"@) is Some,
        result.get("actualLocation"@)->Some_0.get("lineNumber"@) == Some(JsonView::Uint(line)),
        line < u64::MAX,
        first_column(result.get("actualLocation"@)->Some_0) < u64::MAX,
    ensures
        match machine.advance(state, number, now, Ok(result)) {
            (after, next_number, StepView::Done(Ok(answer))) => {
                let probe = collections::lookup(after.logical_probes, plan.probe_id);
                let physical = collections::lookup(after.physical_probes, plan.physical_id);
                let request = machine.request;
                let actual = result.get("actualLocation"@)->Some_0;
                &&& next_number == number
                &&& probe is Some
                &&& probe->Some_0.probe_id == plan.probe_id
                &&& probe->Some_0.kind == request.kind
                &&& probe->Some_0.enabled
                &&& probe->Some_0.persistent == request.persistent
                &&& probe->Some_0.condition == request.condition
                &&& probe->Some_0.when == request.when
                &&& probe->Some_0.expressions == request.expressions
                &&& probe->Some_0.tags == request.tags
                &&& probe->Some_0.physical_ids == seq![plan.physical_id]
                &&& target_tells(probe->Some_0.target, machine, plan)
                &&& physical is Some
                &&& physical->Some_0.physical_id == plan.physical_id
                &&& physical->Some_0.cdp_breakpoint_id == id
                &&& physical->Some_0.probe_id == plan.probe_id
                &&& physical->Some_0.session_id == machine.prepared.session_id
                &&& physical->Some_0.connection_generation == machine.prepared.generation
                &&& physical->Some_0.document_generation == machine.prepared.document_generation
                &&& physical->Some_0.script_id == request.script_id
                &&& physical->Some_0.execution_context_id == (
                match machine.prepared.script.get("executionContextId"@) {
                    Some(JsonView::Uint(n)) => Some(n),
                    _ => None,
                })
                &&& physical->Some_0.requested_location.get_str("scriptId"@) == Some(
                    request.script_id,
                )
                &&& physical->Some_0.requested_location.get_u64("line"@) == Some(request.line)
                &&& physical->Some_0.requested_location.get_u64("column"@) == Some(request.column)
                &&& physical->Some_0.actual_location.get_u64("line"@) == Some((line + 1) as u64)
                &&& physical->Some_0.actual_location.get_u64("column"@) == Some(
                    (first_column(actual) + 1) as u64,
                )
                &&& actual.get("scriptId"@) is Some
                    ==> physical->Some_0.actual_location.get("scriptId"@) == actual.get(
                    "scriptId"@,
                )
                &&& collections::lookup(after.physical_by_cdp_breakpoint, id) == Some(
                    plan.physical_id,
                )
                &&& answer == probe->Some_0.to_json(after.physical_probes)
                &&& after.events.len() > 0 ==> {
                    let news = after.events.last();
                    &&& news.kind == "probe-bound"@
                    &&& news.session_id == Some(machine.prepared.session_id)
                    &&& news.data.get("probe"@) == Some(answer)
                    &&& news.data.get_str("resolutionReason"@) == Some(plan.reason)
                    &&& news.data.get_u64("utf16Distance"@) == Some(plan.distance)
                }
            },
            _ => false,
        },
{
    let physical = probe_set::physical_of(
        machine.request,
        machine.prepared,
        plan,
        id,
        result.get("actualLocation"@)->Some_0,
    );
    let logical = probe_set::logical_of(machine.request, machine.prepared, plan);
    tables::lemma_lookup_put(state.logical_probes, plan.probe_id, logical, plan.probe_id);
    tables::lemma_lookup_put(state.physical_probes, plan.physical_id, physical, plan.physical_id);
    tables::lemma_lookup_put(
        state.physical_by_cdp_breakpoint,
        id,
        plan.physical_id,
        id,
    );
    reveal_strlit("scriptId");
    reveal_strlit("line");
    reveal_strlit("column");
    reveal_strlit("lineNumber");
    reveal_strlit("columnNumber");
    reveal_strlit("probe");
    reveal_strlit("resolutionReason");
    reveal_strlit("utf16Distance");
    assert("scriptId"@.len() == 8);
    assert("line"@.len() == 4);
    assert("column"@.len() == 6);
    assert("lineNumber"@.len() == 10);
    assert("columnNumber"@.len() == 12);
    assert("probe"@.len() == 5);
    assert("resolutionReason"@.len() == 16);
    assert("utf16Distance"@.len() == 13);
    lemma_target_tells(machine, plan);
    let bound = state.with_probe(physical, logical);
    let answer = logical.to_json(bound.physical_probes);
    let data = JsonView::object().with("probe"@, answer).with(
        "resolutionReason"@,
        JsonView::Str(plan.reason),
    ).with("utf16Distance"@, JsonView::Uint(plan.distance));
    let session = Some(machine.prepared.session_id);
    news::law_the_newest_event_is_what_was_told(bound, now, "probe-bound"@, session, data);
    controller::lemma_push_event_frame(bound, now, "probe-bound"@, session, data);
}

/// Whether the record of a target tells what the probe was set on and how its
/// place was chosen.
pub open spec fn target_tells(target: JsonView, machine: SetProbeView, plan: PlanView) -> bool {
    let request = machine.request;
    &&& target.get_u64("connectionGeneration"@) == Some(machine.prepared.generation)
    &&& target.get_str("sessionId"@) == Some(machine.prepared.session_id)
    &&& target.get_u64("documentGeneration"@) == Some(machine.prepared.document_generation)
    &&& target.get_str("scriptId"@) == Some(request.script_id)
    &&& machine.prepared.script.get("url"@) is Some ==> target.get("url"@)
        == machine.prepared.script.get("url"@)
    &&& machine.prepared.script.get("runtimeOwner"@) is Some ==> target.get("runtimeOwner"@)
        == machine.prepared.script.get("runtimeOwner"@)
    &&& machine.prepared.script.get_u64("executionContextId"@) is Some ==> target.get_u64(
        "executionContextId"@,
    ) == machine.prepared.script.get_u64("executionContextId"@)
    &&& target.get_u64("requestedLine"@) == Some(request.line)
    &&& target.get_u64("requestedColumn"@) == Some(request.column)
    &&& target.get_bool("columnExplicit"@) == Some(request.column_explicit)
    &&& target.get_str("mode"@) == Some(request.mode)
    &&& target.get_u64("maxLines"@) == Some(request.max_lines)
    &&& target.get_u64("maxUtf16Distance"@) == Some(request.max_utf16_distance)
    &&& target.get_str("resolutionReason"@) == Some(plan.reason)
    &&& target.get_u64("utf16Distance"@) == Some(plan.distance)
}

proof fn lemma_target_tells(machine: SetProbeView, plan: PlanView)
    ensures
        target_tells(
            probe_set::target_json(machine.request, machine.prepared, plan),
            machine,
            plan,
        ),
{
    reveal_strlit("connectionGeneration");
    reveal_strlit("sessionId");
    reveal_strlit("documentGeneration");
    reveal_strlit("scriptId");
    reveal_strlit("url");
    reveal_strlit("executionContextId");
    reveal_strlit("runtimeOwner");
    reveal_strlit("requestedLine");
    reveal_strlit("requestedColumn");
    reveal_strlit("columnExplicit");
    reveal_strlit("mode");
    reveal_strlit("maxLines");
    reveal_strlit("maxUtf16Distance");
    reveal_strlit("resolutionReason");
    reveal_strlit("utf16Distance");
    assert("connectionGeneration"@.len() == 20);
    assert("sessionId"@.len() == 9);
    assert("documentGeneration"@.len() == 18);
    assert("scriptId"@.len() == 8);
    assert("url"@.len() == 3);
    assert("executionContextId"@.len() == 18);
    assert("runtimeOwner"@.len() == 12);
    assert("requestedLine"@.len() == 13);
    assert("requestedColumn"@.len() == 15);
    assert("columnExplicit"@.len() == 14);
    assert("mode"@.len() == 4);
    assert("maxLines"@.len() == 8);
    assert("maxUtf16Distance"@.len() == 16);
    assert("resolutionReason"@.len() == 16);
    assert("utf16Distance"@.len() == 13);
    assert("documentGeneration"@[0] == 'd');
    assert("executionContextId"@[0] == 'e');
    assert("maxLines"@[0] == 'm');
    assert("maxUtf16Distance"@[0] == 'm');
    assert("requestedLine"@[0] == 'r');
    assert("resolutionReason"@[0] == 'r');
    assert("scriptId"@[0] == 's');
    assert("utf16Distance"@[0] == 'u');
}

} // verus!
