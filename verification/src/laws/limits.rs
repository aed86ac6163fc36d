//! Limits of requests and answers, and what evidence a result rests on.

use vstd::prelude::*;

use crate::collections;
use crate::controller;
use crate::controller::StateView;
use crate::events;
use crate::inspect;
use crate::inspect::SourceReadView;
use crate::json;
use crate::json::JsonView;
use crate::laws::order;
use crate::laws::tables;
use crate::operation::StepView;
use crate::probe_request;
use crate::probe_request::ProbeRequestView;
use crate::probe_set;
use crate::probe_set::{
    LookupView, PendingView, SetProbeView, MAX_BREAKPOINT_VERIFICATION_CANDIDATES,
};
use crate::reconcile;
use crate::records::{LogicalView, PauseView, PhysicalView, ProbeKind, SessionView};
use crate::search;
use crate::search::SearchView;
use crate::text;
use crate::text::Chars;

verus! {

/// A frame that is evaluated in belongs to the pause.
pub proof fn law_frames_belong_to_their_pause(pause: PauseView, command: JsonView)
    ensures
        match inspect::frame_for(pause, command) {
            Ok(id) => inspect::has_frame(pause.call_frames, id),
            Err(_) => true,
        },
{
}

/// A source is answered whole or not at all: one of more than thirty-two
/// mebibytes is refused.
pub proof fn law_long_sources_are_refused(
    read: SourceReadView,
    result: JsonView,
    source: Chars,
)
    requires
        result.get_str("scriptSource"@) == Some(source),
    ensures
        read.answer(Ok(result)) is Ok <==> text::utf8_len(source) <= 33_554_432,
        match read.answer(Ok(result)) {
            Ok(answer) => answer.get_str("scriptSource"@) == Some(source),
            Err(_) => true,
        },
{
    reveal_strlit("scriptSource");
    reveal_strlit("bytecode");
    assert("scriptSource"@.len() == 12);
    assert("bytecode"@.len() == 8);
}

/// A search reports a hundred matches where it is not told otherwise, and never
/// more than a thousand.
pub proof fn law_searches_are_limited(command: JsonView)
    ensures
        search::match_limit(command) <= 1_000,
        command.get_u64("maxResults"@) is None ==> search::match_limit(command) == 100,
        match command.get_u64("maxResults"@) {
            Some(n) => n <= 1_000 ==> search::match_limit(command) == n,
            None => true,
        },
{
}

/// While a search goes on it has found less than it may report.
pub proof fn law_searches_stop_at_their_limit(
    machine: SearchView,
    reply: Result<JsonView, Chars>,
)
    requires
        machine.looks(),
    ensures
        match machine.advance(reply) {
            StepView::Wait(next) => next.matches.len() < next.limit && next.limit
                == machine.limit,
            StepView::Done(_) => true,
        },
{
}

/// A request that is taken counts from one and keeps the bounds: at most five
/// hundred lines and a million code units, and for a logpoint between one
/// expression and the limit.
pub proof fn law_requests_are_bounded(command: JsonView, kind: ProbeKind)
    ensures
        match probe_request::probe_request(command, kind) {
            Ok(request) => {
                &&& request.located()
                &&& 1 <= request.max_lines <= 500
                &&& 1 <= request.max_utf16_distance <= 1_000_000
                &&& probe_request::known_mode(request.mode)
                &&& request.expressions.len() <= probe_request::MAX_LOGPOINT_EXPRESSIONS
                &&& kind == ProbeKind::Logpoint ==> request.expressions.len() >= 1
                    && request.condition is None
                &&& kind == ProbeKind::Breakpoint ==> request.expressions.len() == 0
                    && request.when is None
            },
            Err(_) => true,
        },
{
}

/// Locations before the request are tried one by one, at most so many, and each
/// of them stands before the request within its bounds.
pub proof fn law_tried_locations_stand_before_the_request(
    request: ProbeRequestView,
    s: Chars,
    locations: Seq<JsonView>,
)
    ensures
        probe_set::tried(request, s, locations).len() <= MAX_BREAKPOINT_VERIFICATION_CANDIDATES,
        forall|i: int|
            0 <= i < probe_set::tried(request, s, locations).len() ==> {
                let location = #[trigger] probe_set::tried(request, s, locations)[i];
                locations.contains(location) && probe_set::stands_before(request, s, location)
            },
{
    broadcast use tables::lemma_filter_holds;

    let kept = locations.filter(|l: JsonView| probe_set::stands_before(request, s, l));
    let near = kept.reverse();
    let tried = probe_set::tried(request, s, locations);
    assert forall|i: int| 0 <= i < tried.len() implies {
        let location = #[trigger] tried[i];
        locations.contains(location) && probe_set::stands_before(request, s, location)
    } by {
        assert(tried[i] == near[i]);
        assert(near[i] == kept[kept.len() - 1 - i]);
        assert(kept.contains(near[i]));
    }
}

/// A location before the request is taken into account only when the browser
/// has shown that the anchor in the requested function can be reached from it.
pub proof fn law_earlier_locations_are_verified(
    machine: SetProbeView,
    state: StateView,
    number: u64,
    lookup: LookupView,
    pending: PendingView,
    result: JsonView,
)
    ensures
        ({
            let reached = match result.get_array("locations"@) {
                Some(locations) => probe_set::reaches(locations, pending.anchor),
                None => false,
            };
            let taken = LookupView {
                locations: lookup.locations.push(pending.candidate),
                ..lookup
            };
            machine.after_verify(state, number, lookup, pending, Ok(result)) == machine.try_next(
                state,
                number,
                if reached {
                    taken
                } else {
                    lookup
                },
                pending.anchor,
                pending.rest,
            )
        }),
{
}

/// A probe is bound again only to a script of the same connection, session,
/// document, execution context, address and resolved owner.
pub proof fn law_rebinding_needs_the_same_surroundings(
    state: StateView,
    generation: u64,
    session: Chars,
    script: Chars,
    i: int,
)
    requires
        0 <= i < state.reconcile(generation, session, script).1.len(),
    ensures
        ({
            let rebind = state.reconcile(generation, session, script).1[i];
            let found = controller::find_script(state.scripts, session, script);
            let known = collections::lookup(state.sessions, session);
            &&& state.connection_generation == generation
            &&& found is Some
            &&& known is Some
            &&& found->Some_0.record.get_or_null("runtimeOwner"@).get_str("status"@) == Some(
                "resolved"@,
            )
            &&& exists|probe: LogicalView|
                collections::values(state.logical_probes).contains(probe) && probe.persistent
                    && probe.enabled && #[trigger] rebinds(probe, rebind.probe_id, rebind.kind)
                    && probe.target.get_u64("connectionGeneration"@) == Some(generation)
                    && probe.target.get_str("sessionId"@) == Some(session) && probe.target.get_u64(
                    "documentGeneration"@,
                ) == Some(known->Some_0.document_generation) && json::equal_optional(
                    probe.target.get("url"@),
                    found->Some_0.record.get("url"@),
                ) && json::equal_optional(
                    probe.target.get("executionContextId"@),
                    found->Some_0.record.get("executionContextId"@),
                ) && json::equal_optional(
                    JsonView::inner(probe.target.get("runtimeOwner"@), "ownerId"@),
                    found->Some_0.record.get_or_null("runtimeOwner"@).get("ownerId"@),
                )
        }),
{
    broadcast use tables::lemma_filter_holds;

    let found = controller::find_script(state.scripts, session, script);
    let known = collections::lookup(state.sessions, session);
    let record = found->Some_0.record;
    let all = collections::values(state.logical_probes);
    let kept = all.filter(
        |p: LogicalView|
            reconcile::can_rebind(
                p,
                state.physical_probes,
                generation,
                known->Some_0,
                session,
                script,
                record,
            ),
    );
    let rebind = state.reconcile(generation, session, script).1[i];
    assert(kept.contains(kept[i]));
    assert(rebinds(kept[i], rebind.probe_id, rebind.kind));
}

/// Whether a probe is the one that is bound again.
pub open spec fn rebinds(probe: LogicalView, id: Chars, kind: ProbeKind) -> bool {
    probe.probe_id == id && probe.kind == kind
}

/// A browser that was connected anew inherits no probe: what was set in other
/// connections is not bound again.
pub proof fn law_new_connections_inherit_no_probe(
    state: StateView,
    generation: u64,
    session: Chars,
    script: Chars,
)
    requires
        forall|probe: LogicalView| #[trigger]
            collections::values(state.logical_probes).contains(probe) ==> probe.target.get_u64(
                "connectionGeneration"@,
            ) != Some(generation),
    ensures
        state.reconcile(generation, session, script).1.len() == 0,
{
    if state.reconcile(generation, session, script).1.len() > 0 {
        law_rebinding_needs_the_same_surroundings(state, generation, session, script, 0);
    }
}

/// A page that was navigated inherits no probe: what was set in other documents
/// is not bound again.
pub proof fn law_new_documents_inherit_no_probe(
    state: StateView,
    generation: u64,
    session: Chars,
    script: Chars,
    known: SessionView,
)
    requires
        collections::lookup(state.sessions, session) == Some(known),
        forall|probe: LogicalView| #[trigger]
            collections::values(state.logical_probes).contains(probe) ==> probe.target.get_u64(
                "documentGeneration"@,
            ) != Some(known.document_generation),
    ensures
        state.reconcile(generation, session, script).1.len() == 0,
{
    if state.reconcile(generation, session, script).1.len() > 0 {
        law_rebinding_needs_the_same_surroundings(state, generation, session, script, 0);
    }
}

/// What an event tells of a hit comes from the registry; the page contributes
/// the values and the errors of its expressions and nothing else.
pub proof fn law_hits_tell_what_the_registry_knows(
    binding: PhysicalView,
    tags: JsonView,
    context: Option<u64>,
    payload: JsonView,
    other: JsonView,
)
    requires
        payload.get_or_null("values"@) == other.get_or_null("values"@),
        payload.get_or_null("whenError"@) == other.get_or_null("whenError"@),
        payload.get_or_null("serializationError"@) == other.get_or_null("serializationError"@),
    ensures
        events::hit_data(binding, tags, context, payload) == events::hit_data(
            binding,
            tags,
            context,
            other,
        ),
{
}

/// Pauses of different connections, and pauses that were noted after different
/// events, have different identifiers.
pub proof fn law_pauses_are_told_apart(
    a: StateView,
    b: StateView,
    g: u64,
    h: u64,
    known: SessionView,
    session: Chars,
    params: JsonView,
)
    requires
        g != h || controller::next_number(a.latest_sequence) != controller::next_number(
            b.latest_sequence,
        ),
    ensures
        events::pause_record(a, g, known, session, params).pause_id != events::pause_record(
            b,
            h,
            known,
            session,
            params,
        ).pause_id,
{
    order::law_identifiers_differ(
        "pause-"@,
        g,
        controller::next_number(a.latest_sequence),
        h,
        controller::next_number(b.latest_sequence),
    );
}

} // verus!
