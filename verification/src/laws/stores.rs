//! What is saved is what the browser holds, and what is loaded is what was
//! saved.

use vstd::prelude::*;

use crate::collections;
use crate::interop;
use crate::json::JsonView;
use crate::laws::basics;
use crate::laws::tables;
use crate::operation::RequestView;
use crate::save;
use crate::save::{
    LoadActionView, LoadStageView, LoadStepView, LoadView, SaveActionView, SaveInputView,
    SaveStageView, SaveStepView, SaveView,
};
use crate::storage;
use crate::storage::{EntryView, OriginView, StorageView};
use crate::storage_visit;
use crate::storage_visit::{
    JobView, PlaceView, VisitActionView, VisitInputView, VisitKind, VisitStageView, VisitStepView,
    VisitView,
};
use crate::text::Chars;

verus! {

/// Whether a JSON value describes an entry: by members or as a pair.
pub open spec fn describes(value: JsonView, entry: EntryView) -> bool {
    ||| value.get("name"@) == Some(JsonView::Str(entry.name)) && value.get("value"@) == Some(
        JsonView::Str(entry.value),
    )
    ||| value == JsonView::Array(seq![JsonView::Str(entry.name), JsonView::Str(entry.value)])
}

/// Reading an entry gives the name and the value that are described, each as it
/// is; what describes no entry is not read as one.
pub proof fn law_entries_are_read_as_described(value: JsonView, name: Chars, text: Chars)
    ensures
        describes(value, EntryView { name, value: text }) ==> storage::entry_of(value) == Some(
            EntryView { name, value: text },
        ),
        storage::entry_of(value) is Some ==> describes(value, storage::entry_of(value)->Some_0),
{
    if let JsonView::Array(items) = value {
        if items.len() == 2 && items[0].as_str() is Some && items[1].as_str() is Some {
            assert(items =~= seq![
                JsonView::Str(items[0].as_str()->Some_0),
                JsonView::Str(items[1].as_str()->Some_0),
            ]);
        }
    }
}

/// Entries are read as they are written: names and values come back, in their
/// order.
pub proof fn law_written_entries_are_read_back(object: JsonView, key: Chars, entries: Seq<EntryView>)
    requires
        object.get(key) == Some(storage::entries_json(entries)),
    ensures
        storage::entries_at(object, key) == entries,
{
    reveal_strlit("name");
    reveal_strlit("value");
    assert("name"@.len() == 4);
    assert("value"@.len() == 5);
    let values = entries.map_values(|e: EntryView| e.to_json());
    assert forall|i: int| 0 <= i < values.len() implies storage::entry_of(#[trigger] values[i])
        == Some(entries[i]) by {
        law_entries_are_read_as_described(values[i], entries[i].name, entries[i].value);
    }
    assert(storage::all_entries(values));
    assert(storage::entries_at(object, key) =~= entries);
}

/// What an origin stores is read as it is written: the origin, and the entries
/// of its local and of its session storage, each where it belongs.
pub proof fn law_written_origins_are_read_back(origin: OriginView)
    requires
        origin.origin.len() > 0,
        origin.origin != "null"@,
    ensures
        storage::origin_storage_of(origin.to_json()) == Some(origin),
{
    reveal_strlit("origin");
    reveal_strlit("localStorage");
    reveal_strlit("sessionStorage");
    assert("origin"@.len() == 6);
    assert("localStorage"@.len() == 12);
    assert("sessionStorage"@.len() == 14);
    law_written_entries_are_read_back(origin.to_json(), "localStorage"@, origin.local_storage);
    law_written_entries_are_read_back(origin.to_json(), "sessionStorage"@, origin.session_storage);
}

/// Whether a list describes entries, position by position.
pub open spec fn describes_all(values: Seq<JsonView>, entries: Seq<EntryView>) -> bool {
    values.len() == entries.len() && forall|i: int|
        0 <= i < values.len() ==> describes(#[trigger] values[i], entries[i])
}

/// An origin that a page describes is collected as described: its entries have,
/// position by position, the names and values that the page reported, in the
/// local and in the session storage. An origin without a name stores nothing.
pub proof fn law_described_origins_are_collected(
    data: JsonView,
    name: Chars,
    local: Seq<JsonView>,
    session: Seq<JsonView>,
    entries: Seq<EntryView>,
    other: Seq<EntryView>,
)
    requires
        data.get("origin"@) == Some(JsonView::Str(name)),
        data.get("localStorage"@) == Some(JsonView::Array(local)),
        data.get("sessionStorage"@) == Some(JsonView::Array(session)),
        describes_all(local, entries),
        describes_all(session, other),
    ensures
        name.len() == 0 || name == "null"@ ==> storage::origin_storage_of(data) is None,
        name.len() > 0 && name != "null"@ ==> storage::origin_storage_of(data) == Some(
            OriginView { origin: name, local_storage: entries, session_storage: other },
        ),
{
    assert forall|i: int| 0 <= i < local.len() implies storage::entry_of(#[trigger] local[i])
        == Some(entries[i]) by {
        assert(describes(local[i], entries[i]));
        law_entries_are_read_as_described(local[i], entries[i].name, entries[i].value);
    }
    assert forall|i: int| 0 <= i < session.len() implies storage::entry_of(#[trigger] session[i])
        == Some(other[i]) by {
        assert(describes(session[i], other[i]));
        law_entries_are_read_as_described(session[i], other[i].name, other[i].value);
    }
    assert(storage::all_entries(local));
    assert(storage::all_entries(session));
    assert(storage::entries_at(data, "localStorage"@) =~= entries);
    assert(storage::entries_at(data, "sessionStorage"@) =~= other);
}

/// A saved state holds the cookies as they are, and every origin that it has, in
/// order, as it is written.
pub proof fn law_saved_states_hold_everything(state: StorageView, i: int)
    requires
        0 <= i < state.origins.len(),
    ensures
        state.to_json().get_array("cookies"@) == Some(state.cookies),
        state.to_json().get_array("origins"@) is Some,
        state.to_json().get_array("origins"@)->Some_0.len() == state.origins.len(),
        state.origins[i].origin.len() > 0 && state.origins[i].origin != "null"@
            ==> storage::origin_storage_of(
            state.to_json().get_array("origins"@)->Some_0[i],
        ) == Some(state.origins[i]),
{
    reveal_strlit("cookies");
    reveal_strlit("origins");
    assert("cookies"@.len() == 7);
    assert("origins"@.len() == 7);
    assert("cookies"@[0] == 'c');
    assert("origins"@[0] == 'o');
    if state.origins[i].origin.len() > 0 && state.origins[i].origin != "null"@ {
        law_written_origins_are_read_back(state.origins[i]);
    }
}

/// Whether a request evaluates JavaScript in a session.
pub open spec fn evaluates(request: RequestView, script: Chars, session: Chars) -> bool {
    &&& request.method == "Runtime.evaluate"@
    &&& request.session_id == session
    &&& request.params is Some
    &&& request.params->Some_0.get_str("expression"@) == Some(script)
    &&& request.params->Some_0.get_bool("returnByValue"@) == Some(true)
}

/// A visit that restores local storage has only scripts evaluated that set an
/// item of the local storage, and one that restores session storage only such
/// that set an item of the session storage: by the name and to the value of the
/// entry, in the session of the visit.
pub proof fn law_entries_are_restored_where_they_belong(
    visit: VisitView,
    entry: EntryView,
    rest: Seq<EntryView>,
)
    requires
        visit.stage == VisitStageView::Store(entry, rest),
        visit.place.kind != VisitKind::Collect,
    ensures
        ({
            let item = interop::json_quote(entry.name) + ", "@ + interop::json_quote(entry.value)
                + ")"@;
            let script = if visit.place.kind == VisitKind::Local {
                "localStorage.setItem("@ + item
            } else {
                "sessionStorage.setItem("@ + item
            };
            &&& visit.action() is Evaluate
            &&& evaluates(visit.action()->Evaluate_0, script, visit.place.session_id)
        }),
{
    reveal_strlit("expression");
    reveal_strlit("returnByValue");
    reveal_strlit("awaitPromise");
    assert("expression"@.len() == 10);
    assert("returnByValue"@.len() == 13);
    assert("awaitPromise"@.len() == 12);
    let item = interop::json_quote(entry.name) + ", "@ + interop::json_quote(entry.value) + ")"@;
    reveal_strlit("localStorage.setItem(");
    reveal_strlit("localStorage");
    reveal_strlit("sessionStorage.setItem(");
    reveal_strlit("sessionStorage");
    reveal_strlit(".setItem(");
    assert("localStorage.setItem("@ =~= "localStorage"@ + ".setItem("@);
    assert("sessionStorage.setItem("@ =~= "sessionStorage"@ + ".setItem("@);
    let script = storage::store_script(visit.place.kind.storage(), entry);
    if visit.place.kind == VisitKind::Local {
        assert(script =~= "localStorage.setItem("@ + item);
    } else {
        assert(script =~= "sessionStorage.setItem("@ + item);
    }
}

/// One entry after the other is restored, in order, and then the next origin is
/// visited; a failure ends the visit with it.
pub proof fn law_every_entry_is_restored(
    visit: VisitView,
    entry: EntryView,
    rest: Seq<EntryView>,
    value: JsonView,
    error: Chars,
)
    requires
        visit.stage == VisitStageView::Store(entry, rest),
    ensures
        match visit.advance(VisitInputView::Reply(Ok(value))) {
            VisitStepView::Wait(next) => {
                &&& next.place.kind == visit.place.kind
                &&& next.place.session_id == visit.place.session_id
                &&& next.place.target == visit.place.target
                &&& next.place.found == visit.place.found
                &&& rest.len() > 0 ==> next.stage == VisitStageView::Store(rest[0], rest.skip(1))
                    && next.place.jobs == visit.place.jobs
                &&& rest.len() == 0 && visit.place.jobs.len() > 0 ==> next.stage
                    == VisitStageView::Navigate(visit.place.jobs[0]) && next.place.jobs
                    == visit.place.jobs.skip(1)
                &&& rest.len() == 0 && visit.place.jobs.len() == 0 ==> ends_with(
                    next,
                    Ok(visit.place.found),
                )
            },
            VisitStepView::Done(_) => false,
        },
        match visit.advance(VisitInputView::Reply(Err(error))) {
            VisitStepView::Wait(next) => ends_with(next, Err(error)),
            VisitStepView::Done(_) => false,
        },
{
}

/// Whether a visit is about to end with an outcome: it closes its own page, or
/// releases the active one.
pub open spec fn ends_with(visit: VisitView, outcome: Result<Seq<OriginView>, Chars>) -> bool {
    match visit.place.target {
        Some(target) => visit.stage == VisitStageView::Close(target, outcome),
        None => visit.stage == VisitStageView::Release(outcome),
    }
}

/// The address of an origin is the origin with one slash behind it.
pub proof fn law_origins_are_visited_at_their_root(origin: Chars)
    ensures
        origin.len() > 0 && origin.last() != '/' ==> storage_visit::origin_address(origin)
            == origin.push('/'),
        storage_visit::origin_address(origin.push('/')) == storage_visit::origin_address(origin),
        storage_visit::origin_address(origin).len() > 0,
        storage_visit::origin_address(origin).last() == '/',
{
    reveal_strlit("/");
    assert("/"@ =~= seq!['/']);
    assert(origin.push('/').drop_last() =~= origin);
    assert(origin.push('/').last() == '/');
    if origin.len() > 0 && origin.last() != '/' {
        assert(storage_visit::origin_address(origin) =~= origin.push('/'));
    }
}

/// A visit goes to the address of an origin and waits for its page. Every
/// request that is intercepted meanwhile is answered by the visit itself, under
/// its own identifier. When the page of its session has loaded, the storage is
/// read, or the entries of the origin are restored.
pub proof fn law_origins_are_visited_and_answered(
    visit: VisitView,
    job: JobView,
    id: Chars,
    value: JsonView,
)
    ensures
        visit.stage == VisitStageView::Navigate(job) ==> {
            &&& visit.action() is Post
            &&& visit.action()->Post_0.method == "Page.navigate"@
            &&& visit.action()->Post_0.session_id == visit.place.session_id
            &&& visit.action()->Post_0.params is Some
            &&& visit.action()->Post_0.params->Some_0.get_str("url"@) == Some(
                storage_visit::origin_address(job.origin),
            )
            &&& visit.advance(VisitInputView::Reply(Ok(value))) == VisitStepView::Wait(
                VisitView { place: visit.place, stage: VisitStageView::Listen(job) },
            )
        },
        visit.stage == VisitStageView::Listen(job) ==> visit.action() == VisitActionView::Listen(
            5_000,
            2_000,
        ),
        visit.stage == VisitStageView::Intercept(job, id) ==> {
            &&& visit.action() is Send
            &&& visit.action()->Send_0.method == "Network.continueInterceptedRequest"@
            &&& visit.action()->Send_0.session_id == visit.place.session_id
            &&& visit.action()->Send_0.params is Some
            &&& visit.action()->Send_0.params->Some_0.get_str("interceptionId"@) == Some(id)
            &&& visit.action()->Send_0.params->Some_0.get_str("rawResponse"@) == Some(
                storage::blank_base64(),
            )
            &&& visit.advance(VisitInputView::Reply(Ok(value))) == VisitStepView::Wait(
                VisitView { place: visit.place, stage: VisitStageView::Listen(job) },
            )
        },
        visit.stage is Collect ==> {
            &&& visit.action() is Evaluate
            &&& evaluates(
                visit.action()->Evaluate_0,
                storage_visit::STORAGE_SCRIPT@,
                visit.place.session_id,
            )
        },
{
    reveal_strlit("url");
    reveal_strlit("interceptionId");
    reveal_strlit("rawResponse");
    reveal_strlit("expression");
    reveal_strlit("returnByValue");
    reveal_strlit("awaitPromise");
    assert("url"@.len() == 3);
    assert("interceptionId"@.len() == 14);
    assert("rawResponse"@.len() == 11);
    assert("expression"@.len() == 10);
    assert("returnByValue"@.len() == 13);
    assert("awaitPromise"@.len() == 12);
}

/// What an event means to a visit that waits for a page: only events of its own
/// session count. A request that is intercepted is answered, a loaded page is
/// read or filled, and anything else is passed over.
pub proof fn law_visits_wait_for_their_own_page(
    visit: VisitView,
    job: JobView,
    event: crate::records::CdpEventView,
)
    requires
        visit.stage == VisitStageView::Listen(job),
    ensures
        match visit.advance(VisitInputView::Event(event)) {
            VisitStepView::Wait(next) => {
                let own = event.session_id == Some(visit.place.session_id);
                let id = event.params.get_str("interceptionId"@);
                &&& !own ==> next == visit
                &&& own && event.method == "Network.requestIntercepted"@ ==> next.place
                    == visit.place && next.stage == (match id {
                    Some(id) => VisitStageView::Intercept(job, id),
                    None => VisitStageView::Listen(job),
                })
                &&& own && event.method == "Page.loadEventFired"@ && visit.place.kind
                    == VisitKind::Collect ==> next.place == visit.place && next.stage is Collect
                &&& own && event.method == "Page.loadEventFired"@ && visit.place.kind
                    != VisitKind::Collect && job.entries.len() > 0 ==> next.place == visit.place
                    && next.stage == VisitStageView::Store(job.entries[0], job.entries.skip(1))
                &&& own && event.method != "Network.requestIntercepted"@ && event.method
                    != "Page.loadEventFired"@ ==> next == visit
            },
            VisitStepView::Done(_) => false,
        },
{
    reveal_strlit("Network.requestIntercepted");
    reveal_strlit("Page.loadEventFired");
    assert("Network.requestIntercepted"@.len() == 26);
    assert("Page.loadEventFired"@.len() == 19);
}

/// A page that could not be reached is left out of a collection, which goes on
/// with the next origin; a restoration fails with what went wrong.
pub proof fn law_unreachable_pages_stop_restorations_only(
    visit: VisitView,
    job: JobView,
    error: Chars,
)
    requires
        visit.stage == VisitStageView::Navigate(job),
    ensures
        match visit.advance(VisitInputView::Reply(Err(error))) {
            VisitStepView::Wait(next) => {
                &&& visit.place.kind == VisitKind::Collect && visit.place.jobs.len() > 0
                    ==> next.stage == VisitStageView::Navigate(visit.place.jobs[0])
                    && next.place.jobs == visit.place.jobs.skip(1) && next.place.found
                    == visit.place.found
                &&& visit.place.kind == VisitKind::Collect && visit.place.jobs.len() == 0
                    ==> ends_with(next, Ok(visit.place.found))
                &&& visit.place.kind != VisitKind::Collect ==> ends_with(next, Err(error))
            },
            VisitStepView::Done(_) => false,
        },
{
}

/// What a collection reads of an origin is noted if it holds anything, behind
/// what was found before; then the next origin is visited. A page that tells
/// nothing is passed over.
pub proof fn law_collections_note_what_they_read(
    visit: VisitView,
    data: JsonView,
    error: Chars,
)
    requires
        visit.stage is Collect,
    ensures
        ({
            let read = storage::origin_storage_of(data);
            let found = match read {
                Some(origin) => if origin.local_storage.len() > 0 || origin.session_storage.len()
                    > 0 {
                    visit.place.found.push(origin)
                } else {
                    visit.place.found
                },
                None => visit.place.found,
            };
            &&& goes_on_with(visit, visit.advance(VisitInputView::Reply(Ok(data))), found)
            &&& goes_on_with(
                visit,
                visit.advance(VisitInputView::Reply(Err(error))),
                visit.place.found,
            )
        }),
{
}

/// Whether a collection goes on with its next origin, or ends, with what it has
/// found.
pub open spec fn goes_on_with(visit: VisitView, step: VisitStepView, found: Seq<OriginView>) -> bool {
    match step {
        VisitStepView::Wait(next) => {
            &&& next.place.session_id == visit.place.session_id
            &&& next.place.kind == visit.place.kind
            &&& next.place.target == visit.place.target
            &&& next.place.found == found
            &&& visit.place.jobs.len() > 0 ==> next.stage == VisitStageView::Navigate(
                visit.place.jobs[0],
            ) && next.place.jobs == visit.place.jobs.skip(1)
            &&& visit.place.jobs.len() == 0 ==> ends_with(next, Ok(found))
        },
        VisitStepView::Done(_) => false,
    }
}

/// A visit ends with its outcome when its page is closed. The active page is
/// released by taking the interception back; where that fails, so does the
/// visit.
pub proof fn law_visits_end_with_their_outcome(
    visit: VisitView,
    target: Chars,
    outcome: Result<Seq<OriginView>, Chars>,
    reply: Result<JsonView, Chars>,
)
    ensures
        visit.stage == VisitStageView::Close(target, outcome) ==> {
            &&& visit.action() is Close
            &&& visit.action()->Close_0.method == "Target.closeTarget"@
            &&& visit.action()->Close_0.session_id.len() == 0
            &&& visit.action()->Close_0.params is Some
            &&& visit.action()->Close_0.params->Some_0.get_str("targetId"@) == Some(target)
            &&& visit.advance(VisitInputView::Reply(reply)) == VisitStepView::Done(outcome)
        },
        visit.stage == VisitStageView::Release(outcome) ==> {
            &&& visit.action() is Send
            &&& visit.action()->Send_0.method == "Network.setRequestInterception"@
            &&& visit.action()->Send_0.session_id == visit.place.session_id
            &&& visit.action()->Send_0.params is Some
            &&& visit.action()->Send_0.params->Some_0.get_array("patterns"@) == Some(
                Seq::<JsonView>::empty(),
            )
            &&& visit.advance(VisitInputView::Reply(reply)) == VisitStepView::Done(
                if outcome is Ok && reply is Err {
                    Err(reply->Err_0)
                } else {
                    outcome
                },
            )
        },
{
    reveal_strlit("");
}

/// A visit with a page of its own creates an empty one, attaches to it, and
/// prepares the session that it got. Where no page comes in the background, one
/// in the foreground is tried.
pub proof fn law_visits_prepare_a_page_of_their_own(
    visit: VisitView,
    target: Chars,
    session: Chars,
    error: Chars,
)
    ensures
        visit.stage is Create || visit.stage is CreatePlain ==> {
            let request = visit.action()->Create_0;
            &&& visit.action() is Create
            &&& request.method == "Target.createTarget"@
            &&& request.session_id.len() == 0
            &&& request.params is Some
            &&& request.params->Some_0.get_str("url"@) == Some("about:blank"@)
            &&& request.params->Some_0.get_bool("background"@) == (if visit.stage is Create {
                Some(true)
            } else {
                None
            })
            &&& visit.advance(VisitInputView::Id(Ok(target))) == VisitStepView::Wait(
                VisitView {
                    place: PlaceView { target: Some(target), ..visit.place },
                    stage: VisitStageView::Attach(target),
                },
            )
        },
        visit.stage is Create ==> visit.advance(VisitInputView::Id(Err(error)))
            == VisitStepView::Wait(
            VisitView { place: visit.place, stage: VisitStageView::CreatePlain },
        ),
        visit.stage is CreatePlain ==> visit.advance(VisitInputView::Id(Err(error)))
            == VisitStepView::Done(Err(error)),
        visit.stage == VisitStageView::Attach(target) ==> {
            let request = visit.action()->Attach_0;
            &&& visit.action() is Attach
            &&& request.method == "Target.attachToTarget"@
            &&& request.session_id.len() == 0
            &&& request.params is Some
            &&& request.params->Some_0.get_str("targetId"@) == Some(target)
            &&& request.params->Some_0.get_bool("flatten"@) == Some(true)
            &&& visit.advance(VisitInputView::Id(Ok(session))) == VisitStepView::Wait(
                VisitView {
                    place: PlaceView { session_id: session, ..visit.place },
                    stage: VisitStageView::Setup(0),
                },
            )
            &&& visit.advance(VisitInputView::Id(Err(error))) == VisitStepView::Wait(
                VisitView { place: visit.place, stage: VisitStageView::Close(target, Err(error)) },
            )
        },
{
    reveal_strlit("");
    reveal_strlit("url");
    reveal_strlit("background");
    reveal_strlit("targetId");
    reveal_strlit("flatten");
    assert("url"@.len() == 3);
    assert("background"@.len() == 10);
    assert("targetId"@.len() == 8);
    assert("flatten"@.len() == 7);
}

/// A session is prepared by four requests: its page, its runtime and its network
/// are enabled, and then every request is intercepted before it is sent. Only
/// then the first origin is visited.
pub proof fn law_sessions_are_prepared_in_order(visit: VisitView, n: u8, value: JsonView)
    requires
        visit.stage == VisitStageView::Setup(n),
        n <= 3,
    ensures
        visit.action() is Send,
        visit.action()->Send_0.session_id == visit.place.session_id,
        n == 0 ==> visit.action()->Send_0.method == "Page.enable"@,
        n == 1 ==> visit.action()->Send_0.method == "Runtime.enable"@,
        n == 2 ==> visit.action()->Send_0.method == "Network.enable"@,
        n == 3 ==> {
            let patterns = visit.action()->Send_0.params->Some_0.get_array("patterns"@);
            &&& visit.action()->Send_0.method == "Network.setRequestInterception"@
            &&& visit.action()->Send_0.params is Some
            &&& patterns is Some
            &&& patterns->Some_0.len() == 1
            &&& patterns->Some_0[0].get_str("urlPattern"@) == Some("*"@)
            &&& patterns->Some_0[0].get_str("interceptionStage"@) == Some("Request"@)
        },
        match visit.advance(VisitInputView::Reply(Ok(value))) {
            VisitStepView::Wait(next) => {
                &&& n < 3 ==> next.stage == VisitStageView::Setup((n + 1) as u8) && next.place
                    == visit.place
                &&& n == 3 && visit.place.jobs.len() > 0 ==> next.stage
                    == VisitStageView::Navigate(visit.place.jobs[0]) && next.place.jobs
                    == visit.place.jobs.skip(1)
            },
            VisitStepView::Done(_) => false,
        },
{
    reveal_strlit("urlPattern");
    reveal_strlit("interceptionStage");
    assert("urlPattern"@.len() == 10);
    assert("interceptionStage"@.len() == 17);
}

/// Whether a job restores an origin of a list.
pub open spec fn restores_one(origins: Seq<OriginView>, kind: VisitKind, job: JobView) -> bool {
    exists|i: int|
        0 <= i < origins.len() && #[trigger] entries_to_restore(origins[i], kind) == job.entries
            && origins[i].origin == job.origin && job.entries.len() > 0
}

/// Entries of an origin that a visit restores.
pub open spec fn entries_to_restore(origin: OriginView, kind: VisitKind) -> Seq<EntryView> {
    if kind == VisitKind::Local {
        origin.local_storage
    } else {
        origin.session_storage
    }
}

/// Every origin with local storage is visited to restore it, and every origin
/// with session storage to restore that: with all its entries. No other origin
/// is visited.
pub proof fn law_every_stored_origin_is_restored(origins: Seq<OriginView>, kind: VisitKind, i: int)
    requires
        0 <= i < origins.len(),
        kind != VisitKind::Collect,
    ensures
        entries_to_restore(origins[i], kind).len() > 0 ==> storage_visit::restore_jobs(
            origins,
            kind,
        ).contains(
            (JobView { origin: origins[i].origin, entries: entries_to_restore(origins[i], kind) }),
        ),
        forall|k: int|
            0 <= k < storage_visit::restore_jobs(origins, kind).len() ==> restores_one(
                origins,
                kind,
                #[trigger] storage_visit::restore_jobs(origins, kind)[k],
            ),
{
    broadcast use tables::lemma_filter_holds;

    let all = origins.map_values(
        |o: OriginView|
            JobView {
                origin: o.origin,
                entries: if kind == VisitKind::Session {
                    o.session_storage
                } else {
                    o.local_storage
                },
            },
    );
    let keep = |job: JobView| job.entries.len() > 0;
    let jobs = all.filter(keep);
    assert(jobs == storage_visit::restore_jobs(origins, kind));
    assert(all[i] == JobView {
        origin: origins[i].origin,
        entries: entries_to_restore(origins[i], kind),
    });
    if entries_to_restore(origins[i], kind).len() > 0 {
        assert(all.contains(all[i]));
        assert(jobs.contains(all[i]));
    }
    assert forall|k: int| 0 <= k < jobs.len() implies restores_one(
        origins,
        kind,
        #[trigger] jobs[k],
    ) by {
        assert(jobs.contains(jobs[k]));
        assert(all.contains(jobs[k]));
        let j = choose|j: int| 0 <= j < all.len() && all[j] == jobs[k];
        assert(entries_to_restore(origins[j], kind) == jobs[k].entries);
    }
}

/// Local storage is restored in a page of its own, session storage in the
/// session that is given; where there is none to restore, nothing is done. A
/// collection visits the origins that it is given, in order.
pub proof fn law_visits_begin_where_they_should(
    session: Chars,
    origins: Seq<OriginView>,
    names: Seq<Chars>,
)
    ensures
        match VisitView::restore_local(origins) {
            VisitStepView::Wait(visit) => {
                &&& visit.stage is CreatePlain
                &&& visit.place.kind == VisitKind::Local
                &&& visit.place.target is None
                &&& visit.place.jobs == storage_visit::restore_jobs(origins, VisitKind::Local)
                &&& visit.place.jobs.len() > 0
            },
            VisitStepView::Done(outcome) => outcome is Ok && storage_visit::restore_jobs(
                origins,
                VisitKind::Local,
            ).len() == 0,
        },
        match VisitView::restore_session(session, origins) {
            VisitStepView::Wait(visit) => {
                &&& visit.stage == VisitStageView::Setup(0)
                &&& visit.place.kind == VisitKind::Session
                &&& visit.place.session_id == session
                &&& visit.place.target is None
                &&& visit.place.jobs == storage_visit::restore_jobs(origins, VisitKind::Session)
                &&& visit.place.jobs.len() > 0
            },
            VisitStepView::Done(outcome) => outcome is Ok && storage_visit::restore_jobs(
                origins,
                VisitKind::Session,
            ).len() == 0,
        },
        match VisitView::collect(names) {
            VisitStepView::Wait(visit) => {
                &&& visit.stage is Create
                &&& visit.place.kind == VisitKind::Collect
                &&& visit.place.target is None
                &&& visit.place.found.len() == 0
                &&& visit.place.jobs.len() == names.len()
                &&& forall|i: int|
                    0 <= i < names.len() ==> (#[trigger] visit.place.jobs[i]).origin == names[i]
            },
            VisitStepView::Done(_) => false,
        },
{
}

/// A loading sets the cookies that were saved, where there are any, then
/// restores the local storage of every origin, then the session storage in the
/// session that it is for. What fails ends it, and it succeeds only when all of
/// that is done.
pub proof fn law_loading_restores_everything(
    session: Chars,
    state: StorageView,
    value: JsonView,
    error: Chars,
)
    ensures
        state.cookies.len() > 0 ==> match LoadView::start(session, state) {
            LoadStepView::Wait(load) => {
                &&& load.action() == LoadActionView::SetCookies(state.cookies)
                &&& load.session_id == session
                &&& load.advance(VisitInputView::Reply(Err(error))) == LoadStepView::Done(
                    Err(error),
                )
                &&& load.advance(VisitInputView::Reply(Ok(value))) == goes_on_locally(
                    session,
                    state.origins,
                )
            },
            LoadStepView::Done(_) => false,
        },
        state.cookies.len() == 0 ==> LoadView::start(session, state) == goes_on_locally(
            session,
            state.origins,
        ),
{
}

/// A loading that restores the local storage of origins next, or their session
/// storage where there is no local one.
pub open spec fn goes_on_locally(session: Chars, origins: Seq<OriginView>) -> LoadStepView {
    match VisitView::restore_local(origins) {
        VisitStepView::Wait(visit) => LoadStepView::Wait(
            LoadView { session_id: session, stage: LoadStageView::Local(visit, origins) },
        ),
        VisitStepView::Done(_) => goes_on_in_session(session, origins),
    }
}

/// A loading that restores the session storage of origins next, or is done where
/// there is none.
pub open spec fn goes_on_in_session(session: Chars, origins: Seq<OriginView>) -> LoadStepView {
    match VisitView::restore_session(session, origins) {
        VisitStepView::Wait(visit) => LoadStepView::Wait(
            LoadView { session_id: session, stage: LoadStageView::Session(visit) },
        ),
        VisitStepView::Done(_) => LoadStepView::Done(Ok(())),
    }
}

/// While a loading restores storage, it does what its visit asks for, step by
/// step. Behind the local storage comes the session storage of the same origins,
/// and behind that the loading is done.
pub proof fn law_loading_follows_its_visits(load: LoadView, input: VisitInputView)
    ensures
        match load.stage {
            LoadStageView::Local(visit, origins) => {
                &&& load.action() == LoadActionView::Visit(visit.action())
                &&& load.advance(input) == match visit.advance(input) {
                    VisitStepView::Wait(next) => LoadStepView::Wait(
                        LoadView {
                            session_id: load.session_id,
                            stage: LoadStageView::Local(next, origins),
                        },
                    ),
                    VisitStepView::Done(Ok(_)) => goes_on_in_session(load.session_id, origins),
                    VisitStepView::Done(Err(e)) => LoadStepView::Done(Err(e)),
                }
            },
            LoadStageView::Session(visit) => {
                &&& load.action() == LoadActionView::Visit(visit.action())
                &&& load.advance(input) == match visit.advance(input) {
                    VisitStepView::Wait(next) => LoadStepView::Wait(
                        LoadView {
                            session_id: load.session_id,
                            stage: LoadStageView::Session(next),
                        },
                    ),
                    VisitStepView::Done(Ok(_)) => LoadStepView::Done(Ok(())),
                    VisitStepView::Done(Err(e)) => LoadStepView::Done(Err(e)),
                }
            },
            LoadStageView::Cookies(_, _) => true,
        },
{
}

/// A saving reads the cookies, asks for the frames of the page, reads the
/// storage of the page, and then visits the origins that are left.
pub proof fn law_saving_reads_everything(save: SaveView)
    ensures
        match save.stage {
            SaveStageView::Cookies(_, _) => save.action() is ReadCookies,
            SaveStageView::Frames(_, _) => {
                &&& save.action() is Send
                &&& save.action()->Send_0.method == "Page.getFrameTree"@
                &&& save.action()->Send_0.session_id == save.session_id
            },
            SaveStageView::Current(_, _) => {
                &&& save.action() is Evaluate
                &&& evaluates(
                    save.action()->Evaluate_0,
                    storage_visit::STORAGE_SCRIPT@,
                    save.session_id,
                )
            },
            SaveStageView::Others(_, _, visit) => save.action() == SaveActionView::Visit(
                visit.action(),
            ),
        },
{
    reveal_strlit("expression");
    reveal_strlit("returnByValue");
    reveal_strlit("awaitPromise");
    assert("expression"@.len() == 10);
    assert("returnByValue"@.len() == 13);
    assert("awaitPromise"@.len() == 12);
}

/// What the page itself stores is saved first, where it stores anything, and its
/// origin is not visited again. All other origins are visited; where there are
/// none, the state is complete: with the cookies that were read.
pub proof fn law_the_page_itself_is_saved_first(
    save: SaveView,
    cookies: Seq<JsonView>,
    origins: Seq<Chars>,
    data: JsonView,
    page: OriginView,
)
    requires
        save.stage == SaveStageView::Current(cookies, origins),
        storage::origin_storage_of(data) == Some(page),
    ensures
        ({
            let found = if page.local_storage.len() > 0 || page.session_storage.len() > 0 {
                seq![page]
            } else {
                Seq::empty()
            };
            match save.advance(SaveInputView::Other(VisitInputView::Reply(Ok(data)))) {
                SaveStepView::Wait(next) => {
                    &&& next.session_id == save.session_id
                    &&& next.stage is Others
                    &&& next.stage->Others_0 == cookies
                    &&& next.stage->Others_1 == found
                    &&& next.stage->Others_2.place.kind == VisitKind::Collect
                    &&& forall|o: Chars|
                        origins.contains(o) && o != page.origin ==> #[trigger] visits(
                            next.stage->Others_2,
                            o,
                        )
                    &&& !visits(next.stage->Others_2, page.origin)
                },
                SaveStepView::Done(outcome) => {
                    &&& outcome == Ok::<StorageView, Chars>(
                        StorageView { cookies, origins: found },
                    )
                    &&& forall|o: Chars| origins.contains(o) ==> o == page.origin
                },
            }
        }),
{
    broadcast use tables::lemma_filter_holds;

    let left = collections::set_without(origins, page.origin);
    assert forall|o: Chars| origins.contains(o) && o != page.origin implies left.contains(o) by {}
    assert(!left.contains(page.origin));
    if left.len() > 0 {
        let visit = VisitView::collect(left)->Wait_0;
        assert forall|o: Chars| origins.contains(o) && o != page.origin implies #[trigger] visits(
            visit,
            o,
        ) by {
            let i = choose|i: int| 0 <= i < left.len() && left[i] == o;
            assert(visit.place.jobs[i].origin == o);
        }
        if visits(visit, page.origin) {
            let i = choose|i: int|
                0 <= i < visit.place.jobs.len() && (#[trigger] visit.place.jobs[i]).origin
                    == page.origin;
            assert(left[i] == page.origin);
        }
    } else {
        let found = if page.local_storage.len() > 0 || page.session_storage.len() > 0 {
            seq![page]
        } else {
            Seq::empty()
        };
        assert(found + Seq::<OriginView>::empty() =~= found);
        assert forall|o: Chars| origins.contains(o) implies o == page.origin by {
            if o != page.origin {
                assert(left.contains(o));
            }
        }
    }
}

/// Whether a visit is going to an origin.
pub open spec fn visits(visit: VisitView, origin: Chars) -> bool {
    exists|i: int|
        0 <= i < visit.place.jobs.len() && (#[trigger] visit.place.jobs[i]).origin == origin
}

/// What a saving ends with: the cookies that were read, what the page stores,
/// and behind that what the visit collected. A visit that fails takes nothing
/// away from the rest.
pub proof fn law_saved_states_are_complete(
    save: SaveView,
    cookies: Seq<JsonView>,
    found: Seq<OriginView>,
    visit: VisitView,
    input: VisitInputView,
)
    requires
        save.stage == SaveStageView::Others(cookies, found, visit),
    ensures
        match visit.advance(input) {
            VisitStepView::Wait(next) => save.advance(SaveInputView::Other(input))
                == SaveStepView::Wait(
                SaveView {
                    session_id: save.session_id,
                    stage: SaveStageView::Others(cookies, found, next),
                },
            ),
            VisitStepView::Done(Ok(more)) => save.advance(SaveInputView::Other(input))
                == SaveStepView::Done(Ok(StorageView { cookies, origins: found + more })),
            VisitStepView::Done(Err(_)) => save.advance(SaveInputView::Other(input))
                == SaveStepView::Done(Ok(StorageView { cookies, origins: found })),
        },
{
}

proof fn lemma_included(origins: Seq<Chars>, included: Seq<Chars>, i: int)
    requires
        0 <= i < included.len(),
        save::with_included(origins, included) is Ok,
    ensures
        storage::included_origin(included[i], storage::url_parts(included[i])) is Ok,
        save::with_included(origins, included)->Ok_0.contains(
            storage::included_origin(included[i], storage::url_parts(included[i]))->Ok_0,
        ),
    decreases included.len(),
{
    let rest = included.drop_last();
    let front = save::with_included(origins, rest)->Ok_0;
    let last = storage::included_origin(
        included.last(),
        storage::url_parts(included.last()),
    )->Ok_0;
    if i < rest.len() {
        assert(rest[i] == included[i]);
        lemma_included(origins, rest, i);
        lemma_set_with(
            front,
            last,
            storage::included_origin(included[i], storage::url_parts(included[i]))->Ok_0,
        );
    } else {
        lemma_set_with(front, last, last);
    }
}

proof fn lemma_set_with(set: Seq<Chars>, x: Chars, y: Chars)
    ensures
        collections::set_with(set, x).contains(y) <==> set.contains(y) || y == x,
{
    if !set.contains(x) {
        assert(collections::set_with(set, x) == set.push(x));
        assert(set.push(x)[set.len() as int] == x);
        if set.contains(y) {
            let i = choose|i: int| 0 <= i < set.len() && set[i] == y;
            assert(set.push(x)[i] == y);
        }
    }
}

proof fn lemma_included_kept(origins: Seq<Chars>, included: Seq<Chars>, o: Chars)
    requires
        save::with_included(origins, included) is Ok,
        origins.contains(o),
    ensures
        save::with_included(origins, included)->Ok_0.contains(o),
    decreases included.len(),
{
    if included.len() > 0 {
        let rest = included.drop_last();
        lemma_included_kept(origins, rest, o);
        lemma_set_with(
            save::with_included(origins, rest)->Ok_0,
            storage::included_origin(
                included.last(),
                storage::url_parts(included.last()),
            )->Ok_0,
            o,
        );
    }
}

/// A saving takes the origins that were visited and those that are to be
/// included, each by the origin of its address. An address that is none ends the
/// saving, and so does a failure to read the cookies.
pub proof fn law_included_origins_are_saved(
    save: SaveView,
    visited: Seq<Chars>,
    included: Seq<Chars>,
    cookies: Seq<JsonView>,
    error: Chars,
    i: int,
    o: Chars,
)
    requires
        save.stage == SaveStageView::Cookies(visited, included),
        0 <= i < included.len(),
    ensures
        save.advance(SaveInputView::Cookies(Err(error))) == SaveStepView::Done(Err(error)),
        match save.advance(SaveInputView::Cookies(Ok(cookies))) {
            SaveStepView::Wait(next) => {
                let parts = storage::url_parts(included[i]);
                &&& next.stage is Frames
                &&& next.stage->Frames_0 == cookies
                &&& next.session_id == save.session_id
                &&& visited.contains(o) ==> next.stage->Frames_1.contains(o)
                &&& parts is Some
                &&& parts->Some_0.0 == "http"@ || parts->Some_0.0 == "https"@
                &&& parts->Some_0.1 != "null"@
                &&& next.stage->Frames_1.contains(parts->Some_0.1)
            },
            SaveStepView::Done(outcome) => outcome is Err,
        },
{
    if save::with_included(visited, included) is Ok {
        lemma_included(visited, included, i);
        if visited.contains(o) {
            lemma_included_kept(visited, included, o);
        }
    }
}

/// Only absolute addresses of the web name an origin: what is refused is named
/// together with the reason.
pub proof fn law_included_origins_are_of_the_web(input: Chars, parts: Option<(Chars, Chars)>)
    ensures
        storage::included_origin(input, parts) is Ok <==> parts is Some && (parts->Some_0.0
            == "http"@ || parts->Some_0.0 == "https"@) && parts->Some_0.1 != "null"@,
        storage::included_origin(input, parts) is Ok ==> storage::included_origin(input, parts)
            == Ok::<Chars, Chars>(parts->Some_0.1),
        storage::included_origin(input, parts) is Err ==> ("Invalid include origin '"@
            + input).is_prefix_of(storage::included_origin(input, parts)->Err_0),
{
    let name = "Invalid include origin '"@ + input;
    if let Err(message) = storage::included_origin(input, parts) {
        assert(message.subrange(0, name.len() as int) =~= name);
    }
}

/// Whether a frame stands in a tree of frames, at its top or below.
pub open spec fn frame_in(tree: JsonView, frame: JsonView) -> bool
    decreases tree,
{
    proof {
        storage::lemma_child_frames(tree);
    }
    tree == frame || (storage::child_frames(tree).len() > 0 && frame_among(
        storage::child_frames(tree),
        frame,
    ))
}

/// Whether a frame stands in one of several trees.
pub open spec fn frame_among(trees: Seq<JsonView>, frame: JsonView) -> bool
    decreases trees,
{
    trees.len() > 0 && (frame_in(trees[trees.len() - 1], frame) || frame_among(
        trees.drop_last(),
        frame,
    ))
}

proof fn lemma_tree_kept(tree: JsonView, origins: Seq<Chars>, o: Chars)
    requires
        origins.contains(o),
    ensures
        storage::tree_origins(tree, origins).contains(o),
    decreases tree,
{
    storage::lemma_child_frames(tree);
    let own = storage::with_frame(tree, origins);
    assert(own.contains(o)) by {
        if let Some(url) = storage::frame_url(tree) {
            if let Some(origin) = storage::frame_origin(storage::url_parts(url)) {
                lemma_set_with(origins, origin, o);
            }
        }
    }
    if storage::child_frames(tree).len() > 0 {
        lemma_forest_kept(storage::child_frames(tree), own, o);
    }
}

proof fn lemma_forest_kept(trees: Seq<JsonView>, origins: Seq<Chars>, o: Chars)
    requires
        origins.contains(o),
    ensures
        storage::forest_origins(trees, origins).contains(o),
    decreases trees,
{
    if trees.len() > 0 {
        lemma_forest_kept(trees.drop_last(), origins, o);
        lemma_tree_kept(
            trees[trees.len() - 1],
            storage::forest_origins(trees.drop_last(), origins),
            o,
        );
    }
}

proof fn lemma_tree_frame(tree: JsonView, origins: Seq<Chars>, frame: JsonView, origin: Chars)
    requires
        frame_in(tree, frame),
        storage::frame_url(frame) is Some,
        storage::frame_origin(storage::url_parts(storage::frame_url(frame)->Some_0)) == Some(
            origin,
        ),
    ensures
        storage::tree_origins(tree, origins).contains(origin),
    decreases tree,
{
    storage::lemma_child_frames(tree);
    let own = storage::with_frame(tree, origins);
    if tree == frame {
        lemma_set_with(origins, origin, origin);
        if storage::child_frames(tree).len() > 0 {
            lemma_forest_kept(storage::child_frames(tree), own, origin);
        }
    } else {
        lemma_forest_frame(storage::child_frames(tree), own, frame, origin);
    }
}

proof fn lemma_forest_frame(
    trees: Seq<JsonView>,
    origins: Seq<Chars>,
    frame: JsonView,
    origin: Chars,
)
    requires
        frame_among(trees, frame),
        storage::frame_url(frame) is Some,
        storage::frame_origin(storage::url_parts(storage::frame_url(frame)->Some_0)) == Some(
            origin,
        ),
    ensures
        storage::forest_origins(trees, origins).contains(origin),
    decreases trees,
{
    if trees.len() > 0 {
        let front = storage::forest_origins(trees.drop_last(), origins);
        if frame_in(trees[trees.len() - 1], frame) {
            lemma_tree_frame(trees[trees.len() - 1], front, frame, origin);
        } else {
            lemma_forest_frame(trees.drop_last(), origins, frame, origin);
            lemma_tree_kept(trees[trees.len() - 1], front, origin);
        }
    }
}

/// The frames below a frame are those that its tree lists.
pub proof fn law_frames_stand_below_the_one_that_lists_them(
    members: Map<Chars, JsonView>,
    children: Seq<JsonView>,
)
    requires
        members.dom().finite(),
        members.contains_key("childFrames"@),
        members["childFrames"@] == JsonView::Array(children),
    ensures
        storage::child_frames(JsonView::Object(members)) == children,
        storage::child_frames(JsonView::Object(members.remove("childFrames"@))).len() == 0,
{
}

/// The origin of every frame of the page is saved, however deep the frame
/// stands, and so are the origins that were known before. Where the frames are
/// not told, the saving goes on without them.
pub proof fn law_origins_of_all_frames_are_saved(
    save: SaveView,
    cookies: Seq<JsonView>,
    origins: Seq<Chars>,
    result: JsonView,
    tree: JsonView,
    frame: JsonView,
    address: Chars,
    error: Chars,
)
    requires
        save.stage == SaveStageView::Frames(cookies, origins),
        result.get("frameTree"@) == Some(tree),
        frame_in(tree, frame),
        frame.get("frame"@) is Some,
        frame.get("frame"@)->Some_0.get("url"@) == Some(JsonView::Str(address)),
    ensures
        save.advance(SaveInputView::Other(VisitInputView::Reply(Err(error)))) == SaveStepView::Wait(
            SaveView {
                session_id: save.session_id,
                stage: SaveStageView::Current(cookies, origins),
            },
        ),
        match save.advance(SaveInputView::Other(VisitInputView::Reply(Ok(result)))) {
            SaveStepView::Wait(next) => {
                &&& next.session_id == save.session_id
                &&& next.stage is Current
                &&& next.stage->Current_0 == cookies
                &&& storage::url_parts(address) matches Some((_, origin)) ==> origin.len() > 0
                    && origin != "null"@ ==> next.stage->Current_1.contains(origin)
                &&& forall|o: Chars| #[trigger]
                    origins.contains(o) ==> next.stage->Current_1.contains(o)
            },
            SaveStepView::Done(_) => false,
        },
{
    assert(storage::frame_url(frame) == Some(address));
    if let Some((_, origin)) = storage::url_parts(address) {
        if origin.len() > 0 && origin != "null"@ {
            lemma_tree_frame(tree, origins, frame, origin);
        }
    }
    assert forall|o: Chars| #[trigger] origins.contains(o) implies storage::tree_origins(
        tree,
        origins,
    ).contains(o) by {
        lemma_tree_kept(tree, origins, o);
    }
}

proof fn lemma_as_set_holds(texts: Seq<Chars>, x: Chars)
    ensures
        save::as_set(texts).contains(x) <==> texts.contains(x),
    decreases texts.len(),
{
    if texts.len() > 0 {
        let rest = texts.drop_last();
        lemma_as_set_holds(rest, x);
        basics::law_sets_hold_what_was_put_in(save::as_set(rest), texts.last(), x);
        if texts.contains(x) {
            let i = choose|i: int| 0 <= i < texts.len() && texts[i] == x;
            if i < rest.len() {
                assert(rest[i] == x);
            }
        }
        if rest.contains(x) {
            let i = choose|i: int| 0 <= i < rest.len() && rest[i] == x;
            assert(texts[i] == x);
        }
        if texts.last() == x {
            assert(texts[texts.len() - 1] == x);
        }
    }
}

/// A saving begins with the cookies of its session, with every origin that was
/// visited and no other, and with those that are to be saved too.
pub proof fn law_savings_begin_with_what_was_visited(
    session: Chars,
    visited: Seq<Chars>,
    included: Seq<Chars>,
    origin: Chars,
)
    ensures
        ({
            let start = SaveView::start(session, visited, included);
            &&& start.session_id == session
            &&& start.action() is ReadCookies
            &&& match start.stage {
                SaveStageView::Cookies(known, more) => {
                    &&& known.contains(origin) <==> visited.contains(origin)
                    &&& more == included
                },
                _ => false,
            }
        }),
{
    lemma_as_set_holds(visited, origin);
}

} // verus!
