//! Saved states: which files they are, how they are kept and read back.

use vstd::prelude::*;

use crate::autosave;
use crate::autosave::{
    AutoPlacesView, AutoSaveView, AutoStageView, AutoStepView, FileActionView, FileReplyView,
};
use crate::collections;
use crate::crypto;
use crate::json::JsonView;
use crate::laws::tables;
use crate::paths;
use crate::save;
use crate::save::SaveTargetView;
use crate::state_files;
use crate::state_files::{FileTime, FileView};
use crate::state_read::{
    FileContentView, FileRequestView, ReadStageView, ReadStepView, StateReadView,
};
use crate::storage;
use crate::storage::OriginView;
use crate::storage_visit;
use crate::storage_visit::{
    VisitActionView, VisitInputView, VisitStageView, VisitStepView, VisitView,
};
use crate::text::Chars;

verus! {

proof fn lemma_suffix(front: Chars, end: Chars)
    ensures
        end.is_suffix_of(front + end),
{
    assert((front + end).subrange(front.len() as int, (front + end).len() as int) =~= end);
}

proof fn lemma_suffix_extended(end: Chars, name: Chars, more: Chars)
    requires
        end.is_suffix_of(name),
    ensures
        (end + more).is_suffix_of(name + more),
{
    let cut = name.len() - end.len();
    assert(name.subrange(cut, name.len() as int) == end);
    let whole = name + more;
    assert(whole.subrange(
        whole.len() - (end + more).len(),
        whole.len() as int,
    ) =~= end + more);
}

proof fn lemma_endings()
    ensures
        ".json"@ + ".previous"@ == ".json.previous"@,
        ".json.enc"@ + ".previous"@ == ".json.enc.previous"@,
        ".json"@ + ".enc"@ == ".json.enc"@,
{
    reveal_strlit(".json");
    reveal_strlit(".enc");
    reveal_strlit(".previous");
    reveal_strlit(".json.enc");
    reveal_strlit(".json.previous");
    reveal_strlit(".json.enc.previous");
    assert(".json"@ + ".previous"@ =~= ".json.previous"@);
    assert(".json.enc"@ + ".previous"@ =~= ".json.enc.previous"@);
    assert(".json"@ + ".enc"@ =~= ".json.enc"@);
}

/// Every encrypted state is a saved state.
pub proof fn law_encrypted_states_are_states(name: Chars)
    ensures
        state_files::names_encrypted(name) ==> state_files::names_state(name),
{
}

/// The backup of a saved state is a saved state itself, and the backup of an
/// encrypted one is encrypted.
pub proof fn law_backups_are_states(name: Chars)
    ensures
        ".json"@.is_suffix_of(name) ==> state_files::names_state(name + ".previous"@),
        ".json.enc"@.is_suffix_of(name) ==> state_files::names_encrypted(name + ".previous"@),
{
    lemma_endings();
    if ".json"@.is_suffix_of(name) {
        lemma_suffix_extended(".json"@, name, ".previous"@);
    }
    if ".json.enc"@.is_suffix_of(name) {
        lemma_suffix_extended(".json.enc"@, name, ".previous"@);
    }
}

proof fn lemma_suffix_of_suffix(end: Chars, name: Chars, path: Chars)
    requires
        end.is_suffix_of(name),
        name.is_suffix_of(path),
    ensures
        end.is_suffix_of(path),
{
    let cut = name.len() - end.len();
    assert(name.subrange(cut, name.len() as int) == end);
    assert(path.subrange(path.len() - name.len(), path.len() as int) == name);
    assert(path.subrange(path.len() - end.len(), path.len() as int) =~= end);
}

/// What is saved automatically for a session is a saved state, encrypted where
/// there is a key, and so is the backup that is kept while it is replaced,
/// whatever path ends in the name of the file.
pub proof fn law_automatic_files_are_states(
    places: AutoPlacesView,
    session: Chars,
    id: Chars,
    with_key: bool,
    process: u32,
)
    requires
        autosave::names_of(session, id, process).file.is_suffix_of(places.file),
    ensures
        ({
            let p = autosave::auto_paths(places, with_key);
            &&& state_files::names_state(p.file)
            &&& state_files::names_state(p.previous)
            &&& with_key ==> state_files::names_encrypted(p.file)
            &&& with_key ==> state_files::names_encrypted(p.previous)
        }),
{
    let base = session + "-"@ + id;
    let plain = places.file;
    lemma_endings();
    lemma_suffix(base, ".json"@);
    lemma_suffix_of_suffix(".json"@, base + ".json"@, plain);
    lemma_suffix_extended(".json"@, plain, ".enc"@);
    law_backups_are_states(plain);
    law_backups_are_states(plain + ".enc"@);
}

/// What is saved automatically for a session is found for that session again.
/// It has the name that a saving without a path gives it.
pub proof fn law_automatic_files_are_found(session: Chars, id: Chars, process: u32)
    ensures
        ({
            let name = autosave::names_of(session, id, process).file;
            &&& state_files::saved_for(name, session)
            &&& state_files::saved_for(name + ".enc"@, session)
            &&& save::target_of(None, session, Ok(()), id) == Ok::<SaveTargetView, Chars>(
                SaveTargetView::InSessions(name),
            )
        }),
{
    let name = session + "-"@ + id + ".json"@;
    lemma_endings();
    lemma_suffix(session + "-"@ + id, ".json"@);
    lemma_suffix_extended(".json"@, name, ".enc"@);
    let head = session + "-"@;
    assert(name.subrange(0, head.len() as int) =~= head);
    assert((name + ".enc"@).subrange(0, head.len() as int) =~= head);
}

/// The automatic state of a session is the latest that was saved for it: it was
/// saved for the session, none that was is later, and there is one wherever any
/// was saved.
pub proof fn law_the_latest_automatic_state_is_taken(files: Seq<FileView>, session: Chars)
    ensures
        match state_files::latest_for(files, session) {
            Some(i) => {
                &&& 0 <= i < files.len()
                &&& state_files::saved_for(files[i].name, session)
                &&& forall|j: int|
                    0 <= j < files.len() && state_files::saved_for(
                        (#[trigger] files[j]).name,
                        session,
                    ) ==> state_files::modified_total(files[j]) <= state_files::modified_total(
                        files[i],
                    )
            },
            None => forall|j: int|
                0 <= j < files.len() ==> !state_files::saved_for(
                    (#[trigger] files[j]).name,
                    session,
                ),
        },
    decreases files.len(),
{
    if files.len() > 0 {
        let rest = files.drop_last();
        law_the_latest_automatic_state_is_taken(rest, session);
        assert forall|j: int| 0 <= j < rest.len() implies files[j] == rest[j] by {}
        match state_files::latest_for(files, session) {
            Some(i) => {
                assert forall|j: int|
                    0 <= j < files.len() && state_files::saved_for(
                        (#[trigger] files[j]).name,
                        session,
                    ) implies state_files::modified_total(files[j])
                    <= state_files::modified_total(files[i]) by {
                    if j < rest.len() {
                        assert(files[j] == rest[j]);
                    }
                }
            },
            None => {
                assert forall|j: int| 0 <= j < files.len() implies !state_files::saved_for(
                    (#[trigger] files[j]).name,
                    session,
                ) by {
                    if j < rest.len() {
                        assert(files[j] == rest[j]);
                    }
                }
            },
        }
    }
}

/// Clearing and cleaning touch saved states only, and cleaning only those that
/// are older than the given days.
pub proof fn law_only_saved_states_are_removed(
    files: Seq<FileView>,
    now: FileTime,
    days: u64,
    file: FileView,
)
    ensures
        state_files::state_files(files).contains(file) <==> files.contains(file)
            && state_files::names_state(file.name),
        state_files::expired_files(files, now, days).contains(file) <==> files.contains(file)
            && state_files::names_state(file.name) && state_files::is_expired(file, now, days),
        state_files::expired_files(files, now, days).len() <= state_files::state_files(
            files,
        ).len(),
{
    broadcast use tables::lemma_filter_holds;

    let states = state_files::state_files(files);
    states.lemma_filter_len(|f: FileView| state_files::is_expired(f, now, days));
}

/// Whether an automatic saving has its new state written and found valid.
pub open spec fn approved(stage: AutoStageView) -> bool {
    match stage {
        AutoStageView::MakeDir => false,
        AutoStageView::MakeTempDir => false,
        AutoStageView::Save => false,
        AutoStageView::Validate(_) => false,
        AutoStageView::Discard(_, _) => false,
        _ => true,
    }
}

/// Until the new state was written and found valid, an automatic saving renames
/// nothing and removes nothing but the new file itself. What is found invalid is
/// removed, and the saving ends with the fault.
pub proof fn law_the_old_state_stays_until_the_new_one_is_valid(
    machine: AutoSaveView,
    reply: FileReplyView,
)
    requires
        !approved(machine.stage),
    ensures
        !(machine.action() is Rename),
        machine.action() is Remove ==> machine.stage is Discard,
        match machine.advance(reply) {
            AutoStepView::Wait(next) => approved(next.stage) ==> machine.stage is Validate
                && reply matches FileReplyView::Done(Ok(_)),
            AutoStepView::Done(outcome) => outcome is Err,
        },
        match (machine.stage, reply) {
            (
                AutoStageView::Validate(written),
                FileReplyView::Done(Err(e)),
            ) => machine.advance(reply) == machine.at(AutoStageView::Discard(written, e)),
            (AutoStageView::Discard(_, e), FileReplyView::Done(_)) => machine.advance(reply)
                == AutoStepView::Done(Err(e)),
            _ => true,
        },
{
}

/// An automatic saving succeeds only after the new state was put in place, and
/// then it names that place.
pub proof fn law_automatic_saving_names_its_file(machine: AutoSaveView, reply: FileReplyView)
    ensures
        match machine.advance(reply) {
            AutoStepView::Done(Ok(path)) => path == machine.paths.file && (
            machine.stage is LookForLeftover || machine.stage is DropLeftover),
            AutoStepView::Done(Err(_)) => true,
            AutoStepView::Wait(next) => {
                &&& next.paths == machine.paths
                &&& next.stage is LookForLeftover && !(machine.stage is LookForLeftover)
                    ==> machine.stage is Promote && reply matches FileReplyView::Done(Ok(_))
            },
        },
{
}

/// Where the new state cannot be put in place although the old one was moved
/// away, the old one is put back, and the saving ends with the fault.
pub proof fn law_failed_promotions_are_undone(
    machine: AutoSaveView,
    written: Chars,
    error: Chars,
    undone: Result<(), Chars>,
)
    requires
        machine.stage == AutoStageView::Promote(written),
    ensures
        ({
            let p = machine.paths;
            let message = "Failed to promote state "@ + written + " to "@ + p.file + ": "@ + error;
            let looking = AutoSaveView { stage: AutoStageView::LookForBackup(message), ..machine };
            let checking = AutoSaveView { stage: AutoStageView::LookForNew(message), ..machine };
            let restoring = AutoSaveView { stage: AutoStageView::Restore(message), ..machine };
            &&& machine.advance(FileReplyView::Done(Err(error))) == AutoStepView::Wait(looking)
            &&& looking.action() == FileActionView::Look(p.previous)
            &&& looking.advance(FileReplyView::Found(true)) == AutoStepView::Wait(checking)
            &&& checking.action() == FileActionView::Look(p.file)
            &&& checking.advance(FileReplyView::Found(false)) == AutoStepView::Wait(restoring)
            &&& restoring.action() == FileActionView::Rename(p.previous, p.file)
            &&& restoring.advance(FileReplyView::Done(undone)) == AutoStepView::Done(Err(message))
        }),
{
}

/// A text that was encrypted under a key is read back by that key: from the
/// encrypted file itself, and from the path without its ending where no plain
/// file is there.
pub proof fn law_saved_states_are_read_back(
    path: Chars,
    key: Chars,
    text: Chars,
    bytes: Seq<u8>,
    shown: bool,
    missing: Chars,
)
    requires
        crypto::decrypted(bytes, key) == Ok::<Seq<u8>, Chars>(vstd::utf8::encode_utf8(text)),
    ensures
        crypto::decrypted_text(bytes, key) == Ok::<Chars, Chars>(text),
        state_files::names_encrypted(path) ==> {
            let reading = StateReadView {
                path,
                key: Some(key),
                shown,
                stage: ReadStageView::Bytes,
            };
            &&& StateReadView::start(path, Some(key), shown) == ReadStepView::Wait(reading)
            &&& reading.request() == FileRequestView::Bytes(path)
            &&& reading.advance(FileContentView::Bytes(Ok(bytes))) == ReadStepView::Done(Ok(text))
        },
        !state_files::names_encrypted(path) ==> {
            let reading = StateReadView {
                path,
                key: Some(key),
                shown: false,
                stage: ReadStageView::Text,
            };
            let fallback = StateReadView { stage: ReadStageView::Encrypted(missing), ..reading };
            &&& StateReadView::start(path, Some(key), false) == ReadStepView::Wait(reading)
            &&& reading.advance(FileContentView::Text(Err(missing))) == ReadStepView::Wait(
                fallback,
            )
            &&& fallback.request() == FileRequestView::Bytes(path + ".enc"@)
            &&& fallback.advance(FileContentView::Bytes(Ok(bytes))) == ReadStepView::Done(
                Ok(text),
            )
        },
{
    broadcast use {vstd::utf8::encode_utf8_valid_utf8, vstd::utf8::encode_utf8_decode_utf8};

}

/// An encrypted state is never read without a key.
pub proof fn law_encrypted_states_need_a_key(path: Chars, shown: bool)
    requires
        state_files::names_encrypted(path),
    ensures
        StateReadView::start(path, None, shown) matches ReadStepView::Done(Err(_)),
{
}

/// An explicit home directory counts as it is, whether it can be written to or
/// not; the default counts where it can be written to, else the fallback.
pub proof fn law_home_directory<P>(
    explicit: Option<P>,
    default_home: Option<P>,
    fallback: P,
    writable: bool,
)
    ensures
        paths::home_choice(explicit, default_home, fallback).settled(writable) == match (
            explicit,
            default_home,
        ) {
            (Some(path), _) => path,
            (None, Some(path)) => if writable {
                path
            } else {
                fallback
            },
            (None, None) => fallback,
        },
        explicit is Some ==> paths::home_choice(explicit, default_home, fallback) is Chosen,
{
}

/// A page that a visit created is closed in the end: with a page of its own a
/// visit ends only by closing it, and with that page only.
pub open spec fn keeps_its_page(visit: VisitView) -> bool {
    match visit.stage {
        VisitStageView::Create => visit.place.target is None,
        VisitStageView::CreatePlain => visit.place.target is None,
        VisitStageView::Attach(target) => visit.place.target == Some(target),
        VisitStageView::Close(target, _) => visit.place.target == Some(target),
        VisitStageView::Release(_) => visit.place.target is None,
        _ => true,
    }
}

/// Every step of a visit keeps the page that the visit created, and the visit
/// ends by closing that page.
pub proof fn law_created_pages_are_closed(visit: VisitView, input: VisitInputView)
    requires
        keeps_its_page(visit),
    ensures
        match visit.advance(input) {
            VisitStepView::Wait(next) => {
                &&& keeps_its_page(next)
                &&& visit.place.target is Some ==> next.place.target == visit.place.target
            },
            VisitStepView::Done(_) => true,
        },
        visit.advance(input) is Done && visit.place.target is Some ==> visit.stage is Close
            && visit.action() == VisitActionView::Close(
            storage_visit::close_request(visit.place.target->Some_0),
        ),
{
}

/// Whether a visit has not prepared its session yet.
pub open spec fn unprepared(stage: VisitStageView) -> bool {
    stage is Create || stage is CreatePlain || stage is Attach || stage is Setup
}

/// No page is asked for an origin before the requests of the session are
/// intercepted: a visit leaves its preparation for an origin only when the
/// interception of all requests was accepted.
pub proof fn law_origins_are_visited_behind_an_interception(
    visit: VisitView,
    input: VisitInputView,
)
    requires
        unprepared(visit.stage),
    ensures
        match visit.advance(input) {
            VisitStepView::Wait(next) => next.stage is Navigate ==> match (visit.stage, input) {
                (
                    VisitStageView::Setup(n),
                    VisitInputView::Reply(Ok(_)),
                ) => storage_visit::setup_request(n, visit.place.session_id).params == Some(
                    storage_visit::all_requests(),
                ),
                _ => false,
            },
            VisitStepView::Done(_) => true,
        },
{
}

/// A collection notes only origins that store something.
pub proof fn law_only_origins_with_data_are_collected(visit: VisitView, input: VisitInputView)
    requires
        forall|i: int|
            0 <= i < visit.place.found.len() ==> (#[trigger] visit.place.found[i]).holds_data(),
    ensures
        visit.advance(input) matches VisitStepView::Wait(next) ==> forall|i: int|
            0 <= i < next.place.found.len() ==> (#[trigger] next.place.found[i]).holds_data(),
{
}

proof fn lemma_without_once(list: Seq<Chars>, gone: Chars)
    requires
        list.no_duplicates(),
    ensures
        collections::set_without(list, gone).no_duplicates(),
        forall|x: Chars| #[trigger]
            collections::set_without(list, gone).contains(x) ==> list.contains(x) && x != gone,
    decreases list.len(),
{
    reveal(Seq::filter);
    if list.len() > 0 {
        let rest = list.drop_last();
        let kept = collections::set_without(rest, gone);
        let whole = collections::set_without(list, gone);
        lemma_without_once(rest, gone);
        assert(whole == if list.last() != gone {
            kept.push(list.last())
        } else {
            kept
        });
        assert forall|x: Chars| kept.contains(x) implies list.contains(x) && x != list.last() by {
            let i = rest.index_of(x);
            assert(list[i] == x);
        }
        assert forall|i: int| 0 <= i < kept.len() implies #[trigger] kept[i] != list.last() by {
            assert(kept.contains(kept[i]));
        }
        assert forall|x: Chars| #[trigger] whole.contains(x) implies list.contains(x) && x
            != gone by {
            let i = whole.index_of(x);
            if i < kept.len() {
                assert(kept.contains(kept[i]));
            } else {
                assert(list[list.len() - 1] == x);
            }
        }
    }
}

proof fn lemma_as_set_once(texts: Seq<Chars>)
    ensures
        save::as_set(texts).no_duplicates(),
        forall|x: Chars| #[trigger] save::as_set(texts).contains(x) <==> texts.contains(x),
    decreases texts.len(),
{
    let set = save::as_set(texts);
    if texts.len() > 0 {
        let rest = texts.drop_last();
        let before = save::as_set(rest);
        lemma_as_set_once(rest);
        assert forall|x: Chars| #[trigger] set.contains(x) <==> texts.contains(x) by {
            if set.contains(x) {
                let i = set.index_of(x);
                if i < before.len() {
                    assert(before[i] == x);
                    assert(before.contains(x));
                    assert(texts[rest.index_of(x)] == x);
                } else {
                    assert(texts[texts.len() - 1] == x);
                }
            }
            if texts.contains(x) {
                let i = texts.index_of(x);
                if i < rest.len() {
                    assert(rest[i] == x);
                    assert(before.contains(x));
                    assert(set[before.index_of(x)] == x);
                } else if !before.contains(x) {
                    assert(set[before.len() as int] == x);
                }
            }
        }
    }
}

proof fn lemma_included_once(origins: Seq<Chars>, included: Seq<Chars>)
    requires
        origins.no_duplicates(),
    ensures
        save::with_included(origins, included) matches Ok(all) ==> all.no_duplicates(),
    decreases included.len(),
{
    if included.len() > 0 {
        lemma_included_once(origins, included.drop_last());
    }
}

proof fn lemma_tree_once(tree: JsonView, origins: Seq<Chars>)
    requires
        origins.no_duplicates(),
    ensures
        storage::tree_origins(tree, origins).no_duplicates(),
    decreases tree,
{
    storage::lemma_child_frames(tree);
    if storage::child_frames(tree).len() > 0 {
        lemma_forest_once(storage::child_frames(tree), storage::with_frame(tree, origins));
    }
}

proof fn lemma_forest_once(trees: Seq<JsonView>, origins: Seq<Chars>)
    requires
        origins.no_duplicates(),
    ensures
        storage::forest_origins(trees, origins).no_duplicates(),
    decreases trees,
{
    if trees.len() > 0 {
        lemma_forest_once(trees.drop_last(), origins);
        lemma_tree_once(
            trees[trees.len() - 1],
            storage::forest_origins(trees.drop_last(), origins),
        );
    }
}

/// No origin is visited twice by a saving, however often it was visited before,
/// is to be saved or stands among the frames; and the origin of the page itself
/// is not visited at all.
pub proof fn law_origins_are_visited_once(
    visited: Seq<Chars>,
    included: Seq<Chars>,
    frames: Result<JsonView, Chars>,
    current: Option<OriginView>,
)
    ensures
        match save::with_included(save::as_set(visited), included) {
            Ok(origins) => {
                let left = save::origins_left(save::with_frames(origins, frames), current);
                &&& left.no_duplicates()
                &&& current matches Some(page) ==> !left.contains(page.origin)
            },
            Err(_) => true,
        },
{
    lemma_as_set_once(visited);
    lemma_included_once(save::as_set(visited), included);
    if let Ok(origins) = save::with_included(save::as_set(visited), included) {
        if let Ok(result) = frames {
            if let Some(tree) = result.get("frameTree"@) {
                lemma_tree_once(tree, origins);
            }
        }
        let page = match current {
            Some(page) => page.origin,
            None => Seq::empty(),
        };
        lemma_without_once(save::with_frames(origins, frames), page);
    }
}

} // verus!
