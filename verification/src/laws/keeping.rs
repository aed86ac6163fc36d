//! Files of saved states: what is listed, shown, removed and found, and what is
//! on disk while a new state takes the place of an old one.

use vstd::prelude::*;

use crate::autosave;
use crate::autosave::{
    AutoPlacesView, AutoSaveView, AutoStageView, AutoStepView, FileActionView,
    FileReplyView,
};
use crate::crypto;
use crate::json::JsonView;
use crate::laws::tables;
use crate::save;
use crate::save::SaveTargetView;
use crate::state_files;
use crate::state_files::{FileTime, FileView, StateCommandView};
use crate::state_read;
use crate::state_read::{
    FileContentView, FileRequestView, ReadStageView, ReadStepView, StateReadView,
};
use crate::storage::StorageView;
use crate::text;
use crate::text::Chars;

verus! {

/// Whether a text ends in another one.
pub open spec fn ends_in(whole: Chars, end: Chars) -> bool {
    whole.len() >= end.len() && whole.skip(whole.len() - end.len()) == end
}

/// A saved state is a file whose name ends as states do: plain or encrypted, and
/// the same for backups. Exactly the encrypted ones are taken for encrypted.
pub proof fn law_states_are_known_by_their_endings(name: Chars)
    ensures
        state_files::names_state(name) <==> ends_in(name, ".json"@) || ends_in(name, ".json.enc"@)
            || ends_in(name, ".json.previous"@) || ends_in(name, ".json.enc.previous"@),
        state_files::names_encrypted(name) <==> ends_in(name, ".json.enc"@) || ends_in(
            name,
            ".json.enc.previous"@,
        ),
{
}

/// What is listed of a file: its name and path, its size, the second in which it
/// was changed last, and whether it is encrypted.
pub proof fn law_files_are_told_as_they_are(file: FileView)
    ensures
        ({
            let told = file.to_json();
            &&& told.get_str("filename"@) == Some(file.name)
            &&& told.get_str("path"@) == Some(file.path)
            &&& told.get_u64("size"@) == Some(file.size)
            &&& told.get_u64("modified"@) == Some(seconds_of(file.modified))
            &&& told.get_bool("encrypted"@) == Some(
                ends_in(file.path, ".json.enc"@) || ends_in(file.path, ".json.enc.previous"@),
            )
        }),
{
    reveal_strlit("filename");
    reveal_strlit("path");
    reveal_strlit("size");
    reveal_strlit("modified");
    reveal_strlit("encrypted");
    assert("filename"@.len() == 8);
    assert("path"@.len() == 4);
    assert("size"@.len() == 4);
    assert("modified"@.len() == 8);
    assert("encrypted"@.len() == 9);
    assert("filename"@[0] == 'f');
    assert("modified"@[0] == 'm');
    assert("path"@[0] == 'p');
    assert("size"@[0] == 's');
}

/// Second of a time; none for what is unknown or before the first one.
pub open spec fn seconds_of(time: Option<FileTime>) -> u64 {
    match time {
        Some(t) => if t.secs > 0 {
            t.secs as u64
        } else {
            0
        },
        None => 0,
    }
}

/// A list of states holds every saved state of the directory as it is told, and
/// nothing else; a directory that is missing holds none, and one that cannot be
/// read is an error.
pub proof fn law_states_are_listed(dir: Chars, files: Seq<FileView>, file: FileView, error: Chars)
    ensures
        match state_files::list_answer(dir, Some(Ok(files))) {
            Ok(answer) => {
                let list = answer.get_array("files"@)->Some_0;
                &&& answer.get_str("directory"@) == Some(dir)
                &&& answer.get_array("files"@) is Some
                &&& files.contains(file) && state_files::names_state(file.name) ==> list.contains(
                    file.to_json(),
                )
                &&& forall|k: int| 0 <= k < list.len() ==> lists_one(files, #[trigger] list[k])
            },
            Err(_) => false,
        },
        match state_files::list_answer(dir, None) {
            Ok(answer) => {
                &&& answer.get_str("directory"@) == Some(dir)
                &&& answer.get_array("files"@) == Some(Seq::<JsonView>::empty())
            },
            Err(_) => false,
        },
        state_files::list_answer(dir, Some(Err(error))) == Err::<JsonView, Chars>(
            "Failed to read sessions dir: "@ + error,
        ),
{
    broadcast use tables::lemma_filter_holds;

    reveal_strlit("files");
    reveal_strlit("directory");
    assert("files"@.len() == 5);
    assert("directory"@.len() == 9);
    let kept = files.filter(|f: FileView| state_files::names_state(f.name));
    let list = kept.map_values(|f: FileView| f.to_json());
    assert(kept == state_files::state_files(files));
    if files.contains(file) && state_files::names_state(file.name) {
        assert(kept.contains(file));
        let i = choose|i: int| 0 <= i < kept.len() && kept[i] == file;
        assert(list[i] == file.to_json());
    }
    assert forall|k: int| 0 <= k < list.len() implies lists_one(files, #[trigger] list[k]) by {
        assert(kept.contains(kept[k]));
        let i = choose|i: int| 0 <= i < files.len() && files[i] == kept[k];
        assert(files[i].to_json() == list[k]);
    }
}

/// Whether a JSON value tells a saved state of a directory.
pub open spec fn lists_one(files: Seq<FileView>, told: JsonView) -> bool {
    exists|i: int|
        0 <= i < files.len() && (#[trigger] files[i]).to_json() == told
            && state_files::names_state(files[i].name)
}

/// Clearing removes every saved state and nothing else, and answers how many.
/// Cleaning removes those that are older than the days that are given, to the
/// nanosecond, and answers how many went and how many stayed.
pub proof fn law_states_are_removed_by_kind_and_age(
    files: Seq<FileView>,
    file: FileView,
    now: FileTime,
    days: u64,
)
    requires
        files.len() <= u64::MAX,
    ensures
        ({
            let (answer, gone) = state_files::clear_answer(files);
            &&& answer.get_u64("deleted"@) == Some(gone.len() as u64)
            &&& files.contains(file) && state_files::names_state(file.name) ==> gone.contains(
                file.path,
            )
            &&& forall|k: int| 0 <= k < gone.len() ==> removes_one(files, #[trigger] gone[k])
        }),
        ({
            let (answer, gone) = state_files::clean_answer(files, now, days);
            let all = state_files::clear_answer(files).1;
            let old = file.modified is Some && age_in_nanoseconds(file.modified->Some_0, now)
                > days as int * 86_400_000_000_000;
            &&& answer.get_u64("cleaned"@) == Some(gone.len() as u64)
            &&& answer.get_u64("keptCount"@) == Some((all.len() - gone.len()) as u64)
            &&& answer.get_u64("days"@) == Some(days)
            &&& files.contains(file) && state_files::names_state(file.name) && old
                ==> gone.contains(file.path)
            &&& forall|k: int|
                0 <= k < gone.len() ==> removes_old(files, now, days, #[trigger] gone[k])
        }),
{
    broadcast use tables::lemma_filter_holds;

    reveal_strlit("cleaned");
    reveal_strlit("keptCount");
    reveal_strlit("days");
    reveal_strlit("deleted");
    assert("cleaned"@.len() == 7);
    assert("keptCount"@.len() == 9);
    assert("days"@.len() == 4);
    assert("deleted"@.len() == 7);
    assert("cleaned"@[0] == 'c');
    assert("deleted"@[0] == 'd');
    let kept = files.filter(|f: FileView| state_files::names_state(f.name));
    assert(kept == state_files::state_files(files));
    let paths = kept.map_values(|f: FileView| f.path);
    let old = kept.filter(|f: FileView| state_files::is_expired(f, now, days));
    assert(old == state_files::expired_files(files, now, days));
    let gone = old.map_values(|f: FileView| f.path);
    if files.contains(file) && state_files::names_state(file.name) {
        assert(kept.contains(file));
        let i = choose|i: int| 0 <= i < kept.len() && kept[i] == file;
        assert(paths[i] == file.path);
        if state_files::is_expired(file, now, days) {
            assert(old.contains(file));
            let j = choose|j: int| 0 <= j < old.len() && old[j] == file;
            assert(gone[j] == file.path);
        }
    }
    assert forall|k: int| 0 <= k < paths.len() implies removes_one(files, #[trigger] paths[k]) by {
        assert(kept.contains(kept[k]));
        let i = choose|i: int| 0 <= i < files.len() && files[i] == kept[k];
        assert(files[i].path == paths[k]);
    }
    assert forall|k: int| 0 <= k < gone.len() implies removes_old(
        files,
        now,
        days,
        #[trigger] gone[k],
    ) by {
        assert(old.contains(old[k]));
        assert(kept.contains(old[k]));
        let i = choose|i: int| 0 <= i < files.len() && files[i] == old[k];
        assert(files[i].path == gone[k]);
    }
}

/// How many nanoseconds lie between two times.
pub open spec fn age_in_nanoseconds(then: FileTime, now: FileTime) -> int {
    (now.secs - then.secs) * 1_000_000_000 + (now.nanos - then.nanos)
}

/// Whether a path is that of a saved state of a directory.
pub open spec fn removes_one(files: Seq<FileView>, path: Chars) -> bool {
    exists|i: int|
        0 <= i < files.len() && (#[trigger] files[i]).path == path && state_files::names_state(
            files[i].name,
        )
}

/// Whether a path is that of a saved state of a directory that is too old.
pub open spec fn removes_old(files: Seq<FileView>, now: FileTime, days: u64, path: Chars) -> bool {
    exists|i: int|
        0 <= i < files.len() && (#[trigger] files[i]).path == path && state_files::names_state(
            files[i].name,
        ) && files[i].modified is Some && age_in_nanoseconds(files[i].modified->Some_0, now)
            > days as int * 86_400_000_000_000
}

/// The automatic state of a session is found by its path, if the session has a
/// valid name.
pub proof fn law_automatic_states_are_found_by_path(files: Seq<FileView>, session: Chars)
    ensures
        state_files::auto_state_path(false, files, session) is None,
        match state_files::latest_for(files, session) {
            Some(i) => state_files::auto_state_path(true, files, session) == Some(files[i].path),
            None => state_files::auto_state_path(true, files, session) is None,
        },
        forall|name: Chars| #[trigger]
            state_files::saved_for(name, session) <==> name.len() > session.len() && name.take(
                session.len() as int,
            ) == session && name[session.len() as int] == '-' && (ends_in(name, ".json"@)
                || ends_in(name, ".json.enc"@)),
{
    reveal_strlit("-");
    let head = session + "-"@;
    assert("-"@.len() == 1);
    assert forall|name: Chars| #[trigger]
        state_files::saved_for(name, session) <==> name.len() > session.len() && name.take(
            session.len() as int,
        ) == session && name[session.len() as int] == '-' && (ends_in(name, ".json"@) || ends_in(
            name,
            ".json.enc"@,
        )) by {
        if head.is_prefix_of(name) {
            assert(name.subrange(0, head.len() as int) == head);
            assert(name.take(session.len() as int) =~= session) by {
                assert forall|i: int| 0 <= i < session.len() implies name[i] == session[i] by {
                    assert(name.subrange(0, head.len() as int)[i] == head[i]);
                }
            }
            assert(name.subrange(0, head.len() as int)[session.len() as int] == '-');
        }
        if name.len() > session.len() && name.take(session.len() as int) == session
            && name[session.len() as int] == '-' {
            assert(name.subrange(0, head.len() as int) =~= head) by {
                assert forall|i: int| 0 <= i < session.len() implies name[i] == session[i] by {
                    assert(name.take(session.len() as int)[i] == session[i]);
                }
            }
        }
    }
}

/// A command on states does what its name says, on the path, name and days that
/// it gives; thirty days where it gives none. What it needs has to be there. A
/// command of another name is none on states.
pub proof fn law_state_commands_do_what_they_say(command: JsonView, action: Chars, path: Chars, name: Chars)
    requires
        command.get("action"@) == Some(JsonView::Str(action)),
        command.get("path"@) == Some(JsonView::Str(path)),
        command.get("name"@) == Some(JsonView::Str(name)),
    ensures
        action == "state_list"@ ==> state_files::state_command(command) == Some(
            Ok::<StateCommandView, Chars>(StateCommandView::List),
        ),
        action == "state_show"@ ==> state_files::state_command(command) == Some(
            Ok::<StateCommandView, Chars>(StateCommandView::Show(path)),
        ),
        action == "state_clear"@ ==> state_files::state_command(command) == Some(
            Ok::<StateCommandView, Chars>(StateCommandView::Clear(Some(path))),
        ),
        action == "state_clean"@ ==> state_files::state_command(command) == Some(
            Ok::<StateCommandView, Chars>(
                StateCommandView::Clean(
                    match command.get("days"@) {
                        Some(JsonView::Uint(n)) => n,
                        _ => 30,
                    },
                ),
            ),
        ),
        action == "state_rename"@ ==> state_files::state_command(command) == Some(
            Ok::<StateCommandView, Chars>(StateCommandView::Rename(path, name)),
        ),
        state_files::state_command(command) is None <==> action != "state_list"@ && action
            != "state_show"@ && action != "state_clear"@ && action != "state_clean"@ && action
            != "state_rename"@,
{
    reveal_strlit("state_list");
    reveal_strlit("state_show");
    reveal_strlit("state_clear");
    reveal_strlit("state_clean");
    reveal_strlit("state_rename");
    assert("state_list"@.len() == 10);
    assert("state_show"@.len() == 10);
    assert("state_clear"@.len() == 11);
    assert("state_clean"@.len() == 11);
    assert("state_rename"@.len() == 12);
    assert("state_clean"@[10] == 'n');
    assert("state_clear"@[10] == 'r');
    assert("state_list"@[6] == 'l');
    assert("state_show"@[6] == 's');
}

/// A command on states that lacks what it needs fails; clearing without a path
/// clears them all.
pub proof fn law_incomplete_state_commands_fail(command: JsonView, action: Chars)
    requires
        command.get("action"@) == Some(JsonView::Str(action)),
        !(command.get("path"@) matches Some(JsonView::Str(_))),
    ensures
        action == "state_show"@ || action == "state_rename"@ ==> state_files::state_command(command)
            == Some(Err::<StateCommandView, Chars>("Missing 'path' parameter"@)),
        action == "state_clear"@ ==> state_files::state_command(command) == Some(
            Ok::<StateCommandView, Chars>(StateCommandView::Clear(None)),
        ),
{
    reveal_strlit("state_list");
    reveal_strlit("state_show");
    reveal_strlit("state_clear");
    reveal_strlit("state_clean");
    reveal_strlit("state_rename");
    assert("state_list"@.len() == 10);
    assert("state_show"@.len() == 10);
    assert("state_clear"@.len() == 11);
    assert("state_clean"@.len() == 11);
    assert("state_rename"@.len() == 12);
    assert("state_clean"@[10] == 'n');
    assert("state_clear"@[10] == 'r');
    assert("state_list"@[6] == 'l');
    assert("state_show"@[6] == 's');
}

/// A renaming that was done is answered with both paths; one of a file that is
/// missing, or that failed, is an error. Clearing one file is answered with its
/// path.
pub proof fn law_file_commands_are_answered(
    old_path: Chars,
    to: Chars,
    renamed: Result<(), Chars>,
)
    ensures
        state_files::rename_answer(old_path, false, to, renamed) == Err::<JsonView, Chars>(
            "State file not found: "@ + old_path,
        ),
        renamed matches Err(e) ==> state_files::rename_answer(old_path, true, to, renamed) == Err::<
            JsonView,
            Chars,
        >("Failed to rename state: "@ + e),
        renamed is Ok ==> match state_files::rename_answer(old_path, true, to, renamed) {
            Ok(answer) => {
                &&& answer.get_bool("renamed"@) == Some(true)
                &&& answer.get_str("from"@) == Some(old_path)
                &&& answer.get_str("to"@) == Some(to)
            },
            Err(_) => false,
        },
        match state_files::clear_one_answer(old_path, renamed) {
            Ok(answer) => renamed is Ok && answer.get_str("deleted"@) == Some(old_path),
            Err(message) => renamed matches Err(e) && message == "Failed to delete state: "@ + e,
        },
{
    reveal_strlit("renamed");
    reveal_strlit("from");
    reveal_strlit("to");
    assert("renamed"@.len() == 7);
    assert("from"@.len() == 4);
    assert("to"@.len() == 2);
}

/// A state that is shown is told with its file and with what it holds: how many
/// cookies and origins, and the state itself. A file that cannot be read, or
/// that holds no state, is an error; and it is valid exactly where it can be
/// shown.
pub proof fn law_states_are_shown_in_full(
    path: Chars,
    filename: Chars,
    size: u64,
    modified: Option<FileTime>,
    read: Result<Chars, Chars>,
    parsed: Result<StorageView, Chars>,
)
    ensures
        match state_read::show_answer(path, filename, size, modified, read, parsed) {
            Ok(answer) => {
                &&& read is Ok
                &&& parsed is Ok
                &&& answer.get_str("filename"@) == Some(filename)
                &&& answer.get_str("path"@) == Some(path)
                &&& answer.get_u64("size"@) == Some(size)
                &&& answer.get_u64("modified"@) == Some(seconds_of(modified))
                &&& answer.get_bool("encrypted"@) == Some(
                    ends_in(path, ".json.enc"@) || ends_in(path, ".json.enc.previous"@),
                )
                &&& answer.get_str("summary"@) == Some(
                    text::decimal(parsed->Ok_0.cookies.len()) + " cookies, "@ + text::decimal(
                        parsed->Ok_0.origins.len(),
                    ) + " origins"@,
                )
                &&& answer.get("state"@) == Some(parsed->Ok_0.to_json())
            },
            Err(message) => match (read, parsed) {
                (Err(e), _) => message == e,
                (Ok(_), Err(e)) => message == "Invalid state file: "@ + e,
                _ => false,
            },
        },
        state_read::validity(
            read,
            match parsed {
                Ok(_) => Ok(()),
                Err(e) => Err(e),
            },
        ) is Ok <==> read is Ok && parsed is Ok,
{
    reveal_strlit("filename");
    reveal_strlit("path");
    reveal_strlit("size");
    reveal_strlit("modified");
    reveal_strlit("encrypted");
    reveal_strlit("summary");
    reveal_strlit("state");
    assert("filename"@.len() == 8);
    assert("path"@.len() == 4);
    assert("size"@.len() == 4);
    assert("modified"@.len() == 8);
    assert("encrypted"@.len() == 9);
    assert("summary"@.len() == 7);
    assert("state"@.len() == 5);
    assert("filename"@[0] == 'f');
    assert("modified"@[0] == 'm');
    assert("path"@[0] == 'p');
    assert("size"@[0] == 's');
}

/// A state is read from its own path: an encrypted one as bytes, which the key
/// opens, and any other as text. Where there is no such text but a key, the file
/// beside it with the ending of encrypted ones is tried, unless the state is to
/// be shown. What is decrypted is the text that is read.
pub proof fn law_states_are_read_from_their_file(
    reading: StateReadView,
    text: Chars,
    bytes: Seq<u8>,
    error: Chars,
    key: Chars,
    other: Chars,
)
    requires
        reading.key == Some(key),
    ensures
        reading.stage is Text ==> {
            &&& reading.request() == FileRequestView::Text(reading.path)
            &&& reading.advance(FileContentView::Text(Ok(text))) == ReadStepView::Done(Ok(text))
            &&& reading.shown ==> reading.advance(FileContentView::Text(Err(error)))
                == ReadStepView::Done(Err("Failed to read state file: "@ + error))
            &&& !reading.shown ==> reading.advance(FileContentView::Text(Err(error)))
                == ReadStepView::Wait(
                StateReadView { stage: ReadStageView::Encrypted(error), ..reading },
            )
        },
        reading.stage is Bytes ==> {
            &&& reading.request() == FileRequestView::Bytes(reading.path)
            &&& reading.advance(FileContentView::Bytes(Ok(bytes))) == ReadStepView::Done(
                crypto::decrypted_text(bytes, key),
            )
            &&& reading.advance(FileContentView::Bytes(Err(error))) == ReadStepView::Done(
                Err(
                    if reading.shown {
                        "Failed to read state file: "@ + error
                    } else {
                        "Failed to read state from "@ + reading.path + ": "@ + error
                    },
                ),
            )
        },
        reading.stage == ReadStageView::Encrypted(error) ==> {
            &&& reading.request() == FileRequestView::Bytes(reading.path + ".enc"@)
            &&& reading.advance(FileContentView::Bytes(Ok(bytes))) == ReadStepView::Done(
                crypto::decrypted_text(bytes, key),
            )
            &&& reading.advance(FileContentView::Bytes(Err(other))) == ReadStepView::Done(
                Err(
                    if reading.shown {
                        "Failed to read state file: "@ + error
                    } else {
                        "Failed to read state from "@ + reading.path + ": "@ + error
                    },
                ),
            )
        },
        crypto::decrypted(bytes, key) is Err ==> crypto::decrypted_text(bytes, key) is Err,
        crypto::decrypted(bytes, key) == Ok::<Seq<u8>, Chars>(vstd::utf8::encode_utf8(text))
            ==> crypto::decrypted_text(bytes, key) == Ok::<Chars, Chars>(text),
{
    if crypto::decrypted(bytes, key) == Ok::<Seq<u8>, Chars>(vstd::utf8::encode_utf8(text)) {
        vstd::utf8::encode_utf8_valid_utf8(text);
        vstd::utf8::encode_utf8_decode_utf8(text);
    }
}

/// Without a key there is nothing else to try: a text that cannot be read is
/// told as unreadable, and bytes cannot be opened. What was decrypted but is no
/// text is told so.
pub proof fn law_states_without_a_key_are_read_as_they_are(
    reading: StateReadView,
    bytes: Seq<u8>,
    plain: Seq<u8>,
    error: Chars,
    key: Chars,
)
    requires
        reading.key is None,
    ensures
        reading.stage is Text ==> reading.advance(FileContentView::Text(Err(error)))
            == ReadStepView::Done(
            Err(
                if reading.shown {
                    "Failed to read state file: "@ + error
                } else {
                    "Failed to read state from "@ + reading.path + ": "@ + error
                },
            ),
        ),
        reading.stage is Bytes ==> reading.advance(FileContentView::Bytes(Ok(bytes)))
            == ReadStepView::Done(
            Err("Encrypted state file requires AGENT_BROWSER_ENCRYPTION_KEY"@),
        ),
        crypto::decrypted(bytes, key) == Ok::<Seq<u8>, Chars>(plain) && !vstd::utf8::valid_utf8(
            plain,
        ) ==> crypto::decrypted_text(bytes, key) == Err::<Chars, Chars>(
            "Decrypted state is not valid UTF-8: "@ + crypto::utf8_fault(plain),
        ),
{
}

/// What a reading begins with: the bytes of an encrypted file, which need a key,
/// and the text of any other.
pub proof fn law_readings_begin_with_the_file(path: Chars, key: Option<Chars>, shown: bool)
    ensures
        ({
            let encrypted = ends_in(path, ".json.enc"@) || ends_in(path, ".json.enc.previous"@);
            match StateReadView::start(path, key, shown) {
                ReadStepView::Wait(reading) => {
                    &&& reading.path == path
                    &&& reading.key == key
                    &&& reading.shown == shown
                    &&& encrypted ==> key is Some && reading.stage is Bytes
                    &&& !encrypted ==> reading.stage is Text
                },
                ReadStepView::Done(outcome) => encrypted && key is None && outcome == Err::<
                    Chars,
                    Chars,
                >("Encrypted state file requires AGENT_BROWSER_ENCRYPTION_KEY"@),
            }
        }),
{
}

/// What was encrypted begins with its nonce of twelve bytes and is opened under
/// the key of the passphrase, which is the digest of its text; what is too short
/// is refused.
pub proof fn law_encryption_carries_its_nonce(
    data: Seq<u8>,
    passphrase: Chars,
    nonce: Seq<u8>,
)
    requires
        nonce.len() == 12,
    ensures
        data.len() <= 68_719_476_736 ==> crypto::encrypted(data, passphrase, nonce) is Ok,
        data.len() > 68_719_476_736 ==> crypto::encrypted(data, passphrase, nonce) == Err::<
            Seq<u8>,
            Chars,
        >("Encryption failed: aead::Error"@),
        crypto::encrypted(data, passphrase, nonce) matches Ok(bytes) ==> {
            &&& bytes.take(12) == nonce
            &&& bytes.skip(12) == crypto::sealed(
                crypto::sha256(vstd::utf8::encode_utf8(passphrase)),
                nonce,
                data,
            )
        },
        data.len() <= 12 ==> crypto::decrypted(data, passphrase) == Err::<Seq<u8>, Chars>(
            "Ciphertext too short"@,
        ),
        data.len() > 12 && crypto::decrypted(data, passphrase) is Err ==> crypto::decrypted(
            data,
            passphrase,
        ) == Err::<Seq<u8>, Chars>("Decryption failed: aead::Error"@),
        data.len() > 12 ==> (crypto::decrypted(data, passphrase) is Ok <==> crypto::opened(
            crypto::sha256(vstd::utf8::encode_utf8(passphrase)),
            data.take(12),
            data.skip(12),
        ) is Some),
        crypto::decrypted(data, passphrase) matches Ok(plain) ==> crypto::opened(
            crypto::sha256(vstd::utf8::encode_utf8(passphrase)),
            data.take(12),
            data.skip(12),
        ) == Some(plain),
{
    if let Ok(bytes) = crypto::encrypted(data, passphrase, nonce) {
        let sealed = crypto::sealed(
            crypto::sha256(vstd::utf8::encode_utf8(passphrase)),
            nonce,
            data,
        );
        assert(bytes == nonce + sealed);
        assert(bytes.take(12) =~= nonce);
        assert(bytes.skip(12) =~= sealed);
    }
}

/// A state goes to the path that is given, or to a file of the session, which
/// needs a valid name; with a key the file ends as encrypted ones do.
pub proof fn law_states_go_to_their_file(
    path: Chars,
    name: Chars,
    named: Result<(), Chars>,
    id: Chars,
)
    ensures
        save::target_of(Some(path), name, named, id) == Ok::<SaveTargetView, Chars>(
            SaveTargetView::Given(path),
        ),
        named matches Err(e) ==> save::target_of(None, name, named, id) == Err::<
            SaveTargetView,
            Chars,
        >(e),
        named is Ok ==> save::target_of(None, name, named, id) == Ok::<SaveTargetView, Chars>(
            SaveTargetView::InSessions(name + "-"@ + id + ".json"@),
        ),
        save::save_path(path, false) == path,
        ends_in(path, ".json"@) ==> ends_in(save::save_path(path, true), ".json.enc"@),
        save::save_path(path, true).take(path.len() as int) == path,
{
    reveal_strlit(".json");
    reveal_strlit(".enc");
    reveal_strlit(".json.enc");
    assert(".json.enc"@ =~= ".json"@ + ".enc"@);
    let longer = save::save_path(path, true);
    assert(longer.take(path.len() as int) =~= path);
    if ends_in(path, ".json"@) {
        let cut = path.len() - 5;
        assert(path.skip(cut) == ".json"@);
        assert forall|i: int| 0 <= i < 5 implies path[cut + i] == ".json"@[i] by {
            assert(path.skip(cut)[i] == ".json"@[i]);
        }
        assert(longer.skip(longer.len() - 9) =~= ".json.enc"@);
    }
}

/// What is on disk when a file action is done.
pub open spec fn disk_after(disk: Map<Chars, Chars>, action: FileActionView) -> Map<Chars, Chars> {
    match action {
        FileActionView::Rename(from, to) => disk.remove(from).insert(to, disk[from]),
        FileActionView::Remove(path) => disk.remove(path),
        _ => disk,
    }
}

/// Content of a file, where there is one.
pub open spec fn content(disk: Map<Chars, Chars>, path: Chars) -> Option<Chars> {
    if disk.contains_key(path) {
        Some(disk[path])
    } else {
        None
    }
}

/// Whether a reply to a file action is true of the disk, before and after it: an
/// action that succeeded was done, one that failed left everything as it was,
/// and a file is found if and only if it is there. What a saving wrote is the
/// new state, in a file of its own.
pub open spec fn true_reply(
    machine: AutoSaveView,
    reply: FileReplyView,
    before: Map<Chars, Chars>,
    after: Map<Chars, Chars>,
    new: Chars,
) -> bool {
    match (machine.action(), reply) {
        (FileActionView::Look(path), FileReplyView::Found(found)) => after == before && (found
            <==> before.contains_key(path)),
        (FileActionView::Save(_), FileReplyView::Saved(Ok(written))) => {
            &&& written != machine.paths.file
            &&& written != machine.paths.previous
            &&& after == before.insert(written, new)
        },
        (FileActionView::Save(_), FileReplyView::Saved(Err(_))) => after == before,
        (FileActionView::Rename(from, _), FileReplyView::Done(Ok(_))) => before.contains_key(from)
            && after == disk_after(before, machine.action()),
        (FileActionView::Look(_), _) => false,
        (FileActionView::Save(_), _) => false,
        (_, FileReplyView::Done(Ok(_))) => after == disk_after(before, machine.action()),
        (_, FileReplyView::Done(Err(_))) => after == before,
        _ => false,
    }
}

/// Whether the disk is as it should be at a stage of an automatic saving: the old
/// state is in its file, or in its backup while the new one takes its place, and
/// the new one is where it was written, or in the file.
pub open spec fn disk_is_right(
    machine: AutoSaveView,
    disk: Map<Chars, Chars>,
    old: Option<Chars>,
    new: Chars,
) -> bool {
    let file = machine.paths.file;
    let previous = machine.paths.previous;
    let apart = |written: Chars| written != file && written != previous;
    let kept = content(disk, file) == old;
    let moved = if old is Some {
        content(disk, file) is None && content(disk, previous) == old
    } else {
        content(disk, file) is None
    };
    &&& file != previous
    &&& match machine.stage {
        AutoStageView::MakeDir => kept,
        AutoStageView::MakeTempDir => kept,
        AutoStageView::Save => kept,
        AutoStageView::Validate(written) => kept && apart(written) && content(disk, written)
            == Some(new),
        AutoStageView::Discard(written, _) => kept && apart(written),
        AutoStageView::LookForOld(written) => kept && apart(written) && content(disk, written)
            == Some(new),
        AutoStageView::DropBackup(written) => kept && old is Some && apart(written) && content(
            disk,
            written,
        ) == Some(new),
        AutoStageView::Rotate(written) => kept && old is Some && apart(written) && content(
            disk,
            written,
        ) == Some(new),
        AutoStageView::Promote(written) => moved && apart(written) && content(disk, written)
            == Some(new),
        AutoStageView::LookForBackup(_) => moved,
        AutoStageView::LookForNew(_) => moved && disk.contains_key(previous),
        AutoStageView::Restore(_) => moved && disk.contains_key(previous),
        AutoStageView::LookForLeftover => content(disk, file) == Some(new),
        AutoStageView::DropLeftover => content(disk, file) == Some(new),
    }
}

/// An automatic saving never loses a state: at every stage the old one is in its
/// file or in its backup. When the saving succeeds, the file holds the new state
/// and is the one that is named. When it fails, the file holds the old one as
/// before, or the backup does where it could not be brought back; where there was
/// no old state, there still is none, or what an earlier backup held.
pub proof fn law_automatic_saving_never_loses_a_state(
    machine: AutoSaveView,
    reply: FileReplyView,
    before: Map<Chars, Chars>,
    after: Map<Chars, Chars>,
    old: Option<Chars>,
    new: Chars,
)
    requires
        disk_is_right(machine, before, old, new),
        true_reply(machine, reply, before, after, new),
    ensures
        match machine.advance(reply) {
            AutoStepView::Wait(next) => {
                &&& next.paths == machine.paths
                &&& disk_is_right(next, after, old, new)
            },
            AutoStepView::Done(Ok(path)) => {
                &&& path == machine.paths.file
                &&& content(after, path) == Some(new)
            },
            AutoStepView::Done(Err(_)) => {
                ||| content(after, machine.paths.file) == old
                ||| old is Some && content(after, machine.paths.previous) == old
                ||| old is None && content(after, machine.paths.file) == content(
                    before,
                    machine.paths.previous,
                )
            },
        },
{
}

/// Only what was found valid takes the place of the old state: a new one that is
/// not valid is removed, and the saving fails with the reason.
pub proof fn law_only_valid_states_take_the_place(
    machine: AutoSaveView,
    written: Chars,
    error: Chars,
    reply: Result<(), Chars>,
)
    requires
        machine.stage == AutoStageView::Validate(written),
    ensures
        machine.action() == FileActionView::Validate(written),
        machine.advance(FileReplyView::Done(Ok(()))) == AutoStepView::Wait(
            AutoSaveView { stage: AutoStageView::LookForOld(written), ..machine },
        ),
        match machine.advance(FileReplyView::Done(Err(error))) {
            AutoStepView::Wait(next) => {
                &&& next.action() == FileActionView::Remove(written)
                &&& next.advance(FileReplyView::Done(reply)) == AutoStepView::Done(Err(error))
            },
            AutoStepView::Done(_) => false,
        },
{
}

/// An automatic saving creates the directories that it needs, and saves the new
/// state as the candidate in the second one. What fails there ends it.
pub proof fn law_automatic_saving_prepares_its_directories(
    named: Result<(), Chars>,
    places: AutoPlacesView,
    with_key: bool,
    error: Chars,
)
    ensures
        named matches Err(e) ==> autosave::auto_start(named, places, with_key)
            == AutoStepView::Done(Err(e)),
        named is Ok ==> match autosave::auto_start(named, places, with_key) {
            AutoStepView::Wait(first) => {
                &&& first.paths.file == save::save_path(places.file, with_key)
                &&& first.paths.previous == first.paths.file + ".previous"@
                &&& first.action() == FileActionView::CreateDir(places.dir)
                &&& first.advance(FileReplyView::Done(Err(error))) == AutoStepView::Done(
                    Err("Failed to create state directory "@ + places.dir + ": "@ + error),
                )
                &&& match first.advance(FileReplyView::Done(Ok(()))) {
                    AutoStepView::Wait(second) => {
                        &&& second.action() == FileActionView::CreateDir(places.temp_dir)
                        &&& second.advance(FileReplyView::Done(Err(error))) == AutoStepView::Done(
                            Err(
                                "Failed to create temporary state directory "@ + places.temp_dir
                                    + ": "@ + error,
                            ),
                        )
                        &&& match second.advance(FileReplyView::Done(Ok(()))) {
                            AutoStepView::Wait(third) => {
                                &&& third.action() == FileActionView::Save(places.candidate)
                                &&& third.advance(FileReplyView::Saved(Err(error)))
                                    == AutoStepView::Done(Err(error))
                            },
                            AutoStepView::Done(_) => false,
                        }
                    },
                    AutoStepView::Done(_) => false,
                }
            },
            AutoStepView::Done(_) => false,
        },
{
}

/// What could not be moved is told with both paths and the reason.
pub proof fn law_failed_moves_are_told(
    machine: AutoSaveView,
    written: Chars,
    error: Chars,
    message: Chars,
)
    ensures
        machine.stage == AutoStageView::Rotate(written) ==> machine.advance(
            FileReplyView::Done(Err(error)),
        ) == AutoStepView::Done(
            Err(
                "Failed to rotate previous state "@ + machine.paths.file + " to "@
                    + machine.paths.previous + ": "@ + error,
            ),
        ),
        machine.stage == AutoStageView::Promote(written) ==> machine.advance(
            FileReplyView::Done(Err(error)),
        ) == AutoStepView::Wait(
            AutoSaveView {
                stage: AutoStageView::LookForBackup(
                    "Failed to promote state "@ + written + " to "@ + machine.paths.file + ": "@
                        + error,
                ),
                ..machine
            },
        ),
        machine.stage == AutoStageView::LookForBackup(message) ==> machine.advance(
            FileReplyView::Found(false),
        ) == AutoStepView::Done(Err(message)),
{
}

/// The names of the files of an automatic saving: the state by session and
/// identifier, and the candidate by the process too, so that two processes do
/// not write the same one.
pub proof fn law_candidates_of_processes_differ(session: Chars, id: Chars, m: u32, n: u32)
    requires
        m != n,
    ensures
        autosave::names_of(session, id, m).file == session + "-"@ + id + ".json"@,
        autosave::names_of(session, id, m).candidate != autosave::names_of(
            session,
            id,
            n,
        ).candidate,
        autosave::names_of(session, id, m).temp_dir == ".tmp"@,
{
    crate::laws::order::law_decimals_differ(m as nat, n as nat);
    let head = session + "-"@ + id + "-candidate-"@;
    let a = text::decimal(m as nat);
    let b = text::decimal(n as nat);
    let x = head + a + ".json"@;
    let y = head + b + ".json"@;
    if x == y {
        assert(x.len() == head.len() + a.len() + ".json"@.len());
        assert(y.len() == head.len() + b.len() + ".json"@.len());
        assert(a =~= x.subrange(head.len() as int, (head.len() + a.len()) as int));
        assert(b =~= y.subrange(head.len() as int, (head.len() + b.len()) as int));
    }
}

} // verus!
