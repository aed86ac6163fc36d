//! Commands on the files of saved states, decided from what a directory lists.

use vstd::prelude::*;

use crate::json::{Json, JsonView};
use crate::text;
use crate::text::{ends_with, starts_with, str_eq, Chars};

verus! {

/// A time of the file system: seconds since the epoch, and nanoseconds.
#[derive(Clone, Copy)]
pub struct FileTime {
    pub secs: i64,
    pub nanos: u32,
}

impl FileTime {
    /// Nanoseconds since the epoch.
    pub open spec fn total(self) -> int {
        self.secs * 1_000_000_000 + self.nanos
    }

    /// Whole seconds since the epoch; none before it.
    pub open spec fn whole_seconds(self) -> u64 {
        if self.secs >= 0 {
            self.secs as u64
        } else {
            0
        }
    }

    fn nanoseconds(&self) -> (r: i128)
        ensures
            r == self.total(),
    {
        self.secs as i128 * 1_000_000_000 + self.nanos as i128
    }

    fn seconds(&self) -> (r: u64)
        ensures
            r == self.whole_seconds(),
    {
        if self.secs >= 0 {
            self.secs as u64
        } else {
            0
        }
    }
}

/// A file that a directory lists.
pub struct FileEntry {
    pub name: String,
    pub path: String,
    pub size: u64,
    pub modified: Option<FileTime>,
}

/// Model of a listed file.
#[verifier::ext_equal]
pub struct FileView {
    pub name: Chars,
    pub path: Chars,
    pub size: u64,
    pub modified: Option<FileTime>,
}

impl DeepView for FileEntry {
    type V = FileView;

    open spec fn deep_view(&self) -> FileView {
        FileView {
            name: self.name@,
            path: self.path@,
            size: self.size,
            modified: self.modified,
        }
    }
}

/// Whether a file name is that of a saved state or of its backup.
pub open spec fn names_state(name: Chars) -> bool {
    ".json"@.is_suffix_of(name) || ".json.enc"@.is_suffix_of(name) || ".json.previous"@.is_suffix_of(
        name,
    ) || ".json.enc.previous"@.is_suffix_of(name)
}

/// Whether a path is that of an encrypted state or of its backup.
pub open spec fn names_encrypted(path: Chars) -> bool {
    ".json.enc"@.is_suffix_of(path) || ".json.enc.previous"@.is_suffix_of(path)
}

/// Whether a file name is that of a saved state or of its backup.
pub fn is_state_file(name: &str) -> (r: bool)
    ensures
        r == names_state(name@),
{
    ends_with(name, ".json") || ends_with(name, ".json.enc") || ends_with(name, ".json.previous")
        || ends_with(name, ".json.enc.previous")
}

/// Whether a path is that of an encrypted state or of its backup.
pub fn is_encrypted_state(path: &str) -> (r: bool)
    ensures
        r == names_encrypted(path@),
{
    ends_with(path, ".json.enc") || ends_with(path, ".json.enc.previous")
}

/// Seconds since the epoch at which a file was changed; zero where it is not
/// known.
pub open spec fn modified_seconds(modified: Option<FileTime>) -> u64 {
    match modified {
        Some(t) => t.whole_seconds(),
        None => 0,
    }
}

/// Seconds since the epoch at which a file was changed.
pub fn seconds_of(modified: Option<FileTime>) -> (r: u64)
    ensures
        r == modified_seconds(modified),
{
    match modified {
        Some(t) => t.seconds(),
        None => 0,
    }
}

impl FileView {
    /// How a listing describes the file.
    pub open spec fn to_json(self) -> JsonView {
        JsonView::object().with("filename"@, JsonView::Str(self.name)).with(
            "path"@,
            JsonView::Str(self.path),
        ).with("size"@, JsonView::Uint(self.size)).with(
            "modified"@,
            JsonView::Uint(modified_seconds(self.modified)),
        ).with("encrypted"@, JsonView::Bool(names_encrypted(self.path)))
    }
}

impl FileEntry {
    fn to_json(&self) -> (r: Json)
        ensures
            r@ == self.deep_view().to_json(),
    {
        Json::object().with("filename", Json::text(self.name.as_str())).with(
            "path",
            Json::text(self.path.as_str()),
        ).with("size", Json::Uint(self.size)).with(
            "modified",
            Json::Uint(seconds_of(self.modified)),
        ).with("encrypted", Json::Bool(is_encrypted_state(self.path.as_str())))
    }
}

/// The files of a listing that are saved states.
pub open spec fn state_files(files: Seq<FileView>) -> Seq<FileView> {
    files.filter(|f: FileView| names_state(f.name))
}

/// Answer to a list command.
pub open spec fn list_answer(dir: Chars, listing: Option<Result<Seq<FileView>, Chars>>) -> Result<
    JsonView,
    Chars,
> {
    match listing {
        Some(Err(e)) => Err("Failed to read sessions dir: "@ + e),
        Some(Ok(files)) => Ok(
            JsonView::object().with(
                "files"@,
                JsonView::Array(state_files(files).map_values(|f: FileView| f.to_json())),
            ).with("directory"@, JsonView::Str(dir)),
        ),
        None => Ok(
            JsonView::object().with("files"@, JsonView::Array(Seq::empty())).with(
                "directory"@,
                JsonView::Str(dir),
            ),
        ),
    }
}

/// Model of a listing.
pub open spec fn listing_view(listing: Option<Result<Vec<FileEntry>, String>>) -> Option<
    Result<Seq<FileView>, Chars>,
> {
    match listing {
        Some(r) => Some(text::outcome(r)),
        None => None,
    }
}

/// Lists the saved states of a directory; there are none where there is no
/// directory.
pub fn state_list(dir: &str, listing: &Option<Result<Vec<FileEntry>, String>>) -> (r: Result<
    Json,
    String,
>)
    ensures
        text::outcome(r) == list_answer(dir@, listing_view(*listing)),
{
    let mut items: Vec<Json> = Vec::new();
    assert(items.deep_view() =~= Seq::<JsonView>::empty());
    match listing {
        None => {},
        Some(Err(e)) => {
            return Err("Failed to read sessions dir: ".to_owned().concat(e.as_str()));
        },
        Some(Ok(files)) => {
            let ghost all = files.deep_view();
            let ghost pred = |f: FileView| names_state(f.name);
            let ghost f = |f: FileView| f.to_json();
            let mut i: usize = 0;
            assert(items.deep_view() =~= all.take(0).filter(pred).map_values(f)) by {
                reveal(Seq::filter);
            }
            while i < files.len()
                invariant
                    all == files.deep_view(),
                    pred == (|f: FileView| names_state(f.name)),
                    f == (|f: FileView| f.to_json()),
                    i <= files.len(),
                    items.deep_view() == all.take(i as int).filter(pred).map_values(f),
                decreases files.len() - i,
            {
                let file = &files[i];
                let ghost item = file.deep_view();
                let ghost was = all.take(i as int).filter(pred);
                let ghost before = items.deep_view();
                proof {
                    assert(all[i as int] == item);
                    assert(all.take(i + 1) == all.take(i as int).push(item));
                    all.take(i as int).lemma_filter_push(item, pred);
                }
                if is_state_file(file.name.as_str()) {
                    items.push(file.to_json());
                    proof {
                        assert(items.deep_view() =~= before.push(f(item)));
                        assert(was.push(item).map_values(f) =~= was.map_values(f).push(f(item)));
                    }
                }
                i = i + 1;
            }
            assert(all.take(i as int) == all);
        },
    }
    Ok(Json::object().with("files", Json::array(items)).with("directory", Json::text(dir)))
}

/// Answer to a clear command, and the paths that go. A directory that cannot be
/// read counts as empty.
pub open spec fn clear_answer(files: Seq<FileView>) -> (JsonView, Seq<Chars>) {
    (
        JsonView::object().with("deleted"@, JsonView::Uint(state_files(files).len() as u64)),
        state_files(files).map_values(|f: FileView| f.path),
    )
}

/// Says which files a clear command removes, and what it answers.
pub fn state_clear(files: &Vec<FileEntry>) -> (r: (Json, Vec<String>))
    ensures
        r.deep_view() == clear_answer(files.deep_view()),
{
    let ghost all = files.deep_view();
    let ghost pred = |f: FileView| names_state(f.name);
    let ghost f = |f: FileView| f.path;
    let mut gone: Vec<String> = Vec::new();
    let mut i: usize = 0;
    assert(gone.deep_view() =~= all.take(0).filter(pred).map_values(f)) by {
        reveal(Seq::filter);
    }
    while i < files.len()
        invariant
            all == files.deep_view(),
            pred == (|f: FileView| names_state(f.name)),
            f == (|f: FileView| f.path),
            i <= files.len(),
            gone.deep_view() == all.take(i as int).filter(pred).map_values(f),
        decreases files.len() - i,
    {
        let file = &files[i];
        let ghost item = file.deep_view();
        let ghost was = all.take(i as int).filter(pred);
        let ghost before = gone.deep_view();
        proof {
            assert(all[i as int] == item);
            assert(all.take(i + 1) == all.take(i as int).push(item));
            all.take(i as int).lemma_filter_push(item, pred);
        }
        if is_state_file(file.name.as_str()) {
            gone.push(file.path.clone());
            proof {
                assert(gone.deep_view() =~= before.push(f(item)));
                assert(was.push(item).map_values(f) =~= was.map_values(f).push(f(item)));
            }
        }
        i = i + 1;
    }
    assert(all.take(i as int) == all);
    assert(gone.deep_view().len() == state_files(all).len());
    let count = gone.len() as u64;
    (Json::object().with("deleted", Json::Uint(count)), gone)
}

/// Answer to a clear command for one file.
pub open spec fn clear_one_answer(path: Chars, removed: Result<(), Chars>) -> Result<
    JsonView,
    Chars,
> {
    match removed {
        Ok(_) => Ok(JsonView::object().with("deleted"@, JsonView::Str(path))),
        Err(e) => Err("Failed to delete state: "@ + e),
    }
}

/// Model of a result without a value.
pub open spec fn unit_outcome(r: Result<(), String>) -> Result<(), Chars> {
    match r {
        Ok(_) => Ok(()),
        Err(e) => Err(e@),
    }
}

/// Answers a clear command for one file.
pub fn state_cleared(path: &str, removed: &Result<(), String>) -> (r: Result<Json, String>)
    ensures
        text::outcome(r) == clear_one_answer(path@, unit_outcome(*removed)),
{
    match removed {
        Ok(_) => Ok(Json::object().with("deleted", Json::text(path))),
        Err(e) => Err("Failed to delete state: ".to_owned().concat(e.as_str())),
    }
}

/// Whether a file is older than a number of days. A file of unknown age, or of
/// a time to come, is not.
pub open spec fn is_expired(file: FileView, now: FileTime, days: u64) -> bool {
    file.modified is Some && now.total() - file.modified->Some_0.total() > days * 86_400
        * 1_000_000_000
}

/// The saved states that are older than a number of days.
pub open spec fn expired_files(files: Seq<FileView>, now: FileTime, days: u64) -> Seq<FileView> {
    state_files(files).filter(|f: FileView| is_expired(f, now, days))
}

/// Answer to a clean command, and the paths that go.
pub open spec fn clean_answer(files: Seq<FileView>, now: FileTime, days: u64) -> (
    JsonView,
    Seq<Chars>,
) {
    let gone = expired_files(files, now, days);
    (
        JsonView::object().with("cleaned"@, JsonView::Uint(gone.len() as u64)).with(
            "keptCount"@,
            JsonView::Uint((state_files(files).len() - gone.len()) as u64),
        ).with("days"@, JsonView::Uint(days)),
        gone.map_values(|f: FileView| f.path),
    )
}

impl FileEntry {
    fn expired(&self, now: FileTime, days: u64) -> (r: bool)
        ensures
            r == is_expired(self.deep_view(), now, days),
    {
        match self.modified {
            Some(modified) => {
                let limit: i128 = days as i128 * 86_400 * 1_000_000_000;
                now.nanoseconds() - modified.nanoseconds() > limit
            },
            None => false,
        }
    }
}

/// The files of a directory; there are none where there is no directory.
pub open spec fn files_listed(listing: Option<Vec<FileEntry>>) -> Seq<FileView> {
    match listing {
        Some(files) => files.deep_view(),
        None => Seq::empty(),
    }
}

/// Says which files of a directory a clean command removes, and what it answers.
/// The age that it goes by has to fit in 64 bits where there is a directory.
pub fn state_clean(listing: &Option<Vec<FileEntry>>, now: FileTime, max_age_days: u64) -> (r: (
    Json,
    Vec<String>,
))
    requires
        listing is Some ==> max_age_days * 86_400 <= u64::MAX,
    ensures
        r.deep_view() == clean_answer(files_listed(*listing), now, max_age_days),
{
    match listing {
        Some(files) => clean_files(files, now, max_age_days),
        None => {
            let none: Vec<FileEntry> = Vec::new();
            assert(none.deep_view() =~= Seq::<FileView>::empty());
            clean_files(&none, now, max_age_days)
        },
    }
}

fn clean_files(files: &Vec<FileEntry>, now: FileTime, max_age_days: u64) -> (r: (
    Json,
    Vec<String>,
))
    ensures
        r.deep_view() == clean_answer(files.deep_view(), now, max_age_days),
{
    let ghost all = files.deep_view();
    let ghost pred = |f: FileView| names_state(f.name);
    let ghost aged = |f: FileView| is_expired(f, now, max_age_days);
    let ghost f = |f: FileView| f.path;
    let mut gone: Vec<String> = Vec::new();
    let mut kept: u64 = 0;
    let mut i: usize = 0;
    proof {
        reveal(Seq::filter);
        assert(gone.deep_view() =~= all.take(0).filter(pred).filter(aged).map_values(f));
    }
    while i < files.len()
        invariant
            all == files.deep_view(),
            pred == (|f: FileView| names_state(f.name)),
            aged == (|f: FileView| is_expired(f, now, max_age_days)),
            f == (|f: FileView| f.path),
            i <= files.len(),
            gone.deep_view() == all.take(i as int).filter(pred).filter(aged).map_values(f),
            kept + gone.len() == all.take(i as int).filter(pred).len() <= i,
        decreases files.len() - i,
    {
        let file = &files[i];
        let ghost item = file.deep_view();
        let ghost was = all.take(i as int).filter(pred);
        let ghost before = gone.deep_view();
        proof {
            assert(all[i as int] == item);
            assert(all.take(i + 1) == all.take(i as int).push(item));
            all.take(i as int).lemma_filter_push(item, pred);
            was.lemma_filter_push(item, aged);
        }
        if is_state_file(file.name.as_str()) {
            if file.expired(now, max_age_days) {
                gone.push(file.path.clone());
                proof {
                    assert(gone.deep_view() =~= before.push(f(item)));
                    let left = was.filter(aged);
                    assert(left.push(item).map_values(f) =~= left.map_values(f).push(f(item)));
                }
            } else {
                kept = kept + 1;
            }
        }
        i = i + 1;
    }
    assert(all.take(i as int) == all);
    assert(gone.deep_view().len() == expired_files(all, now, max_age_days).len());
    let count = gone.len() as u64;
    (
        Json::object().with("cleaned", Json::Uint(count)).with(
            "keptCount",
            Json::Uint(kept),
        ).with("days", Json::Uint(max_age_days)),
        gone,
    )
}

/// Name of the file of a renamed state, which stays beside the old one.
pub fn rename_target(new_name: &str) -> (r: String)
    ensures
        r@ == new_name@ + ".json"@,
{
    new_name.to_owned().concat(".json")
}

/// Answer to a rename command: whether the old file was there, and how the
/// renaming ended.
pub open spec fn rename_answer(
    old_path: Chars,
    found: bool,
    to: Chars,
    renamed: Result<(), Chars>,
) -> Result<JsonView, Chars> {
    if !found {
        Err("State file not found: "@ + old_path)
    } else {
        match renamed {
            Err(e) => Err("Failed to rename state: "@ + e),
            Ok(_) => Ok(
                JsonView::object().with("renamed"@, JsonView::Bool(true)).with(
                    "from"@,
                    JsonView::Str(old_path),
                ).with("to"@, JsonView::Str(to)),
            ),
        }
    }
}

/// Answers a rename command.
pub fn state_rename(old_path: &str, found: bool, to: &str, renamed: &Result<(), String>) -> (r:
    Result<Json, String>)
    ensures
        text::outcome(r) == rename_answer(old_path@, found, to@, unit_outcome(*renamed)),
{
    if !found {
        return Err("State file not found: ".to_owned().concat(old_path));
    }
    match renamed {
        Err(e) => Err("Failed to rename state: ".to_owned().concat(e.as_str())),
        Ok(_) => Ok(
            Json::object().with("renamed", Json::Bool(true)).with(
                "from",
                Json::text(old_path),
            ).with("to", Json::text(to)),
        ),
    }
}

/// Whether a file was saved automatically for a session.
pub open spec fn saved_for(name: Chars, session: Chars) -> bool {
    (session + "-"@).is_prefix_of(name) && (".json"@.is_suffix_of(name) || ".json.enc"@.is_suffix_of(
        name,
    ))
}

/// Nanoseconds at which a file was changed; the epoch where it is not known.
pub open spec fn modified_total(file: FileView) -> int {
    match file.modified {
        Some(t) => t.total(),
        None => 0,
    }
}

/// Position of the latest file that was saved for a session; of files of one
/// time the first.
pub open spec fn latest_for(files: Seq<FileView>, session: Chars) -> Option<int>
    decreases files.len(),
{
    if files.len() == 0 {
        None
    } else {
        let n = files.len() - 1;
        let best = latest_for(files.drop_last(), session);
        if saved_for(files[n].name, session) && (best is None || modified_total(files[n])
            > modified_total(files[best->Some_0])) {
            Some(n)
        } else {
            best
        }
    }
}

/// Path of the latest file that was saved for a session.
pub open spec fn auto_state_path(valid: bool, files: Seq<FileView>, session: Chars) -> Option<
    Chars,
> {
    if !valid {
        None
    } else {
        match latest_for(files, session) {
            Some(i) => Some(files[i].path),
            None => None,
        }
    }
}

fn total_of(file: &FileEntry) -> (r: i128)
    ensures
        r == modified_total(file.deep_view()),
{
    match file.modified {
        Some(t) => t.nanoseconds(),
        None => 0,
    }
}

/// Finds the latest file that was saved for a session whose name is valid.
pub fn find_auto_state_file(session_name: &str, valid: bool, files: &Vec<FileEntry>) -> (r: Option<
    String,
>)
    ensures
        r.deep_view() == auto_state_path(valid, files.deep_view(), session_name@),
{
    if !valid {
        return None;
    }
    let prefix = session_name.to_owned().concat("-");
    let ghost all = files.deep_view();
    let mut best: Option<usize> = None;
    let mut i: usize = 0;
    while i < files.len()
        invariant
            prefix@ == session_name@ + "-"@,
            all == files.deep_view(),
            i <= files.len(),
            match best {
                Some(b) => b < i && latest_for(all.take(i as int), session_name@) == Some(
                    b as int,
                ),
                None => latest_for(all.take(i as int), session_name@) is None,
            },
        decreases files.len() - i,
    {
        let file = &files[i];
        let name = file.name.as_str();
        let ghost next = all.take(i + 1);
        proof {
            assert(next.drop_last() == all.take(i as int));
            assert(next[i as int] == file.deep_view());
        }
        if starts_with(name, prefix.as_str()) && (ends_with(name, ".json") || ends_with(
            name,
            ".json.enc",
        )) {
            let later = match best {
                None => true,
                Some(b) => {
                    assert(all.take(i as int)[b as int] == files@[b as int].deep_view());
                    assert(next[b as int] == files@[b as int].deep_view());
                    total_of(file) > total_of(&files[b])
                },
            };
            if later {
                best = Some(i);
            }
        }
        i = i + 1;
    }
    assert(all.take(i as int) == all);
    match best {
        Some(b) => Some(files[b].path.clone()),
        None => None,
    }
}

/// A command on saved states.
pub enum StateCommand {
    List,
    Show(String),
    Clear(Option<String>),
    Clean(u64),
    Rename(String, String),
}

/// Model of a command on saved states.
pub enum StateCommandView {
    List,
    Show(Chars),
    Clear(Option<Chars>),
    Clean(u64),
    Rename(Chars, Chars),
}

impl DeepView for StateCommand {
    type V = StateCommandView;

    open spec fn deep_view(&self) -> StateCommandView {
        match *self {
            StateCommand::List => StateCommandView::List,
            StateCommand::Show(path) => StateCommandView::Show(path@),
            StateCommand::Clear(path) => StateCommandView::Clear(path.deep_view()),
            StateCommand::Clean(days) => StateCommandView::Clean(days),
            StateCommand::Rename(path, name) => StateCommandView::Rename(path@, name@),
        }
    }
}

/// The command on saved states that a command is, if it is one, or what it
/// lacks.
pub open spec fn state_command(command: JsonView) -> Option<Result<StateCommandView, Chars>> {
    match command.get_str("action"@) {
        None => None,
        Some(action) => if action == "state_list"@ {
            Some(Ok(StateCommandView::List))
        } else if action == "state_show"@ {
            Some(
                match command.get_str("path"@) {
                    Some(path) => Ok(StateCommandView::Show(path)),
                    None => Err("Missing 'path' parameter"@),
                },
            )
        } else if action == "state_clear"@ {
            Some(Ok(StateCommandView::Clear(command.get_str("path"@))))
        } else if action == "state_clean"@ {
            Some(
                Ok(
                    StateCommandView::Clean(
                        match command.get_u64("days"@) {
                            Some(days) => days,
                            None => 30,
                        },
                    ),
                ),
            )
        } else if action == "state_rename"@ {
            Some(
                match (command.get_str("path"@), command.get_str("name"@)) {
                    (None, _) => Err("Missing 'path' parameter"@),
                    (Some(_), None) => Err("Missing 'name' parameter"@),
                    (Some(path), Some(name)) => Ok(StateCommandView::Rename(path, name)),
                },
            )
        } else {
            None
        },
    }
}

/// Model of what a command was read as.
pub open spec fn dispatched(r: Option<Result<StateCommand, String>>) -> Option<
    Result<StateCommandView, Chars>,
> {
    match r {
        Some(result) => Some(text::outcome(result)),
        None => None,
    }
}

/// Reads the command on saved states that a command is, if it is one.
pub fn dispatch_state_command(command: &Json) -> (r: Option<Result<StateCommand, String>>)
    ensures
        dispatched(r) == state_command(command@),
{
    let action = match command.get_str("action") {
        Some(action) => action,
        None => {
            return None;
        },
    };
    if str_eq(action, "state_list") {
        Some(Ok(StateCommand::List))
    } else if str_eq(action, "state_show") {
        match command.get_str("path") {
            Some(path) => Some(Ok(StateCommand::Show(path.to_owned()))),
            None => Some(Err("Missing 'path' parameter".to_owned())),
        }
    } else if str_eq(action, "state_clear") {
        match command.get_str("path") {
            Some(path) => Some(Ok(StateCommand::Clear(Some(path.to_owned())))),
            None => Some(Ok(StateCommand::Clear(None))),
        }
    } else if str_eq(action, "state_clean") {
        match command.get_u64("days") {
            Some(days) => Some(Ok(StateCommand::Clean(days))),
            None => Some(Ok(StateCommand::Clean(30))),
        }
    } else if str_eq(action, "state_rename") {
        match (command.get_str("path"), command.get_str("name")) {
            (None, _) => Some(Err("Missing 'path' parameter".to_owned())),
            (Some(_), None) => Some(Err("Missing 'name' parameter".to_owned())),
            (Some(path), Some(name)) => Some(
                Ok(StateCommand::Rename(path.to_owned(), name.to_owned())),
            ),
        }
    } else {
        None
    }
}

} // verus!
