//! Reading of a saved state from its file, which may be encrypted.

use vstd::prelude::*;

use crate::crypto;
use crate::crypto::decrypt_text;
use crate::json::{Json, JsonView};
use crate::state_files;
use crate::state_files::{is_encrypted_state, FileTime};
use crate::storage::{StorageState, StorageView};
use crate::text;
use crate::text::{u64_text, Chars};

verus! {

/// What a reading waits for: the text of the file, its bytes, or the bytes of
/// the encrypted file beside it after the text could not be read.
pub enum ReadStage {
    Text,
    Bytes,
    Encrypted(String),
}

/// Model of what a reading waits for.
pub enum ReadStageView {
    Text,
    Bytes,
    Encrypted(Chars),
}

impl DeepView for ReadStage {
    type V = ReadStageView;

    open spec fn deep_view(&self) -> ReadStageView {
        match *self {
            ReadStage::Text => ReadStageView::Text,
            ReadStage::Bytes => ReadStageView::Bytes,
            ReadStage::Encrypted(e) => ReadStageView::Encrypted(e@),
        }
    }
}

/// Reading of the file of a saved state. Where a file is only shown, no other
/// file is read in its place.
pub struct StateRead {
    pub path: String,
    pub key: Option<String>,
    pub shown: bool,
    pub stage: ReadStage,
}

/// Model of a reading.
pub struct StateReadView {
    pub path: Chars,
    pub key: Option<Chars>,
    pub shown: bool,
    pub stage: ReadStageView,
}

impl DeepView for StateRead {
    type V = StateReadView;

    open spec fn deep_view(&self) -> StateReadView {
        StateReadView {
            path: self.path@,
            key: self.key.deep_view(),
            shown: self.shown,
            stage: self.stage.deep_view(),
        }
    }
}

/// A file to read.
pub enum FileRequest {
    Text(String),
    Bytes(String),
}

/// Model of a file to read.
pub enum FileRequestView {
    Text(Chars),
    Bytes(Chars),
}

impl View for FileRequest {
    type V = FileRequestView;

    open spec fn view(&self) -> FileRequestView {
        match *self {
            FileRequest::Text(path) => FileRequestView::Text(path@),
            FileRequest::Bytes(path) => FileRequestView::Bytes(path@),
        }
    }
}

/// What was read.
pub enum FileContent {
    Text(Result<String, String>),
    Bytes(Result<Vec<u8>, String>),
}

/// Model of what was read.
pub enum FileContentView {
    Text(Result<Chars, Chars>),
    Bytes(Result<Seq<u8>, Chars>),
}

impl View for FileContent {
    type V = FileContentView;

    open spec fn view(&self) -> FileContentView {
        match *self {
            FileContent::Text(r) => FileContentView::Text(text::outcome(r)),
            FileContent::Bytes(r) => FileContentView::Bytes(crypto::bytes_outcome(r)),
        }
    }
}

/// What a reading came to.
pub enum ReadStep {
    Wait(StateRead),
    Done(Result<String, String>),
}

/// Model of what a reading came to.
pub enum ReadStepView {
    Wait(StateReadView),
    Done(Result<Chars, Chars>),
}

impl View for ReadStep {
    type V = ReadStepView;

    open spec fn view(&self) -> ReadStepView {
        match *self {
            ReadStep::Wait(machine) => ReadStepView::Wait(machine.deep_view()),
            ReadStep::Done(r) => ReadStepView::Done(text::outcome(r)),
        }
    }
}

impl StateReadView {
    /// What a reading comes to before its first file. An encrypted file needs a
    /// key.
    pub open spec fn start(path: Chars, key: Option<Chars>, shown: bool) -> ReadStepView {
        if state_files::names_encrypted(path) {
            if key is None {
                ReadStepView::Done(
                    Err("Encrypted state file requires AGENT_BROWSER_ENCRYPTION_KEY"@),
                )
            } else {
                ReadStepView::Wait(
                    StateReadView { path, key, shown, stage: ReadStageView::Bytes },
                )
            }
        } else {
            ReadStepView::Wait(StateReadView { path, key, shown, stage: ReadStageView::Text })
        }
    }

    /// The file that the reading waits for.
    pub open spec fn request(self) -> FileRequestView {
        match self.stage {
            ReadStageView::Text => FileRequestView::Text(self.path),
            ReadStageView::Bytes => FileRequestView::Bytes(self.path),
            ReadStageView::Encrypted(_) => FileRequestView::Bytes(self.path + ".enc"@),
        }
    }

    /// The message of a file that cannot be read.
    pub open spec fn unreadable(self, error: Chars) -> Chars {
        if self.shown {
            "Failed to read state file: "@ + error
        } else {
            "Failed to read state from "@ + self.path + ": "@ + error
        }
    }

    /// What the reading comes to with what was read; what it does not wait for
    /// changes nothing.
    pub open spec fn advance(self, content: FileContentView) -> ReadStepView {
        match (self.stage, content) {
            (ReadStageView::Text, FileContentView::Text(r)) => match r {
                Ok(text) => ReadStepView::Done(Ok(text)),
                Err(e) => if self.shown || self.key is None {
                    ReadStepView::Done(Err(self.unreadable(e)))
                } else {
                    ReadStepView::Wait(
                        StateReadView { stage: ReadStageView::Encrypted(e), ..self },
                    )
                },
            },
            (ReadStageView::Bytes, FileContentView::Bytes(r)) => match r {
                Err(e) => ReadStepView::Done(Err(self.unreadable(e))),
                Ok(bytes) => ReadStepView::Done(self.decrypt(bytes)),
            },
            (ReadStageView::Encrypted(e), FileContentView::Bytes(r)) => match r {
                Err(_) => ReadStepView::Done(Err(self.unreadable(e))),
                Ok(bytes) => ReadStepView::Done(self.decrypt(bytes)),
            },
            _ => ReadStepView::Wait(self),
        }
    }

    /// The text of encrypted bytes.
    pub open spec fn decrypt(self, bytes: Seq<u8>) -> Result<Chars, Chars> {
        match self.key {
            Some(key) => crypto::decrypted_text(bytes, key),
            None => Err("Encrypted state file requires AGENT_BROWSER_ENCRYPTION_KEY"@),
        }
    }
}

fn no_key() -> (r: String)
    ensures
        r@ == "Encrypted state file requires AGENT_BROWSER_ENCRYPTION_KEY"@,
{
    "Encrypted state file requires AGENT_BROWSER_ENCRYPTION_KEY".to_owned()
}

impl StateRead {
    /// Starts the reading of a saved state.
    pub fn start(path: &str, key: Option<String>, shown: bool) -> (r: ReadStep)
        ensures
            r@ == StateReadView::start(path@, key.deep_view(), shown),
    {
        if is_encrypted_state(path) {
            if key.is_none() {
                return ReadStep::Done(Err(no_key()));
            }
            ReadStep::Wait(
                StateRead { path: path.to_owned(), key, shown, stage: ReadStage::Bytes },
            )
        } else {
            ReadStep::Wait(StateRead { path: path.to_owned(), key, shown, stage: ReadStage::Text })
        }
    }

    /// The file that the reading waits for.
    pub fn request(&self) -> (r: FileRequest)
        ensures
            r@ == self.deep_view().request(),
    {
        match &self.stage {
            ReadStage::Text => FileRequest::Text(self.path.clone()),
            ReadStage::Bytes => FileRequest::Bytes(self.path.clone()),
            ReadStage::Encrypted(_) => FileRequest::Bytes(self.path.clone().concat(".enc")),
        }
    }

    fn unreadable(&self, error: &str) -> (r: String)
        ensures
            r@ == self.deep_view().unreadable(error@),
    {
        if self.shown {
            "Failed to read state file: ".to_owned().concat(error)
        } else {
            "Failed to read state from ".to_owned().concat(self.path.as_str()).concat(": ").concat(
                error,
            )
        }
    }

    fn decrypt(&self, bytes: &Vec<u8>) -> (r: Result<String, String>)
        ensures
            text::outcome(r) == self.deep_view().decrypt(bytes@),
    {
        match &self.key {
            Some(key) => decrypt_text(bytes.as_slice(), key.as_str()),
            None => Err(no_key()),
        }
    }

    /// Takes what was read.
    pub fn advance(self, content: FileContent) -> (r: ReadStep)
        ensures
            r@ == self.deep_view().advance(content@),
    {
        match (&self.stage, content) {
            (ReadStage::Text, FileContent::Text(read)) => match read {
                Ok(text) => ReadStep::Done(Ok(text)),
                Err(e) => if self.shown || self.key.is_none() {
                    ReadStep::Done(Err(self.unreadable(e.as_str())))
                } else {
                    ReadStep::Wait(
                        StateRead {
                            path: self.path,
                            key: self.key,
                            shown: self.shown,
                            stage: ReadStage::Encrypted(e),
                        },
                    )
                },
            },
            (ReadStage::Bytes, FileContent::Bytes(read)) => match read {
                Err(e) => ReadStep::Done(Err(self.unreadable(e.as_str()))),
                Ok(bytes) => ReadStep::Done(self.decrypt(&bytes)),
            },
            (ReadStage::Encrypted(e), FileContent::Bytes(read)) => match read {
                Err(_) => ReadStep::Done(Err(self.unreadable(e.as_str()))),
                Ok(bytes) => ReadStep::Done(self.decrypt(&bytes)),
            },
            _ => ReadStep::Wait(self),
        }
    }
}

/// The message of a file that holds no state.
pub open spec fn invalid_state(error: Chars) -> Chars {
    "Invalid state file: "@ + error
}

/// Whether the file of a saved state holds one: it was read, and its text was
/// taken.
pub open spec fn validity(read: Result<Chars, Chars>, parsed: Result<(), Chars>) -> Result<
    (),
    Chars,
> {
    match read {
        Err(e) => Err(e),
        Ok(_) => match parsed {
            Ok(_) => Ok(()),
            Err(e) => Err(invalid_state(e)),
        },
    }
}

/// Says whether the file of a saved state holds one.
pub fn validate_state_file(read: &Result<String, String>, parsed: &Result<(), String>) -> (r:
    Result<(), String>)
    ensures
        state_files::unit_outcome(r) == validity(
            text::outcome(*read),
            state_files::unit_outcome(*parsed),
        ),
{
    match read {
        Err(e) => Err(e.clone()),
        Ok(_) => match parsed {
            Ok(_) => Ok(()),
            Err(e) => Err("Invalid state file: ".to_owned().concat(e.as_str())),
        },
    }
}

/// What a show command tells of a saved state.
pub open spec fn description(
    path: Chars,
    filename: Chars,
    size: u64,
    modified: Option<FileTime>,
    state: StorageView,
) -> JsonView {
    JsonView::object().with("filename"@, JsonView::Str(filename)).with(
        "path"@,
        JsonView::Str(path),
    ).with("size"@, JsonView::Uint(size)).with(
        "modified"@,
        JsonView::Uint(state_files::modified_seconds(modified)),
    ).with("encrypted"@, JsonView::Bool(state_files::names_encrypted(path))).with(
        "summary"@,
        JsonView::Str(
            text::decimal(state.cookies.len()) + " cookies, "@ + text::decimal(
                state.origins.len(),
            ) + " origins"@,
        ),
    ).with("state"@, state.to_json())
}

/// Answer to a show command: the file has to be read, and its text to be taken.
pub open spec fn show_answer(
    path: Chars,
    filename: Chars,
    size: u64,
    modified: Option<FileTime>,
    read: Result<Chars, Chars>,
    parsed: Result<StorageView, Chars>,
) -> Result<JsonView, Chars> {
    match (read, parsed) {
        (Err(e), _) => Err(e),
        (Ok(_), Err(e)) => Err(invalid_state(e)),
        (Ok(_), Ok(state)) => Ok(description(path, filename, size, modified, state)),
    }
}

/// Answers a show command.
pub fn state_show(
    path: &str,
    filename: &str,
    size: u64,
    modified: Option<FileTime>,
    read: &Result<String, String>,
    parsed: &Result<StorageState, String>,
) -> (r: Result<Json, String>)
    ensures
        text::outcome(r) == show_answer(
            path@,
            filename@,
            size,
            modified,
            text::outcome(*read),
            text::outcome(*parsed),
        ),
{
    if let Err(e) = read {
        return Err(e.clone());
    }
    match parsed {
        Err(e) => Err("Invalid state file: ".to_owned().concat(e.as_str())),
        Ok(state) => {
            let summary = u64_text(state.cookies.len() as u64).concat(" cookies, ").concat(
                u64_text(state.origins.len() as u64).as_str(),
            ).concat(" origins");
            Ok(
                Json::object().with("filename", Json::text(filename)).with(
                    "path",
                    Json::text(path),
                ).with("size", Json::Uint(size)).with(
                    "modified",
                    Json::Uint(state_files::seconds_of(modified)),
                ).with("encrypted", Json::Bool(is_encrypted_state(path))).with(
                    "summary",
                    Json::Str(summary),
                ).with("state", state.to_json()),
            )
        },
    }
}

} // verus!
