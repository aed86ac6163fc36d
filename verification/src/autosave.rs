//! Automatic saving: a new state takes the place of the one before only when it
//! has been written and found valid.

use vstd::prelude::*;

use crate::save;
use crate::state_files;
use crate::text;
use crate::text::{u64_text, Chars};

verus! {

/// The files of an automatic saving.
pub struct AutoPaths {
    pub dir: String,
    pub temp_dir: String,
    pub candidate: String,
    pub file: String,
    pub previous: String,
}

/// Model of the files of an automatic saving.
#[verifier::ext_equal]
pub struct AutoPathsView {
    pub dir: Chars,
    pub temp_dir: Chars,
    pub candidate: Chars,
    pub file: Chars,
    pub previous: Chars,
}

impl DeepView for AutoPaths {
    type V = AutoPathsView;

    open spec fn deep_view(&self) -> AutoPathsView {
        AutoPathsView {
            dir: self.dir@,
            temp_dir: self.temp_dir@,
            candidate: self.candidate@,
            file: self.file@,
            previous: self.previous@,
        }
    }
}

/// Names of the files of an automatic saving: that of the state and that of the
/// directory for new ones, both in the directory of the sessions, and that of the
/// new state in the latter.
pub struct AutoNames {
    pub file: String,
    pub temp_dir: String,
    pub candidate: String,
}

/// Model of the names of the files of an automatic saving.
#[verifier::ext_equal]
pub struct AutoNamesView {
    pub file: Chars,
    pub temp_dir: Chars,
    pub candidate: Chars,
}

impl DeepView for AutoNames {
    type V = AutoNamesView;

    open spec fn deep_view(&self) -> AutoNamesView {
        AutoNamesView {
            file: self.file@,
            temp_dir: self.temp_dir@,
            candidate: self.candidate@,
        }
    }
}

/// Names of the files of the automatic saving of a session.
pub open spec fn names_of(session: Chars, id: Chars, process: u32) -> AutoNamesView {
    let base = session + "-"@ + id;
    AutoNamesView {
        file: base + ".json"@,
        temp_dir: ".tmp"@,
        candidate: base + "-candidate-"@ + text::decimal(process as nat) + ".json"@,
    }
}

/// Names of the files of the automatic saving of a session.
pub fn auto_names(session_name: &str, session_id: &str, process: u32) -> (r: AutoNames)
    ensures
        r.deep_view() == names_of(session_name@, session_id@, process),
{
    let base = session_name.to_owned().concat("-").concat(session_id);
    AutoNames {
        file: base.clone().concat(".json"),
        temp_dir: ".tmp".to_owned(),
        candidate: base.concat("-candidate-").concat(u64_text(process as u64).as_str()).concat(
            ".json",
        ),
    }
}

/// Where an automatic saving takes place: the directory of the sessions, and the
/// paths of the files that [`auto_names`] names.
pub struct AutoPlaces {
    pub dir: String,
    pub temp_dir: String,
    pub candidate: String,
    pub file: String,
}

/// Model of where an automatic saving takes place.
#[verifier::ext_equal]
pub struct AutoPlacesView {
    pub dir: Chars,
    pub temp_dir: Chars,
    pub candidate: Chars,
    pub file: Chars,
}

impl DeepView for AutoPlaces {
    type V = AutoPlacesView;

    open spec fn deep_view(&self) -> AutoPlacesView {
        AutoPlacesView {
            dir: self.dir@,
            temp_dir: self.temp_dir@,
            candidate: self.candidate@,
            file: self.file@,
        }
    }
}

/// The files of an automatic saving. The candidate is the path that the saving
/// is given; with a key both it and the state get the ending of encrypted files.
pub open spec fn auto_paths(places: AutoPlacesView, with_key: bool) -> AutoPathsView {
    let file = save::save_path(places.file, with_key);
    AutoPathsView {
        dir: places.dir,
        temp_dir: places.temp_dir,
        candidate: places.candidate,
        file,
        previous: file + ".previous"@,
    }
}

fn make_paths(places: AutoPlaces, with_key: bool) -> (r: AutoPaths)
    ensures
        r.deep_view() == auto_paths(places.deep_view(), with_key),
{
    let file = if with_key {
        places.file.concat(".enc")
    } else {
        places.file
    };
    let previous = file.clone().concat(".previous");
    AutoPaths {
        dir: places.dir,
        temp_dir: places.temp_dir,
        candidate: places.candidate,
        file,
        previous,
    }
}

/// What an automatic saving waits for. The texts are the path that was written
/// and the message with which the saving ends.
pub enum AutoStage {
    MakeDir,
    MakeTempDir,
    Save,
    Validate(String),
    Discard(String, String),
    LookForOld(String),
    DropBackup(String),
    Rotate(String),
    Promote(String),
    LookForBackup(String),
    LookForNew(String),
    Restore(String),
    LookForLeftover,
    DropLeftover,
}

/// Model of what an automatic saving waits for.
pub enum AutoStageView {
    MakeDir,
    MakeTempDir,
    Save,
    Validate(Chars),
    Discard(Chars, Chars),
    LookForOld(Chars),
    DropBackup(Chars),
    Rotate(Chars),
    Promote(Chars),
    LookForBackup(Chars),
    LookForNew(Chars),
    Restore(Chars),
    LookForLeftover,
    DropLeftover,
}

impl DeepView for AutoStage {
    type V = AutoStageView;

    open spec fn deep_view(&self) -> AutoStageView {
        match *self {
            AutoStage::MakeDir => AutoStageView::MakeDir,
            AutoStage::MakeTempDir => AutoStageView::MakeTempDir,
            AutoStage::Save => AutoStageView::Save,
            AutoStage::Validate(p) => AutoStageView::Validate(p@),
            AutoStage::Discard(p, e) => AutoStageView::Discard(p@, e@),
            AutoStage::LookForOld(p) => AutoStageView::LookForOld(p@),
            AutoStage::DropBackup(p) => AutoStageView::DropBackup(p@),
            AutoStage::Rotate(p) => AutoStageView::Rotate(p@),
            AutoStage::Promote(p) => AutoStageView::Promote(p@),
            AutoStage::LookForBackup(e) => AutoStageView::LookForBackup(e@),
            AutoStage::LookForNew(e) => AutoStageView::LookForNew(e@),
            AutoStage::Restore(e) => AutoStageView::Restore(e@),
            AutoStage::LookForLeftover => AutoStageView::LookForLeftover,
            AutoStage::DropLeftover => AutoStageView::DropLeftover,
        }
    }
}

/// An automatic saving.
pub struct AutoSave {
    pub paths: AutoPaths,
    pub stage: AutoStage,
}

/// Model of an automatic saving.
pub struct AutoSaveView {
    pub paths: AutoPathsView,
    pub stage: AutoStageView,
}

impl DeepView for AutoSave {
    type V = AutoSaveView;

    open spec fn deep_view(&self) -> AutoSaveView {
        AutoSaveView { paths: self.paths.deep_view(), stage: self.stage.deep_view() }
    }
}

/// What the outside has to do next.
pub enum FileAction {
    CreateDir(String),
    Save(String),
    Validate(String),
    Look(String),
    Remove(String),
    Rename(String, String),
}

/// Model of what the outside has to do next.
pub enum FileActionView {
    CreateDir(Chars),
    Save(Chars),
    Validate(Chars),
    Look(Chars),
    Remove(Chars),
    Rename(Chars, Chars),
}

impl DeepView for FileAction {
    type V = FileActionView;

    open spec fn deep_view(&self) -> FileActionView {
        match *self {
            FileAction::CreateDir(p) => FileActionView::CreateDir(p@),
            FileAction::Save(p) => FileActionView::Save(p@),
            FileAction::Validate(p) => FileActionView::Validate(p@),
            FileAction::Look(p) => FileActionView::Look(p@),
            FileAction::Remove(p) => FileActionView::Remove(p@),
            FileAction::Rename(from, to) => FileActionView::Rename(from@, to@),
        }
    }
}

/// What came of it: that it was done, the path that was written, or whether the
/// file is there.
pub enum FileReply {
    Done(Result<(), String>),
    Saved(Result<String, String>),
    Found(bool),
}

/// Model of what came of it.
pub enum FileReplyView {
    Done(Result<(), Chars>),
    Saved(Result<Chars, Chars>),
    Found(bool),
}

impl DeepView for FileReply {
    type V = FileReplyView;

    open spec fn deep_view(&self) -> FileReplyView {
        match *self {
            FileReply::Done(r) => FileReplyView::Done(state_files::unit_outcome(r)),
            FileReply::Saved(r) => FileReplyView::Saved(text::outcome(r)),
            FileReply::Found(b) => FileReplyView::Found(b),
        }
    }
}

/// What an automatic saving came to.
pub enum AutoStep {
    Wait(AutoSave),
    Done(Result<String, String>),
}

/// Model of what an automatic saving came to.
pub enum AutoStepView {
    Wait(AutoSaveView),
    Done(Result<Chars, Chars>),
}

impl DeepView for AutoStep {
    type V = AutoStepView;

    open spec fn deep_view(&self) -> AutoStepView {
        match *self {
            AutoStep::Wait(machine) => AutoStepView::Wait(machine.deep_view()),
            AutoStep::Done(r) => AutoStepView::Done(text::outcome(r)),
        }
    }
}

impl AutoSaveView {
    /// The saving in another stage.
    pub open spec fn at(self, stage: AutoStageView) -> AutoStepView {
        AutoStepView::Wait(AutoSaveView { stage, ..self })
    }

    /// What the outside has to do next.
    pub open spec fn action(self) -> FileActionView {
        let p = self.paths;
        match self.stage {
            AutoStageView::MakeDir => FileActionView::CreateDir(p.dir),
            AutoStageView::MakeTempDir => FileActionView::CreateDir(p.temp_dir),
            AutoStageView::Save => FileActionView::Save(p.candidate),
            AutoStageView::Validate(written) => FileActionView::Validate(written),
            AutoStageView::Discard(written, _) => FileActionView::Remove(written),
            AutoStageView::LookForOld(_) => FileActionView::Look(p.file),
            AutoStageView::DropBackup(_) => FileActionView::Remove(p.previous),
            AutoStageView::Rotate(_) => FileActionView::Rename(p.file, p.previous),
            AutoStageView::Promote(written) => FileActionView::Rename(written, p.file),
            AutoStageView::LookForBackup(_) => FileActionView::Look(p.previous),
            AutoStageView::LookForNew(_) => FileActionView::Look(p.file),
            AutoStageView::Restore(_) => FileActionView::Rename(p.previous, p.file),
            AutoStageView::LookForLeftover => FileActionView::Look(p.previous),
            AutoStageView::DropLeftover => FileActionView::Remove(p.previous),
        }
    }

    /// What the saving comes to with what came of it; what it does not wait for
    /// changes nothing.
    pub open spec fn advance(self, reply: FileReplyView) -> AutoStepView {
        let p = self.paths;
        match (self.stage, reply) {
            (AutoStageView::MakeDir, FileReplyView::Done(r)) => match r {
                Ok(_) => self.at(AutoStageView::MakeTempDir),
                Err(e) => AutoStepView::Done(
                    Err("Failed to create state directory "@ + p.dir + ": "@ + e),
                ),
            },
            (AutoStageView::MakeTempDir, FileReplyView::Done(r)) => match r {
                Ok(_) => self.at(AutoStageView::Save),
                Err(e) => AutoStepView::Done(
                    Err("Failed to create temporary state directory "@ + p.temp_dir + ": "@ + e),
                ),
            },
            (AutoStageView::Save, FileReplyView::Saved(r)) => match r {
                Ok(written) => self.at(AutoStageView::Validate(written)),
                Err(e) => AutoStepView::Done(Err(e)),
            },
            (AutoStageView::Validate(written), FileReplyView::Done(r)) => match r {
                Ok(_) => self.at(AutoStageView::LookForOld(written)),
                Err(e) => self.at(AutoStageView::Discard(written, e)),
            },
            (AutoStageView::Discard(_, e), FileReplyView::Done(_)) => AutoStepView::Done(Err(e)),
            (AutoStageView::LookForOld(written), FileReplyView::Found(found)) => if found {
                self.at(AutoStageView::DropBackup(written))
            } else {
                self.at(AutoStageView::Promote(written))
            },
            (AutoStageView::DropBackup(written), FileReplyView::Done(_)) => self.at(
                AutoStageView::Rotate(written),
            ),
            (AutoStageView::Rotate(written), FileReplyView::Done(r)) => match r {
                Ok(_) => self.at(AutoStageView::Promote(written)),
                Err(e) => AutoStepView::Done(
                    Err(
                        "Failed to rotate previous state "@ + p.file + " to "@ + p.previous + ": "@
                            + e,
                    ),
                ),
            },
            (AutoStageView::Promote(written), FileReplyView::Done(r)) => match r {
                Ok(_) => self.at(AutoStageView::LookForLeftover),
                Err(e) => self.at(
                    AutoStageView::LookForBackup(
                        "Failed to promote state "@ + written + " to "@ + p.file + ": "@ + e,
                    ),
                ),
            },
            (AutoStageView::LookForBackup(e), FileReplyView::Found(found)) => if found {
                self.at(AutoStageView::LookForNew(e))
            } else {
                AutoStepView::Done(Err(e))
            },
            (AutoStageView::LookForNew(e), FileReplyView::Found(found)) => if found {
                AutoStepView::Done(Err(e))
            } else {
                self.at(AutoStageView::Restore(e))
            },
            (AutoStageView::Restore(e), FileReplyView::Done(_)) => AutoStepView::Done(Err(e)),
            (AutoStageView::LookForLeftover, FileReplyView::Found(found)) => if found {
                self.at(AutoStageView::DropLeftover)
            } else {
                AutoStepView::Done(Ok(p.file))
            },
            (AutoStageView::DropLeftover, FileReplyView::Done(_)) => AutoStepView::Done(Ok(p.file)),
            _ => AutoStepView::Wait(self),
        }
    }
}

/// What an automatic saving comes to before anything is done: a session
/// without a valid name has none.
pub open spec fn auto_start(
    named: Result<(), Chars>,
    places: AutoPlacesView,
    with_key: bool,
) -> AutoStepView {
    match named {
        Err(e) => AutoStepView::Done(Err(e)),
        Ok(_) => AutoStepView::Wait(
            AutoSaveView {
                paths: auto_paths(places, with_key),
                stage: AutoStageView::MakeDir,
            },
        ),
    }
}

/// Starts the automatic saving of a session. `named` says whether the session
/// has a valid name.
pub fn save_auto_state_transactional(
    named: &Result<(), String>,
    places: AutoPlaces,
    with_key: bool,
) -> (r: AutoStep)
    ensures
        r.deep_view() == auto_start(
            state_files::unit_outcome(*named),
            places.deep_view(),
            with_key,
        ),
{
    match named {
        Err(e) => AutoStep::Done(Err(e.clone())),
        Ok(_) => AutoStep::Wait(
            AutoSave {
                paths: make_paths(places, with_key),
                stage: AutoStage::MakeDir,
            },
        ),
    }
}

impl AutoSave {
    /// What the outside has to do next.
    pub fn action(&self) -> (r: FileAction)
        ensures
            r.deep_view() == self.deep_view().action(),
    {
        let p = &self.paths;
        match &self.stage {
            AutoStage::MakeDir => FileAction::CreateDir(p.dir.clone()),
            AutoStage::MakeTempDir => FileAction::CreateDir(p.temp_dir.clone()),
            AutoStage::Save => FileAction::Save(p.candidate.clone()),
            AutoStage::Validate(written) => FileAction::Validate(written.clone()),
            AutoStage::Discard(written, _) => FileAction::Remove(written.clone()),
            AutoStage::LookForOld(_) => FileAction::Look(p.file.clone()),
            AutoStage::DropBackup(_) => FileAction::Remove(p.previous.clone()),
            AutoStage::Rotate(_) => FileAction::Rename(p.file.clone(), p.previous.clone()),
            AutoStage::Promote(written) => FileAction::Rename(written.clone(), p.file.clone()),
            AutoStage::LookForBackup(_) => FileAction::Look(p.previous.clone()),
            AutoStage::LookForNew(_) => FileAction::Look(p.file.clone()),
            AutoStage::Restore(_) => FileAction::Rename(p.previous.clone(), p.file.clone()),
            AutoStage::LookForLeftover => FileAction::Look(p.previous.clone()),
            AutoStage::DropLeftover => FileAction::Remove(p.previous.clone()),
        }
    }

    /// Takes what came of it.
    pub fn advance(self, reply: FileReply) -> (r: AutoStep)
        ensures
            r.deep_view() == self.deep_view().advance(reply.deep_view()),
    {
        let AutoSave { paths, stage } = self;
        let next = match (stage, reply) {
            (AutoStage::MakeDir, FileReply::Done(done)) => match done {
                Ok(_) => AutoStage::MakeTempDir,
                Err(e) => {
                    return AutoStep::Done(
                        Err(
                            "Failed to create state directory ".to_owned().concat(
                                paths.dir.as_str(),
                            ).concat(": ").concat(e.as_str()),
                        ),
                    );
                },
            },
            (AutoStage::MakeTempDir, FileReply::Done(done)) => match done {
                Ok(_) => AutoStage::Save,
                Err(e) => {
                    return AutoStep::Done(
                        Err(
                            "Failed to create temporary state directory ".to_owned().concat(
                                paths.temp_dir.as_str(),
                            ).concat(": ").concat(e.as_str()),
                        ),
                    );
                },
            },
            (AutoStage::Save, FileReply::Saved(saved)) => match saved {
                Ok(written) => AutoStage::Validate(written),
                Err(e) => {
                    return AutoStep::Done(Err(e));
                },
            },
            (AutoStage::Validate(written), FileReply::Done(done)) => match done {
                Ok(_) => AutoStage::LookForOld(written),
                Err(e) => AutoStage::Discard(written, e),
            },
            (AutoStage::Discard(_, e), FileReply::Done(_)) => {
                return AutoStep::Done(Err(e));
            },
            (AutoStage::LookForOld(written), FileReply::Found(found)) => if found {
                AutoStage::DropBackup(written)
            } else {
                AutoStage::Promote(written)
            },
            (AutoStage::DropBackup(written), FileReply::Done(_)) => AutoStage::Rotate(written),
            (AutoStage::Rotate(written), FileReply::Done(done)) => match done {
                Ok(_) => AutoStage::Promote(written),
                Err(e) => {
                    return AutoStep::Done(
                        Err(
                            "Failed to rotate previous state ".to_owned().concat(
                                paths.file.as_str(),
                            ).concat(" to ").concat(paths.previous.as_str()).concat(": ").concat(
                                e.as_str(),
                            ),
                        ),
                    );
                },
            },
            (AutoStage::Promote(written), FileReply::Done(done)) => match done {
                Ok(_) => AutoStage::LookForLeftover,
                Err(e) => AutoStage::LookForBackup(
                    "Failed to promote state ".to_owned().concat(written.as_str()).concat(
                        " to ",
                    ).concat(paths.file.as_str()).concat(": ").concat(e.as_str()),
                ),
            },
            (AutoStage::LookForBackup(e), FileReply::Found(found)) => if found {
                AutoStage::LookForNew(e)
            } else {
                return AutoStep::Done(Err(e));
            },
            (AutoStage::LookForNew(e), FileReply::Found(found)) => if found {
                return AutoStep::Done(Err(e));
            } else {
                AutoStage::Restore(e)
            },
            (AutoStage::Restore(e), FileReply::Done(_)) => {
                return AutoStep::Done(Err(e));
            },
            (AutoStage::LookForLeftover, FileReply::Found(found)) => if found {
                AutoStage::DropLeftover
            } else {
                return AutoStep::Done(Ok(paths.file));
            },
            (AutoStage::DropLeftover, FileReply::Done(_)) => {
                return AutoStep::Done(Ok(paths.file));
            },
            (stage, _) => stage,
        };
        AutoStep::Wait(AutoSave { paths, stage: next })
    }
}

} // verus!
