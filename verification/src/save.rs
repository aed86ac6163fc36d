//! Saving and loading of the browser's state.

use vstd::prelude::*;

use crate::collections;
use crate::collections::{copy_texts, set_insert, set_remove};
use crate::crypto;
use crate::crypto::encrypt_data;
use crate::json::{Json, JsonView};
use crate::operation::{Request, RequestView};
use crate::records::copy_values;
use crate::state_files;
use crate::storage;
use crate::storage::{
    collect_frame_origins, normalize_included_origin, parse_origin_storage, OriginStorage,
    OriginView, StorageState, StorageView,
};
use crate::storage_visit;
use crate::storage_visit::{
    evaluate_script, Visit, VisitAction, VisitActionView, VisitInput, VisitInputView, VisitStep,
    VisitStepView, VisitView, STORAGE_SCRIPT,
};
use crate::text;
use crate::text::Chars;

verus! {

/// Origins with those of addresses that are to be saved too, or what is wrong
/// with the first bad address.
pub open spec fn with_included(origins: Seq<Chars>, included: Seq<Chars>) -> Result<
    Seq<Chars>,
    Chars,
>
    decreases included.len(),
{
    if included.len() == 0 {
        Ok(origins)
    } else {
        match with_included(origins, included.drop_last()) {
            Err(e) => Err(e),
            Ok(rest) => match storage::included_origin(
                included.last(),
                storage::url_parts(included.last()),
            ) {
                Err(e) => Err(e),
                Ok(origin) => Ok(collections::set_with(rest, origin)),
            },
        }
    }
}

/// Texts, each of them once, where it came first.
pub open spec fn as_set(texts: Seq<Chars>) -> Seq<Chars>
    decreases texts.len(),
{
    if texts.len() == 0 {
        Seq::empty()
    } else {
        collections::set_with(as_set(texts.drop_last()), texts.last())
    }
}

fn collect_set(texts: &Vec<String>) -> (r: Vec<String>)
    ensures
        r.deep_view() == as_set(texts.deep_view()),
{
    let ghost all = texts.deep_view();
    let mut set: Vec<String> = Vec::new();
    let mut i: usize = 0;
    assert(set.deep_view() =~= as_set(all.take(0)));
    while i < texts.len()
        invariant
            all == texts.deep_view(),
            i <= texts.len(),
            set.deep_view() == as_set(all.take(i as int)),
        decreases texts.len() - i,
    {
        proof {
            assert(all.take(i + 1).drop_last() == all.take(i as int));
            assert(all.take(i + 1).last() == texts@[i as int]@);
        }
        set_insert(&mut set, texts[i].as_str());
        i = i + 1;
    }
    assert(all.take(i as int) == all);
    set
}

proof fn lemma_included_fails(origins: Seq<Chars>, included: Seq<Chars>, n: int)
    requires
        0 <= n <= included.len(),
        with_included(origins, included.take(n)) is Err,
    ensures
        with_included(origins, included) == with_included(origins, included.take(n)),
    decreases included.len(),
{
    if n == included.len() {
        assert(included.take(n) == included);
    } else {
        assert(included.drop_last().take(n) == included.take(n));
        lemma_included_fails(origins, included.drop_last(), n);
    }
}

fn include_origins(visited: &Vec<String>, included: &Vec<String>) -> (r: Result<
    Vec<String>,
    String,
>)
    ensures
        text::outcome(r) == with_included(visited.deep_view(), included.deep_view()),
{
    let ghost all = included.deep_view();
    let mut origins = copy_texts(visited);
    let mut i: usize = 0;
    assert(all.take(0) =~= Seq::<Chars>::empty());
    while i < included.len()
        invariant
            all == included.deep_view(),
            i <= included.len(),
            with_included(visited.deep_view(), all.take(i as int)) == Ok::<Seq<Chars>, Chars>(
                origins.deep_view(),
            ),
        decreases included.len() - i,
    {
        proof {
            assert(all.take(i + 1).drop_last() == all.take(i as int));
            assert(all.take(i + 1).last() == included@[i as int]@);
        }
        match normalize_included_origin(included[i].as_str()) {
            Ok(origin) => {
                set_insert(&mut origins, origin.as_str());
            },
            Err(e) => {
                proof {
                    lemma_included_fails(visited.deep_view(), all, i + 1);
                }
                return Err(e);
            },
        }
        i = i + 1;
    }
    assert(all.take(i as int) == all);
    Ok(origins)
}

/// What a saving waits for: the cookies, the frames of the page, what the page
/// stores, or a visit to the other origins.
pub enum SaveStage {
    Cookies(Vec<String>, Vec<String>),
    Frames(Vec<Json>, Vec<String>),
    Current(Vec<Json>, Vec<String>),
    Others(Vec<Json>, Vec<OriginStorage>, Visit),
}

/// Model of what a saving waits for.
pub enum SaveStageView {
    Cookies(Seq<Chars>, Seq<Chars>),
    Frames(Seq<JsonView>, Seq<Chars>),
    Current(Seq<JsonView>, Seq<Chars>),
    Others(Seq<JsonView>, Seq<OriginView>, VisitView),
}

impl DeepView for SaveStage {
    type V = SaveStageView;

    open spec fn deep_view(&self) -> SaveStageView {
        match *self {
            SaveStage::Cookies(visited, included) => SaveStageView::Cookies(
                visited.deep_view(),
                included.deep_view(),
            ),
            SaveStage::Frames(cookies, origins) => SaveStageView::Frames(
                cookies.deep_view(),
                origins.deep_view(),
            ),
            SaveStage::Current(cookies, origins) => SaveStageView::Current(
                cookies.deep_view(),
                origins.deep_view(),
            ),
            SaveStage::Others(cookies, found, visit) => SaveStageView::Others(
                cookies.deep_view(),
                found.deep_view(),
                visit.deep_view(),
            ),
        }
    }
}

/// The saving of the state of a page and of the origins that were visited.
pub struct SaveState {
    pub session_id: String,
    pub stage: SaveStage,
}

/// Model of a saving.
pub struct SaveView {
    pub session_id: Chars,
    pub stage: SaveStageView,
}

impl DeepView for SaveState {
    type V = SaveView;

    open spec fn deep_view(&self) -> SaveView {
        SaveView { session_id: self.session_id@, stage: self.stage.deep_view() }
    }
}

/// What a saving came to.
pub enum SaveStep {
    Wait(SaveState),
    Done(Result<StorageState, String>),
}

/// Model of what a saving came to.
pub enum SaveStepView {
    Wait(SaveView),
    Done(Result<StorageView, Chars>),
}

impl DeepView for SaveStep {
    type V = SaveStepView;

    open spec fn deep_view(&self) -> SaveStepView {
        match *self {
            SaveStep::Wait(machine) => SaveStepView::Wait(machine.deep_view()),
            SaveStep::Done(r) => SaveStepView::Done(text::outcome(r)),
        }
    }
}

/// What the outside has to do next.
pub enum SaveAction {
    ReadCookies,
    Send(Request),
    Evaluate(Request),
    Visit(VisitAction),
}

/// Model of what the outside has to do next.
pub enum SaveActionView {
    ReadCookies,
    Send(RequestView),
    Evaluate(RequestView),
    Visit(VisitActionView),
}

impl DeepView for SaveAction {
    type V = SaveActionView;

    open spec fn deep_view(&self) -> SaveActionView {
        match *self {
            SaveAction::ReadCookies => SaveActionView::ReadCookies,
            SaveAction::Send(request) => SaveActionView::Send(request@),
            SaveAction::Evaluate(request) => SaveActionView::Evaluate(request@),
            SaveAction::Visit(action) => SaveActionView::Visit(action.deep_view()),
        }
    }
}

/// What came in: the cookies, or what a visit can take.
pub enum SaveInput {
    Cookies(Result<Vec<Json>, String>),
    Other(VisitInput),
}

/// Model of what came in.
pub enum SaveInputView {
    Cookies(Result<Seq<JsonView>, Chars>),
    Other(VisitInputView),
}

impl DeepView for SaveInput {
    type V = SaveInputView;

    open spec fn deep_view(&self) -> SaveInputView {
        match *self {
            SaveInput::Cookies(r) => SaveInputView::Cookies(text::outcome(r)),
            SaveInput::Other(input) => SaveInputView::Other(input.deep_view()),
        }
    }
}

/// Origins with those of the frames that a page has, where they are known.
pub open spec fn with_frames(origins: Seq<Chars>, reply: Result<JsonView, Chars>) -> Seq<Chars> {
    match reply {
        Ok(result) => match result.get("frameTree"@) {
            Some(tree) => storage::tree_origins(tree, origins),
            None => origins,
        },
        Err(_) => origins,
    }
}

/// What the page stores, where it says so.
pub open spec fn current_storage(reply: Result<JsonView, Chars>) -> Option<OriginView> {
    match reply {
        Ok(data) => storage::origin_storage_of(data),
        Err(_) => None,
    }
}

/// The origins that are left to visit.
pub open spec fn origins_left(origins: Seq<Chars>, current: Option<OriginView>) -> Seq<Chars> {
    collections::set_without(
        origins,
        match current {
            Some(storage) => storage.origin,
            None => Seq::empty(),
        },
    )
}

/// What was found in the page.
pub open spec fn found_in_page(current: Option<OriginView>) -> Seq<OriginView> {
    match current {
        Some(storage) => if storage.holds_data() {
            seq![storage]
        } else {
            Seq::empty()
        },
        None => Seq::empty(),
    }
}

/// What a visit came to, as part of a saving. A visit that fails adds nothing.
pub open spec fn after_visit(
    session: Chars,
    cookies: Seq<JsonView>,
    found: Seq<OriginView>,
    step: VisitStepView,
) -> SaveStepView {
    match step {
        VisitStepView::Wait(visit) => SaveStepView::Wait(
            SaveView { session_id: session, stage: SaveStageView::Others(cookies, found, visit) },
        ),
        VisitStepView::Done(outcome) => SaveStepView::Done(
            Ok(
                StorageView {
                    cookies,
                    origins: match outcome {
                        Ok(more) => found + more,
                        Err(_) => found,
                    },
                },
            ),
        ),
    }
}

impl SaveView {
    /// A saving of the page of a session, with the origins that were visited and
    /// those that are to be saved too.
    pub open spec fn start(session: Chars, visited: Seq<Chars>, included: Seq<Chars>) -> SaveView {
        SaveView { session_id: session, stage: SaveStageView::Cookies(as_set(visited), included) }
    }

    /// What the outside has to do next.
    pub open spec fn action(self) -> SaveActionView {
        match self.stage {
            SaveStageView::Cookies(_, _) => SaveActionView::ReadCookies,
            SaveStageView::Frames(_, _) => SaveActionView::Send(
                RequestView::plain("Page.getFrameTree"@, self.session_id),
            ),
            SaveStageView::Current(_, _) => SaveActionView::Evaluate(
                storage_visit::evaluate_request(STORAGE_SCRIPT@, self.session_id),
            ),
            SaveStageView::Others(_, _, visit) => SaveActionView::Visit(visit.action()),
        }
    }

    /// What the saving comes to with what came in; what it does not wait for
    /// changes nothing.
    pub open spec fn advance(self, input: SaveInputView) -> SaveStepView {
        let session = self.session_id;
        match (self.stage, input) {
            (SaveStageView::Cookies(visited, included), SaveInputView::Cookies(r)) => match r {
                Err(e) => SaveStepView::Done(Err(e)),
                Ok(cookies) => match with_included(visited, included) {
                    Err(e) => SaveStepView::Done(Err(e)),
                    Ok(origins) => SaveStepView::Wait(
                        SaveView {
                            session_id: session,
                            stage: SaveStageView::Frames(cookies, origins),
                        },
                    ),
                },
            },
            (
                SaveStageView::Frames(cookies, origins),
                SaveInputView::Other(VisitInputView::Reply(r)),
            ) => SaveStepView::Wait(
                SaveView {
                    session_id: session,
                    stage: SaveStageView::Current(cookies, with_frames(origins, r)),
                },
            ),
            (
                SaveStageView::Current(cookies, origins),
                SaveInputView::Other(VisitInputView::Reply(r)),
            ) => {
                let current = current_storage(r);
                let left = origins_left(origins, current);
                after_visit(
                    session,
                    cookies,
                    found_in_page(current),
                    if left.len() > 0 {
                        VisitView::collect(left)
                    } else {
                        VisitStepView::Done(Ok(Seq::empty()))
                    },
                )
            },
            (SaveStageView::Others(cookies, found, visit), SaveInputView::Other(other)) =>
                after_visit(session, cookies, found, visit.advance(other)),
            _ => SaveStepView::Wait(self),
        }
    }
}

fn go_on(
    session_id: String,
    cookies: Vec<Json>,
    found: Vec<OriginStorage>,
    step: VisitStep,
) -> (r: SaveStep)
    ensures
        r.deep_view() == after_visit(
            session_id@,
            cookies.deep_view(),
            found.deep_view(),
            step.deep_view(),
        ),
{
    match step {
        VisitStep::Wait(visit) => SaveStep::Wait(
            SaveState { session_id, stage: SaveStage::Others(cookies, found, visit) },
        ),
        VisitStep::Done(outcome) => {
            let ghost first = found.deep_view();
            let mut origins = found;
            if let Ok(more) = outcome {
                let ghost added = more.deep_view();
                let mut more = more;
                origins.append(&mut more);
                assert(origins.deep_view() =~= first + added);
            }
            SaveStep::Done(Ok(StorageState { cookies, origins }))
        },
    }
}

/// Starts the saving of the state of a page, of the origins that were visited,
/// each of them once, and of those of addresses that are to be saved too.
pub fn save_state(session_id: &str, visited: &Vec<String>, included: &Vec<String>) -> (r: SaveState)
    ensures
        r.deep_view() == SaveView::start(session_id@, visited.deep_view(), included.deep_view()),
{
    SaveState {
        session_id: session_id.to_owned(),
        stage: SaveStage::Cookies(collect_set(visited), copy_texts(included)),
    }
}

impl SaveState {
    /// What the outside has to do next.
    pub fn action(&self) -> (r: SaveAction)
        ensures
            r.deep_view() == self.deep_view().action(),
    {
        match &self.stage {
            SaveStage::Cookies(_, _) => SaveAction::ReadCookies,
            SaveStage::Frames(_, _) => SaveAction::Send(
                Request::plain("Page.getFrameTree", self.session_id.as_str()),
            ),
            SaveStage::Current(_, _) => SaveAction::Evaluate(
                evaluate_script(STORAGE_SCRIPT, self.session_id.as_str()),
            ),
            SaveStage::Others(_, _, visit) => SaveAction::Visit(visit.action()),
        }
    }

    /// Takes what came in.
    pub fn advance(self, input: SaveInput) -> (r: SaveStep)
        ensures
            r.deep_view() == self.deep_view().advance(input.deep_view()),
    {
        let SaveState { session_id, stage } = self;
        match (stage, input) {
            (SaveStage::Cookies(visited, included), SaveInput::Cookies(read)) => match read {
                Err(e) => SaveStep::Done(Err(e)),
                Ok(cookies) => match include_origins(&visited, &included) {
                    Err(e) => SaveStep::Done(Err(e)),
                    Ok(origins) => SaveStep::Wait(
                        SaveState { session_id, stage: SaveStage::Frames(cookies, origins) },
                    ),
                },
            },
            (SaveStage::Frames(cookies, origins), SaveInput::Other(VisitInput::Reply(reply))) => {
                let mut all = origins;
                if let Ok(result) = &reply {
                    if let Some(tree) = result.get("frameTree") {
                        collect_frame_origins(tree, &mut all);
                    }
                }
                SaveStep::Wait(SaveState { session_id, stage: SaveStage::Current(cookies, all) })
            },
            (SaveStage::Current(cookies, origins), SaveInput::Other(VisitInput::Reply(reply))) => {
                let current = match &reply {
                    Ok(data) => parse_origin_storage(data),
                    Err(_) => None,
                };
                assert(current.deep_view() == current_storage(text::outcome(reply)));
                let mut found: Vec<OriginStorage> = Vec::new();
                let mut left = origins;
                let ghost model = current.deep_view();
                match current {
                    Some(storage) => {
                        set_remove(&mut left, storage.origin.as_str());
                        if storage.holds_data() {
                            found.push(storage);
                        }
                    },
                    None => {
                        proof {
                            reveal_strlit("");
                            assert(""@ =~= Seq::<char>::empty());
                        }
                        set_remove(&mut left, "");
                    },
                }
                assert(found.deep_view() =~= found_in_page(model));
                if left.len() > 0 {
                    go_on(session_id, cookies, found, Visit::collect(&left))
                } else {
                    let none: Vec<OriginStorage> = Vec::new();
                    assert(none.deep_view() =~= Seq::<OriginView>::empty());
                    go_on(session_id, cookies, found, VisitStep::Done(Ok(none)))
                }
            },
            (SaveStage::Others(cookies, found, visit), SaveInput::Other(other)) => {
                let step = visit.advance(other);
                go_on(session_id, cookies, found, step)
            },
            (stage, _) => SaveStep::Wait(SaveState { session_id, stage }),
        }
    }
}

/// Where a state is saved: at the path that was given, or in a file of that name
/// in the directory of the sessions.
pub enum SaveTarget {
    Given(String),
    InSessions(String),
}

/// Model of where a state is saved.
pub enum SaveTargetView {
    Given(Chars),
    InSessions(Chars),
}

impl DeepView for SaveTarget {
    type V = SaveTargetView;

    open spec fn deep_view(&self) -> SaveTargetView {
        match *self {
            SaveTarget::Given(path) => SaveTargetView::Given(path@),
            SaveTarget::InSessions(name) => SaveTargetView::InSessions(name@),
        }
    }
}

/// Where a state is saved. Without a path, the session needs a valid name.
pub open spec fn target_of(
    path: Option<Chars>,
    name: Chars,
    named: Result<(), Chars>,
    id: Chars,
) -> Result<SaveTargetView, Chars> {
    match path {
        Some(p) => Ok(SaveTargetView::Given(p)),
        None => match named {
            Err(e) => Err(e),
            Ok(_) => Ok(SaveTargetView::InSessions(name + "-"@ + id + ".json"@)),
        },
    }
}

/// Chooses where a state is saved. `named` says whether the session has a valid
/// name.
pub fn save_target(path: Option<&str>, name: &str, named: &Result<(), String>, id: &str) -> (r:
    Result<SaveTarget, String>)
    ensures
        text::outcome(r) == target_of(
            path.deep_view(),
            name@,
            state_files::unit_outcome(*named),
            id@,
        ),
{
    match path {
        Some(p) => Ok(SaveTarget::Given(p.to_owned())),
        None => match named {
            Err(e) => Err(e.clone()),
            Ok(_) => Ok(
                SaveTarget::InSessions(name.to_owned().concat("-").concat(id).concat(".json")),
            ),
        },
    }
}

/// The file to which a state is saved: an encrypted one has an ending of its own.
pub open spec fn save_path(path: Chars, with_key: bool) -> Chars {
    if with_key {
        path + ".enc"@
    } else {
        path
    }
}

fn bytes_of(s: &str) -> (r: Vec<u8>)
    ensures
        r@ == vstd::utf8::encode_utf8(s@),
{
    let bytes = s.as_bytes();
    let mut copy: Vec<u8> = Vec::new();
    let mut i: usize = 0;
    while i < bytes.len()
        invariant
            i == copy.len() <= bytes.len(),
            forall|j: int| 0 <= j < i ==> copy@[j] == bytes@[j],
        decreases bytes.len() - i,
    {
        copy.push(bytes[i]);
        i = i + 1;
    }
    assert(copy@ =~= bytes@);
    copy
}

/// A file and what is written to it.
pub struct SavedFile {
    pub path: String,
    pub bytes: Vec<u8>,
}

/// The file to which a state is saved, and its content: the text, or the text
/// encrypted where there is a key. What was encrypted is decrypted to the text
/// by that key.
pub fn save_file(path: &str, key: Option<&str>, text: &str) -> (r: Result<SavedFile, String>)
    ensures
        match r {
            Ok(file) => file.path@ == save_path(path@, key is Some) && match key {
                Some(k) => crypto::decrypted(file.bytes@, k@) == Ok::<Seq<u8>, Chars>(
                    vstd::utf8::encode_utf8(text@),
                ) && exists|nonce: Seq<u8>|
                    nonce.len() == crypto::NONCE_BYTES && #[trigger] crypto::encrypted(
                        vstd::utf8::encode_utf8(text@),
                        k@,
                        nonce,
                    ) == Ok::<Seq<u8>, Chars>(file.bytes@),
                None => file.bytes@ == vstd::utf8::encode_utf8(text@),
            },
            Err(message) => key is Some && ("Failed to generate nonce: "@.is_prefix_of(message@)
                || (vstd::utf8::encode_utf8(text@).len() > crypto::MAX_PLAINTEXT_BYTES && message@
                == "Encryption failed: aead::Error"@)),
        },
{
    match key {
        Some(k) => match encrypt_data(text.as_bytes(), k) {
            Ok(bytes) => Ok(SavedFile { path: path.to_owned().concat(".enc"), bytes }),
            Err(e) => Err(e),
        },
        None => Ok(SavedFile { path: path.to_owned(), bytes: bytes_of(text) }),
    }
}

/// What a loading waits for: that the cookies are set, or a visit to the
/// origins.
pub enum LoadStage {
    Cookies(Vec<Json>, Vec<OriginStorage>),
    Local(Visit, Vec<OriginStorage>),
    Session(Visit),
}

/// Model of what a loading waits for.
pub enum LoadStageView {
    Cookies(Seq<JsonView>, Seq<OriginView>),
    Local(VisitView, Seq<OriginView>),
    Session(VisitView),
}

impl DeepView for LoadStage {
    type V = LoadStageView;

    open spec fn deep_view(&self) -> LoadStageView {
        match *self {
            LoadStage::Cookies(cookies, origins) => LoadStageView::Cookies(
                cookies.deep_view(),
                origins.deep_view(),
            ),
            LoadStage::Local(visit, origins) => LoadStageView::Local(
                visit.deep_view(),
                origins.deep_view(),
            ),
            LoadStage::Session(visit) => LoadStageView::Session(visit.deep_view()),
        }
    }
}

/// The loading of a saved state.
pub struct LoadState {
    pub session_id: String,
    pub stage: LoadStage,
}

/// Model of a loading.
pub struct LoadView {
    pub session_id: Chars,
    pub stage: LoadStageView,
}

impl DeepView for LoadState {
    type V = LoadView;

    open spec fn deep_view(&self) -> LoadView {
        LoadView { session_id: self.session_id@, stage: self.stage.deep_view() }
    }
}

/// What a loading came to.
pub enum LoadStep {
    Wait(LoadState),
    Done(Result<(), String>),
}

/// Model of what a loading came to.
pub enum LoadStepView {
    Wait(LoadView),
    Done(Result<(), Chars>),
}

impl DeepView for LoadStep {
    type V = LoadStepView;

    open spec fn deep_view(&self) -> LoadStepView {
        match *self {
            LoadStep::Wait(machine) => LoadStepView::Wait(machine.deep_view()),
            LoadStep::Done(r) => LoadStepView::Done(state_files::unit_outcome(r)),
        }
    }
}

/// What the outside has to do next.
pub enum LoadAction {
    SetCookies(Vec<Json>),
    Visit(VisitAction),
}

/// Model of what the outside has to do next.
pub enum LoadActionView {
    SetCookies(Seq<JsonView>),
    Visit(VisitActionView),
}

impl DeepView for LoadAction {
    type V = LoadActionView;

    open spec fn deep_view(&self) -> LoadActionView {
        match *self {
            LoadAction::SetCookies(cookies) => LoadActionView::SetCookies(cookies.deep_view()),
            LoadAction::Visit(action) => LoadActionView::Visit(action.deep_view()),
        }
    }
}

impl LoadView {
    /// What a loading comes to before anything is done: cookies come first.
    pub open spec fn start(session: Chars, state: StorageView) -> LoadStepView {
        if state.cookies.len() > 0 {
            LoadStepView::Wait(
                LoadView {
                    session_id: session,
                    stage: LoadStageView::Cookies(state.cookies, state.origins),
                },
            )
        } else {
            LoadView::local(session, VisitView::restore_local(state.origins), state.origins)
        }
    }

    /// A step of the visit that restores local storage; session storage is
    /// next.
    pub open spec fn local(
        session: Chars,
        step: VisitStepView,
        origins: Seq<OriginView>,
    ) -> LoadStepView {
        match step {
            VisitStepView::Wait(visit) => LoadStepView::Wait(
                LoadView { session_id: session, stage: LoadStageView::Local(visit, origins) },
            ),
            VisitStepView::Done(Err(e)) => LoadStepView::Done(Err(e)),
            VisitStepView::Done(Ok(_)) => LoadView::session(
                session,
                VisitView::restore_session(session, origins),
            ),
        }
    }

    /// A step of the visit that restores session storage, which is the last.
    pub open spec fn session(session: Chars, step: VisitStepView) -> LoadStepView {
        match step {
            VisitStepView::Wait(visit) => LoadStepView::Wait(
                LoadView { session_id: session, stage: LoadStageView::Session(visit) },
            ),
            VisitStepView::Done(Err(e)) => LoadStepView::Done(Err(e)),
            VisitStepView::Done(Ok(_)) => LoadStepView::Done(Ok(())),
        }
    }

    /// What the outside has to do next.
    pub open spec fn action(self) -> LoadActionView {
        match self.stage {
            LoadStageView::Cookies(cookies, _) => LoadActionView::SetCookies(cookies),
            LoadStageView::Local(visit, _) => LoadActionView::Visit(visit.action()),
            LoadStageView::Session(visit) => LoadActionView::Visit(visit.action()),
        }
    }

    /// What the loading comes to with what came in.
    pub open spec fn advance(self, input: VisitInputView) -> LoadStepView {
        match (self.stage, input) {
            (LoadStageView::Cookies(_, origins), VisitInputView::Reply(r)) => match r {
                Err(e) => LoadStepView::Done(Err(e)),
                Ok(_) => LoadView::local(
                    self.session_id,
                    VisitView::restore_local(origins),
                    origins,
                ),
            },
            (LoadStageView::Local(visit, origins), other) => LoadView::local(
                self.session_id,
                visit.advance(other),
                origins,
            ),
            (LoadStageView::Session(visit), other) => LoadView::session(
                self.session_id,
                visit.advance(other),
            ),
            _ => LoadStepView::Wait(self),
        }
    }
}

/// Starts the loading of a saved state into the active page.
pub fn load_state(session_id: &str, state: StorageState) -> (r: LoadStep)
    ensures
        r.deep_view() == LoadView::start(session_id@, state.deep_view()),
{
    let StorageState { cookies, origins } = state;
    if cookies.len() > 0 {
        LoadStep::Wait(
            LoadState {
                session_id: session_id.to_owned(),
                stage: LoadStage::Cookies(cookies, origins),
            },
        )
    } else {
        let step = Visit::restore_local(&origins);
        LoadState::local(session_id.to_owned(), step, origins)
    }
}

impl LoadState {
    fn local(session_id: String, step: VisitStep, origins: Vec<OriginStorage>) -> (r: LoadStep)
        ensures
            r.deep_view() == LoadView::local(session_id@, step.deep_view(), origins.deep_view()),
    {
        match step {
            VisitStep::Wait(visit) => LoadStep::Wait(
                LoadState { session_id, stage: LoadStage::Local(visit, origins) },
            ),
            VisitStep::Done(Err(e)) => LoadStep::Done(Err(e)),
            VisitStep::Done(Ok(_)) => {
                let next = Visit::restore_session(session_id.as_str(), &origins);
                LoadState::session(session_id, next)
            },
        }
    }

    fn session(session_id: String, step: VisitStep) -> (r: LoadStep)
        ensures
            r.deep_view() == LoadView::session(session_id@, step.deep_view()),
    {
        match step {
            VisitStep::Wait(visit) => LoadStep::Wait(
                LoadState { session_id, stage: LoadStage::Session(visit) },
            ),
            VisitStep::Done(Err(e)) => LoadStep::Done(Err(e)),
            VisitStep::Done(Ok(_)) => LoadStep::Done(Ok(())),
        }
    }

    /// What the outside has to do next.
    pub fn action(&self) -> (r: LoadAction)
        ensures
            r.deep_view() == self.deep_view().action(),
    {
        match &self.stage {
            LoadStage::Cookies(cookies, _) => LoadAction::SetCookies(
                copy_values(cookies),
            ),
            LoadStage::Local(visit, _) => LoadAction::Visit(visit.action()),
            LoadStage::Session(visit) => LoadAction::Visit(visit.action()),
        }
    }

    /// Takes what came in.
    pub fn advance(self, input: VisitInput) -> (r: LoadStep)
        ensures
            r.deep_view() == self.deep_view().advance(input.deep_view()),
    {
        let LoadState { session_id, stage } = self;
        match (stage, input) {
            (LoadStage::Cookies(_, origins), VisitInput::Reply(reply)) => match reply {
                Err(e) => LoadStep::Done(Err(e)),
                Ok(_) => {
                    let step = Visit::restore_local(&origins);
                    LoadState::local(session_id, step, origins)
                },
            },
            (LoadStage::Local(visit, origins), other) => {
                let step = visit.advance(other);
                LoadState::local(session_id, step, origins)
            },
            (LoadStage::Session(visit), other) => {
                let step = visit.advance(other);
                LoadState::session(session_id, step)
            },
            (stage, _) => LoadStep::Wait(LoadState { session_id, stage }),
        }
    }
}

} // verus!
