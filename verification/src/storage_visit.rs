//! Visits to origins that collect or restore what they store. The page of an
//! origin is never asked for: a blank one is shown in its place.

use vstd::prelude::*;

use crate::collections::{optional_str, same_text};
use crate::json::{Json, JsonView};
use crate::operation::{Request, RequestView};
use crate::records::{CdpEvent, CdpEventView};
use crate::storage;
use crate::storage::{
    blank_html_response_b64, parse_origin_storage, store_expression, EntryView, OriginStorage,
    OriginView, StorageEntry,
};
use crate::text;
use crate::text::{chars_of, str_eq, string_from, Chars};

verus! {

/// The JavaScript that describes what the origin of a page stores.
pub const STORAGE_SCRIPT: &'static str = r#"(() => {
        const result = { origin: location.origin, localStorage: [], sessionStorage: [] };
        try {
            for (let i = 0; i < localStorage.length; i++) {
                const key = localStorage.key(i);
                result.localStorage.push({ name: key, value: localStorage.getItem(key) });
            }
        } catch(e) {}
        try {
            for (let i = 0; i < sessionStorage.length; i++) {
                const key = sessionStorage.key(i);
                result.sessionStorage.push({ name: key, value: sessionStorage.getItem(key) });
            }
        } catch(e) {}
        return result;
    })()"#;

/// How long after a navigation the page is waited for, in milliseconds.
pub const NAVIGATION_TIMEOUT_MS: u64 = 5_000;

/// How long a single event is waited for, in milliseconds.
pub const EVENT_TIMEOUT_MS: u64 = 2_000;

/// What a visit is for: to collect storage, to restore local storage, or to
/// restore the session storage of the active page.
#[derive(Clone, Copy, PartialEq, Eq, Structural)]
pub enum VisitKind {
    Collect,
    Local,
    Session,
}

impl VisitKind {
    /// Name of the storage that is restored.
    pub open spec fn storage(self) -> Chars {
        if self == VisitKind::Session {
            "sessionStorage"@
        } else {
            "localStorage"@
        }
    }

    fn storage_name(self) -> (r: &'static str)
        ensures
            r@ == self.storage(),
    {
        match self {
            VisitKind::Session => "sessionStorage",
            _ => "localStorage",
        }
    }
}

/// An origin to visit, with the entries to restore there.
pub struct Job {
    pub origin: String,
    pub entries: Vec<StorageEntry>,
}

/// Model of an origin to visit.
#[verifier::ext_equal]
pub struct JobView {
    pub origin: Chars,
    pub entries: Seq<EntryView>,
}

impl DeepView for Job {
    type V = JobView;

    open spec fn deep_view(&self) -> JobView {
        JobView { origin: self.origin@, entries: self.entries.deep_view() }
    }
}

/// How a visit ended.
pub type VisitOutcome = Result<Vec<OriginStorage>, String>;

/// Model of how a visit ended.
pub type OutcomeView = Result<Seq<OriginView>, Chars>;

/// What a visit waits for.
pub enum VisitStage {
    Create,
    CreatePlain,
    Attach(String),
    Setup(u8),
    Navigate(Job),
    Listen(Job),
    Intercept(Job, String),
    Collect,
    Store(StorageEntry, Vec<StorageEntry>),
    Close(String, VisitOutcome),
    Release(VisitOutcome),
}

/// Model of what a visit waits for.
pub enum VisitStageView {
    Create,
    CreatePlain,
    Attach(Chars),
    Setup(u8),
    Navigate(JobView),
    Listen(JobView),
    Intercept(JobView, Chars),
    Collect,
    Store(EntryView, Seq<EntryView>),
    Close(Chars, OutcomeView),
    Release(OutcomeView),
}

impl DeepView for VisitStage {
    type V = VisitStageView;

    open spec fn deep_view(&self) -> VisitStageView {
        match *self {
            VisitStage::Create => VisitStageView::Create,
            VisitStage::CreatePlain => VisitStageView::CreatePlain,
            VisitStage::Attach(target) => VisitStageView::Attach(target@),
            VisitStage::Setup(n) => VisitStageView::Setup(n),
            VisitStage::Navigate(job) => VisitStageView::Navigate(job.deep_view()),
            VisitStage::Listen(job) => VisitStageView::Listen(job.deep_view()),
            VisitStage::Intercept(job, id) => VisitStageView::Intercept(job.deep_view(), id@),
            VisitStage::Collect => VisitStageView::Collect,
            VisitStage::Store(entry, rest) => VisitStageView::Store(
                entry.deep_view(),
                rest.deep_view(),
            ),
            VisitStage::Close(target, outcome) => VisitStageView::Close(
                target@,
                text::outcome(outcome),
            ),
            VisitStage::Release(outcome) => VisitStageView::Release(text::outcome(outcome)),
        }
    }
}

/// Where a visit takes place and what it has found: a page of its own, which is
/// closed in the end, or the active one.
pub struct VisitPlace {
    pub kind: VisitKind,
    pub session_id: String,
    pub target: Option<String>,
    pub jobs: Vec<Job>,
    pub found: Vec<OriginStorage>,
}

/// Model of where a visit takes place and what it has found.
#[verifier::ext_equal]
pub struct PlaceView {
    pub kind: VisitKind,
    pub session_id: Chars,
    pub target: Option<Chars>,
    pub jobs: Seq<JobView>,
    pub found: Seq<OriginView>,
}

impl DeepView for VisitPlace {
    type V = PlaceView;

    open spec fn deep_view(&self) -> PlaceView {
        PlaceView {
            kind: self.kind,
            session_id: self.session_id@,
            target: self.target.deep_view(),
            jobs: self.jobs.deep_view(),
            found: self.found.deep_view(),
        }
    }
}

/// A visit to origins.
pub struct Visit {
    pub place: VisitPlace,
    pub stage: VisitStage,
}

/// Model of a visit.
pub struct VisitView {
    pub place: PlaceView,
    pub stage: VisitStageView,
}

impl DeepView for Visit {
    type V = VisitView;

    open spec fn deep_view(&self) -> VisitView {
        VisitView { place: self.place.deep_view(), stage: self.stage.deep_view() }
    }
}

/// What a visit came to.
pub enum VisitStep {
    Wait(Visit),
    Done(VisitOutcome),
}

/// Model of what a visit came to.
pub enum VisitStepView {
    Wait(VisitView),
    Done(OutcomeView),
}

impl DeepView for VisitStep {
    type V = VisitStepView;

    open spec fn deep_view(&self) -> VisitStepView {
        match *self {
            VisitStep::Wait(visit) => VisitStepView::Wait(visit.deep_view()),
            VisitStep::Done(outcome) => VisitStepView::Done(text::outcome(outcome)),
        }
    }
}

/// What the outside has to do next. A page is created, attached to or closed by
/// a request to the browser itself, and JavaScript is evaluated by one to a
/// session. Another request is sent and its reply awaited, or it is only sent.
/// Or an event is listened for, so many milliseconds after the last navigation
/// at most, and so many at a time.
pub enum VisitAction {
    Create(Request),
    Attach(Request),
    Close(Request),
    Send(Request),
    Post(Request),
    Evaluate(Request),
    Listen(u64, u64),
}

/// Model of what the outside has to do next.
pub enum VisitActionView {
    Create(RequestView),
    Attach(RequestView),
    Close(RequestView),
    Send(RequestView),
    Post(RequestView),
    Evaluate(RequestView),
    Listen(u64, u64),
}

impl DeepView for VisitAction {
    type V = VisitActionView;

    open spec fn deep_view(&self) -> VisitActionView {
        match *self {
            VisitAction::Create(request) => VisitActionView::Create(request@),
            VisitAction::Attach(request) => VisitActionView::Attach(request@),
            VisitAction::Close(request) => VisitActionView::Close(request@),
            VisitAction::Send(request) => VisitActionView::Send(request@),
            VisitAction::Post(request) => VisitActionView::Post(request@),
            VisitAction::Evaluate(request) => VisitActionView::Evaluate(request@),
            VisitAction::Listen(whole, each) => VisitActionView::Listen(whole, each),
        }
    }
}

/// The request that creates an empty page, in the background or not.
pub open spec fn create_request(background: bool) -> RequestView {
    let page = JsonView::object().with("url"@, JsonView::Str("about:blank"@));
    RequestView::with_params(
        "Target.createTarget"@,
        if background {
            page.with("background"@, JsonView::Bool(true))
        } else {
            page
        },
        ""@,
    )
}

/// The request that attaches to a page.
pub open spec fn attach_request(target: Chars) -> RequestView {
    RequestView::with_params(
        "Target.attachToTarget"@,
        JsonView::object().with("targetId"@, JsonView::Str(target)).with(
            "flatten"@,
            JsonView::Bool(true),
        ),
        ""@,
    )
}

/// The request that closes a page.
pub open spec fn close_request(target: Chars) -> RequestView {
    RequestView::with_params(
        "Target.closeTarget"@,
        JsonView::object().with("targetId"@, JsonView::Str(target)),
        ""@,
    )
}

/// The request that evaluates JavaScript in a session and yields its value.
pub open spec fn evaluate_request(script: Chars, session: Chars) -> RequestView {
    RequestView::with_params(
        "Runtime.evaluate"@,
        JsonView::object().with("expression"@, JsonView::Str(script)).with(
            "returnByValue"@,
            JsonView::Bool(true),
        ).with("awaitPromise"@, JsonView::Bool(false)),
        session,
    )
}

fn create_page(background: bool) -> (r: Request)
    ensures
        r@ == create_request(background),
{
    let page = Json::object().with("url", Json::text("about:blank"));
    let params = if background {
        page.with("background", Json::Bool(true))
    } else {
        page
    };
    Request::with_params("Target.createTarget", params, "")
}

fn attach_page(target: &str) -> (r: Request)
    ensures
        r@ == attach_request(target@),
{
    Request::with_params(
        "Target.attachToTarget",
        Json::object().with("targetId", Json::text(target)).with("flatten", Json::Bool(true)),
        "",
    )
}

fn close_page(target: &str) -> (r: Request)
    ensures
        r@ == close_request(target@),
{
    Request::with_params(
        "Target.closeTarget",
        Json::object().with("targetId", Json::text(target)),
        "",
    )
}

/// The request that evaluates JavaScript in a session and yields its value.
pub fn evaluate_script(script: &str, session_id: &str) -> (r: Request)
    ensures
        r@ == evaluate_request(script@, session_id@),
{
    Request::with_params(
        "Runtime.evaluate",
        Json::object().with("expression", Json::text(script)).with(
            "returnByValue",
            Json::Bool(true),
        ).with("awaitPromise", Json::Bool(false)),
        session_id,
    )
}

/// What came in: the identifier of a page or session, a reply or a value, an
/// event, or that none came in time.
pub enum VisitInput {
    Id(Result<String, String>),
    Reply(Result<Json, String>),
    Event(CdpEvent),
    TimedOut,
}

/// Model of what came in.
pub enum VisitInputView {
    Id(Result<Chars, Chars>),
    Reply(Result<JsonView, Chars>),
    Event(CdpEventView),
    TimedOut,
}

impl DeepView for VisitInput {
    type V = VisitInputView;

    open spec fn deep_view(&self) -> VisitInputView {
        match *self {
            VisitInput::Id(r) => VisitInputView::Id(text::outcome(r)),
            VisitInput::Reply(r) => VisitInputView::Reply(text::outcome(r)),
            VisitInput::Event(event) => VisitInputView::Event(event@),
            VisitInput::TimedOut => VisitInputView::TimedOut,
        }
    }
}

/// A text without the slashes at its end.
pub open spec fn without_slashes(s: Chars) -> Chars
    decreases s.len(),
{
    if s.len() > 0 && s.last() == '/' {
        without_slashes(s.drop_last())
    } else {
        s
    }
}

/// The address of an origin.
pub open spec fn origin_address(origin: Chars) -> Chars {
    without_slashes(origin) + "/"@
}

fn address_of(origin: &str) -> (r: String)
    ensures
        r@ == origin_address(origin@),
{
    let chars = chars_of(origin);
    let mut n: usize = chars.len();
    assert(origin@.take(n as int) == origin@);
    while n > 0 && chars[n - 1] == '/'
        invariant
            chars@ == origin@,
            n <= chars.len(),
            without_slashes(origin@) == without_slashes(origin@.take(n as int)),
        decreases n,
    {
        assert(origin@.take(n as int).drop_last() == origin@.take(n - 1));
        n = n - 1;
    }
    let bare = string_from(&chars, 0, n);
    assert(bare@ == origin@.take(n as int));
    bare.concat("/")
}

/// The patterns of requests that are intercepted: all of them.
pub open spec fn all_requests() -> JsonView {
    JsonView::object().with(
        "patterns"@,
        JsonView::Array(
            seq![
                JsonView::object().with("urlPattern"@, JsonView::Str("*"@)).with(
                    "interceptionStage"@,
                    JsonView::Str("Request"@),
                ),
            ],
        ),
    )
}

fn intercept_all() -> (r: Json)
    ensures
        r@ == all_requests(),
{
    let mut patterns: Vec<Json> = Vec::new();
    patterns.push(
        Json::object().with("urlPattern", Json::text("*")).with(
            "interceptionStage",
            Json::text("Request"),
        ),
    );
    assert(patterns.deep_view() =~= seq![
        JsonView::object().with("urlPattern"@, JsonView::Str("*"@)).with(
            "interceptionStage"@,
            JsonView::Str("Request"@),
        ),
    ]);
    Json::object().with("patterns", Json::array(patterns))
}

/// The requests that prepare a session, one after the other.
pub open spec fn setup_request(n: u8, session: Chars) -> RequestView {
    if n == 0 {
        RequestView::plain("Page.enable"@, session)
    } else if n == 1 {
        RequestView::plain("Runtime.enable"@, session)
    } else if n == 2 {
        RequestView::plain("Network.enable"@, session)
    } else {
        RequestView::with_params(
            "Network.setRequestInterception"@,
            all_requests(),
            session,
        )
    }
}

/// The message of an origin that could not be prepared in time.
pub open spec fn timed_out(origin: Chars) -> Chars {
    "Timed out preparing storage origin "@ + origin
}

impl PlaceView {
    /// The visit in a stage.
    pub open spec fn at(self, stage: VisitStageView) -> VisitStepView {
        VisitStepView::Wait(VisitView { place: self, stage })
    }

    /// The visit ends: its page is closed, or the active page is released.
    pub open spec fn end(self, outcome: OutcomeView) -> VisitStepView {
        match self.target {
            Some(target) => self.at(VisitStageView::Close(target, outcome)),
            None => self.at(VisitStageView::Release(outcome)),
        }
    }

    /// Goes on with the first origin that is left.
    pub open spec fn next(self) -> VisitStepView {
        if self.jobs.len() > 0 {
            PlaceView { jobs: self.jobs.skip(1), ..self }.at(
                VisitStageView::Navigate(self.jobs[0]),
            )
        } else {
            self.end(Ok(self.found))
        }
    }

    /// Goes on with the first entry that is left.
    pub open spec fn store(self, entries: Seq<EntryView>) -> VisitStepView {
        if entries.len() > 0 {
            self.at(VisitStageView::Store(entries[0], entries.skip(1)))
        } else {
            self.next()
        }
    }

    /// The page of an origin could not be shown. A collection goes on without
    /// it.
    pub open spec fn unreachable_origin(self, error: Chars) -> VisitStepView {
        if self.kind == VisitKind::Collect {
            self.next()
        } else {
            self.end(Err(error))
        }
    }

    /// The page of an origin is shown.
    pub open spec fn loaded(self, job: JobView) -> VisitStepView {
        if self.kind == VisitKind::Collect {
            self.at(VisitStageView::Collect)
        } else {
            self.store(job.entries)
        }
    }

    /// An event came while the page of an origin was awaited.
    pub open spec fn heard(self, job: JobView, event: CdpEventView) -> VisitStepView {
        if event.session_id != Some(self.session_id) {
            self.at(VisitStageView::Listen(job))
        } else if event.method == "Network.requestIntercepted"@ {
            match event.params.get_str("interceptionId"@) {
                Some(id) => self.at(VisitStageView::Intercept(job, id)),
                None => self.at(VisitStageView::Listen(job)),
            }
        } else if event.method == "Page.loadEventFired"@ {
            self.loaded(job)
        } else {
            self.at(VisitStageView::Listen(job))
        }
    }

    /// What was found in an origin is noted, if it is anything.
    pub open spec fn with_found(self, value: Result<JsonView, Chars>) -> PlaceView {
        match value {
            Ok(data) => match storage::origin_storage_of(data) {
                Some(origin) => if origin.holds_data() {
                    PlaceView { found: self.found.push(origin), ..self }
                } else {
                    self
                },
                None => self,
            },
            Err(_) => self,
        }
    }

    /// A session could not be prepared.
    pub open spec fn unprepared(self, error: Chars) -> VisitStepView {
        match self.target {
            Some(target) => self.at(VisitStageView::Close(target, Err(error))),
            None => VisitStepView::Done(Err(error)),
        }
    }
}

/// Jobs of the origins that hold entries of a kind.
pub open spec fn restore_jobs(origins: Seq<OriginView>, kind: VisitKind) -> Seq<JobView> {
    origins.map_values(
        |o: OriginView|
            JobView {
                origin: o.origin,
                entries: if kind == VisitKind::Session {
                    o.session_storage
                } else {
                    o.local_storage
                },
            },
    ).filter(|job: JobView| job.entries.len() > 0)
}

/// A place before its visit begins.
pub open spec fn fresh_place(kind: VisitKind, session: Chars, jobs: Seq<JobView>) -> PlaceView {
    PlaceView { kind, session_id: session, target: None, jobs, found: Seq::empty() }
}

impl VisitView {
    /// A visit that collects what origins store.
    pub open spec fn collect(origins: Seq<Chars>) -> VisitStepView {
        fresh_place(
            VisitKind::Collect,
            Seq::empty(),
            origins.map_values(|o: Chars| JobView { origin: o, entries: Seq::empty() }),
        ).at(VisitStageView::Create)
    }

    /// A visit that restores local storage in a page of its own; nothing is
    /// done where there is none.
    pub open spec fn restore_local(origins: Seq<OriginView>) -> VisitStepView {
        let jobs = restore_jobs(origins, VisitKind::Local);
        if jobs.len() == 0 {
            VisitStepView::Done(Ok(Seq::empty()))
        } else {
            fresh_place(VisitKind::Local, Seq::empty(), jobs).at(VisitStageView::CreatePlain)
        }
    }

    /// A visit that restores session storage in the active page; nothing is
    /// done where there is none.
    pub open spec fn restore_session(session: Chars, origins: Seq<OriginView>) -> VisitStepView {
        let jobs = restore_jobs(origins, VisitKind::Session);
        if jobs.len() == 0 {
            VisitStepView::Done(Ok(Seq::empty()))
        } else {
            fresh_place(VisitKind::Session, session, jobs).at(VisitStageView::Setup(0))
        }
    }

    /// What the outside has to do next.
    pub open spec fn action(self) -> VisitActionView {
        let session = self.place.session_id;
        match self.stage {
            VisitStageView::Create => VisitActionView::Create(create_request(true)),
            VisitStageView::CreatePlain => VisitActionView::Create(create_request(false)),
            VisitStageView::Attach(target) => VisitActionView::Attach(attach_request(target)),
            VisitStageView::Setup(n) => VisitActionView::Send(setup_request(n, session)),
            VisitStageView::Navigate(job) => VisitActionView::Post(
                RequestView::with_params(
                    "Page.navigate"@,
                    JsonView::object().with("url"@, JsonView::Str(origin_address(job.origin))),
                    session,
                ),
            ),
            VisitStageView::Listen(_) => VisitActionView::Listen(
                NAVIGATION_TIMEOUT_MS,
                EVENT_TIMEOUT_MS,
            ),
            VisitStageView::Intercept(_, id) => VisitActionView::Send(
                RequestView::with_params(
                    "Network.continueInterceptedRequest"@,
                    JsonView::object().with("interceptionId"@, JsonView::Str(id)).with(
                        "rawResponse"@,
                        JsonView::Str(storage::blank_base64()),
                    ),
                    session,
                ),
            ),
            VisitStageView::Collect => VisitActionView::Evaluate(
                evaluate_request(STORAGE_SCRIPT@, session),
            ),
            VisitStageView::Store(entry, _) => VisitActionView::Evaluate(
                evaluate_request(
                    storage::store_script(self.place.kind.storage(), entry),
                    session,
                ),
            ),
            VisitStageView::Close(target, _) => VisitActionView::Close(close_request(target)),
            VisitStageView::Release(_) => VisitActionView::Send(
                RequestView::with_params(
                    "Network.setRequestInterception"@,
                    JsonView::object().with("patterns"@, JsonView::Array(Seq::empty())),
                    session,
                ),
            ),
        }
    }

    /// What the visit comes to with what came in; what it does not wait for
    /// changes nothing.
    pub open spec fn advance(self, input: VisitInputView) -> VisitStepView {
        match (self.stage, input) {
            (VisitStageView::Create, VisitInputView::Id(r)) => match r {
                Ok(target) => PlaceView { target: Some(target), ..self.place }.at(
                    VisitStageView::Attach(target),
                ),
                Err(_) => self.place.at(VisitStageView::CreatePlain),
            },
            (VisitStageView::CreatePlain, VisitInputView::Id(r)) => match r {
                Ok(target) => PlaceView { target: Some(target), ..self.place }.at(
                    VisitStageView::Attach(target),
                ),
                Err(e) => VisitStepView::Done(Err(e)),
            },
            (VisitStageView::Attach(target), VisitInputView::Id(r)) => match r {
                Ok(session) => PlaceView { session_id: session, ..self.place }.at(
                    VisitStageView::Setup(0),
                ),
                Err(e) => self.place.at(VisitStageView::Close(target, Err(e))),
            },
            (VisitStageView::Setup(n), VisitInputView::Reply(r)) => match r {
                Err(e) => self.place.unprepared(e),
                Ok(_) => if n < 3 {
                    self.place.at(VisitStageView::Setup((n + 1) as u8))
                } else {
                    self.place.next()
                },
            },
            (VisitStageView::Navigate(job), VisitInputView::Reply(r)) => match r {
                Err(e) => self.place.unreachable_origin(e),
                Ok(_) => self.place.at(VisitStageView::Listen(job)),
            },
            (VisitStageView::Listen(job), VisitInputView::Event(event)) => self.place.heard(
                job,
                event,
            ),
            (VisitStageView::Listen(job), VisitInputView::TimedOut) =>
                self.place.unreachable_origin(timed_out(job.origin)),
            (VisitStageView::Intercept(job, _), VisitInputView::Reply(r)) => match r {
                Err(e) => self.place.unreachable_origin(e),
                Ok(_) => self.place.at(VisitStageView::Listen(job)),
            },
            (VisitStageView::Collect, VisitInputView::Reply(r)) => self.place.with_found(r).next(),
            (VisitStageView::Store(_, rest), VisitInputView::Reply(r)) => match r {
                Err(e) => self.place.end(Err(e)),
                Ok(_) => self.place.store(rest),
            },
            (VisitStageView::Close(_, outcome), VisitInputView::Reply(_)) => VisitStepView::Done(
                outcome,
            ),
            (VisitStageView::Release(outcome), VisitInputView::Reply(r)) => VisitStepView::Done(
                match (outcome, r) {
                    (Ok(_), Err(e)) => Err(e),
                    _ => outcome,
                },
            ),
            _ => VisitStepView::Wait(self),
        }
    }
}

fn copy_entries(entries: &Vec<StorageEntry>) -> (r: Vec<StorageEntry>)
    ensures
        r.deep_view() == entries.deep_view(),
{
    let mut copy: Vec<StorageEntry> = Vec::new();
    let mut i: usize = 0;
    while i < entries.len()
        invariant
            i == copy.len() <= entries.len(),
            forall|j: int|
                0 <= j < i ==> (#[trigger] copy@[j]).deep_view() == entries.deep_view()[j],
        decreases entries.len() - i,
    {
        assert(entries.deep_view()[i as int] == entries@[i as int].deep_view());
        copy.push(
            StorageEntry { name: entries[i].name.clone(), value: entries[i].value.clone() },
        );
        i = i + 1;
    }
    assert(copy.deep_view() =~= entries.deep_view());
    copy
}

fn jobs_of(origins: &Vec<OriginStorage>, kind: VisitKind) -> (r: Vec<Job>)
    ensures
        r.deep_view() == restore_jobs(origins.deep_view(), kind),
{
    let ghost f = |o: OriginView|
        JobView {
            origin: o.origin,
            entries: if kind == VisitKind::Session {
                o.session_storage
            } else {
                o.local_storage
            },
        };
    let ghost pred = |job: JobView| job.entries.len() > 0;
    let ghost all = origins.deep_view().map_values(f);
    let mut jobs: Vec<Job> = Vec::new();
    let mut i: usize = 0;
    assert(jobs.deep_view() =~= all.take(0).filter(pred)) by {
        reveal(Seq::filter);
    }
    while i < origins.len()
        invariant
            f == (|o: OriginView|
                JobView {
                    origin: o.origin,
                    entries: if kind == VisitKind::Session {
                        o.session_storage
                    } else {
                        o.local_storage
                    },
                }),
            pred == (|job: JobView| job.entries.len() > 0),
            all == origins.deep_view().map_values(f),
            i <= origins.len(),
            jobs.deep_view() == all.take(i as int).filter(pred),
        decreases origins.len() - i,
    {
        let origin = &origins[i];
        let entries = match kind {
            VisitKind::Session => copy_entries(&origin.session_storage),
            _ => copy_entries(&origin.local_storage),
        };
        let job = Job { origin: origin.origin.clone(), entries };
        let ghost was = jobs.deep_view();
        proof {
            assert(origins.deep_view()[i as int] == origin.deep_view());
            assert(all[i as int] == job.deep_view());
            assert(all.take(i + 1) == all.take(i as int).push(all[i as int]));
            all.take(i as int).lemma_filter_push(all[i as int], pred);
        }
        if job.entries.len() > 0 {
            jobs.push(job);
            assert(jobs.deep_view() =~= was.push(job.deep_view()));
        }
        i = i + 1;
    }
    assert(all.take(i as int) == all);
    jobs
}

fn new_place(kind: VisitKind, session_id: &str, jobs: Vec<Job>) -> (r: VisitPlace)
    ensures
        r.deep_view() == fresh_place(kind, session_id@, jobs.deep_view()),
{
    let found: Vec<OriginStorage> = Vec::new();
    assert(found.deep_view() =~= Seq::<OriginView>::empty());
    VisitPlace { kind, session_id: session_id.to_owned(), target: None, jobs, found }
}

fn nothing() -> (r: VisitOutcome)
    ensures
        text::outcome(r) == Ok::<Seq<OriginView>, Chars>(Seq::empty()),
{
    let none: Vec<OriginStorage> = Vec::new();
    assert(none.deep_view() =~= Seq::<OriginView>::empty());
    Ok(none)
}

impl VisitPlace {
    fn at(self, stage: VisitStage) -> (r: VisitStep)
        ensures
            r.deep_view() == self.deep_view().at(stage.deep_view()),
    {
        VisitStep::Wait(Visit { place: self, stage })
    }

    fn end(self, outcome: VisitOutcome) -> (r: VisitStep)
        ensures
            r.deep_view() == self.deep_view().end(text::outcome(outcome)),
    {
        match &self.target {
            Some(target) => {
                let id = target.clone();
                self.at(VisitStage::Close(id, outcome))
            },
            None => self.at(VisitStage::Release(outcome)),
        }
    }

    fn finish(self) -> (r: VisitStep)
        ensures
            r.deep_view() == self.deep_view().end(Ok(self.deep_view().found)),
    {
        let ghost start = self.deep_view();
        let VisitPlace { kind, session_id, target, jobs, found } = self;
        let copy = copy_origins(&found);
        let place = VisitPlace { kind, session_id, target, jobs, found };
        assert(place.deep_view() == start);
        place.end(Ok(copy))
    }

    fn next(self) -> (r: VisitStep)
        ensures
            r.deep_view() == self.deep_view().next(),
    {
        let ghost start = self.deep_view();
        let mut place = self;
        if place.jobs.len() > 0 {
            let job = place.jobs.remove(0);
            assert(place.deep_view() =~= PlaceView { jobs: start.jobs.skip(1), ..start });
            assert(start.jobs[0] == job.deep_view());
            place.at(VisitStage::Navigate(job))
        } else {
            place.finish()
        }
    }

    fn store(self, entries: Vec<StorageEntry>) -> (r: VisitStep)
        ensures
            r.deep_view() == self.deep_view().store(entries.deep_view()),
    {
        let ghost all = entries.deep_view();
        if entries.len() > 0 {
            let mut rest = entries;
            let entry = rest.remove(0);
            assert(rest.deep_view() =~= all.skip(1));
            assert(all[0] == entry.deep_view());
            self.at(VisitStage::Store(entry, rest))
        } else {
            self.next()
        }
    }

    fn unreachable_origin(self, error: String) -> (r: VisitStep)
        ensures
            r.deep_view() == self.deep_view().unreachable_origin(error@),
    {
        if self.kind == VisitKind::Collect {
            self.next()
        } else {
            self.end(Err(error))
        }
    }

    fn heard(self, job: Job, event: &CdpEvent) -> (r: VisitStep)
        ensures
            r.deep_view() == self.deep_view().heard(job.deep_view(), event@),
    {
        if !same_text(optional_str(&event.session_id), Some(self.session_id.as_str())) {
            return self.at(VisitStage::Listen(job));
        }
        if str_eq(event.method.as_str(), "Network.requestIntercepted") {
            return match event.params.get_str("interceptionId") {
                Some(id) => self.at(VisitStage::Intercept(job, id.to_owned())),
                None => self.at(VisitStage::Listen(job)),
            };
        }
        if str_eq(event.method.as_str(), "Page.loadEventFired") {
            if self.kind == VisitKind::Collect {
                self.at(VisitStage::Collect)
            } else {
                self.store(job.entries)
            }
        } else {
            self.at(VisitStage::Listen(job))
        }
    }

    fn note_found(self, value: &Result<Json, String>) -> (r: VisitPlace)
        ensures
            r.deep_view() == self.deep_view().with_found(text::outcome(*value)),
    {
        let ghost start = self.deep_view();
        let mut place = self;
        if let Ok(data) = value {
            if let Some(origin) = parse_origin_storage(data) {
                if origin.holds_data() {
                    let ghost model = origin.deep_view();
                    place.found.push(origin);
                    assert(place.deep_view() =~= PlaceView {
                        found: start.found.push(model),
                        ..start
                    });
                }
            }
        }
        place
    }

    fn unprepared(self, error: String) -> (r: VisitStep)
        ensures
            r.deep_view() == self.deep_view().unprepared(error@),
    {
        match &self.target {
            Some(target) => {
                let id = target.clone();
                self.at(VisitStage::Close(id, Err(error)))
            },
            None => VisitStep::Done(Err(error)),
        }
    }
}

fn copy_origins(origins: &Vec<OriginStorage>) -> (r: Vec<OriginStorage>)
    ensures
        r.deep_view() == origins.deep_view(),
{
    let mut copy: Vec<OriginStorage> = Vec::new();
    let mut i: usize = 0;
    while i < origins.len()
        invariant
            i == copy.len() <= origins.len(),
            forall|j: int|
                0 <= j < i ==> (#[trigger] copy@[j]).deep_view() == origins.deep_view()[j],
        decreases origins.len() - i,
    {
        assert(origins.deep_view()[i as int] == origins@[i as int].deep_view());
        copy.push(
            OriginStorage {
                origin: origins[i].origin.clone(),
                local_storage: copy_entries(&origins[i].local_storage),
                session_storage: copy_entries(&origins[i].session_storage),
            },
        );
        i = i + 1;
    }
    assert(copy.deep_view() =~= origins.deep_view());
    copy
}

fn prepare_request(n: u8, session_id: &str) -> (r: Request)
    ensures
        r@ == setup_request(n, session_id@),
{
    if n == 0 {
        Request::plain("Page.enable", session_id)
    } else if n == 1 {
        Request::plain("Runtime.enable", session_id)
    } else if n == 2 {
        Request::plain("Network.enable", session_id)
    } else {
        Request::with_params("Network.setRequestInterception", intercept_all(), session_id)
    }
}

impl Visit {
    /// Starts a visit that collects what origins store.
    pub fn collect(origins: &Vec<String>) -> (r: VisitStep)
        ensures
            r.deep_view() == VisitView::collect(origins.deep_view()),
    {
        let mut jobs: Vec<Job> = Vec::new();
        let mut i: usize = 0;
        while i < origins.len()
            invariant
                i == jobs.len() <= origins.len(),
                forall|j: int|
                    0 <= j < i ==> (#[trigger] jobs@[j]).deep_view() == (JobView {
                        origin: origins.deep_view()[j],
                        entries: Seq::empty(),
                    }),
            decreases origins.len() - i,
        {
            let entries: Vec<StorageEntry> = Vec::new();
            assert(entries.deep_view() =~= Seq::<EntryView>::empty());
            jobs.push(Job { origin: origins[i].clone(), entries });
            i = i + 1;
        }
        assert(jobs.deep_view() =~= origins.deep_view().map_values(
            |o: Chars| JobView { origin: o, entries: Seq::empty() },
        ));
        proof {
            reveal_strlit("");
            assert(""@ =~= Seq::<char>::empty());
        }
        new_place(VisitKind::Collect, "", jobs).at(VisitStage::Create)
    }

    /// Starts a visit that restores local storage.
    pub fn restore_local(origins: &Vec<OriginStorage>) -> (r: VisitStep)
        ensures
            r.deep_view() == VisitView::restore_local(origins.deep_view()),
    {
        let jobs = jobs_of(origins, VisitKind::Local);
        if jobs.len() == 0 {
            return VisitStep::Done(nothing());
        }
        proof {
            reveal_strlit("");
            assert(""@ =~= Seq::<char>::empty());
        }
        new_place(VisitKind::Local, "", jobs).at(VisitStage::CreatePlain)
    }

    /// Starts a visit that restores session storage in the active page.
    pub fn restore_session(session_id: &str, origins: &Vec<OriginStorage>) -> (r: VisitStep)
        ensures
            r.deep_view() == VisitView::restore_session(session_id@, origins.deep_view()),
    {
        let jobs = jobs_of(origins, VisitKind::Session);
        if jobs.len() == 0 {
            return VisitStep::Done(nothing());
        }
        new_place(VisitKind::Session, session_id, jobs).at(VisitStage::Setup(0))
    }

    /// What the outside has to do next.
    pub fn action(&self) -> (r: VisitAction)
        ensures
            r.deep_view() == self.deep_view().action(),
    {
        let session_id = self.place.session_id.as_str();
        match &self.stage {
            VisitStage::Create => VisitAction::Create(create_page(true)),
            VisitStage::CreatePlain => VisitAction::Create(create_page(false)),
            VisitStage::Attach(target) => VisitAction::Attach(attach_page(target.as_str())),
            VisitStage::Setup(n) => VisitAction::Send(prepare_request(*n, session_id)),
            VisitStage::Navigate(job) => VisitAction::Post(
                Request::with_params(
                    "Page.navigate",
                    Json::object().with("url", Json::Str(address_of(job.origin.as_str()))),
                    session_id,
                ),
            ),
            VisitStage::Listen(_) => VisitAction::Listen(NAVIGATION_TIMEOUT_MS, EVENT_TIMEOUT_MS),
            VisitStage::Intercept(_, id) => VisitAction::Send(
                Request::with_params(
                    "Network.continueInterceptedRequest",
                    Json::object().with("interceptionId", Json::text(id.as_str())).with(
                        "rawResponse",
                        Json::Str(blank_html_response_b64()),
                    ),
                    session_id,
                ),
            ),
            VisitStage::Collect => VisitAction::Evaluate(
                evaluate_script(STORAGE_SCRIPT, session_id),
            ),
            VisitStage::Store(entry, _) => VisitAction::Evaluate(
                evaluate_script(
                    store_expression(self.place.kind.storage_name(), entry).as_str(),
                    session_id,
                ),
            ),
            VisitStage::Close(target, _) => VisitAction::Close(close_page(target.as_str())),
            VisitStage::Release(_) => {
                let none: Vec<Json> = Vec::new();
                assert(none.deep_view() =~= Seq::<JsonView>::empty());
                VisitAction::Send(
                    Request::with_params(
                        "Network.setRequestInterception",
                        Json::object().with("patterns", Json::array(none)),
                        session_id,
                    ),
                )
            },
        }
    }

    /// Takes what came in.
    pub fn advance(self, input: VisitInput) -> (r: VisitStep)
        ensures
            r.deep_view() == self.deep_view().advance(input.deep_view()),
    {
        let Visit { place, stage } = self;
        match (stage, input) {
            (VisitStage::Create, VisitInput::Id(id)) => match id {
                Ok(target) => {
                    let mut place = place;
                    place.target = Some(target.clone());
                    place.at(VisitStage::Attach(target))
                },
                Err(_) => place.at(VisitStage::CreatePlain),
            },
            (VisitStage::CreatePlain, VisitInput::Id(id)) => match id {
                Ok(target) => {
                    let mut place = place;
                    place.target = Some(target.clone());
                    place.at(VisitStage::Attach(target))
                },
                Err(e) => VisitStep::Done(Err(e)),
            },
            (VisitStage::Attach(target), VisitInput::Id(id)) => match id {
                Ok(session_id) => {
                    let mut place = place;
                    place.session_id = session_id;
                    place.at(VisitStage::Setup(0))
                },
                Err(e) => place.at(VisitStage::Close(target, Err(e))),
            },
            (VisitStage::Setup(n), VisitInput::Reply(reply)) => match reply {
                Err(e) => place.unprepared(e),
                Ok(_) => if n < 3 {
                    place.at(VisitStage::Setup(n + 1))
                } else {
                    place.next()
                },
            },
            (VisitStage::Navigate(job), VisitInput::Reply(reply)) => match reply {
                Err(e) => place.unreachable_origin(e),
                Ok(_) => place.at(VisitStage::Listen(job)),
            },
            (VisitStage::Listen(job), VisitInput::Event(event)) => place.heard(job, &event),
            (VisitStage::Listen(job), VisitInput::TimedOut) => {
                let message = "Timed out preparing storage origin ".to_owned().concat(
                    job.origin.as_str(),
                );
                place.unreachable_origin(message)
            },
            (VisitStage::Intercept(job, _), VisitInput::Reply(reply)) => match reply {
                Err(e) => place.unreachable_origin(e),
                Ok(_) => place.at(VisitStage::Listen(job)),
            },
            (VisitStage::Collect, VisitInput::Reply(reply)) => place.note_found(&reply).next(),
            (VisitStage::Store(_, rest), VisitInput::Reply(reply)) => match reply {
                Err(e) => place.end(Err(e)),
                Ok(_) => place.store(rest),
            },
            (VisitStage::Close(_, outcome), VisitInput::Reply(_)) => VisitStep::Done(outcome),
            (VisitStage::Release(outcome), VisitInput::Reply(reply)) => match (outcome, reply) {
                (Ok(_), Err(e)) => VisitStep::Done(Err(e)),
                (outcome, _) => VisitStep::Done(outcome),
            },
            (stage, _) => VisitStep::Wait(Visit { place, stage }),
        }
    }
}

} // verus!
