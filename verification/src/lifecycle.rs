//! Connections and pages: attaching, detaching and synchronizing.


use vstd::prelude::*;

use crate::collections;
use crate::collections::{copy_optional, set_remove, StrMap};
use crate::controller;
use crate::controller::{ControllerState, StateView};
use crate::json::{Json, JsonView};
use crate::records::{DebugSession, PageInfo, PageView, PauseRecord, PauseView, SessionView};
use crate::text;
use crate::text::{str_eq, u64_text, Chars};

verus! {

/// Start of the name of the binding that logpoints call.
pub const LOGPOINT_BINDING_PREFIX: &'static str = "__agent_browser_debug_hit_";

/// Sessions by their identifier.
pub type SessionTable = Seq<(Chars, SessionView)>;

/// Name of a tab.
pub open spec fn tab_name(tab: u32) -> Chars {
    "t"@ + text::decimal(tab as nat)
}

/// Name of a tab.
pub fn format_tab_id(tab: u32) -> (r: String)
    ensures
        r@ == tab_name(tab),
{
    "t".to_owned().concat(u64_text(tab as u64).as_str())
}

/// Whether a text is made of the lower-case hexadecimal digits of a random
/// UUID.
pub open spec fn is_uuid_text(s: Chars) -> bool {
    &&& s.len() == 32
    &&& s[12] == '4'
    &&& forall|i: int| 0 <= i < s.len() ==> '0' <= #[trigger] s[i] <= '9' || 'a' <= s[i] <= 'f'
}

/// `uuid::Uuid::new_v4`, written by `simple` as thirty-two lower-case
/// hexadecimal digits, the thirteenth of which is the version. Which digits
/// the others are is left to chance. It panics where the system has no random
/// bytes to give.
#[verifier::external_body]
fn random_uuid() -> (r: String)
    ensures
        is_uuid_text(r@),
{
    uuid::Uuid::new_v4().simple().to_string()
}

/// Session of a page; a session that was known keeps its document.
pub open spec fn page_session(page: PageView, known: Option<SessionView>) -> SessionView {
    SessionView {
        tab_id: tab_name(page.tab_id),
        target_id: page.target_id,
        session_id: page.session_id,
        document_generation: match known {
            Some(s) => s.document_generation,
            None => 1,
        },
        loader_id: match known {
            Some(s) => s.loader_id,
            None => None,
        },
    }
}

/// Sessions of the pages; sessions of `old` keep their document.
pub open spec fn page_table(pages: Seq<PageView>, old: SessionTable) -> SessionTable
    decreases pages.len(),
{
    if pages.len() == 0 {
        Seq::empty()
    } else {
        let page = pages.last();
        collections::put(
            page_table(pages.drop_last(), old),
            page.session_id,
            page_session(page, collections::lookup(old, page.session_id)),
        )
    }
}

/// The first session that shows a tab.
pub open spec fn session_of_tab(table: SessionTable, tab: Chars) -> Option<SessionView>
    decreases table.len(),
{
    if table.len() == 0 {
        None
    } else {
        match session_of_tab(table.drop_last(), tab) {
            Some(session) => Some(session),
            None => if table.last().1.tab_id == tab {
                Some(table.last().1)
            } else {
                None
            },
        }
    }
}

/// Identifier of the session that shows the active tab.
pub open spec fn active_of(table: SessionTable, active: Option<u32>) -> Option<Chars> {
    match active {
        Some(tab) => match session_of_tab(table, tab_name(tab)) {
            Some(session) => Some(session.session_id),
            None => None,
        },
        None => None,
    }
}

/// Entries of `table` whose key `other` does not hold.
pub open spec fn missing_from(table: SessionTable, other: SessionTable) -> SessionTable {
    table.filter(|e: (Chars, SessionView)| collections::lookup(other, e.0) is None)
}

/// The sessions that the pages have before anything is known of them.
pub open spec fn fresh_sessions(pages: Seq<PageView>) -> Seq<SessionView> {
    pages.map_values(|page: PageView| page_session(page, None))
}

impl StateView {
    /// The state after sessions were reported as attached.
    pub open spec fn report_attached(self, now: u64, sessions: Seq<SessionView>) -> StateView
        decreases sessions.len(),
    {
        if sessions.len() == 0 {
            self
        } else {
            let session = sessions.last();
            self.report_attached(now, sessions.drop_last()).push_event(
                now,
                "target-attached"@,
                Some(session.session_id),
                JsonView::object().with("targetId"@, JsonView::Str(session.target_id)).with(
                    "tabId"@,
                    JsonView::Str(session.tab_id),
                ),
            )
        }
    }

    /// The state without what belonged to the connection before.
    pub open spec fn reset(self, now: u64, reason: Chars) -> StateView {
        let stale = StateView {
            sessions: Seq::empty(),
            enabled_sessions: Seq::empty(),
            execution_contexts: Seq::empty(),
            binding_sessions: Seq::empty(),
            paused_sessions: Seq::empty(),
            scripts: Seq::empty(),
            ..self
        }.mark_all_stale(now, reason);
        StateView {
            physical_probes: Seq::empty(),
            physical_by_cdp_breakpoint: Seq::empty(),
            ..stale
        }
    }

    /// The state after a browser was attached.
    pub open spec fn attach(
        self,
        now: u64,
        pages: Seq<PageView>,
        active: Option<u32>,
        suffix: Chars,
        nonce: Chars,
    ) -> StateView {
        let told = if self.connected {
            self.push_event(
                now,
                "connection-reset"@,
                None,
                JsonView::object().with(
                    "previousConnectionGeneration"@,
                    JsonView::Uint(self.connection_generation),
                ),
            )
        } else {
            self
        };
        let generation = controller::next_number(self.connection_generation);
        let clean = StateView {
            connection_generation: generation,
            connected: true,
            ..told
        }.reset(now, "connection-reset"@);
        let sessions = page_table(pages, Seq::empty());
        StateView {
            binding_name: LOGPOINT_BINDING_PREFIX@ + suffix,
            binding_nonce: nonce,
            sessions,
            active_session: active_of(sessions, active),
            ..clean
        }.push_event(
            now,
            "connection-attached"@,
            None,
            JsonView::object().with("connectionGeneration"@, JsonView::Uint(generation)),
        ).report_attached(now, fresh_sessions(pages))
    }

    /// The state after the browser was detached.
    pub open spec fn detach(self, now: u64, reason: Chars) -> StateView {
        if !self.connected {
            self
        } else {
            let told = self.push_event(
                now,
                "connection-reset"@,
                None,
                JsonView::object().with(
                    "previousConnectionGeneration"@,
                    JsonView::Uint(self.connection_generation),
                ).with("reason"@, JsonView::Str(reason)).with(
                    "invalidatedPauses"@,
                    JsonView::Array(pause_list(self)),
                ),
            );
            StateView { connected: false, active_session: None, ..told }.reset(now, reason)
        }
    }

    /// The state after the page of a session was closed.
    pub open spec fn drop_page(self, now: u64, session: Chars) -> StateView {
        let told = StateView {
            paused_sessions: collections::del(self.paused_sessions, session),
            ..self
        }.push_event(
            now,
            "target-detached"@,
            Some(session),
            JsonView::object().with(
                "invalidatedPause"@,
                PauseView::opt_json(collections::lookup(self.paused_sessions, session)),
            ),
        ).invalidate_session(now, session, u64::MAX, "session-detached"@).push_event(
            now,
            "session-detached"@,
            Some(session),
            JsonView::object(),
        );
        StateView {
            enabled_sessions: collections::set_without(told.enabled_sessions, session),
            execution_contexts: collections::del(told.execution_contexts, session),
            binding_sessions: collections::set_without(told.binding_sessions, session),
            scripts: controller::without_session(told.scripts, session),
            ..told
        }
    }

    /// The state after the pages of several sessions were closed in turn.
    pub open spec fn drop_pages(self, now: u64, sessions: Seq<Chars>) -> StateView
        decreases sessions.len(),
    {
        if sessions.len() == 0 {
            self
        } else {
            self.drop_pages(now, sessions.drop_last()).drop_page(now, sessions.last())
        }
    }

    /// The state after the pages were synchronized.
    pub open spec fn sync(self, now: u64, pages: Seq<PageView>, active: Option<u32>) -> StateView {
        let next = page_table(pages, self.sessions);
        let closed = self.drop_pages(now, collections::keys(missing_from(self.sessions, next)));
        let told = StateView { sessions: next, ..closed }.report_attached(
            now,
            collections::values(missing_from(next, self.sessions)),
        );
        StateView { active_session: active_of(next, active), ..told }
    }
}

/// The pauses of a state, as JSON.
pub open spec fn pause_list(state: StateView) -> Seq<JsonView> {
    collections::values(state.paused_sessions).map_values(|p: PauseView| p.to_json())
}

fn sessions_of(pages: &Vec<PageInfo>, old: &StrMap<DebugSession>) -> (r: StrMap<DebugSession>)
    ensures
        r@ == page_table(pages.deep_view(), old@),
{
    let ghost all = pages.deep_view();
    let mut table: StrMap<DebugSession> = StrMap::new();
    let mut i: usize = 0;
    while i < pages.len()
        invariant
            all == pages.deep_view(),
            i <= pages.len(),
            table@ == page_table(all.take(i as int), old@),
        decreases pages.len() - i,
    {
        let page = &pages[i];
        assert(all.take(i + 1).drop_last() == all.take(i as int));
        assert(all.take(i + 1).last() == page.deep_view());
        let known = old.get(page.session_id.as_str());
        let session = DebugSession {
            tab_id: format_tab_id(page.tab_id),
            target_id: page.target_id.clone(),
            session_id: page.session_id.clone(),
            document_generation: match known {
                Some(s) => s.document_generation,
                None => 1,
            },
            loader_id: match known {
                Some(s) => copy_optional(&s.loader_id),
                None => None,
            },
        };
        assert(session.deep_view() == page_session(
            page.deep_view(),
            collections::lookup(old@, page.session_id@),
        ));
        table.insert(page.session_id.clone(), session);
        i = i + 1;
    }
    assert(all.take(i as int) == all);
    table
}

/// The first session that shows a tab.
pub fn find_tab<'a>(table: &'a StrMap<DebugSession>, tab: &str) -> (r: Option<&'a DebugSession>)
    ensures
        r.deep_view() == session_of_tab(table@, tab@),
{
    let mut i: usize = 0;
    while i < table.entries.len()
        invariant
            i <= table.entries.len() == table@.len(),
            session_of_tab(table@.take(i as int), tab@) is None,
        decreases table.entries.len() - i,
    {
        assert(table@.take(i + 1).drop_last() == table@.take(i as int));
        assert(table@.take(i + 1).last() == table@[i as int]);
        if str_eq(table.entries[i].1.tab_id.as_str(), tab) {
            proof {
                lemma_first_stays(table@, i + 1, tab@);
            }
            return Some(&table.entries[i].1);
        }
        i = i + 1;
    }
    assert(table@.take(i as int) == table@);
    None
}

proof fn lemma_first_stays(table: SessionTable, n: int, tab: Chars)
    requires
        0 <= n <= table.len(),
        session_of_tab(table.take(n), tab) is Some,
    ensures
        session_of_tab(table, tab) == session_of_tab(table.take(n), tab),
    decreases table.len(),
{
    if n == table.len() {
        assert(table.take(n) == table);
    } else {
        assert(table.drop_last().take(n) == table.take(n));
        lemma_first_stays(table.drop_last(), n, tab);
    }
}

fn active_session_of(table: &StrMap<DebugSession>, active: Option<u32>) -> (r: Option<String>)
    ensures
        r.deep_view() == active_of(table@, active),
{
    match active {
        Some(tab) => {
            let name = format_tab_id(tab);
            match find_tab(table, name.as_str()) {
                Some(session) => Some(session.session_id.clone()),
                None => None,
            }
        },
        None => None,
    }
}

fn entries_missing(table: &StrMap<DebugSession>, other: &StrMap<DebugSession>) -> (r: (
    Vec<String>,
    Vec<DebugSession>,
))
    ensures
        r.0.deep_view() == collections::keys(missing_from(table@, other@)),
        r.1.deep_view() == collections::values(missing_from(table@, other@)),
{
    let ghost pred = |e: (Chars, SessionView)| collections::lookup(other@, e.0) is None;
    let mut ids: Vec<String> = Vec::new();
    let mut sessions: Vec<DebugSession> = Vec::new();
    let mut i: usize = 0;
    proof {
        reveal(Seq::filter);
        assert(ids.deep_view() =~= collections::keys(table@.take(0).filter(pred)));
        assert(sessions.deep_view() =~= collections::values(table@.take(0).filter(pred)));
    }
    while i < table.entries.len()
        invariant
            pred == (|e: (Chars, SessionView)| collections::lookup(other@, e.0) is None),
            i <= table.entries.len() == table@.len(),
            ids.deep_view() == collections::keys(table@.take(i as int).filter(pred)),
            sessions.deep_view() == collections::values(table@.take(i as int).filter(pred)),
        decreases table.entries.len() - i,
    {
        let entry = &table.entries[i];
        let ghost was = table@.take(i as int).filter(pred);
        let ghost item = table@[i as int];
        proof {
            assert(table@.take(i + 1) == table@.take(i as int).push(item));
            table@.take(i as int).lemma_filter_push(item, pred);
        }
        if !other.contains(entry.0.as_str()) {
            let ghost before_ids = ids.deep_view();
            let ghost before_sessions = sessions.deep_view();
            ids.push(entry.0.clone());
            sessions.push(entry.1.clone());
            proof {
                assert(ids.deep_view() =~= before_ids.push(item.0));
                assert(sessions.deep_view() =~= before_sessions.push(item.1));
                assert(collections::keys(was.push(item)) =~= collections::keys(was).push(item.0));
                assert(collections::values(was.push(item)) =~= collections::values(was).push(
                    item.1,
                ));
            }
        }
        i = i + 1;
    }
    assert(table@.take(i as int) == table@);
    (ids, sessions)
}

impl ControllerState {
    fn report_attached(&mut self, now: u64, sessions: &Vec<DebugSession>)
        ensures
            final(self)@ == old(self)@.report_attached(now, sessions.deep_view()),
    {
        let ghost all = sessions.deep_view();
        let mut i: usize = 0;
        while i < sessions.len()
            invariant
                all == sessions.deep_view(),
                i <= sessions.len(),
                self@ == old(self)@.report_attached(now, all.take(i as int)),
            decreases sessions.len() - i,
        {
            let session = &sessions[i];
            assert(all.take(i + 1).drop_last() == all.take(i as int));
            assert(all.take(i + 1).last() == session.deep_view());
            self.push_event(
                now,
                "target-attached",
                Some(session.session_id.as_str()),
                Json::object().with("targetId", Json::text(session.target_id.as_str())).with(
                    "tabId",
                    Json::text(session.tab_id.as_str()),
                ),
            );
            i = i + 1;
        }
        assert(all.take(i as int) == all);
    }

    fn reset(&mut self, now: u64, reason: &str)
        ensures
            final(self)@ == old(self)@.reset(now, reason@),
    {
        self.sessions = StrMap::new();
        self.enabled_sessions = Vec::new();
        self.execution_contexts = StrMap::new();
        self.binding_sessions = Vec::new();
        self.paused_sessions = StrMap::new();
        self.scripts = Vec::new();
        assert(self@ =~= StateView {
            sessions: Seq::empty(),
            enabled_sessions: Seq::empty(),
            execution_contexts: Seq::empty(),
            binding_sessions: Seq::empty(),
            paused_sessions: Seq::empty(),
            scripts: Seq::empty(),
            ..old(self)@
        });
        self.mark_all_probes_stale(now, reason);
        self.physical_probes = StrMap::new();
        self.physical_by_cdp_breakpoint = StrMap::new();
    }

    /// Replaces the connection by one to a browser with the given pages; the
    /// binding of its logpoints gets the given suffix and nonce.
    pub fn attach_with(
        &mut self,
        now: u64,
        pages: &Vec<PageInfo>,
        active_tab_id: Option<u32>,
        suffix: &str,
        nonce: String,
    )
        ensures
            final(self)@ == old(self)@.attach(
                now,
                pages.deep_view(),
                active_tab_id,
                suffix@,
                nonce@,
            ),
    {
        let old_generation = self.connection_generation;
        if self.connected {
            self.push_event(
                now,
                "connection-reset",
                None,
                Json::object().with("previousConnectionGeneration", Json::Uint(old_generation)),
            );
        }
        proof {
            controller::lemma_push_event_frame(
                old(self)@,
                now,
                "connection-reset"@,
                None,
                JsonView::object().with(
                    "previousConnectionGeneration"@,
                    JsonView::Uint(old_generation),
                ),
            );
        }
        let generation = controller::increment(old_generation);
        self.connection_generation = generation;
        self.connected = true;
        self.reset(now, "connection-reset");
        let unknown: StrMap<DebugSession> = StrMap::new();
        let sessions = sessions_of(pages, &unknown);
        let mut attached: Vec<DebugSession> = Vec::new();
        let ghost all = pages.deep_view();
        let mut i: usize = 0;
        while i < pages.len()
            invariant
                all == pages.deep_view(),
                i == attached.len() <= pages.len(),
                forall|j: int|
                    0 <= j < i ==> (#[trigger] attached@[j]).deep_view() == page_session(
                        all[j],
                        None,
                    ),
            decreases pages.len() - i,
        {
            let page = &pages[i];
            assert(all[i as int] == page.deep_view());
            let session = DebugSession {
                tab_id: format_tab_id(page.tab_id),
                target_id: page.target_id.clone(),
                session_id: page.session_id.clone(),
                document_generation: 1,
                loader_id: None,
            };
            assert(session.deep_view() == page_session(page.deep_view(), None));
            attached.push(session);
            i = i + 1;
        }
        assert(attached.deep_view() =~= fresh_sessions(all));
        self.binding_name = LOGPOINT_BINDING_PREFIX.to_owned().concat(suffix);
        self.binding_nonce = nonce;
        self.active_session = active_session_of(&sessions, active_tab_id);
        self.sessions = sessions;
        self.push_event(
            now,
            "connection-attached",
            None,
            Json::object().with("connectionGeneration", Json::Uint(generation)),
        );
        self.report_attached(now, &attached);
    }

    /// Replaces the connection by one to a browser with the given pages. The
    /// binding of its logpoints gets a random name and nonce.
    pub fn attach_browser(
        &mut self,
        now: u64,
        pages: &Vec<PageInfo>,
        active_tab_id: Option<u32>,
    )
        ensures
            exists|suffix: Chars, nonce: Chars|
                is_uuid_text(suffix) && is_uuid_text(nonce) && final(self)@
                    == #[trigger] old(self)@.attach(
                    now,
                    pages.deep_view(),
                    active_tab_id,
                    suffix,
                    nonce,
                ),
    {
        let suffix = random_uuid();
        let nonce = random_uuid();
        self.attach_with(now, pages, active_tab_id, suffix.as_str(), nonce);
    }

    /// Drops the connection. Says whether there was one, and so whether
    /// waiting readers are to be told.
    pub fn detach_browser(&mut self, now: u64, reason: &str) -> (r: bool)
        ensures
            final(self)@ == old(self)@.detach(now, reason@),
            r == old(self)@.connected,
    {
        if !self.connected {
            return false;
        }
        let ghost table = self@.paused_sessions;
        let mut pauses: Vec<Json> = Vec::new();
        let mut i: usize = 0;
        while i < self.paused_sessions.entries.len()
            invariant
                self@ == old(self)@,
                table == self@.paused_sessions,
                i == pauses.len() <= self.paused_sessions.entries.len() == table.len(),
                forall|j: int|
                    0 <= j < i ==> (#[trigger] pauses@[j])@ == table[j].1.to_json(),
            decreases self.paused_sessions.entries.len() - i,
        {
            assert(table[i as int].1 == self.paused_sessions.entries@[i as int].1.deep_view());
            pauses.push(self.paused_sessions.entries[i].1.to_json());
            i = i + 1;
        }
        assert(pauses.deep_view() =~= pause_list(self@));
        self.push_event(
            now,
            "connection-reset",
            None,
            Json::object().with(
                "previousConnectionGeneration",
                Json::Uint(self.connection_generation),
            ).with("reason", Json::text(reason)).with("invalidatedPauses", Json::array(pauses)),
        );
        self.connected = false;
        self.active_session = None;
        self.reset(now, reason);
        true
    }

    /// Names the browser engine.
    pub fn set_engine(&mut self, engine: &str)
        ensures
            final(self)@ == (StateView { engine: engine@, ..old(self)@ }),
    {
        self.engine = engine.to_owned();
    }

    fn drop_page(&mut self, now: u64, detached: &str)
        ensures
            final(self)@ == old(self)@.drop_page(now, detached@),
    {
        let pause = self.paused_sessions.remove(detached);
        self.push_event(
            now,
            "target-detached",
            Some(detached),
            Json::object().with("invalidatedPause", PauseRecord::opt_json(&pause)),
        );
        self.invalidate_session_probes(now, detached, u64::MAX, "session-detached");
        self.push_event(now, "session-detached", Some(detached), Json::object());
        set_remove(&mut self.enabled_sessions, detached);
        let _ = self.execution_contexts.remove(detached);
        set_remove(&mut self.binding_sessions, detached);
        self.drop_session_scripts(detached);
    }

    /// Takes over the pages that the browser shows now.
    pub fn sync_pages(&mut self, now: u64, pages: &Vec<PageInfo>, active_tab_id: Option<u32>)
        ensures
            final(self)@ == old(self)@.sync(now, pages.deep_view(), active_tab_id),
    {
        let next = sessions_of(pages, &self.sessions);
        let detached = entries_missing(&self.sessions, &next).0;
        let attached = entries_missing(&next, &self.sessions).1;
        let ghost all = detached.deep_view();
        let mut i: usize = 0;
        while i < detached.len()
            invariant
                all == detached.deep_view(),
                i <= detached.len(),
                self@ == old(self)@.drop_pages(now, all.take(i as int)),
            decreases detached.len() - i,
        {
            assert(all.take(i + 1).drop_last() == all.take(i as int));
            assert(all.take(i + 1).last() == detached@[i as int]@);
            self.drop_page(now, detached[i].as_str());
            i = i + 1;
        }
        assert(all.take(i as int) == all);
        self.sessions = next;
        self.report_attached(now, &attached);
        let active = active_session_of(&self.sessions, active_tab_id);
        proof {
            lemma_report_attached_sessions(
                StateView {
                    sessions: page_table(pages.deep_view(), old(self)@.sessions),
                    ..old(self)@.drop_pages(now, all)
                },
                now,
                attached.deep_view(),
            );
        }
        self.active_session = active;
    }
}

/// Reporting sessions leaves the table of sessions as it is.
pub proof fn lemma_report_attached_sessions(
    state: StateView,
    now: u64,
    sessions: Seq<SessionView>,
)
    ensures
        state.report_attached(now, sessions).sessions == state.sessions,
    decreases sessions.len(),
{
    if sessions.len() > 0 {
        lemma_report_attached_sessions(state, now, sessions.drop_last());
        let session = sessions.last();
        controller::lemma_push_event_frame(
            state.report_attached(now, sessions.drop_last()),
            now,
            "target-attached"@,
            Some(session.session_id),
            JsonView::object().with("targetId"@, JsonView::Str(session.target_id)).with(
                "tabId"@,
                JsonView::Str(session.tab_id),
            ),
        );
    }
}

} // verus!
