//! Binding of persistent probes to scripts that were loaded again.

use vstd::prelude::*;

use crate::collections;
use crate::collections::same_text;
use crate::controller;
use crate::controller::{ControllerState, StateView};
use crate::json;
use crate::json::{same_optional, Json, JsonView};
use crate::records::{LogicalProbe, LogicalView, PhysicalTable, ProbeKind, SessionView};
use crate::text;
use crate::text::{str_eq, Chars};

verus! {

/// A probe that can be bound again, and the command that does it.
pub struct RebindCandidate {
    pub probe_id: String,
    pub kind: ProbeKind,
    pub command: Json,
}

/// Model of a candidate.
#[verifier::ext_equal]
pub struct RebindView {
    pub probe_id: Chars,
    pub kind: ProbeKind,
    pub command: JsonView,
}

impl DeepView for RebindCandidate {
    type V = RebindView;

    open spec fn deep_view(&self) -> RebindView {
        RebindView { probe_id: self.probe_id@, kind: self.kind, command: self.command@ }
    }
}

/// Whether a persistent probe was set in a session on a script of this address.
pub open spec fn follows_script(probe: LogicalView, session: Chars, script: JsonView) -> bool {
    probe.persistent && probe.enabled && probe.target.get_str("sessionId"@) == Some(session)
        && json::equal_optional(probe.target.get("url"@), script.get("url"@))
}

/// Whether a probe has an installation in a script.
pub open spec fn installed_in(physical: PhysicalTable, ids: Seq<Chars>, script_id: Chars) -> bool {
    exists|i: int|
        0 <= i < ids.len() && installed_at(physical, #[trigger] ids[i], script_id)
}

/// Whether an installation is one in a script.
pub open spec fn installed_at(physical: PhysicalTable, id: Chars, script_id: Chars) -> bool {
    match collections::lookup(physical, id) {
        Some(binding) => binding.script_id == script_id,
        None => false,
    }
}

/// Whether a probe is bound again to a script: the script is of the same
/// connection, document, owner and context, and the probe is not installed in
/// it.
pub open spec fn can_rebind(
    probe: LogicalView,
    physical: PhysicalTable,
    generation: u64,
    session: SessionView,
    session_id: Chars,
    script_id: Chars,
    script: JsonView,
) -> bool {
    follows_script(probe, session_id, script) && probe.target.get_u64("connectionGeneration"@)
        == Some(generation) && probe.target.get_u64("documentGeneration"@) == Some(
        session.document_generation,
    ) && json::equal_optional(
        JsonView::inner(probe.target.get("runtimeOwner"@), "ownerId"@),
        script.get_or_null("runtimeOwner"@).get("ownerId"@),
    ) && json::equal_optional(
        probe.target.get("executionContextId"@),
        script.get("executionContextId"@),
    ) && !installed_in(
        physical,
        probe.physical_ids,
        script_id,
    )
}

/// The command that binds a probe to a script again.
pub open spec fn rebind_command(probe: LogicalView, session: Chars, script_id: Chars) -> JsonView {
    let base = JsonView::object().with("scriptId"@, JsonView::Str(script_id)).with(
        "sessionId"@,
        JsonView::Str(session),
    ).with("line"@, probe.target.get_or_null("requestedLine"@)).with(
        "column"@,
        probe.target.get_or_null("requestedColumn"@),
    ).with("columnExplicit"@, probe.target.get_or_null("columnExplicit"@)).with(
        "mode"@,
        probe.target.get_or_null("mode"@),
    ).with("maxLines"@, probe.target.get_or_null("maxLines"@)).with(
        "maxUtf16Distance"@,
        probe.target.get_or_null("maxUtf16Distance"@),
    ).with("persist"@, JsonView::Bool(true)).with(
        "expressions"@,
        JsonView::texts(probe.expressions),
    ).with("tags"@, probe.tags).with("rebindProbeId"@, JsonView::Str(probe.probe_id));
    let conditioned = match probe.condition {
        Some(condition) => base.with("condition"@, JsonView::Str(condition)),
        None => base,
    };
    match probe.when {
        Some(when) => conditioned.with("when"@, JsonView::Str(when)),
        None => conditioned,
    }
}

/// A probe that waits for evidence of its owner, where it follows a script.
pub open spec fn awaiting(
    entry: (Chars, LogicalView),
    session: Chars,
    script: JsonView,
) -> (Chars, LogicalView) {
    if follows_script(entry.1, session, script) {
        (entry.0, LogicalView { status: "awaiting-owner-evidence"@, ..entry.1 })
    } else {
        entry
    }
}

impl StateView {
    /// The state after a script was looked at, and the probes that are bound to
    /// it again. Where the owner of the script is not known, none is.
    pub open spec fn reconcile(self, generation: u64, session_id: Chars, script_id: Chars) -> (
        StateView,
        Seq<RebindView>,
    ) {
        let script = controller::find_script(self.scripts, session_id, script_id);
        let session = collections::lookup(self.sessions, session_id);
        if self.connection_generation != generation || script is None || session is None {
            (self, Seq::empty())
        } else {
            let record = script->Some_0.record;
            if record.get_or_null("runtimeOwner"@).get_str("status"@) != Some("resolved"@) {
                (
                    StateView {
                        logical_probes: self.logical_probes.map_values(
                            |e: (Chars, LogicalView)| awaiting(e, session_id, record),
                        ),
                        ..self
                    },
                    Seq::empty(),
                )
            } else {
                (
                    self,
                    collections::values(self.logical_probes).filter(
                        |p: LogicalView|
                            can_rebind(
                                p,
                                self.physical_probes,
                                generation,
                                session->Some_0,
                                session_id,
                                script_id,
                                record,
                            ),
                    ).map_values(
                        |p: LogicalView|
                            RebindView {
                                probe_id: p.probe_id,
                                kind: p.kind,
                                command: rebind_command(p, session_id, script_id),
                            },
                    ),
                )
            }
        }
    }

    /// The state after a probe could not be bound again.
    pub open spec fn rebind_failed(
        self,
        now: u64,
        session_id: Chars,
        script_id: Chars,
        probe_id: Chars,
        error: Chars,
    ) -> StateView {
        StateView {
            logical_probes: match collections::lookup(self.logical_probes, probe_id) {
                Some(probe) => collections::put(
                    self.logical_probes,
                    probe_id,
                    LogicalView { status: "rebind-failed"@, ..probe },
                ),
                None => self.logical_probes,
            },
            ..self
        }.push_event(
            now,
            "probe-rebind-failed"@,
            Some(session_id),
            JsonView::object().with("probeId"@, JsonView::Str(probe_id)).with(
                "scriptId"@,
                JsonView::Str(script_id),
            ).with("error"@, JsonView::Str(error)),
        )
    }
}

fn probe_follows(probe: &LogicalProbe, session_id: &str, script: &Json) -> (r: bool)
    ensures
        r == follows_script(probe.deep_view(), session_id@, script@),
{
    probe.persistent && probe.enabled && same_text(
        probe.target.get_str("sessionId"),
        Some(session_id),
    ) && same_optional(probe.target.get("url"), script.get("url"))
}

fn write_command(probe: &LogicalProbe, session_id: &str, script_id: &str) -> (r: Json)
    ensures
        r@ == rebind_command(probe.deep_view(), session_id@, script_id@),
{
    let base = Json::object().with("scriptId", Json::text(script_id)).with(
        "sessionId",
        Json::text(session_id),
    ).with("line", probe.target.get_or_null("requestedLine")).with(
        "column",
        probe.target.get_or_null("requestedColumn"),
    ).with("columnExplicit", probe.target.get_or_null("columnExplicit")).with(
        "mode",
        probe.target.get_or_null("mode"),
    ).with("maxLines", probe.target.get_or_null("maxLines")).with(
        "maxUtf16Distance",
        probe.target.get_or_null("maxUtf16Distance"),
    ).with("persist", Json::Bool(true)).with(
        "expressions",
        Json::texts(&probe.expressions),
    ).with("tags", probe.tags.clone()).with(
        "rebindProbeId",
        Json::text(probe.probe_id.as_str()),
    );
    let conditioned = match &probe.condition {
        Some(condition) => base.with("condition", Json::text(condition.as_str())),
        None => base,
    };
    match &probe.when {
        Some(when) => conditioned.with("when", Json::text(when.as_str())),
        None => conditioned,
    }
}

impl ControllerState {
    fn installed_in(&self, ids: &Vec<String>, script_id: &str) -> (r: bool)
        ensures
            r == installed_in(self@.physical_probes, ids.deep_view(), script_id@),
    {
        let ghost all = ids.deep_view();
        let mut i: usize = 0;
        while i < ids.len()
            invariant
                all == ids.deep_view(),
                i <= ids.len(),
                forall|j: int|
                    0 <= j < i ==> !installed_at(
                        self@.physical_probes,
                        #[trigger] all[j],
                        script_id@,
                    ),
            decreases ids.len() - i,
        {
            assert(all[i as int] == ids@[i as int]@);
            let here = match self.physical_probes.get(ids[i].as_str()) {
                Some(binding) => str_eq(binding.script_id.as_str(), script_id),
                None => false,
            };
            if here {
                assert(installed_at(self@.physical_probes, all[i as int], script_id@));
                return true;
            }
            i = i + 1;
        }
        false
    }

    fn can_rebind(
        &self,
        probe: &LogicalProbe,
        generation: u64,
        document_generation: u64,
        session_id: &str,
        script_id: &str,
        script: &Json,
        owner: &Json,
    ) -> (r: bool)
        requires
            owner@ == script@.get_or_null("runtimeOwner"@),
        ensures
            forall|session: SessionView|
                session.document_generation == document_generation ==> r == #[trigger] can_rebind(
                    probe.deep_view(),
                    self@.physical_probes,
                    generation,
                    session,
                    session_id@,
                    script_id@,
                    script@,
                ),
    {
        let same_connection = match probe.target.get_u64("connectionGeneration") {
            Some(n) => n == generation,
            None => false,
        };
        let same_document = match probe.target.get_u64("documentGeneration") {
            Some(n) => n == document_generation,
            None => false,
        };
        probe_follows(probe, session_id, script) && same_connection && same_document
            && same_optional(
            Json::inner(probe.target.get("runtimeOwner"), "ownerId"),
            owner.get("ownerId"),
        ) && same_optional(
            probe.target.get("executionContextId"),
            script.get("executionContextId"),
        ) && !self.installed_in(&probe.physical_ids, script_id)
    }

    fn await_owner(&mut self, session_id: &str, script: &Json)
        ensures
            final(self)@ == (StateView {
                logical_probes: old(self)@.logical_probes.map_values(
                    |e: (Chars, LogicalView)| awaiting(e, session_id@, script@),
                ),
                ..old(self)@
            }),
    {
        let ghost table = self@.logical_probes;
        let mut i: usize = 0;
        while i < self.logical_probes.entries.len()
            invariant
                table == old(self)@.logical_probes,
                i <= self.logical_probes.entries.len() == table.len(),
                self@ == (StateView { logical_probes: self@.logical_probes, ..old(self)@ }),
                forall|j: int|
                    0 <= j < i ==> #[trigger] self@.logical_probes[j] == awaiting(
                        table[j],
                        session_id@,
                        script@,
                    ),
                forall|j: int|
                    i <= j < table.len() ==> #[trigger] self@.logical_probes[j] == table[j],
            decreases self.logical_probes.entries.len() - i,
        {
            let ghost before = self@.logical_probes;
            let entry = &self.logical_probes.entries[i];
            assert(before[i as int] == table[i as int]);
            assert(before[i as int] == (entry.0@, entry.1.deep_view()));
            if probe_follows(&entry.1, session_id, script) {
                let key = entry.0.clone();
                let mut probe = entry.1.clone();
                probe.status = "awaiting-owner-evidence".to_owned();
                let ghost waiting = probe.deep_view();
                self.logical_probes.entries.set(i, (key, probe));
                assert(self@.logical_probes =~= before.update(i as int, (key@, waiting)));
            }
            i = i + 1;
        }
        assert(self@.logical_probes =~= table.map_values(
            |e: (Chars, LogicalView)| awaiting(e, session_id@, script@),
        ));
    }

    /// Looks at a script that was parsed, and says which probes are to be bound
    /// to it again.
    pub fn reconcile_persistent_probes(
        &mut self,
        generation: u64,
        session_id: &str,
        script_id: &str,
    ) -> (r: Vec<RebindCandidate>)
        ensures
            (final(self)@, r.deep_view()) == old(self)@.reconcile(
                generation,
                session_id@,
                script_id@,
            ),
    {
        let mut candidates: Vec<RebindCandidate> = Vec::new();
        assert(candidates.deep_view() =~= Seq::<RebindView>::empty());
        if self.connection_generation != generation {
            return candidates;
        }
        let script = match self.script_position(session_id, script_id) {
            Some(i) => self.scripts[i].record.clone(),
            None => {
                return candidates;
            },
        };
        let session = match self.sessions.get(session_id) {
            Some(session) => session.clone(),
            None => {
                return candidates;
            },
        };
        let owner = script.get_or_null("runtimeOwner");
        if !same_text(owner.get_str("status"), Some("resolved")) {
            self.await_owner(session_id, &script);
            return candidates;
        }
        let ghost list = collections::values(self@.logical_probes);
        let ghost known = session.deep_view();
        let ghost pred = |p: LogicalView|
            can_rebind(
                p,
                self@.physical_probes,
                generation,
                known,
                session_id@,
                script_id@,
                script@,
            );
        let ghost f = |p: LogicalView|
            RebindView {
                probe_id: p.probe_id,
                kind: p.kind,
                command: rebind_command(p, session_id@, script_id@),
            };
        let mut i: usize = 0;
        assert(candidates.deep_view() =~= list.take(0).filter(pred).map_values(f)) by {
            reveal(Seq::filter);
        }
        while i < self.logical_probes.entries.len()
            invariant
                self@ == old(self)@,
                list == collections::values(self@.logical_probes),
                known == session.deep_view(),
                owner@ == script@.get_or_null("runtimeOwner"@),
                pred == (|p: LogicalView|
                    can_rebind(
                        p,
                        self@.physical_probes,
                        generation,
                        known,
                        session_id@,
                        script_id@,
                        script@,
                    )),
                f == (|p: LogicalView|
                    RebindView {
                        probe_id: p.probe_id,
                        kind: p.kind,
                        command: rebind_command(p, session_id@, script_id@),
                    }),
                i <= self.logical_probes.entries.len() == list.len(),
                candidates.deep_view() == list.take(i as int).filter(pred).map_values(f),
            decreases self.logical_probes.entries.len() - i,
        {
            let probe = &self.logical_probes.entries[i].1;
            let ghost item = probe.deep_view();
            let ghost was = list.take(i as int).filter(pred);
            let ghost before = candidates.deep_view();
            proof {
                assert(self@.logical_probes[i as int].1 == item);
                assert(list[i as int] == item);
                assert(list.take(i + 1) == list.take(i as int).push(item));
                list.take(i as int).lemma_filter_push(item, pred);
            }
            let chosen = self.can_rebind(
                probe,
                generation,
                session.document_generation,
                session_id,
                script_id,
                &script,
                &owner,
            );
            assert(chosen == pred(item));
            if chosen {
                let candidate = RebindCandidate {
                    probe_id: probe.probe_id.clone(),
                    kind: probe.kind,
                    command: write_command(probe, session_id, script_id),
                };
                assert(candidate.deep_view() == f(item));
                candidates.push(candidate);
                proof {
                    assert(candidates.deep_view() =~= before.push(f(item)));
                    assert(was.push(item).map_values(f) =~= was.map_values(f).push(f(item)));
                }
            }
            i = i + 1;
        }
        assert(list.take(i as int) == list);
        candidates
    }

    /// Notes that a probe could not be bound again.
    pub fn note_rebind_failure(
        &mut self,
        now: u64,
        session_id: &str,
        script_id: &str,
        probe_id: &str,
        error: &str,
    )
        ensures
            final(self)@ == old(self)@.rebind_failed(
                now,
                session_id@,
                script_id@,
                probe_id@,
                error@,
            ),
    {
        let ghost table = self@.logical_probes;
        match self.logical_probes.remove(probe_id) {
            Some(found) => {
                let mut probe = found;
                probe.status = "rebind-failed".to_owned();
                proof {
                    collections::lemma_del_twice(table, probe_id@);
                }
                self.logical_probes.insert(probe_id.to_owned(), probe);
            },
            None => {
                proof {
                    collections::lemma_del_absent(table, probe_id@);
                }
            },
        }
        self.push_event(
            now,
            "probe-rebind-failed",
            Some(session_id),
            Json::object().with("probeId", Json::text(probe_id)).with(
                "scriptId",
                Json::text(script_id),
            ).with("error", Json::text(error)),
        );
    }
}

} // verus!
