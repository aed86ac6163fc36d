//! Search in the sources of scripts.

use vstd::prelude::*;

use crate::breakpoint;
use crate::collections::optional_str;
use crate::controller::{ControllerState, StateView};
use crate::inspect;
use crate::inspect::request_source;
use crate::json::{Json, JsonView};
use crate::operation::{Request, RequestView, Step, StepView};
use crate::records::{ScriptRecord, ScriptView};
use crate::reports;
use crate::reports::{get_number, restrict_session, select_scripts};
use crate::source;
use crate::source::{
    context_of, javascript_source_lines_with_offsets, SOURCE_MATCH_CONTEXT_UTF16,
};
use crate::text;
use crate::text::{byte_len, char_bytes, char_units, chars_of, matches_at, unit_len, Chars};

verus! {

/// Matches that a search reports where it does not say how many.
pub const DEFAULT_MATCHES: u64 = 100;

/// Matches that a search reports at most.
pub const MAX_MATCHES: u64 = 1_000;

/// Positions at which a query stands in a line, from left to right, from `at`
/// on; matches do not overlap.
pub open spec fn match_positions(line: Chars, query: Chars, at: int) -> Seq<int>
    decreases line.len() - at,
{
    if query.len() == 0 || at + query.len() > line.len() {
        Seq::empty()
    } else if text::occurs_at(line, query, at) {
        seq![at] + match_positions(line, query, at + query.len())
    } else {
        match_positions(line, query, at + 1)
    }
}

/// Places of the matches in line `n` of a source, from column `at` on.
pub open spec fn line_places(s: Chars, query: Chars, n: int, at: int) -> Seq<(int, int)> {
    match_positions(source::line_text(s, n), query, at).map_values(|p: int| (n, p))
}

/// Places of the matches in the first `n` lines of a source.
pub open spec fn places_before(s: Chars, query: Chars, n: int) -> Seq<(int, int)>
    decreases n,
{
    if n <= 0 {
        Seq::empty()
    } else {
        places_before(s, query, n - 1) + line_places(s, query, n - 1, 0)
    }
}

/// Places of the matches in a source: line and position, both from zero.
pub open spec fn places_in(s: Chars, query: Chars) -> Seq<(int, int)> {
    places_before(s, query, source::lines_of(s).len() as int)
}

/// How a search reports the match at a place.
pub open spec fn match_json(
    index: nat,
    script: ScriptView,
    query: Chars,
    s: Chars,
    place: (int, int),
) -> JsonView {
    let line = source::line_text(s, place.0);
    let start = source::lines_of(s)[place.0].0;
    let column = text::utf16_len(line.take(place.1));
    let number = JsonView::Uint(breakpoint::one_based_number(place.0 as u64));
    JsonView::object().with(
        "matchIndex"@,
        JsonView::Uint(breakpoint::one_based_number(index as u64)),
    ).with("scriptId"@, JsonView::Str(script.script_id)).with(
        "sessionId"@,
        JsonView::Str(script.session_id),
    ).with("url"@, script.record.get_or_null("url"@)).with("line"@, number).with(
        "column"@,
        JsonView::Uint(breakpoint::one_based_number(column as u64)),
    ).with("endLine"@, number).with(
        "endColumn"@,
        JsonView::Uint(
            breakpoint::one_based_number((column + text::utf16_len(query)) as u64),
        ),
    ).with(
        "byteOffset"@,
        JsonView::Uint(
            (text::utf8_len(s.take(start)) + text::utf8_len(line.take(place.1))) as u64,
        ),
    ).with(
        "context"@,
        JsonView::Str(
            source::match_context(
                line,
                place.1,
                place.1 + query.len(),
                SOURCE_MATCH_CONTEXT_UTF16 as nat,
            ),
        ),
    )
}

/// The matches found so far with those at the given places.
pub open spec fn with_matches(
    found: Seq<JsonView>,
    script: ScriptView,
    query: Chars,
    s: Chars,
    places: Seq<(int, int)>,
) -> Seq<JsonView> {
    found + Seq::new(
        places.len(),
        |i: int| match_json((found.len() + i) as nat, script, query, s, places[i]),
    )
}

/// The first items of a list.
pub open spec fn capped(list: Seq<JsonView>, limit: nat) -> Seq<JsonView> {
    if list.len() > limit {
        list.take(limit as int)
    } else {
        list
    }
}

proof fn lemma_with_matches(
    found: Seq<JsonView>,
    script: ScriptView,
    query: Chars,
    s: Chars,
    a: Seq<(int, int)>,
    b: Seq<(int, int)>,
)
    ensures
        with_matches(found, script, query, s, a + b) == with_matches(
            with_matches(found, script, query, s, a),
            script,
            query,
            s,
            b,
        ),
{
    let left = with_matches(found, script, query, s, a + b);
    let middle = with_matches(found, script, query, s, a);
    let right = with_matches(middle, script, query, s, b);
    assert forall|i: int| 0 <= i < left.len() implies left[i] == right[i] by {
        if i < found.len() {
        } else if i < middle.len() {
            assert((a + b)[i - found.len()] == a[i - found.len()]);
        } else {
            assert((a + b)[i - found.len()] == b[i - middle.len()]);
        }
    }
    assert(left =~= right);
}

proof fn lemma_cap_reached(
    found: Seq<JsonView>,
    script: ScriptView,
    query: Chars,
    s: Chars,
    a: Seq<(int, int)>,
    b: Seq<(int, int)>,
    limit: nat,
)
    requires
        with_matches(found, script, query, s, a).len() >= limit,
    ensures
        capped(with_matches(found, script, query, s, a), limit) == capped(
            with_matches(found, script, query, s, a + b),
            limit,
        ),
{
    lemma_with_matches(found, script, query, s, a, b);
    let middle = with_matches(found, script, query, s, a);
    let all = with_matches(middle, script, query, s, b);
    assert(all.take(limit as int) =~= middle.take(limit as int));
    assert(middle.take(middle.len() as int) =~= middle);
    assert(all.take(all.len() as int) =~= all);
}

proof fn lemma_places_split(s: Chars, query: Chars, n: int, all: int) -> (rest: Seq<(int, int)>)
    requires
        0 <= n <= all,
    ensures
        places_before(s, query, all) == places_before(s, query, n) + rest,
    decreases all - n,
{
    if n == all {
        assert(places_before(s, query, n) + Seq::<(int, int)>::empty() =~= places_before(
            s,
            query,
            n,
        ));
        Seq::empty()
    } else {
        let rest = lemma_places_split(s, query, n, all - 1);
        let last = line_places(s, query, all - 1, 0);
        assert((places_before(s, query, n) + rest) + last =~= places_before(s, query, n) + (rest
            + last));
        rest + last
    }
}

fn search_line(
    found: &mut Vec<Json>,
    limit: usize,
    script: &ScriptRecord,
    query: &str,
    source: &str,
    n: usize,
    line: &str,
    offset: usize,
)
    requires
        old(found).len() < limit,
        query@.len() > 0,
        n < source::lines_of(source@).len(),
        line@ == source::line_text(source@, n as int),
        offset == text::utf8_len(source@.take(source::lines_of(source@)[n as int].0)),
    ensures
        final(found).deep_view() == capped(
            with_matches(
                old(found).deep_view(),
                script.deep_view(),
                query@,
                source@,
                line_places(source@, query@, n as int, 0),
            ),
            limit as nat,
        ),
{
    let ghost s = source@;
    let ghost q = query@;
    let ghost before = found.deep_view();
    let ghost all = line_places(s, q, n as int, 0);
    let ghost mut done: Seq<(int, int)> = Seq::empty();
    let _source_bytes = byte_len(source);
    let _line_bytes = byte_len(line);
    let query_units = unit_len(query);
    let chars = chars_of(line);
    let needle = chars_of(query);
    let mut at: usize = 0;
    let mut units: usize = 0;
    let mut bytes: usize = 0;
    proof {
        source::lemma_lines_of(s);
        let span = source::lines_of(s)[n as int];
        text::lemma_len_part(s, span.0, span.1);
        assert(line@.take(0) =~= Seq::<char>::empty());
        assert(done + all =~= all);
        assert(with_matches(before, script.deep_view(), q, s, done) =~= before);
    }
    while at <= chars.len() && needle.len() <= chars.len() - at
        invariant
            chars@ == line@,
            needle@ == q,
            q == query@,
            s == source@,
            q.len() > 0,
            query_units == text::utf16_len(q),
            line@ == source::line_text(s, n as int),
            n < source::lines_of(s).len(),
            offset == text::utf8_len(s.take(source::lines_of(s)[n as int].0)),
            offset + text::utf8_len(line@) <= usize::MAX,
            text::utf16_len(line@) <= text::utf8_len(line@),
            at <= chars.len(),
            units == text::utf16_len(line@.take(at as int)),
            bytes == text::utf8_len(line@.take(at as int)),
            all == line_places(s, q, n as int, 0),
            all == done + line_places(s, q, n as int, at as int),
            before == old(found).deep_view(),
            found.deep_view() == with_matches(before, script.deep_view(), q, s, done),
            found.len() < limit,
        decreases chars.len() - at,
    {
        if matches_at(&chars, at, &needle) {
            let ghost was = found.deep_view();
            let end: usize = at + needle.len();
            proof {
                text::lemma_len_part(line@, at as int, end as int);
                assert(line@.subrange(at as int, end as int) == q);
            }
            let number = breakpoint::plus_one(n as u64);
            found.push(
                Json::object().with(
                    "matchIndex",
                    Json::Uint(breakpoint::plus_one(found.len() as u64)),
                ).with("scriptId", Json::text(script.script_id.as_str())).with(
                    "sessionId",
                    Json::text(script.session_id.as_str()),
                ).with("url", script.record.get_or_null("url")).with(
                    "line",
                    Json::Uint(number),
                ).with("column", Json::Uint(breakpoint::plus_one(units as u64))).with(
                    "endLine",
                    Json::Uint(number),
                ).with(
                    "endColumn",
                    Json::Uint(breakpoint::plus_one((units + query_units) as u64)),
                ).with("byteOffset", Json::Uint((offset + bytes) as u64)).with(
                    "context",
                    Json::Str(context_of(&chars, at, end, SOURCE_MATCH_CONTEXT_UTF16)),
                ),
            );
            proof {
                let place = (n as int, at as int);
                let tail = line_places(s, q, n as int, end as int);
                assert(line_places(s, q, n as int, at as int) =~= seq![place] + tail);
                assert((done + seq![place]) + tail =~= all);
                assert(found.deep_view() =~= was.push(
                    match_json(was.len(), script.deep_view(), q, s, place),
                ));
                lemma_with_matches(before, script.deep_view(), q, s, done, seq![place]);
                assert(with_matches(was, script.deep_view(), q, s, seq![place]) =~= was.push(
                    match_json(was.len(), script.deep_view(), q, s, place),
                ));
                done = done + seq![place];
                if found.len() >= limit {
                    lemma_cap_reached(
                        before,
                        script.deep_view(),
                        q,
                        s,
                        done,
                        tail,
                        limit as nat,
                    );
                }
            }
            if found.len() >= limit {
                return;
            }
            units = units + query_units;
            bytes = bytes + byte_len(query);
            at = end;
        } else {
            proof {
                text::lemma_len_step(line@, at as int);
                text::lemma_len_part(line@, at as int, at + 1);
            }
            units = units + char_units(chars[at]);
            bytes = bytes + char_bytes(chars[at]);
            at = at + 1;
        }
    }
    proof {
        assert(line_places(s, q, n as int, at as int) =~= Seq::<(int, int)>::empty());
        assert(done =~= all);
    }
}

/// The matches of a query in one more source, up to a limit.
pub open spec fn extend_matches(
    found: Seq<JsonView>,
    limit: nat,
    script: ScriptView,
    query: Chars,
    s: Chars,
) -> Seq<JsonView> {
    capped(with_matches(found, script, query, s, places_in(s, query)), limit)
}

/// Adds the matches of a query in one more source, up to a limit.
pub fn search_source(
    found: &mut Vec<Json>,
    limit: usize,
    script: &ScriptRecord,
    query: &str,
    source: &str,
)
    requires
        old(found).len() < limit,
        query@.len() > 0,
    ensures
        final(found).deep_view() == extend_matches(
            old(found).deep_view(),
            limit as nat,
            script.deep_view(),
            query@,
            source@,
        ),
{
    let ghost s = source@;
    let ghost before = found.deep_view();
    let lines = javascript_source_lines_with_offsets(source);
    let mut n: usize = 0;
    assert(with_matches(before, script.deep_view(), query@, s, places_before(s, query@, 0))
        =~= before);
    while n < lines.len()
        invariant
            s == source@,
            query@.len() > 0,
            n <= lines.len() == source::lines_of(s).len(),
            forall|i: int|
                0 <= i < lines.len() ==> (#[trigger] lines@[i]).0 == text::utf8_len(
                    s.take(source::lines_of(s)[i].0),
                ) && lines@[i].1@ == source::line_text(s, i),
            before == old(found).deep_view(),
            found.deep_view() == with_matches(
                before,
                script.deep_view(),
                query@,
                s,
                places_before(s, query@, n as int),
            ),
            found.len() < limit,
        decreases lines.len() - n,
    {
        let ghost was = found.deep_view();
        assert(lines@[n as int].1@ == source::line_text(s, n as int));
        search_line(
            found,
            limit,
            script,
            query,
            source,
            n,
            lines[n].1.as_str(),
            lines[n].0,
        );
        proof {
            let a = places_before(s, query@, n as int);
            let b = line_places(s, query@, n as int, 0);
            lemma_with_matches(before, script.deep_view(), query@, s, a, b);
            assert(places_before(s, query@, n + 1) == a + b);
            if found.len() >= limit {
                let rest = lemma_places_split(s, query@, n + 1, lines.len() as int);
                lemma_cap_reached(
                    before,
                    script.deep_view(),
                    query@,
                    s,
                    a + b,
                    rest,
                    limit as nat,
                );
            }
        }
        if found.len() >= limit {
            return;
        }
        n = n + 1;
    }
}

/// A search through scripts, one after the other.
pub struct Search {
    pub query: String,
    pub limit: usize,
    pub script: ScriptRecord,
    pub rest: Vec<ScriptRecord>,
    pub matches: Vec<Json>,
    pub searched: u64,
}

/// Model of a search.
#[verifier::ext_equal]
pub struct SearchView {
    pub query: Chars,
    pub limit: usize,
    pub script: ScriptView,
    pub rest: Seq<ScriptView>,
    pub matches: Seq<JsonView>,
    pub searched: u64,
}

impl DeepView for Search {
    type V = SearchView;

    open spec fn deep_view(&self) -> SearchView {
        SearchView {
            query: self.query@,
            limit: self.limit,
            script: self.script.deep_view(),
            rest: self.rest.deep_view(),
            matches: self.matches.deep_view(),
            searched: self.searched,
        }
    }
}

/// How many matches a search command asks for.
pub open spec fn match_limit(command: JsonView) -> usize {
    let asked = reports::number_or(command, "maxResults"@, DEFAULT_MATCHES);
    if asked > MAX_MATCHES {
        MAX_MATCHES as usize
    } else {
        asked as usize
    }
}

impl SearchView {
    /// What a search command comes to before its first request.
    pub open spec fn start(state: StateView, command: JsonView) -> StepView<SearchView> {
        match command.get_str("query"@) {
            None => StepView::Done(Err("Missing source search query"@)),
            Some(query) => if query.len() == 0 {
                StepView::Done(Err("Source search query must not be empty"@))
            } else if !state.connected {
                StepView::Done(Err("Browser not launched"@))
            } else {
                match reports::restricted_session(state, command) {
                    Err(e) => StepView::Done(Err(e)),
                    Ok(session) => SearchView::next(
                        query,
                        match_limit(command),
                        reports::selected_scripts(
                            state.scripts,
                            session,
                            command.get_str("filter"@),
                        ),
                        Seq::empty(),
                        0,
                    ),
                }
            },
        }
    }

    /// Goes on with the first script that is left, unless enough was found.
    pub open spec fn next(
        query: Chars,
        limit: usize,
        left: Seq<ScriptView>,
        matches: Seq<JsonView>,
        searched: u64,
    ) -> StepView<SearchView> {
        if left.len() > 0 && matches.len() < limit {
            StepView::Wait(
                SearchView {
                    query,
                    limit,
                    script: left[0],
                    rest: left.skip(1),
                    matches,
                    searched,
                },
            )
        } else {
            StepView::Done(
                Ok(
                    JsonView::object().with("query"@, JsonView::Str(query)).with(
                        "searchedScripts"@,
                        JsonView::Uint(searched),
                    ).with("matches"@, JsonView::Array(matches)).with(
                        "truncated"@,
                        JsonView::Bool(matches.len() >= limit),
                    ),
                ),
            )
        }
    }

    /// The request that the search waits for.
    pub open spec fn request(self) -> RequestView {
        inspect::source_request(self.script.session_id, self.script.script_id)
    }

    /// Whether the search still looks for something.
    pub open spec fn looks(self) -> bool {
        self.query.len() > 0 && self.matches.len() < self.limit
    }

    /// What the search comes to with a reply. Scripts without source are
    /// passed over.
    pub open spec fn advance(self, reply: Result<JsonView, Chars>) -> StepView<SearchView> {
        match reply {
            Err(e) => StepView::Done(Err(e)),
            Ok(result) => match result.get_str("scriptSource"@) {
                None => SearchView::next(
                    self.query,
                    self.limit,
                    self.rest,
                    self.matches,
                    self.searched,
                ),
                Some(s) => SearchView::next(
                    self.query,
                    self.limit,
                    self.rest,
                    extend_matches(self.matches, self.limit as nat, self.script, self.query, s),
                    breakpoint::one_based_number(self.searched),
                ),
            },
        }
    }
}

impl Search {
    /// Starts a search command.
    pub fn start(state: &ControllerState, command: &Json) -> (r: Step<Search>)
        ensures
            r.deep_view() == SearchView::start(state@, command@),
            r matches Step::Wait(machine) ==> machine.deep_view().looks(),
    {
        let query = match command.get_str("query") {
            Some(query) => query,
            None => {
                return Step::Done(Err("Missing source search query".to_owned()));
            },
        };
        if byte_len(query) == 0 {
            return Step::Done(Err("Source search query must not be empty".to_owned()));
        }
        proof {
            if query@.len() == 0 {
                assert(text::utf8_len(query@) == 0);
            }
        }
        if !state.connected {
            return Step::Done(Err("Browser not launched".to_owned()));
        }
        let session = match restrict_session(state, command) {
            Ok(session) => session,
            Err(e) => {
                return Step::Done(Err(e));
            },
        };
        let scripts = select_scripts(
            &state.scripts,
            optional_str(&session),
            command.get_str("filter"),
        );
        let asked = get_number(command, "maxResults", DEFAULT_MATCHES);
        let limit: usize = if asked > MAX_MATCHES {
            MAX_MATCHES as usize
        } else {
            asked as usize
        };
        let none: Vec<Json> = Vec::new();
        assert(none.deep_view() =~= Seq::<JsonView>::empty());
        Search::next(query.to_owned(), limit, scripts, none, 0)
    }

    fn next(
        query: String,
        limit: usize,
        left: Vec<ScriptRecord>,
        matches: Vec<Json>,
        searched: u64,
    ) -> (r: Step<Search>)
        requires
            query@.len() > 0,
        ensures
            r.deep_view() == SearchView::next(
                query@,
                limit,
                left.deep_view(),
                matches.deep_view(),
                searched,
            ),
            r matches Step::Wait(machine) ==> machine.deep_view().looks(),
    {
        let ghost all = left.deep_view();
        if left.len() > 0 && matches.len() < limit {
            let mut rest = left;
            let script = rest.remove(0);
            assert(rest.deep_view() =~= all.skip(1));
            assert(all[0] == script.deep_view());
            return Step::Wait(Search { query, limit, script, rest, matches, searched });
        }
        let truncated = matches.len() >= limit;
        Step::Done(
            Ok(
                Json::object().with("query", Json::text(query.as_str())).with(
                    "searchedScripts",
                    Json::Uint(searched),
                ).with("matches", Json::array(matches)).with(
                    "truncated",
                    Json::Bool(truncated),
                ),
            ),
        )
    }

    /// The request that the search waits for.
    pub fn request(&self) -> (r: Request)
        ensures
            r@ == self.deep_view().request(),
    {
        request_source(self.script.session_id.as_str(), self.script.script_id.as_str())
    }

    /// Takes the reply to the request.
    pub fn advance(self, reply: &Result<Json, String>) -> (r: Step<Search>)
        requires
            self.deep_view().looks(),
        ensures
            r.deep_view() == self.deep_view().advance(text::outcome(*reply)),
            r matches Step::Wait(machine) ==> machine.deep_view().looks(),
    {
        match reply {
            Err(e) => Step::Done(Err(e.clone())),
            Ok(result) => match result.get_str("scriptSource") {
                None => Search::next(
                    self.query,
                    self.limit,
                    self.rest,
                    self.matches,
                    self.searched,
                ),
                Some(source) => {
                    let mut matches = self.matches;
                    search_source(
                        &mut matches,
                        self.limit,
                        &self.script,
                        self.query.as_str(),
                        source,
                    );
                    Search::next(
                        self.query,
                        self.limit,
                        self.rest,
                        matches,
                        breakpoint::plus_one(self.searched),
                    )
                },
            },
        }
    }
}

} // verus!
