//! Where things stand in a compiled source: lines, columns, and what a search
//! reports.

use vstd::prelude::*;

use crate::json::JsonView;
use crate::laws::source as source_laws;
use crate::operation::StepView;
use crate::records::ScriptView;
use crate::search;
use crate::search::SearchView;
use crate::source;
use crate::text;
use crate::text::Chars;

verus! {

/// Whether ECMAScript ends a line at a character.
pub open spec fn terminates(c: char) -> bool {
    c == '\n' || c == '\r' || c == '\u{2028}' || c == '\u{2029}'
}

/// A line of a source holds no line feed, carriage return, line separator or
/// paragraph separator. Behind every line but the last stands one of them, or a
/// carriage return with its line feed, and behind that the next line begins. The
/// first line begins the source, and the last one ends it.
pub proof fn law_lines_end_at_terminators(s: Chars)
    ensures
        source::lines_of(s).len() >= 1,
        source::lines_of(s)[0].0 == 0,
        source::lines_of(s).last().1 == s.len(),
        forall|n: int, p: int|
            #![trigger source::lines_of(s)[n], s[p]]
            0 <= n < source::lines_of(s).len() && source::lines_of(s)[n].0 <= p < source::lines_of(
                s,
            )[n].1 ==> !terminates(s[p]),
        forall|n: int|
            0 <= n < source::lines_of(s).len() - 1 ==> {
                let end = (#[trigger] source::lines_of(s)[n]).1;
                let next = source::lines_of(s)[n + 1].0;
                &&& 0 <= end < s.len()
                &&& terminates(s[end])
                &&& if s[end] == '\r' && end + 1 < s.len() && s[end + 1] == '\n' {
                    next == end + 2
                } else {
                    next == end + 1
                }
            },
{
    source_laws::law_lines_cut_up_the_source(s);
}

proof fn lemma_spans_count(s: Chars, start: int, at: int)
    requires
        0 <= start <= at <= s.len(),
    ensures
        source::line_spans(s, start, at).len() <= s.len() - at + 1,
    decreases s.len() - at,
{
    if at < s.len() {
        if source::is_line_end(s[at]) {
            let next = at + source::line_end_width(s, at);
            lemma_spans_count(s, next, next);
        } else {
            lemma_spans_count(s, start, at + 1);
        }
    }
}

/// A source has at most one line more than characters.
pub proof fn lemma_line_count(s: Chars)
    ensures
        1 <= source::lines_of(s).len() <= s.len() + 1,
{
    lemma_spans_count(s, 0, 0);
    source::lemma_lines_of(s);
}

/// The length in UTF-16 counts one code unit for a character of the first plane
/// and two for any other, wherever it stands.
pub proof fn law_columns_count_code_units(a: Chars, c: char, b: Chars)
    ensures
        text::utf16_len(Seq::empty()) == 0,
        text::utf16_len(a + seq![c] + b) == text::utf16_len(a) + text::utf16_len(b) + (if c as u32
            >= 0x10000 {
            2int
        } else {
            1int
        }),
{
    text::lemma_len_add(a + seq![c], b);
    text::lemma_len_add(a, seq![c]);
    assert(seq![c].drop_last() =~= Seq::<char>::empty());
    assert(seq![c].last() == c);
    assert(text::utf16_len(seq![c].drop_last()) == 0);
}

/// A location is where its line and its column say: a character of line `n` has
/// as many code units before it in the source as the location of its column has
/// for its offset. A line or a column that the source does not have is nowhere.
pub proof fn law_offsets_count_what_stands_before(s: Chars, n: int, p: int)
    requires
        0 <= n < source::lines_of(s).len(),
        source::lines_of(s)[n].0 <= p <= source::lines_of(s)[n].1,
    ensures
        source::utf16_offset(s, n, text::utf16_len(s.subrange(source::lines_of(s)[n].0, p)) as int)
            == Some(text::utf16_len(s.take(p))),
        forall|line: int, column: int|
            #![trigger source::utf16_offset(s, line, column)]
            source::utf16_offset(s, line, column) is Some <==> 0 <= line < source::lines_of(s).len()
                && 0 <= column <= text::utf16_len(
                s.subrange(source::lines_of(s)[line].0, source::lines_of(s)[line].1),
            ),
{
    source::lemma_lines_of(s);
    let span = source::lines_of(s)[n];
    text::lemma_len_part(s, span.0, p);
    let line = source::line_text(s, n);
    text::lemma_len_part(line, 0, p - span.0);
    assert(line.take(p - span.0) =~= s.subrange(span.0, p));
}

/// Whether a match is told as it stands in the source: at position `p` of line
/// `n`, for the `k`-th match.
pub open spec fn told_where_it_stands(
    told: JsonView,
    k: int,
    script: ScriptView,
    query: Chars,
    s: Chars,
    n: int,
    p: int,
) -> bool {
    let from = source::lines_of(s)[n].0;
    let to = source::lines_of(s)[n].1;
    &&& 0 <= n < source::lines_of(s).len()
    &&& from <= p
    &&& p + query.len() <= to
    &&& s.subrange(p, p + query.len()) == query
    &&& told.get_u64("matchIndex"@) == Some((k + 1) as u64)
    &&& told.get_str("scriptId"@) == Some(script.script_id)
    &&& told.get_str("sessionId"@) == Some(script.session_id)
    &&& script.record.get("url"@) is Some ==> told.get("url"@) == script.record.get("url"@)
    &&& told.get_u64("line"@) == Some((n + 1) as u64)
    &&& told.get_u64("endLine"@) == told.get_u64("line"@)
    &&& told.get_u64("column"@) is Some
    &&& told.get_u64("endColumn"@) is Some
    &&& told.get_u64("column"@)->Some_0 == 1 + text::utf16_len(s.subrange(from, p))
    &&& told.get_u64("endColumn"@)->Some_0 - told.get_u64("column"@)->Some_0 == text::utf16_len(
        query,
    )
    &&& source::utf16_offset(
        s,
        told.get_u64("line"@)->Some_0 - 1,
        told.get_u64("column"@)->Some_0 - 1,
    ) == Some(text::utf16_len(s.take(p)))
    &&& source::utf16_offset(
        s,
        told.get_u64("endLine"@)->Some_0 - 1,
        told.get_u64("endColumn"@)->Some_0 - 1,
    ) == Some(text::utf16_len(s.take(p + query.len())))
    &&& told.get_u64("byteOffset"@) is Some
    &&& told.get_u64("byteOffset"@)->Some_0 == vstd::utf8::encode_utf8(s.take(p)).len()
    &&& told.get_str("context"@) is Some
    &&& shows(told.get_str("context"@)->Some_0, s.subrange(from, p), query, s.subrange(
        p + query.len(),
        to,
    ))
}

/// Whether a context shows a match with what stands around it in its line: up to
/// 160 code units on each side, and all of them where the line has so many.
pub open spec fn shows(context: Chars, before: Chars, query: Chars, after: Chars) -> bool {
    exists|i: int, j: int|
        #![trigger before.skip(i), after.take(j)]
        0 <= i <= before.len() && 0 <= j <= after.len() && context == before.skip(i) + query
            + after.take(j) && text::utf16_len(before.skip(i)) <= 160 && text::utf16_len(
            after.take(j),
        ) <= 160 && (i > 0 ==> text::utf16_len(before.skip(i - 1)) > 160) && (j < after.len()
            ==> text::utf16_len(after.take(j + 1)) > 160)
}

proof fn lemma_context(s: Chars, n: int, p: int, query: Chars)
    requires
        0 <= n < source::lines_of(s).len(),
        source::lines_of(s)[n].0 <= p,
        p + query.len() <= source::lines_of(s)[n].1,
        s.subrange(p, p + query.len()) == query,
    ensures
        shows(
            source::match_context(
                source::line_text(s, n),
                p - source::lines_of(s)[n].0,
                p - source::lines_of(s)[n].0 + query.len(),
                160,
            ),
            s.subrange(source::lines_of(s)[n].0, p),
            query,
            s.subrange(p + query.len(), source::lines_of(s)[n].1),
        ),
{
    source::lemma_lines_of(s);
    let from = source::lines_of(s)[n].0;
    let to = source::lines_of(s)[n].1;
    let line = source::line_text(s, n);
    let a = p - from;
    let b = a + query.len();
    source_laws::law_match_context_is_bounded(line, a, b, 160);
    let start = source::context_start(line, a, 160);
    let end = source::context_end(line, b, 160);
    let before = s.subrange(from, p);
    let after = s.subrange(p + query.len(), to);
    let j = end - b;
    assert(before.skip(start) =~= line.subrange(start, a));
    assert(after.take(j) =~= line.subrange(b, end));
    assert(line.subrange(a, b) =~= query);
    if start > 0 {
        assert(before.skip(start - 1) =~= line.subrange(start - 1, a));
    }
    if j < after.len() {
        assert(after.take(j + 1) =~= line.subrange(b, end + 1));
    }
    assert(source::match_context(line, a, b, 160) =~= before.skip(start) + query + after.take(j));
}

proof fn lemma_told(k: nat, script: ScriptView, query: Chars, s: Chars, place: (int, int))
    requires
        k < u64::MAX,
        text::utf8_len(s) < u64::MAX,
        0 <= place.0 < source::lines_of(s).len(),
        text::occurs_at(source::line_text(s, place.0), query, place.1),
    ensures
        told_where_it_stands(
            search::match_json(k, script, query, s, place),
            k as int,
            script,
            query,
            s,
            place.0,
            source::lines_of(s)[place.0].0 + place.1,
        ),
{
    source::lemma_lines_of(s);
    lemma_line_count(s);
    text::lemma_len_bounds(s);
    let n = place.0;
    let from = source::lines_of(s)[n].0;
    let to = source::lines_of(s)[n].1;
    let line = source::line_text(s, n);
    let p = from + place.1;
    let end = p + query.len();
    assert(line.subrange(place.1, place.1 + query.len()) =~= s.subrange(p, end));
    law_offsets_count_what_stands_before(s, n, p);
    law_offsets_count_what_stands_before(s, n, end);
    assert(line.take(place.1) =~= s.subrange(from, p));
    text::lemma_len_part(s, from, p);
    text::lemma_len_part(s, from, end);
    text::lemma_len_part(s, p, end);
    text::lemma_len_add(s.subrange(from, p), s.subrange(p, end));
    assert(s.subrange(from, p) + s.subrange(p, end) =~= s.subrange(from, end));
    text::lemma_utf8_len(s.take(p));
    lemma_context(s, n, p, query);
    reveal_strlit("matchIndex");
    reveal_strlit("scriptId");
    reveal_strlit("sessionId");
    reveal_strlit("url");
    reveal_strlit("line");
    reveal_strlit("column");
    reveal_strlit("endLine");
    reveal_strlit("endColumn");
    reveal_strlit("byteOffset");
    reveal_strlit("context");
    assert("matchIndex"@.len() == 10);
    assert("scriptId"@.len() == 8);
    assert("sessionId"@.len() == 9);
    assert("url"@.len() == 3);
    assert("line"@.len() == 4);
    assert("column"@.len() == 6);
    assert("endLine"@.len() == 7);
    assert("endColumn"@.len() == 9);
    assert("byteOffset"@.len() == 10);
    assert("context"@.len() == 7);
    assert("byteOffset"@[0] == 'b');
    assert("context"@[0] == 'c');
    assert("endColumn"@[0] == 'e');
    assert("endLine"@[0] == 'e');
    assert("matchIndex"@[0] == 'm');
    assert("sessionId"@[0] == 's');
}

/// Whether a match is told as it stands somewhere in the source.
pub open spec fn told_somewhere(
    told: JsonView,
    k: int,
    script: ScriptView,
    query: Chars,
    s: Chars,
) -> bool {
    exists|n: int, p: int| #[trigger] told_where_it_stands(told, k, script, query, s, n, p)
}

proof fn lemma_places(s: Chars, query: Chars, lines: int, i: int)
    requires
        query.len() > 0,
        0 <= i < search::places_before(s, query, lines).len(),
    ensures
        ({
            let place = search::places_before(s, query, lines)[i];
            &&& 0 <= place.0 < lines
            &&& text::occurs_at(source::line_text(s, place.0), query, place.1)
        }),
    decreases lines,
{
    if lines > 0 {
        let rest = search::places_before(s, query, lines - 1);
        let line = source::line_text(s, lines - 1);
        if i < rest.len() {
            lemma_places(s, query, lines - 1, i);
        } else {
            source_laws::law_matches_are_the_leftmost_occurrences(line, query);
            assert(search::line_places(s, query, lines - 1, 0)[i - rest.len()].1
                == search::match_positions(line, query, 0)[i - rest.len()]);
        }
    }
}

/// What a search reports of a source stands there as it is told: the match is an
/// occurrence of the query within one line, its line and columns are one-based
/// and count the code units of that line alone, its byte offset counts the bytes
/// of the source before it, and its context shows what is around it.
pub proof fn law_matches_are_told_where_they_stand(
    found: Seq<JsonView>,
    limit: nat,
    script: ScriptView,
    query: Chars,
    s: Chars,
    k: int,
)
    requires
        query.len() > 0,
        text::utf8_len(s) < u64::MAX,
        limit < u64::MAX,
        found.len() <= k < search::extend_matches(found, limit, script, query, s).len(),
    ensures
        told_somewhere(
            search::extend_matches(found, limit, script, query, s)[k],
            k,
            script,
            query,
            s,
        ),
{
    let places = search::places_in(s, query);
    let all = search::with_matches(found, script, query, s, places);
    let told = search::extend_matches(found, limit, script, query, s)[k];
    assert(told == all[k]);
    let i = k - found.len();
    lemma_places(s, query, source::lines_of(s).len() as int, i);
    lemma_told(k as nat, script, query, s, places[i]);
    assert(told_where_it_stands(
        told,
        k,
        script,
        query,
        s,
        places[i].0,
        source::lines_of(s)[places[i].0].0 + places[i].1,
    ));
}

/// Whether a match covers a position of a line, by what is told of it.
pub open spec fn covers(told: JsonView, s: Chars, query: Chars, n: int, p: int) -> bool {
    exists|q: int|
        #![trigger s.subrange(source::lines_of(s)[n].0, q)]
        source::lines_of(s)[n].0 <= q <= p < q + query.len() && told.get_u64("line"@) == Some(
            (n + 1) as u64,
        ) && told.get_u64("column"@) == Some(
            (1 + text::utf16_len(s.subrange(source::lines_of(s)[n].0, q))) as u64,
        )
}

/// Whether one of the matches covers a position of a line.
pub open spec fn covered_by_one(
    told: Seq<JsonView>,
    s: Chars,
    query: Chars,
    n: int,
    p: int,
) -> bool {
    exists|k: int| 0 <= k < told.len() && covers(#[trigger] told[k], s, query, n, p)
}

proof fn lemma_line_place(s: Chars, query: Chars, lines: int, n: int, i: int)
    requires
        0 <= n < lines,
        0 <= i < search::match_positions(source::line_text(s, n), query, 0).len(),
    ensures
        search::places_before(s, query, lines).contains(
            (n, search::match_positions(source::line_text(s, n), query, 0)[i]),
        ),
    decreases lines,
{
    let place = (n, search::match_positions(source::line_text(s, n), query, 0)[i]);
    let rest = search::places_before(s, query, lines - 1);
    let all = search::places_before(s, query, lines);
    if n == lines - 1 {
        let here = search::line_places(s, query, n, 0);
        assert(here[i] == place);
        assert(all[rest.len() + i] == place);
    } else {
        lemma_line_place(s, query, lines - 1, n, i);
        let j = choose|j: int| 0 <= j < rest.len() && rest[j] == place;
        assert(all[j] == place);
    }
}

/// A search that has not reached its limit misses nothing: every occurrence of
/// the query within a line begins in a match that is told in that line.
pub proof fn law_no_occurrence_is_missed(
    found: Seq<JsonView>,
    limit: nat,
    script: ScriptView,
    query: Chars,
    s: Chars,
    n: int,
    p: int,
)
    requires
        query.len() > 0,
        text::utf8_len(s) < u64::MAX,
        search::extend_matches(found, limit, script, query, s).len() < limit < u64::MAX,
        0 <= n < source::lines_of(s).len(),
        source::lines_of(s)[n].0 <= p,
        p + query.len() <= source::lines_of(s)[n].1,
        s.subrange(p, p + query.len()) == query,
    ensures
        covered_by_one(
            search::extend_matches(found, limit, script, query, s),
            s,
            query,
            n,
            p,
        ),
{
    source::lemma_lines_of(s);
    let from = source::lines_of(s)[n].0;
    let line = source::line_text(s, n);
    let positions = search::match_positions(line, query, 0);
    source_laws::law_matches_are_the_leftmost_occurrences(line, query);
    assert(line.subrange(p - from, p - from + query.len()) =~= s.subrange(p, p + query.len()));
    assert(text::occurs_at(line, query, p - from));
    let at = p - from;
    let width = query.len() as int;
    let i = choose|i: int| source_laws::covered(positions, i, width, at);
    lemma_line_place(s, query, source::lines_of(s).len() as int, n, i);
    let places = search::places_in(s, query);
    let j = choose|j: int| 0 <= j < places.len() && places[j] == (n, positions[i]);
    let all = search::with_matches(found, script, query, s, places);
    assert(search::extend_matches(found, limit, script, query, s) == all);
    let k = found.len() + j;
    assert(all[k] == search::match_json(k as nat, script, query, s, places[j]));
    lemma_told(k as nat, script, query, s, places[j]);
    let q = from + positions[i];
    assert(s.subrange(from, q).len() == q - from);
    assert(covers(all[k], s, query, n, p));
}

/// A search asks for the source of one script after the other. What it answers
/// in the end holds every match that it has, the number of sources that it read,
/// and whether it stopped at its limit. A script without source is passed over,
/// and a failure ends the search.
pub proof fn law_searches_read_every_script(search: SearchView, result: JsonView, error: Chars)
    requires
        search.searched < u64::MAX,
    ensures
        search.request().method == "Debugger.getScriptSource"@,
        search.request().session_id == search.script.session_id,
        search.request().params is Some,
        search.request().params->Some_0.get_str("scriptId"@) == Some(search.script.script_id),
        search.advance(Err(error)) == StepView::<SearchView>::Done(Err(error)),
        ({
            let source = result.get_str("scriptSource"@);
            let matches = match source {
                Some(s) => search::extend_matches(
                    search.matches,
                    search.limit as nat,
                    search.script,
                    search.query,
                    s,
                ),
                None => search.matches,
            };
            let searched = search.searched + if source is Some {
                1int
            } else {
                0int
            };
            match search.advance(Ok(result)) {
                StepView::Wait(next) => {
                    &&& matches.len() < search.limit
                    &&& search.rest.len() > 0
                    &&& next.script == search.rest[0]
                    &&& next.rest == search.rest.skip(1)
                    &&& next.query == search.query
                    &&& next.limit == search.limit
                    &&& next.matches == matches
                    &&& next.searched == searched
                },
                StepView::Done(Ok(answer)) => {
                    &&& matches.len() >= search.limit || search.rest.len() == 0
                    &&& answer.get_str("query"@) == Some(search.query)
                    &&& answer.get_array("matches"@) == Some(matches)
                    &&& answer.get_u64("searchedScripts"@) == Some(searched as u64)
                    &&& answer.get_bool("truncated"@) == Some(matches.len() >= search.limit)
                },
                StepView::Done(Err(_)) => false,
            }
        }),
{
    reveal_strlit("query");
    reveal_strlit("searchedScripts");
    reveal_strlit("matches");
    reveal_strlit("truncated");
    reveal_strlit("scriptId");
    assert("query"@.len() == 5);
    assert("searchedScripts"@.len() == 15);
    assert("matches"@.len() == 7);
    assert("truncated"@.len() == 9);
    assert("scriptId"@.len() == 8);
}

} // verus!
