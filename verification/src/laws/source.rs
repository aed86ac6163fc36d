//! Lines, positions and matches of a compiled source.

use vstd::prelude::*;

use crate::breakpoint;
use crate::breakpoint::ResolutionView;
use crate::json::JsonView;
use crate::records::ScriptView;
use crate::search;
use crate::source;
use crate::text;
use crate::text::Chars;

verus! {

/// Whether the lines from `start` on cut up the text: each line holds no
/// terminator and ends before one, the next begins behind that terminator, and
/// the last one ends with the text.
pub open spec fn cut_up(s: Chars, start: int, lines: Seq<(int, int)>) -> bool {
    &&& lines.len() >= 1
    &&& lines[0].0 == start
    &&& lines.last().1 == s.len()
    &&& forall|i: int, p: int|
        #![trigger lines[i], s[p]]
        0 <= i < lines.len() && lines[i].0 <= p < lines[i].1 ==> !source::is_line_end(s[p])
    &&& forall|i: int|
        #![trigger lines[i]]
        0 <= i < lines.len() ==> 0 <= lines[i].0 <= lines[i].1 <= s.len()
    &&& forall|i: int|
        #![trigger lines[i]]
        0 <= i < lines.len() - 1 ==> {
            &&& lines[i].1 < s.len()
            &&& source::is_line_end(s[lines[i].1])
            &&& lines[i + 1].0 == lines[i].1 + source::line_end_width(s, lines[i].1)
        }
}

proof fn lemma_cut_up(s: Chars, start: int, at: int)
    requires
        0 <= start <= at <= s.len(),
        forall|p: int| start <= p < at ==> !source::is_line_end(#[trigger] s[p]),
    ensures
        cut_up(s, start, source::line_spans(s, start, at)),
    decreases s.len() - at,
{
    let lines = source::line_spans(s, start, at);
    if at < s.len() {
        if source::is_line_end(s[at]) {
            let next = at + source::line_end_width(s, at);
            let rest = source::line_spans(s, next, next);
            lemma_cut_up(s, next, next);
            assert(lines == seq![(start, at)] + rest);
            assert forall|i: int| 0 < i < lines.len() implies lines[i] == rest[i - 1] by {}
            assert(lines.last() == rest.last());
            assert forall|i: int, p: int|
                #![trigger lines[i], s[p]]
                0 <= i < lines.len() && lines[i].0 <= p < lines[i].1 implies !source::is_line_end(
                s[p],
            ) by {
                if i > 0 {
                    assert(lines[i] == rest[i - 1]);
                }
            }
            assert forall|i: int|
                #![trigger lines[i]]
                0 <= i < lines.len() implies 0 <= lines[i].0 <= lines[i].1 <= s.len() by {
                if i > 0 {
                    assert(lines[i] == rest[i - 1]);
                }
            }
            assert forall|i: int|
                #![trigger lines[i]]
                0 <= i < lines.len() - 1 implies {
                &&& lines[i].1 < s.len()
                &&& source::is_line_end(s[lines[i].1])
                &&& lines[i + 1].0 == lines[i].1 + source::line_end_width(s, lines[i].1)
            } by {
                assert(lines[i + 1] == rest[i]);
                if i > 0 {
                    assert(lines[i] == rest[i - 1]);
                }
            }
        } else {
            lemma_cut_up(s, start, at + 1);
        }
    }
}

/// The lines of a source cut it up at its line terminators: no character
/// between them is lost, and no line holds a terminator.
pub proof fn law_lines_cut_up_the_source(s: Chars)
    ensures
        cut_up(s, 0, source::lines_of(s)),
{
    lemma_cut_up(s, 0, 0);
}

proof fn lemma_single(s: Chars, k: int)
    requires
        0 <= k < s.len(),
    ensures
        text::utf16_len(s.subrange(k, k + 1)) == text::utf16_width(s[k]),
{
    assert(s.subrange(k, k + 1).drop_last().len() == 0);
    assert(text::utf16_len(s.subrange(k, k + 1).drop_last()) == 0);
    assert(s.subrange(k, k + 1).last() == s[k]);
}

proof fn lemma_start_budget(s: Chars, k: int, budget: nat)
    requires
        0 <= k <= s.len(),
    ensures
        0 <= source::context_start(s, k, budget) <= k,
        text::utf16_len(s.subrange(source::context_start(s, k, budget), k)) <= budget,
        source::context_start(s, k, budget) > 0 ==> text::utf16_len(
            s.subrange(source::context_start(s, k, budget) - 1, k),
        ) > budget,
    decreases k,
{
    if k > 0 && text::utf16_width(s[k - 1]) <= budget {
        let rest = (budget - text::utf16_width(s[k - 1])) as nat;
        lemma_start_budget(s, k - 1, rest);
        let from = source::context_start(s, k, budget);
        assert(s.subrange(from, k).drop_last() == s.subrange(from, k - 1));
        assert(s.subrange(from, k).last() == s[k - 1]);
        if from > 0 {
            assert(s.subrange(from - 1, k).drop_last() == s.subrange(from - 1, k - 1));
            assert(s.subrange(from - 1, k).last() == s[k - 1]);
        }
    } else {
        assert(s.subrange(k, k).len() == 0);
        if k > 0 {
            lemma_single(s, k - 1);
        }
    }
}

proof fn lemma_end_budget(s: Chars, k: int, budget: nat)
    requires
        0 <= k <= s.len(),
    ensures
        k <= source::context_end(s, k, budget) <= s.len(),
        text::utf16_len(s.subrange(k, source::context_end(s, k, budget))) <= budget,
        source::context_end(s, k, budget) < s.len() ==> text::utf16_len(
            s.subrange(k, source::context_end(s, k, budget) + 1),
        ) > budget,
    decreases s.len() - k,
{
    if k < s.len() && text::utf16_width(s[k]) <= budget {
        let rest = (budget - text::utf16_width(s[k])) as nat;
        lemma_end_budget(s, k + 1, rest);
        let to = source::context_end(s, k, budget);
        text::lemma_len_add(s.subrange(k, k + 1), s.subrange(k + 1, to));
        assert(s.subrange(k, k + 1) + s.subrange(k + 1, to) == s.subrange(k, to));
        lemma_single(s, k);
        if to < s.len() {
            text::lemma_len_add(s.subrange(k, k + 1), s.subrange(k + 1, to + 1));
            assert(s.subrange(k, k + 1) + s.subrange(k + 1, to + 1) == s.subrange(k, to + 1));
        }
    } else {
        assert(s.subrange(k, k).len() == 0);
        if k < s.len() {
            lemma_single(s, k);
        }
    }
}

/// The context of a match is a part of its line that holds the match, with at
/// most the budget of UTF-16 code units on each side. It is the longest such
/// part: one more character on a side would break the budget.
pub proof fn law_match_context_is_bounded(s: Chars, from: int, to: int, budget: nat)
    requires
        0 <= from <= to <= s.len(),
    ensures
        ({
            let start = source::context_start(s, from, budget);
            let end = source::context_end(s, to, budget);
            &&& 0 <= start <= from <= to <= end <= s.len()
            &&& source::match_context(s, from, to, budget) == s.subrange(start, from)
                + s.subrange(from, to) + s.subrange(to, end)
            &&& text::utf16_len(s.subrange(start, from)) <= budget
            &&& text::utf16_len(s.subrange(to, end)) <= budget
            &&& start > 0 ==> text::utf16_len(s.subrange(start - 1, from)) > budget
            &&& end < s.len() ==> text::utf16_len(s.subrange(to, end + 1)) > budget
            &&& text::utf16_len(source::match_context(s, from, to, budget)) <= 2 * budget
                + text::utf16_len(s.subrange(from, to))
        }),
{
    lemma_start_budget(s, from, budget);
    lemma_end_budget(s, to, budget);
    let start = source::context_start(s, from, budget);
    let end = source::context_end(s, to, budget);
    let a = s.subrange(start, from);
    let b = s.subrange(from, to);
    let c = s.subrange(to, end);
    assert(source::match_context(s, from, to, budget) == a + b + c);
    text::lemma_len_add(a + b, c);
    text::lemma_len_add(a, b);
}

/// Whether a match covers a position.
pub open spec fn covered(found: Seq<int>, i: int, width: int, p: int) -> bool {
    0 <= i < found.len() && found[i] <= p && p < found[i] + width
}

/// Whether matches of a width ascend without overlap.
pub open spec fn apart(found: Seq<int>, width: int) -> bool {
    forall|i: int, j: int|
        #![trigger found[i], found[j]]
        0 <= i < j < found.len() ==> found[j] - found[i] >= width
}

proof fn lemma_matches_occur(line: Chars, query: Chars, at: int, i: int)
    requires
        query.len() > 0,
        0 <= at,
        0 <= i < search::match_positions(line, query, at).len(),
    ensures
        at <= search::match_positions(line, query, at)[i],
        text::occurs_at(line, query, search::match_positions(line, query, at)[i]),
    decreases line.len() - at,
{
    if at + query.len() <= line.len() {
        if text::occurs_at(line, query, at) {
            let rest = search::match_positions(line, query, at + query.len());
            if i > 0 {
                assert(search::match_positions(line, query, at)[i] == rest[i - 1]);
                lemma_matches_occur(line, query, at + query.len(), i - 1);
            }
        } else {
            lemma_matches_occur(line, query, at + 1, i);
        }
    }
}

proof fn lemma_matches_apart(line: Chars, query: Chars, at: int)
    requires
        query.len() > 0,
        0 <= at,
    ensures
        apart(search::match_positions(line, query, at), query.len() as int),
    decreases line.len() - at,
{
    if at + query.len() <= line.len() {
        if text::occurs_at(line, query, at) {
            let found = search::match_positions(line, query, at);
            let rest = search::match_positions(line, query, at + query.len());
            lemma_matches_apart(line, query, at + query.len());
            assert forall|i: int, j: int|
                #![trigger found[i], found[j]]
                0 <= i < j < found.len() implies found[j] - found[i] >= query.len() by {
                assert(found[j] == rest[j - 1]);
                if i > 0 {
                    assert(found[i] == rest[i - 1]);
                } else {
                    lemma_matches_occur(line, query, at + query.len(), j - 1);
                }
            }
        } else {
            lemma_matches_apart(line, query, at + 1);
        }
    }
}

proof fn lemma_matches_cover(line: Chars, query: Chars, at: int, p: int)
    requires
        query.len() > 0,
        0 <= at <= p,
        text::occurs_at(line, query, p),
    ensures
        exists|i: int|
            covered(search::match_positions(line, query, at), i, query.len() as int, p),
    decreases line.len() - at,
{
    let found = search::match_positions(line, query, at);
    let width = query.len() as int;
    if text::occurs_at(line, query, at) {
        let rest = search::match_positions(line, query, at + width);
        if p < at + width {
            assert(covered(found, 0, width, p));
        } else {
            lemma_matches_cover(line, query, at + width, p);
            let i = choose|i: int| covered(rest, i, width, p);
            assert(found[i + 1] == rest[i]);
            assert(covered(found, i + 1, width, p));
        }
    } else {
        lemma_matches_cover(line, query, at + 1, p);
    }
}

/// The matches of a query in a line ascend without overlap, each of them is an
/// occurrence, and every occurrence begins within one of them.
pub proof fn law_matches_are_the_leftmost_occurrences(line: Chars, query: Chars)
    requires
        query.len() > 0,
    ensures
        ({
            let found = search::match_positions(line, query, 0);
            let width = query.len() as int;
            &&& apart(found, width)
            &&& forall|i: int|
                0 <= i < found.len() ==> text::occurs_at(line, query, #[trigger] found[i])
            &&& forall|p: int| #[trigger]
                text::occurs_at(line, query, p) ==> exists|i: int| covered(found, i, width, p)
        }),
{
    let found = search::match_positions(line, query, 0);
    let width = query.len() as int;
    lemma_matches_apart(line, query, 0);
    assert forall|i: int| 0 <= i < found.len() implies text::occurs_at(
        line,
        query,
        #[trigger] found[i],
    ) by {
        lemma_matches_occur(line, query, 0, i);
    }
    assert forall|p: int| #[trigger] text::occurs_at(line, query, p) implies exists|i: int|
        covered(found, i, width, p) by {
        lemma_matches_cover(line, query, 0, p);
    }
}

/// A search reports no more matches than it was asked for, and the matches
/// found before stay.
pub proof fn law_matches_are_capped(
    found: Seq<JsonView>,
    limit: nat,
    script: ScriptView,
    query: Chars,
    s: Chars,
)
    requires
        found.len() <= limit,
    ensures
        ({
            let after = search::extend_matches(found, limit, script, query, s);
            &&& found.len() <= after.len() <= limit
            &&& after.take(found.len() as int) == found
            &&& after.len() < limit ==> after.len() == found.len() + search::places_in(
                s,
                query,
            ).len()
        }),
{
    let all = search::with_matches(found, script, query, s, search::places_in(s, query));
    assert(all.take(found.len() as int) == found);
    let after = search::extend_matches(found, limit, script, query, s);
    assert(after.take(found.len() as int) == found);
}

proof fn lemma_best(request: ResolutionView, locations: Seq<JsonView>, s: Chars, requested: nat)
    ensures
        match request.best(locations, s, requested) {
            Some(i) => {
                &&& 0 <= i < locations.len()
                &&& request.candidate(locations[i], s, requested) is Some
                &&& forall|j: int|
                    0 <= j < locations.len() && request.candidate(
                        #[trigger] locations[j],
                        s,
                        requested,
                    ) is Some ==> !breakpoint::before(
                        request.candidate(locations[j], s, requested)->Some_0,
                        request.candidate(locations[i], s, requested)->Some_0,
                    )
            },
            None => forall|j: int|
                0 <= j < locations.len() ==> request.candidate(
                    #[trigger] locations[j],
                    s,
                    requested,
                ) is None,
        },
    decreases locations.len(),
{
    if locations.len() > 0 {
        let rest = locations.drop_last();
        lemma_best(request, rest, s, requested);
        let n = locations.len() - 1;
        assert forall|j: int| 0 <= j < n implies locations[j] == rest[j] by {}
        match request.best(locations, s, requested) {
            Some(i) => {
                assert forall|j: int|
                    0 <= j < locations.len() && request.candidate(
                        #[trigger] locations[j],
                        s,
                        requested,
                    ) is Some implies !breakpoint::before(
                    request.candidate(locations[j], s, requested)->Some_0,
                    request.candidate(locations[i], s, requested)->Some_0,
                ) by {
                    if j < n {
                        assert(locations[j] == rest[j]);
                    }
                }
            },
            None => {
                assert forall|j: int| 0 <= j < locations.len() implies request.candidate(
                    #[trigger] locations[j],
                    s,
                    requested,
                ) is None by {
                    if j < n {
                        assert(locations[j] == rest[j]);
                    }
                }
            },
        }
    }
}

/// A breakpoint goes to a location that the browser offered, within the bounds
/// of the request and as its mode allows. No location that qualifies is closer,
/// and of two equally close ones the one at or behind the request is taken.
/// Where none qualifies there is no location at all.
pub proof fn law_selection_is_bounded_and_closest(
    request: ResolutionView,
    locations: Seq<JsonView>,
    s: Chars,
    requested: nat,
)
    requires
        request.requested_offset(s) == Some(requested),
    ensures
        match request.select(locations, s) {
            Ok((location, _, distance)) => {
                let chosen = request.candidate(location, s, requested);
                &&& locations.contains(location)
                &&& chosen is Some
                &&& chosen->Some_0.distance == distance
                &&& distance <= request.max_utf16_distance
                &&& location.get_u64("lineNumber"@) matches Some(line)
                &&& breakpoint::distance(line as int, request.line - 1) <= request.max_lines
                &&& forall|j: int|
                    0 <= j < locations.len() ==> (request.candidate(
                        #[trigger] locations[j],
                        s,
                        requested,
                    ) matches Some(other) ==> !breakpoint::before(other, chosen->Some_0))
            },
            Err(_) => forall|j: int|
                0 <= j < locations.len() ==> request.candidate(
                    #[trigger] locations[j],
                    s,
                    requested,
                ) is None,
        },
{
    lemma_best(request, locations, s, requested);
}

/// A location outside the source is refused, whatever the browser offers.
pub proof fn law_locations_outside_the_source_are_refused(
    request: ResolutionView,
    locations: Seq<JsonView>,
    s: Chars,
)
    requires
        request.line as int > source::lines_of(s).len(),
    ensures
        request.select(locations, s) == Err::<(JsonView, Chars, u64), Chars>(
            breakpoint::outside_script(request.line, request.column),
        ),
{
}

} // verus!
