//! Compiled JavaScript source text: lines, positions and search.
//!
//! Chrome addresses compiled text by line and UTF-16 column, and a line ends
//! where ECMAScript says so. Everything here is stated over the characters of
//! the source.

use vstd::prelude::*;

use crate::text;
use crate::text::{byte_len, char_bytes, char_units, chars_of, string_from, Chars};

verus! {

/// UTF-16 code units of context shown on each side of a search match.
pub const SOURCE_MATCH_CONTEXT_UTF16: usize = 160;

/// Whether `c` ends a line in ECMAScript.
pub open spec fn is_line_end(c: char) -> bool {
    c == '\n' || c == '\r' || c == '\u{2028}' || c == '\u{2029}'
}

/// Number of characters of the line terminator at `i`: a carriage return and
/// the line feed behind it are one terminator.
pub open spec fn line_end_width(s: Chars, i: int) -> int {
    if s[i] == '\r' && i + 1 < s.len() && s[i + 1] == '\n' {
        2
    } else {
        1
    }
}

/// The lines of `s` from `start` on, where no terminator stands in
/// `start..at`: each line as the range of its characters, without terminator.
pub open spec fn line_spans(s: Chars, start: int, at: int) -> Seq<(int, int)>
    decreases s.len() - at,
{
    if at >= s.len() {
        seq![(start, s.len() as int)]
    } else if is_line_end(s[at]) {
        let next = at + line_end_width(s, at);
        seq![(start, at)] + line_spans(s, next, next)
    } else {
        line_spans(s, start, at + 1)
    }
}

/// The lines of `s`.
pub open spec fn lines_of(s: Chars) -> Seq<(int, int)> {
    line_spans(s, 0, 0)
}

/// Text of line `n`.
pub open spec fn line_text(s: Chars, n: int) -> Chars {
    s.subrange(lines_of(s)[n].0, lines_of(s)[n].1)
}

proof fn lemma_line_spans(s: Chars, start: int, at: int)
    requires
        0 <= start <= at <= s.len(),
    ensures
        line_spans(s, start, at).len() >= 1,
        forall|i: int|
            0 <= i < line_spans(s, start, at).len() ==> start <= (
            #[trigger] line_spans(s, start, at)[i]).0 <= line_spans(s, start, at)[i].1 <= s.len(),
    decreases s.len() - at,
{
    if at < s.len() {
        if is_line_end(s[at]) {
            let next = at + line_end_width(s, at);
            lemma_line_spans(s, next, next);
            let rest = line_spans(s, next, next);
            assert forall|i: int| 0 <= i < line_spans(s, start, at).len() implies start <= (
            #[trigger] line_spans(s, start, at)[i]).0 <= line_spans(s, start, at)[i].1
                <= s.len() by {
                if i > 0 {
                    assert(line_spans(s, start, at)[i] == rest[i - 1]);
                }
            }
        } else {
            lemma_line_spans(s, start, at + 1);
        }
    }
}

/// A text has at least one line, and every line is a range of it.
pub proof fn lemma_lines_of(s: Chars)
    ensures
        lines_of(s).len() >= 1,
        forall|i: int|
            0 <= i < lines_of(s).len() ==> 0 <= (#[trigger] lines_of(s)[i]).0 <= lines_of(s)[i].1
                <= s.len(),
{
    lemma_line_spans(s, 0, 0);
}

fn ends_line(c: char) -> (r: bool)
    ensures
        r == is_line_end(c),
{
    c == '\n' || c == '\r' || c == '\u{2028}' || c == '\u{2029}'
}

/// Ranges of the lines of a source.
fn spans_of(chars: &Vec<char>) -> (r: Vec<(usize, usize)>)
    ensures
        r.len() == lines_of(chars@).len(),
        forall|i: int|
            0 <= i < r.len() ==> (#[trigger] r@[i]).0 == lines_of(chars@)[i].0 && r@[i].1
                == lines_of(chars@)[i].1 && r@[i].0 <= r@[i].1 <= chars.len(),
{
    let ghost s = chars@;
    let ghost f = |p: (usize, usize)| (p.0 as int, p.1 as int);
    let mut spans: Vec<(usize, usize)> = Vec::new();
    let mut start: usize = 0;
    let mut at: usize = 0;
    assert(spans@.map_values(f) + line_spans(s, 0, 0) == lines_of(s));
    while at < chars.len()
        invariant
            s == chars@,
            f == (|p: (usize, usize)| (p.0 as int, p.1 as int)),
            start <= at <= chars.len(),
            spans@.map_values(f) + line_spans(s, start as int, at as int) == lines_of(s),
        decreases chars.len() - at,
    {
        let c = chars[at];
        if ends_line(c) {
            let next: usize = if c == '\r' && at + 1 < chars.len() && chars[at + 1] == '\n' {
                at + 2
            } else {
                at + 1
            };
            let ghost before = spans@;
            spans.push((start, at));
            proof {
                let rest = line_spans(s, next as int, next as int);
                assert(spans@.map_values(f) == before.map_values(f).push((start as int, at as int)));
                assert(before.map_values(f) + (seq![(start as int, at as int)] + rest)
                    == spans@.map_values(f) + rest);
            }
            start = next;
            at = next;
        } else {
            at = at + 1;
        }
    }
    let ghost before = spans@;
    spans.push((start, chars.len()));
    proof {
        assert(spans@.map_values(f) == before.map_values(f) + seq![
            (start as int, s.len() as int),
        ]);
        lemma_lines_of(s);
        assert forall|i: int| 0 <= i < spans.len() implies (#[trigger] spans@[i]).0 == lines_of(
            s,
        )[i].0 && spans@[i].1 == lines_of(s)[i].1 && spans@[i].0 <= spans@[i].1 <= chars.len() by {
            assert(spans@.map_values(f)[i] == lines_of(s)[i]);
        }
    }
    spans
}

/// The lines of a source, each with the byte offset of its first character.
pub fn javascript_source_lines_with_offsets(source: &str) -> (r: Vec<(usize, String)>)
    ensures
        r.len() == lines_of(source@).len(),
        forall|i: int|
            0 <= i < r.len() ==> (#[trigger] r@[i]).0 == text::utf8_len(
                source@.take(lines_of(source@)[i].0),
            ) && r@[i].1@ == line_text(source@, i),
{
    let _bound = byte_len(source);
    let chars = chars_of(source);
    let spans = spans_of(&chars);
    let mut lines: Vec<(usize, String)> = Vec::new();
    let mut i: usize = 0;
    let mut at: usize = 0;
    let mut bytes: usize = 0;
    proof {
        lemma_lines_of(source@);
        assert(source@.take(0) == Seq::<char>::empty());
        lemma_spans_ascend(source@, 0, 0);
    }
    while i < spans.len()
        invariant
            chars@ == source@,
            text::utf8_len(source@) <= usize::MAX,
            spans.len() == lines_of(source@).len(),
            forall|j: int|
                0 <= j < spans.len() ==> (#[trigger] spans@[j]).0 == lines_of(source@)[j].0
                    && spans@[j].1 == lines_of(source@)[j].1 && spans@[j].0 <= spans@[j].1
                    <= chars.len(),
            forall|j: int, k: int|
                0 <= j <= k < spans.len() ==> (#[trigger] lines_of(source@)[j]).0 <= (
                #[trigger] lines_of(source@)[k]).0,
            i == lines.len() <= spans.len(),
            at <= chars.len(),
            i < spans.len() ==> at <= spans@[i as int].0,
            bytes == text::utf8_len(source@.take(at as int)),
            forall|j: int|
                0 <= j < i ==> (#[trigger] lines@[j]).0 == text::utf8_len(
                    source@.take(lines_of(source@)[j].0),
                ) && lines@[j].1@ == line_text(source@, j),
        decreases spans.len() - i,
    {
        let from: usize = spans[i].0;
        let to: usize = spans[i].1;
        while at < from
            invariant
                chars@ == source@,
                text::utf8_len(source@) <= usize::MAX,
                at <= from <= chars.len(),
                bytes == text::utf8_len(source@.take(at as int)),
            decreases from - at,
        {
            proof {
                text::lemma_len_step(source@, at as int);
                text::lemma_len_part(source@, at as int, at + 1);
            }
            bytes = bytes + char_bytes(chars[at]);
            at = at + 1;
        }
        lines.push((bytes, string_from(&chars, from, to)));
        i = i + 1;
        proof {
            if i < spans.len() {
                assert(lines_of(source@)[i - 1].0 <= lines_of(source@)[i as int].0);
                assert(spans@[i as int].0 == lines_of(source@)[i as int].0);
            }
        }
    }
    lines
}

proof fn lemma_spans_ascend(s: Chars, start: int, at: int)
    requires
        0 <= start <= at <= s.len(),
    ensures
        forall|j: int, k: int|
            0 <= j <= k < line_spans(s, start, at).len() ==> (#[trigger] line_spans(
                s,
                start,
                at,
            )[j]).0 <= (#[trigger] line_spans(s, start, at)[k]).0,
    decreases s.len() - at,
{
    if at < s.len() {
        if is_line_end(s[at]) {
            let next = at + line_end_width(s, at);
            lemma_spans_ascend(s, next, next);
            lemma_line_spans(s, next, next);
            let rest = line_spans(s, next, next);
            let all = line_spans(s, start, at);
            assert forall|j: int, k: int| 0 <= j <= k < all.len() implies (#[trigger] all[j]).0
                <= (#[trigger] all[k]).0 by {
                if k > 0 {
                    assert(all[k] == rest[k - 1]);
                    if j > 0 {
                        assert(all[j] == rest[j - 1]);
                    }
                }
            }
        } else {
            lemma_spans_ascend(s, start, at + 1);
            assert(line_spans(s, start, at) == line_spans(s, start, at + 1));
        }
    } else {
        assert(line_spans(s, start, at).len() == 1);
    }
}

/// The lines of a source.
pub fn javascript_source_lines(source: &str) -> (r: Vec<String>)
    ensures
        r.len() == lines_of(source@).len(),
        forall|i: int| 0 <= i < r.len() ==> (#[trigger] r@[i])@ == line_text(source@, i),
{
    let lines = javascript_source_lines_with_offsets(source);
    let mut r: Vec<String> = Vec::new();
    let mut i: usize = 0;
    while i < lines.len()
        invariant
            i == r.len() <= lines.len(),
            lines.len() == lines_of(source@).len(),
            forall|j: int|
                0 <= j < lines.len() ==> (#[trigger] lines@[j]).1@ == line_text(source@, j),
            forall|j: int| 0 <= j < i ==> (#[trigger] r@[j])@ == line_text(source@, j),
        decreases lines.len() - i,
    {
        r.push(lines[i].1.clone());
        i = i + 1;
    }
    r
}

/// UTF-16 offset of a zero-based line and column, where the column is within
/// the line or at its end.
pub open spec fn utf16_offset(s: Chars, line: int, column: int) -> Option<nat> {
    if 0 <= line < lines_of(s).len() && 0 <= column <= text::utf16_len(line_text(s, line)) {
        Some((text::utf16_len(s.take(lines_of(s)[line].0)) + column) as nat)
    } else {
        None
    }
}

/// UTF-16 offset of a zero-based location, or `None` where the source has no
/// such location.
pub fn utf16_offset_for_location(source: &str, target_line: usize, column: usize) -> (r: Option<
    usize,
>)
    ensures
        match utf16_offset(source@, target_line as int, column as int) {
            Some(offset) => r == Some(offset as usize) && offset <= usize::MAX,
            None => r is None,
        },
        lines_of(source@).len() <= usize::MAX,
        text::utf16_len(source@) <= usize::MAX,
{
    let _bound = byte_len(source);
    let chars = chars_of(source);
    let spans = spans_of(&chars);
    if target_line >= spans.len() {
        return None;
    }
    let from: usize = spans[target_line].0;
    let to: usize = spans[target_line].1;
    let mut start: usize = 0;
    let mut i: usize = 0;
    assert(source@.take(0) == Seq::<char>::empty());
    while i < from
        invariant
            chars@ == source@,
            text::utf16_len(source@) <= usize::MAX,
            i <= from <= chars.len(),
            start == text::utf16_len(source@.take(i as int)),
        decreases from - i,
    {
        proof {
            text::lemma_len_step(source@, i as int);
            text::lemma_len_part(source@, i as int, i + 1);
        }
        start = start + char_units(chars[i]);
        i = i + 1;
    }
    let mut end: usize = start;
    while i < to
        invariant
            chars@ == source@,
            text::utf16_len(source@) <= usize::MAX,
            i <= to <= chars.len(),
            end == text::utf16_len(source@.take(i as int)),
        decreases to - i,
    {
        proof {
            text::lemma_len_step(source@, i as int);
            text::lemma_len_part(source@, i as int, i + 1);
        }
        end = end + char_units(chars[i]);
        i = i + 1;
    }
    proof {
        text::lemma_len_part(source@, from as int, to as int);
    }
    if column <= end - start {
        Some(start + column)
    } else {
        None
    }
}

/// UTF-16 offset of a zero-based location given by 64-bit numbers.
pub fn utf16_offset_at(source: &str, line: u64, column: u64) -> (r: Option<u64>)
    ensures
        match utf16_offset(source@, line as int, column as int) {
            Some(offset) => r == Some(offset as u64) && offset <= u64::MAX,
            None => r is None,
        },
{
    let near = utf16_offset_for_location(source, 0, 0);
    if line > usize::MAX as u64 || column > usize::MAX as u64 {
        proof {
            if 0 <= line < lines_of(source@).len() {
                lemma_lines_of(source@);
                let span = lines_of(source@)[line as int];
                text::lemma_len_part(source@, span.0, span.1);
            }
        }
        return None;
    }
    match utf16_offset_for_location(source, line as usize, column as usize) {
        Some(offset) => Some(offset as u64),
        None => None,
    }
}

/// Number of whole characters in the first `byte` bytes of `s`.
pub open spec fn char_index(s: Chars, byte: nat) -> int
    decreases s.len(),
{
    if s.len() == 0 {
        0
    } else if text::utf8_len(s) <= byte {
        s.len() as int
    } else {
        char_index(s.drop_last(), byte)
    }
}

/// Whether a byte offset falls between two characters of `s`.
pub open spec fn on_boundary(s: Chars, byte: nat) -> bool {
    text::utf8_len(s.take(char_index(s, byte))) == byte
}

/// First character of the context before position `k`: as many characters as
/// fit into `budget` UTF-16 code units.
pub open spec fn context_start(s: Chars, k: int, budget: nat) -> int
    decreases k,
{
    if k <= 0 || text::utf16_width(s[k - 1]) > budget {
        k
    } else {
        context_start(s, k - 1, (budget - text::utf16_width(s[k - 1])) as nat)
    }
}

/// End of the context behind position `k`.
pub open spec fn context_end(s: Chars, k: int, budget: nat) -> int
    decreases s.len() - k,
{
    if k >= s.len() || text::utf16_width(s[k]) > budget {
        k
    } else {
        context_end(s, k + 1, (budget - text::utf16_width(s[k])) as nat)
    }
}

/// The match at `from..to` with its context on both sides.
pub open spec fn match_context(s: Chars, from: int, to: int, budget: nat) -> Chars {
    s.subrange(context_start(s, from, budget), context_end(s, to, budget))
}

/// The match at the given characters of a line, with its context.
pub(crate) fn context_of(chars: &Vec<char>, from: usize, to: usize, budget: usize) -> (r: String)
    requires
        from <= to <= chars.len(),
    ensures
        r@ == match_context(chars@, from as int, to as int, budget as nat),
{
    let ghost s = chars@;
    let mut start: usize = from;
    let mut left: usize = budget;
    while start > 0 && char_units(chars[start - 1]) <= left
        invariant
            s == chars@,
            start <= from <= chars.len(),
            context_start(s, start as int, left as nat) == context_start(
                s,
                from as int,
                budget as nat,
            ),
        decreases start,
    {
        left = left - char_units(chars[start - 1]);
        start = start - 1;
    }
    let mut end: usize = to;
    let mut right: usize = budget;
    while end < chars.len() && char_units(chars[end]) <= right
        invariant
            s == chars@,
            to <= end <= chars.len(),
            context_end(s, end as int, right as nat) == context_end(s, to as int, budget as nat),
        decreases chars.len() - end,
    {
        right = right - char_units(chars[end]);
        end = end + 1;
    }
    string_from(chars, start, end)
}

/// Position of the character that starts at a byte offset.
fn char_index_of(chars: &Vec<char>, byte: usize) -> (r: usize)
    requires
        on_boundary(chars@, byte as nat),
        text::utf8_len(chars@) <= usize::MAX,
    ensures
        r == char_index(chars@, byte as nat) <= chars.len(),
{
    let ghost s = chars@;
    let mut total: usize = 0;
    let mut i: usize = 0;
    proof {
        assert(s.take(0) == Seq::<char>::empty());
        lemma_char_index(s, byte as nat);
    }
    while total < byte
        invariant
            s == chars@,
            text::utf8_len(s) <= usize::MAX,
            on_boundary(s, byte as nat),
            i <= char_index(s, byte as nat) <= chars.len(),
            total == text::utf8_len(s.take(i as int)),
        decreases char_index(s, byte as nat) - i,
    {
        proof {
            if i == char_index(s, byte as nat) {
                assert(false);
            }
            text::lemma_len_step(s, i as int);
            text::lemma_len_part(s, i as int, i + 1);
        }
        total = total + char_bytes(chars[i]);
        i = i + 1;
    }
    proof {
        text::lemma_len_part(s, i as int, char_index(s, byte as nat));
        text::lemma_len_bounds(s.subrange(i as int, char_index(s, byte as nat)));
    }
    i
}

proof fn lemma_char_index(s: Chars, byte: nat)
    ensures
        0 <= char_index(s, byte) <= s.len(),
    decreases s.len(),
{
    if s.len() > 0 && text::utf8_len(s) > byte {
        lemma_char_index(s.drop_last(), byte);
    }
}

/// The match that starts and ends at the given byte offsets of a line, with as
/// much context on each side as fits into `context_utf16` UTF-16 code units.
pub fn bounded_match_context(
    line: &str,
    match_start: usize,
    match_end: usize,
    context_utf16: usize,
) -> (r: String)
    requires
        on_boundary(line@, match_start as nat),
        on_boundary(line@, match_end as nat),
        match_start <= match_end,
    ensures
        r@ == match_context(
            line@,
            char_index(line@, match_start as nat),
            char_index(line@, match_end as nat),
            context_utf16 as nat,
        ),
{
    let _bound = byte_len(line);
    let chars = chars_of(line);
    let from = char_index_of(&chars, match_start);
    let to = char_index_of(&chars, match_end);
    proof {
        if to < from {
            text::lemma_len_part(line@, to as int, from as int);
            text::lemma_len_bounds(line@.subrange(to as int, from as int));
        }
    }
    context_of(&chars, from, to, context_utf16)
}

} // verus!
