//! Choice of the compiled location at which a probe is installed.

use vstd::prelude::*;

use crate::json;
use crate::json::{same_optional, Json, JsonView};
use crate::source;
use crate::source::utf16_offset_at;
use crate::text;
use crate::text::{str_eq, u64_text, Chars};

verus! {

/// What a caller asks for: a one-based location, how to leave it, and how far.
pub struct BreakpointResolutionRequest {
    pub line: u64,
    pub column: u64,
    pub column_explicit: bool,
    pub mode: String,
    pub max_lines: u64,
    pub max_utf16_distance: u64,
}

/// Model of a request.
pub struct ResolutionView {
    pub line: u64,
    pub column: u64,
    pub column_explicit: bool,
    pub mode: Chars,
    pub max_lines: u64,
    pub max_utf16_distance: u64,
}

impl View for BreakpointResolutionRequest {
    type V = ResolutionView;

    open spec fn view(&self) -> ResolutionView {
        ResolutionView {
            line: self.line,
            column: self.column,
            column_explicit: self.column_explicit,
            mode: self.mode@,
            max_lines: self.max_lines,
            max_utf16_distance: self.max_utf16_distance,
        }
    }
}

/// Distance between two numbers.
pub open spec fn distance(a: int, b: int) -> int {
    if a <= b {
        b - a
    } else {
        a - b
    }
}

/// Distance between two numbers.
pub fn abs_diff(a: u64, b: u64) -> (r: u64)
    ensures
        r == distance(a as int, b as int),
{
    if a <= b {
        b - a
    } else {
        a - b
    }
}

/// Column of a zero-based location; Chrome leaves column zero out.
pub open spec fn location_column(location: JsonView) -> u64 {
    match location.get_u64("columnNumber"@) {
        Some(column) => column,
        None => 0,
    }
}

/// Column of a zero-based location.
pub fn column_of(location: &Json) -> (r: u64)
    ensures
        r == location_column(location@),
{
    match location.get_u64("columnNumber") {
        Some(column) => column,
        None => 0,
    }
}

/// A candidate: how far it is from the requested offset, and whether it stands
/// at or behind it.
pub struct Candidate {
    pub distance: u64,
    pub after: bool,
}

impl ResolutionView {
    /// `nearest-forward` is another name of `after`.
    pub open spec fn canonical_mode(self) -> Chars {
        if self.mode == "nearest-forward"@ {
            "after"@
        } else {
            self.mode
        }
    }

    /// Offset of the requested location in the source.
    pub open spec fn requested_offset(self, s: Chars) -> Option<nat> {
        source::utf16_offset(s, self.line - 1, self.column - 1)
    }

    /// Whether the mode takes a location at `offset`.
    pub open spec fn accepts(self, line: u64, column: u64, offset: nat, requested: nat) -> bool {
        let mode = self.canonical_mode();
        if mode == "strict"@ {
            line == self.line - 1 && (!self.column_explicit || column == self.column - 1)
        } else if mode == "before"@ {
            offset <= requested
        } else if mode == "after"@ {
            offset >= requested
        } else {
            mode == "nearest"@
        }
    }

    /// What a location is worth, where it is within the bounds and the mode
    /// takes it.
    pub open spec fn candidate(self, location: JsonView, s: Chars, requested: nat) -> Option<
        Candidate,
    > {
        match location.get_u64("lineNumber"@) {
            None => None,
            Some(line) => match source::utf16_offset(
                s,
                line as int,
                location_column(location) as int,
            ) {
                None => None,
                Some(offset) => if distance(line as int, self.line - 1) <= self.max_lines
                    && distance(offset as int, requested as int) <= self.max_utf16_distance
                    && self.accepts(line, location_column(location), offset, requested) {
                    Some(
                        Candidate {
                            distance: distance(offset as int, requested as int) as u64,
                            after: offset >= requested,
                        },
                    )
                } else {
                    None
                },
            },
        }
    }

    /// Position of the best of `locations`: the closest; of equally close ones
    /// the one at or behind the request; of those the first.
    pub open spec fn best(self, locations: Seq<JsonView>, s: Chars, requested: nat) -> Option<int>
        decreases locations.len(),
    {
        if locations.len() == 0 {
            None
        } else {
            let n = locations.len() - 1;
            match (
                self.best(locations.drop_last(), s, requested),
                self.candidate(locations[n], s, requested),
            ) {
                (best, None) => best,
                (None, Some(_)) => Some(n),
                (Some(b), Some(c)) => if before(
                    c,
                    self.candidate(locations[b], s, requested)->Some_0,
                ) {
                    Some(n)
                } else {
                    Some(b)
                },
            }
        }
    }

    /// Why the location was chosen.
    pub open spec fn reason(self, c: Candidate) -> Chars {
        if c.distance == 0 {
            "exact"@
        } else if self.canonical_mode() == "strict"@ && !self.column_explicit {
            "first-breakable-on-requested-line"@
        } else if c.after {
            "nearest-after-within-function"@
        } else {
            "nearest-before-within-function"@
        }
    }

    /// The location, the reason and the distance, or what is wrong.
    pub open spec fn select(self, locations: Seq<JsonView>, s: Chars) -> Result<
        (JsonView, Chars, u64),
        Chars,
    > {
        match self.requested_offset(s) {
            None => Err(outside_script(self.line, self.column)),
            Some(requested) => match self.best(locations, s, requested) {
                None => Err(self.none_found()),
                Some(i) => {
                    let c = self.candidate(locations[i], s, requested)->Some_0;
                    Ok((locations[i], self.reason(c), c.distance))
                },
            },
        }
    }

    /// Message of a request for which no location qualifies.
    pub open spec fn none_found(self) -> Chars {
        "No breakable compiled JavaScript location found for "@ + text::decimal(self.line as nat)
            + ":"@ + text::decimal(self.column as nat) + " in '"@ + self.canonical_mode()
            + "' mode within "@ + text::decimal(self.max_lines as nat) + " line(s) and "@
            + text::decimal(self.max_utf16_distance as nat) + " UTF-16 code units"@
    }
}

/// Whether candidate `a` is preferred to candidate `b`.
pub open spec fn before(a: Candidate, b: Candidate) -> bool {
    a.distance < b.distance || (a.distance == b.distance && a.after && !b.after)
}

/// Message of a location that the script does not have.
pub open spec fn outside_script(line: u64, column: u64) -> Chars {
    "Requested compiled JavaScript location "@ + text::decimal(line as nat) + ":"@ + text::decimal(
        column as nat,
    ) + " is outside the script"@
}

/// Message of a location that the script does not have.
pub fn outside_script_message(line: u64, column: u64) -> (r: String)
    ensures
        r@ == outside_script(line, column),
{
    "Requested compiled JavaScript location ".to_owned().concat(u64_text(line).as_str()).concat(
        ":",
    ).concat(u64_text(column).as_str()).concat(" is outside the script")
}

impl BreakpointResolutionRequest {
    fn canonical(&self) -> (r: String)
        ensures
            r@ == self@.canonical_mode(),
    {
        if str_eq(self.mode.as_str(), "nearest-forward") {
            "after".to_owned()
        } else {
            self.mode.clone()
        }
    }

    fn weigh(&self, location: &Json, source: &str, requested: u64) -> (r: Option<Candidate>)
        requires
            self.line >= 1,
            self.column >= 1,
        ensures
            r == self@.candidate(location@, source@, requested as nat),
    {
        let line = match location.get_u64("lineNumber") {
            Some(line) => line,
            None => {
                return None;
            },
        };
        let column = column_of(location);
        let offset = match utf16_offset_at(source, line, column) {
            Some(offset) => offset,
            None => {
                return None;
            },
        };
        let gap = abs_diff(offset, requested);
        if abs_diff(line, self.line - 1) > self.max_lines || gap > self.max_utf16_distance {
            return None;
        }
        let mode = self.canonical();
        let after = offset >= requested;
        let accepted = if str_eq(mode.as_str(), "strict") {
            line == self.line - 1 && (!self.column_explicit || column == self.column - 1)
        } else if str_eq(mode.as_str(), "before") {
            offset <= requested
        } else if str_eq(mode.as_str(), "after") {
            after
        } else {
            str_eq(mode.as_str(), "nearest")
        };
        if accepted {
            Some(Candidate { distance: gap, after })
        } else {
            None
        }
    }
}

/// The location to break at, the reason for it and its distance from the
/// requested location in UTF-16 code units.
pub fn select_breakpoint_location(
    locations: &Vec<Json>,
    request: &BreakpointResolutionRequest,
    source: &str,
) -> (r: Result<(Json, String, u64), String>)
    requires
        request.line >= 1,
        request.column >= 1,
    ensures
        text::outcome(r) == request@.select(locations.deep_view(), source@),
{
    let requested = match utf16_offset_at(source, request.line - 1, request.column - 1) {
        Some(offset) => offset,
        None => {
            return Err(outside_script_message(request.line, request.column));
        },
    };
    let ghost all = locations.deep_view();
    let mut best: Option<(usize, Candidate)> = None;
    let mut i: usize = 0;
    while i < locations.len()
        invariant
            i <= locations.len(),
            all == locations.deep_view(),
            request.line >= 1,
            request.column >= 1,
            match best {
                Some((b, c)) => b < i && request@.best(
                    all.take(i as int),
                    source@,
                    requested as nat,
                ) == Some(b as int) && request@.candidate(all[b as int], source@, requested as nat)
                    == Some(c),
                None => request@.best(all.take(i as int), source@, requested as nat) is None,
            },
        decreases locations.len() - i,
    {
        assert(all.take(i + 1).drop_last() == all.take(i as int));
        assert(all[i as int] == locations@[i as int]@);
        match request.weigh(&locations[i], source, requested) {
            Some(c) => {
                let wins = match &best {
                    None => true,
                    Some((_, b)) => c.distance < b.distance || (c.distance == b.distance && c.after
                        && !b.after),
                };
                if wins {
                    best = Some((i, c));
                }
            },
            None => {},
        }
        i = i + 1;
    }
    assert(all.take(i as int) == all);
    match best {
        None => {
            Err(
                "No breakable compiled JavaScript location found for ".to_owned().concat(
                    u64_text(request.line).as_str(),
                ).concat(":").concat(u64_text(request.column).as_str()).concat(" in '").concat(
                    request.canonical().as_str(),
                ).concat("' mode within ").concat(u64_text(request.max_lines).as_str()).concat(
                    " line(s) and ",
                ).concat(u64_text(request.max_utf16_distance).as_str()).concat(
                    " UTF-16 code units",
                ),
            )
        },
        Some((b, c)) => {
            let reason = if c.distance == 0 {
                "exact"
            } else if str_eq(request.canonical().as_str(), "strict") && !request.column_explicit {
                "first-breakable-on-requested-line"
            } else if c.after {
                "nearest-after-within-function"
            } else {
                "nearest-before-within-function"
            };
            Ok((locations[b].clone(), reason.to_owned(), c.distance))
        },
    }
}

/// A zero-based number as a one-based one.
pub open spec fn one_based_number(n: u64) -> u64 {
    if n == u64::MAX {
        n
    } else {
        (n + 1) as u64
    }
}

/// A zero-based JSON number as a one-based one.
pub open spec fn one_based_value(value: Option<JsonView>) -> Option<u64> {
    match value {
        Some(v) => match v.as_u64() {
            Some(n) => Some(one_based_number(n)),
            None => None,
        },
        None => None,
    }
}

/// A zero-based number as a one-based one.
pub fn plus_one(n: u64) -> (r: u64)
    ensures
        r == one_based_number(n),
{
    if n == u64::MAX {
        n
    } else {
        n + 1
    }
}

/// A zero-based JSON number as a one-based one.
pub fn one_based(value: Option<&Json>) -> (r: Option<u64>)
    ensures
        r == one_based_value(value.deep_view()),
{
    match value {
        Some(v) => match v.as_u64() {
            Some(n) => Some(plus_one(n)),
            None => None,
        },
        None => None,
    }
}

/// A zero-based location as a one-based one.
pub open spec fn external_location(location: JsonView) -> JsonView {
    JsonView::object().with("scriptId"@, location.get_or_null("scriptId"@)).with(
        "line"@,
        JsonView::opt_uint(one_based_value(location.get("lineNumber"@))),
    ).with("column"@, JsonView::Uint(one_based_number(location_column(location))))
}

/// A zero-based location as a one-based one.
pub fn one_based_location(location: &Json) -> (r: Json)
    ensures
        r@ == external_location(location@),
{
    Json::object().with("scriptId", location.get_or_null("scriptId")).with(
        "line",
        Json::opt_uint(one_based(location.get("lineNumber"))),
    ).with("column", Json::Uint(plus_one(column_of(location))))
}

/// Whether two locations name the same place.
pub open spec fn same_place(left: JsonView, right: JsonView) -> bool {
    json::equal_optional(left.get("scriptId"@), right.get("scriptId"@)) && json::equal_optional(
        left.get("lineNumber"@),
        right.get("lineNumber"@),
    ) && location_column(left) == location_column(right)
}

/// Whether two locations name the same place.
pub fn same_cdp_location(left: &Json, right: &Json) -> (r: bool)
    ensures
        r == same_place(left@, right@),
{
    same_optional(left.get("scriptId"), right.get("scriptId")) && same_optional(
        left.get("lineNumber"),
        right.get("lineNumber"),
    ) && column_of(left) == column_of(right)
}

/// A number of a command that has to be there and not to be zero.
pub open spec fn one_based_member(command: JsonView, key: Chars) -> Result<u64, Chars> {
    match command.get_u64(key) {
        None => Err("Missing "@ + key),
        Some(n) => if n == 0 {
            Err(key + " must be one-based and greater than zero"@)
        } else {
            Ok(n)
        },
    }
}

/// Reads a number of a command that has to be there and not to be zero.
pub fn required_one_based(command: &Json, key: &str) -> (r: Result<u64, String>)
    ensures
        text::outcome(r) == one_based_member(command@, key@),
{
    match command.get_u64(key) {
        None => Err("Missing ".to_owned().concat(key)),
        Some(n) => if n == 0 {
            Err(key.to_owned().concat(" must be one-based and greater than zero"))
        } else {
            Ok(n)
        },
    }
}

} // verus!
