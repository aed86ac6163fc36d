//! JSON values and their mathematical model.
//!
//! `Json` is what protocol messages, event records and command responses are
//! made of. Its model, [`JsonView`], has maps for objects, so the order in
//! which members were added plays no role in any contract.

use vstd::prelude::*;

use crate::interop;
use crate::text;
use crate::text::{str_eq, Chars};

verus! {

/// A negative integer that was read from JSON text.
#[derive(Debug)]
pub struct NegativeInt {
    pub(crate) value: i64,
}

impl NegativeInt {
    /// The integer is below zero.
    #[verifier::type_invariant]
    pub(crate) closed spec fn below_zero(self) -> bool {
        self.value < 0
    }
}

impl View for NegativeInt {
    type V = i64;

    closed spec fn view(&self) -> i64 {
        self.value
    }
}

/// The text of a number with a fraction or an exponent, or beyond 64 bits, that
/// was read from JSON text.
#[derive(Debug)]
pub struct FloatText {
    pub(crate) text: String,
}

impl FloatText {
    /// The text is one that a value of `serde_json` prints its number as.
    #[verifier::type_invariant]
    pub(crate) closed spec fn printed(self) -> bool {
        exists|value: serde_json::Value| #[trigger]
            interop::value_model(value) == JsonView::Float(self.text@)
    }
}

/// Whether a text is one of the two that stand for zero.
pub open spec fn float_zero(s: Chars) -> bool {
    s == "0.0"@ || s == "-0.0"@
}

/// Whether two texts stand for the same number. Every number has one text, but
/// for zero, which has a sign.
pub open spec fn same_float(a: Chars, b: Chars) -> bool {
    a == b || (float_zero(a) && float_zero(b))
}

impl FloatText {
    fn is_zero(&self) -> (r: bool)
        ensures
            r == float_zero(self@),
    {
        str_eq(self.text.as_str(), "0.0") || str_eq(self.text.as_str(), "-0.0")
    }

    fn same(&self, other: &FloatText) -> (r: bool)
        ensures
            r == same_float(self@, other@),
    {
        str_eq(self.text.as_str(), other.text.as_str()) || (self.is_zero() && other.is_zero())
    }
}

impl View for FloatText {
    type V = Chars;

    closed spec fn view(&self) -> Chars {
        self.text@
    }
}

/// A JSON value.
///
/// An object lists its members; a later member shadows an earlier one of the
/// same name.
#[derive(Debug)]
pub enum Json {
    Null,
    Bool(bool),
    /// A number from 0 to `u64::MAX`.
    Uint(u64),
    /// A negative integer.
    Int(NegativeInt),
    /// Any other number.
    Float(FloatText),
    Str(String),
    Array(Vec<Json>),
    Object(Vec<(String, Json)>),
}

/// Model of a JSON value.
#[verifier::ext_equal]
pub enum JsonView {
    Null,
    Bool(bool),
    Uint(u64),
    Int(i64),
    Float(Chars),
    Str(Chars),
    Array(Seq<JsonView>),
    Object(Map<Chars, JsonView>),
}

/// Models of the elements of an array.
pub open spec fn items_view(items: Seq<Json>) -> Seq<JsonView>
    decreases items,
{
    Seq::new(
        items.len(),
        |i: int|
            if 0 <= i < items.len() {
                json_view(items[i])
            } else {
                JsonView::Null
            },
    )
}

/// The map that a list of members stands for.
pub open spec fn entries_view(entries: Seq<(String, Json)>) -> Map<Chars, JsonView>
    decreases entries,
{
    if entries.len() == 0 {
        Map::empty()
    } else {
        entries_view(entries.drop_last()).insert(entries.last().0@, json_view(entries.last().1))
    }
}

/// Model of `j`.
pub open spec fn json_view(j: Json) -> JsonView
    decreases j,
{
    match j {
        Json::Null => JsonView::Null,
        Json::Bool(b) => JsonView::Bool(b),
        Json::Uint(n) => JsonView::Uint(n),
        Json::Int(n) => JsonView::Int(n@),
        Json::Float(s) => JsonView::Float(s@),
        Json::Str(s) => JsonView::Str(s@),
        Json::Array(items) => JsonView::Array(items_view(items@)),
        Json::Object(entries) => JsonView::Object(entries_view(entries@)),
    }
}

impl View for Json {
    type V = JsonView;

    open spec fn view(&self) -> JsonView {
        json_view(*self)
    }
}

impl DeepView for Json {
    type V = JsonView;

    open spec fn deep_view(&self) -> JsonView {
        json_view(*self)
    }
}

/// Whether two lists hold equal values in the same order.
pub open spec fn equal_items(a: Seq<JsonView>, b: Seq<JsonView>) -> bool
    decreases a,
{
    a.len() == b.len() && forall|i: int|
        0 <= i < a.len() ==> equal_values(#[trigger] a[i], #[trigger] b[i])
}

/// Whether two maps, of finitely many members, hold equal values under the same
/// names.
pub open spec fn equal_members(a: Map<Chars, JsonView>, b: Map<Chars, JsonView>) -> bool
    decreases a,
{
    a.dom() == b.dom() && forall|k: Chars|
        a.dom().finite() && a.contains_key(k) ==> equal_values(#[trigger] a[k], #[trigger] b[k])
}

/// Whether two values are equal. Zero equals itself whatever its sign; other
/// values are equal where they are the same.
pub open spec fn equal_values(a: JsonView, b: JsonView) -> bool
    decreases a,
{
    match (a, b) {
        (JsonView::Float(x), JsonView::Float(y)) => same_float(x, y),
        (JsonView::Array(x), JsonView::Array(y)) => equal_items(x, y),
        (JsonView::Object(x), JsonView::Object(y)) => equal_members(x, y),
        _ => a == b,
    }
}

/// Whether two optional values are equal.
pub open spec fn equal_optional(a: Option<JsonView>, b: Option<JsonView>) -> bool {
    match (a, b) {
        (Some(x), Some(y)) => equal_values(x, y),
        (None, None) => true,
        _ => false,
    }
}

impl JsonView {
    /// The object without members.
    pub open spec fn object() -> JsonView {
        JsonView::Object(Map::empty())
    }

    /// The object with member `key` set; any other value is left alone.
    pub open spec fn with(self, key: Chars, value: JsonView) -> JsonView {
        match self {
            JsonView::Object(m) => JsonView::Object(m.insert(key, value)),
            _ => self,
        }
    }

    /// Member `key` of an object.
    pub open spec fn get(self, key: Chars) -> Option<JsonView> {
        match self {
            JsonView::Object(m) => if m.contains_key(key) {
                Some(m[key])
            } else {
                None
            },
            _ => None,
        }
    }

    pub open spec fn as_str(self) -> Option<Chars> {
        match self {
            JsonView::Str(s) => Some(s),
            _ => None,
        }
    }

    pub open spec fn as_u64(self) -> Option<u64> {
        match self {
            JsonView::Uint(n) => Some(n),
            _ => None,
        }
    }

    pub open spec fn as_bool(self) -> Option<bool> {
        match self {
            JsonView::Bool(b) => Some(b),
            _ => None,
        }
    }

    pub open spec fn as_array(self) -> Option<Seq<JsonView>> {
        match self {
            JsonView::Array(items) => Some(items),
            _ => None,
        }
    }

    /// Whether the object has member `key`, of any type.
    pub open spec fn has(self, key: Chars) -> bool {
        self.get(key) is Some
    }

    /// Member `key`, where it is a string.
    pub open spec fn get_str(self, key: Chars) -> Option<Chars> {
        match self.get(key) {
            Some(v) => v.as_str(),
            None => None,
        }
    }

    /// Member `key`, where it is a non-negative integer.
    pub open spec fn get_u64(self, key: Chars) -> Option<u64> {
        match self.get(key) {
            Some(v) => v.as_u64(),
            None => None,
        }
    }

    /// Member `key`, where it is a boolean.
    pub open spec fn get_bool(self, key: Chars) -> Option<bool> {
        match self.get(key) {
            Some(v) => v.as_bool(),
            None => None,
        }
    }

    /// Member `key`, where it is an array.
    pub open spec fn get_array(self, key: Chars) -> Option<Seq<JsonView>> {
        match self.get(key) {
            Some(v) => v.as_array(),
            None => None,
        }
    }

    /// Whether member `key` is `true`.
    pub open spec fn flag(self, key: Chars) -> bool {
        self.get_bool(key) == Some(true)
    }

    /// Member `key`, or `null` where there is none.
    pub open spec fn get_or_null(self, key: Chars) -> JsonView {
        JsonView::or_null(self.get(key))
    }

    /// The member of a value that may be missing.
    pub open spec fn inner(value: Option<JsonView>, key: Chars) -> Option<JsonView> {
        match value {
            Some(v) => v.get(key),
            None => None,
        }
    }

    /// The value, or `null` where there is none.
    pub open spec fn or_null(value: Option<JsonView>) -> JsonView {
        match value {
            Some(v) => v,
            None => JsonView::Null,
        }
    }

    /// A string, or `null` where there is none.
    pub open spec fn opt_text(value: Option<Chars>) -> JsonView {
        match value {
            Some(s) => JsonView::Str(s),
            None => JsonView::Null,
        }
    }

    /// A number, or `null` where there is none.
    pub open spec fn opt_uint(value: Option<u64>) -> JsonView {
        match value {
            Some(n) => JsonView::Uint(n),
            None => JsonView::Null,
        }
    }

    /// An array of strings.
    pub open spec fn texts(values: Seq<Chars>) -> JsonView {
        JsonView::Array(values.map_values(|s: Chars| JsonView::Str(s)))
    }
}

proof fn lemma_entries_push(entries: Seq<(String, Json)>, entry: (String, Json))
    ensures
        entries_view(entries.push(entry)) == entries_view(entries).insert(
            entry.0@,
            json_view(entry.1),
        ),
{
    assert(entries.push(entry).drop_last() == entries);
}

proof fn lemma_entries_key(entries: Seq<(String, Json)>, key: Chars)
    ensures
        entries_view(entries).contains_key(key) <==> exists|i: int|
            0 <= i < entries.len() && (#[trigger] entries[i]).0@ == key,
    decreases entries.len(),
{
    if entries.len() > 0 {
        let init = entries.drop_last();
        lemma_entries_key(init, key);
        if entries_view(init).contains_key(key) {
            let i = choose|i: int| 0 <= i < init.len() && (#[trigger] init[i]).0@ == key;
            assert(entries[i].0@ == key);
        }
        if exists|i: int| 0 <= i < entries.len() && (#[trigger] entries[i]).0@ == key {
            let i = choose|i: int| 0 <= i < entries.len() && (#[trigger] entries[i]).0@ == key;
            if i < init.len() {
                assert(init[i].0@ == key);
            }
        }
        assert(entries[entries.len() - 1] == entries.last());
    }
}

proof fn lemma_entries_finite(entries: Seq<(String, Json)>)
    ensures
        entries_view(entries).dom().finite(),
    decreases entries.len(),
{
    if entries.len() > 0 {
        lemma_entries_finite(entries.drop_last());
    }
}

/// An object has finitely many members.
pub proof fn lemma_finite_members(j: Json)
    ensures
        j@ matches JsonView::Object(members) ==> members.dom().finite(),
{
    if let Json::Object(entries) = j {
        lemma_entries_finite(entries@);
    }
}

/// Position of the member that `key` names, the last one of that name.
fn find_member(entries: &Vec<(String, Json)>, key: &str) -> (r: Option<usize>)
    ensures
        match r {
            Some(i) => i < entries.len() && entries_view(entries@).contains_key(key@)
                && entries_view(entries@)[key@] == json_view(entries@[i as int].1),
            None => !entries_view(entries@).contains_key(key@),
        },
{
    let mut i: usize = entries.len();
    assert(entries@.take(i as int) == entries@);
    while i > 0
        invariant
            i <= entries.len(),
            entries_view(entries@).contains_key(key@) == entries_view(
                entries@.take(i as int),
            ).contains_key(key@),
            entries_view(entries@)[key@] == entries_view(entries@.take(i as int))[key@],
        decreases i,
    {
        i = i - 1;
        assert(entries@.take(i + 1).drop_last() == entries@.take(i as int));
        assert(entries@.take(i + 1).last() == entries@[i as int]);
        if str_eq(entries[i].0.as_str(), key) {
            return Some(i);
        }
    }
    None
}

impl Clone for Json {
    fn clone(&self) -> (r: Self)
        ensures
            r@ == self@,
        decreases self,
    {
        match self {
            Json::Null => Json::Null,
            Json::Bool(b) => Json::Bool(*b),
            Json::Uint(n) => Json::Uint(*n),
            Json::Int(n) => {
                proof {
                    use_type_invariant(n);
                }
                Json::Int(NegativeInt { value: n.value })
            },
            Json::Float(s) => {
                proof {
                    use_type_invariant(s);
                }
                Json::Float(FloatText { text: s.text.clone() })
            },
            Json::Str(s) => Json::Str(s.clone()),
            Json::Array(items) => {
                let mut copy: Vec<Json> = Vec::new();
                let mut i: usize = 0;
                while i < items.len()
                    invariant
                        i == copy.len() <= items.len(),
                        *self == Json::Array(*items),
                        forall|j: int| 0 <= j < i ==> json_view(copy@[j]) == json_view(items@[j]),
                    decreases items.len() - i,
                {
                    assert(decreases_to!(*self => self->Array_0));
                    assert(decreases_to!(*items => items@[i as int]));
                    copy.push(items[i].clone());
                    i = i + 1;
                }
                assert(items_view(copy@) == items_view(items@));
                Json::Array(copy)
            },
            Json::Object(entries) => {
                let mut copy: Vec<(String, Json)> = Vec::new();
                let mut i: usize = 0;
                while i < entries.len()
                    invariant
                        i == copy.len() <= entries.len(),
                        *self == Json::Object(*entries),
                        entries_view(copy@) == entries_view(entries@.take(i as int)),
                    decreases entries.len() - i,
                {
                    assert(decreases_to!(*self => self->Object_0));
                    assert(decreases_to!(*entries => entries@[i as int]));
                    assert(decreases_to!(entries@[i as int] => entries@[i as int].1));
                    let ghost before = copy@;
                    copy.push((entries[i].0.clone(), entries[i].1.clone()));
                    proof {
                        lemma_entries_push(before, copy@.last());
                        lemma_entries_push(entries@.take(i as int), entries@[i as int]);
                        assert(entries@.take(i + 1) == entries@.take(i as int).push(
                            entries@[i as int],
                        ));
                    }
                    i = i + 1;
                }
                assert(entries@.take(i as int) == entries@);
                Json::Object(copy)
            },
        }
    }
}

impl Json {
    /// The object without members.
    pub fn object() -> (r: Json)
        ensures
            r@ == JsonView::object(),
    {
        let entries: Vec<(String, Json)> = Vec::new();
        Json::Object(entries)
    }

    /// The object with one member more.
    pub fn with(self, key: &str, value: Json) -> (r: Json)
        ensures
            r@ == self@.with(key@, value@),
    {
        match self {
            Json::Object(entries) => {
                let mut entries = entries;
                let ghost before = entries@;
                entries.push((key.to_owned(), value));
                proof {
                    lemma_entries_push(before, entries@.last());
                }
                Json::Object(entries)
            },
            other => other,
        }
    }

    /// A string.
    pub fn text(s: &str) -> (r: Json)
        ensures
            r@ == JsonView::Str(s@),
    {
        Json::Str(s.to_owned())
    }

    /// A string, or `null` where there is none.
    pub fn opt_text(s: Option<&str>) -> (r: Json)
        ensures
            r@ == JsonView::opt_text(s.deep_view()),
    {
        match s {
            Some(s) => Json::text(s),
            None => Json::Null,
        }
    }

    /// A string, or `null` where there is none.
    pub fn opt_string(s: &Option<String>) -> (r: Json)
        ensures
            r@ == JsonView::opt_text(s.deep_view()),
    {
        match s {
            Some(s) => Json::text(s.as_str()),
            None => Json::Null,
        }
    }

    /// A number, or `null` where there is none.
    pub fn opt_uint(n: Option<u64>) -> (r: Json)
        ensures
            r@ == JsonView::opt_uint(n),
    {
        match n {
            Some(n) => Json::Uint(n),
            None => Json::Null,
        }
    }

    /// A copy of the value, or `null` where there is none.
    pub fn opt(value: Option<&Json>) -> (r: Json)
        ensures
            r@ == JsonView::or_null(value.deep_view()),
    {
        match value {
            Some(v) => v.clone(),
            None => Json::Null,
        }
    }

    /// An array of strings.
    pub fn texts(values: &Vec<String>) -> (r: Json)
        ensures
            r@ == JsonView::texts(values.deep_view()),
    {
        let mut items: Vec<Json> = Vec::new();
        let mut i: usize = 0;
        while i < values.len()
            invariant
                i == items.len() <= values.len(),
                forall|j: int| 0 <= j < i ==> json_view(items@[j]) == JsonView::Str(values@[j]@),
            decreases values.len() - i,
        {
            items.push(Json::text(values[i].as_str()));
            i = i + 1;
        }
        assert(items_view(items@) == values.deep_view().map_values(|s: Chars| JsonView::Str(s)));
        Json::Array(items)
    }

    /// An array of values.
    pub fn array(items: Vec<Json>) -> (r: Json)
        ensures
            r@ == JsonView::Array(items.deep_view()),
    {
        assert(items_view(items@) == items.deep_view());
        Json::Array(items)
    }

    /// Member `key` of an object.
    pub fn get(&self, key: &str) -> (r: Option<&Json>)
        ensures
            r.deep_view() == self@.get(key@),
    {
        match self {
            Json::Object(entries) => match find_member(entries, key) {
                Some(i) => Some(&entries[i].1),
                None => None,
            },
            _ => None,
        }
    }

    pub fn as_str(&self) -> (r: Option<&str>)
        ensures
            r.deep_view() == self@.as_str(),
    {
        match self {
            Json::Str(s) => Some(s.as_str()),
            _ => None,
        }
    }

    pub fn as_u64(&self) -> (r: Option<u64>)
        ensures
            r == self@.as_u64(),
    {
        match self {
            Json::Uint(n) => Some(*n),
            _ => None,
        }
    }

    pub fn as_bool(&self) -> (r: Option<bool>)
        ensures
            r == self@.as_bool(),
    {
        match self {
            Json::Bool(b) => Some(*b),
            _ => None,
        }
    }

    pub fn as_array(&self) -> (r: Option<&Vec<Json>>)
        ensures
            r.deep_view() == self@.as_array(),
    {
        match self {
            Json::Array(items) => {
                assert(items_view(items@) == items.deep_view());
                Some(items)
            },
            _ => None,
        }
    }

    /// Whether the object has member `key`, of any type.
    pub fn has(&self, key: &str) -> (r: bool)
        ensures
            r == self@.has(key@),
    {
        self.get(key).is_some()
    }

    /// Member `key`, where it is a string.
    pub fn get_str(&self, key: &str) -> (r: Option<&str>)
        ensures
            r.deep_view() == self@.get_str(key@),
    {
        match self.get(key) {
            Some(v) => v.as_str(),
            None => None,
        }
    }

    /// Member `key`, where it is a non-negative integer.
    pub fn get_u64(&self, key: &str) -> (r: Option<u64>)
        ensures
            r == self@.get_u64(key@),
    {
        match self.get(key) {
            Some(v) => v.as_u64(),
            None => None,
        }
    }

    /// Member `key`, where it is a boolean.
    pub fn get_bool(&self, key: &str) -> (r: Option<bool>)
        ensures
            r == self@.get_bool(key@),
    {
        match self.get(key) {
            Some(v) => v.as_bool(),
            None => None,
        }
    }

    /// Member `key`, where it is an array.
    pub fn get_array(&self, key: &str) -> (r: Option<&Vec<Json>>)
        ensures
            r.deep_view() == self@.get_array(key@),
    {
        match self.get(key) {
            Some(v) => v.as_array(),
            None => None,
        }
    }

    /// Whether member `key` is `true`.
    pub fn flag(&self, key: &str) -> (r: bool)
        ensures
            r == self@.flag(key@),
    {
        match self.get_bool(key) {
            Some(b) => b,
            None => false,
        }
    }

    /// The member of a value that may be missing.
    pub fn inner<'a>(value: Option<&'a Json>, key: &str) -> (r: Option<&'a Json>)
        ensures
            r.deep_view() == JsonView::inner(value.deep_view(), key@),
    {
        match value {
            Some(v) => v.get(key),
            None => None,
        }
    }

    /// A copy of member `key`, or `null` where there is none.
    pub fn get_or_null(&self, key: &str) -> (r: Json)
        ensures
            r@ == self@.get_or_null(key@),
    {
        Json::opt(self.get(key))
    }

    /// Whether two values are equal, whatever the order of members.
    pub fn same(&self, other: &Json) -> (r: bool)
        ensures
            r == equal_values(self@, other@),
        decreases self,
    {
        match (self, other) {
            (Json::Null, Json::Null) => true,
            (Json::Bool(a), Json::Bool(b)) => *a == *b,
            (Json::Uint(a), Json::Uint(b)) => *a == *b,
            (Json::Int(a), Json::Int(b)) => a.value == b.value,
            (Json::Float(a), Json::Float(b)) => a.same(b),
            (Json::Str(a), Json::Str(b)) => str_eq(a.as_str(), b.as_str()),
            (Json::Array(a), Json::Array(b)) => {
                proof {
                    assert(items_view(a@).len() == a@.len());
                    assert(items_view(b@).len() == b@.len());
                }
                if a.len() != b.len() {
                    return false;
                }
                let mut i: usize = 0;
                while i < a.len()
                    invariant
                        i <= a.len() == b.len(),
                        *self == Json::Array(*a),
                        *other == Json::Array(*b),
                        forall|j: int|
                            0 <= j < i ==> equal_values(
                                #[trigger] items_view(a@)[j],
                                #[trigger] items_view(b@)[j],
                            ),
                    decreases a.len() - i,
                {
                    assert(decreases_to!(*self => self->Array_0));
                    assert(decreases_to!(*a => a@[i as int]));
                    assert(items_view(a@)[i as int] == json_view(a@[i as int]));
                    assert(items_view(b@)[i as int] == json_view(b@[i as int]));
                    if !a[i].same(&b[i]) {
                        assert(!equal_items(items_view(a@), items_view(b@)));
                        return false;
                    }
                    i = i + 1;
                }
                assert(equal_items(items_view(a@), items_view(b@)));
                true
            },
            (Json::Object(a), Json::Object(b)) => {
                let ghost x = entries_view(a@);
                let ghost y = entries_view(b@);
                proof {
                    lemma_entries_finite(a@);
                }
                let mut i: usize = 0;
                while i < a.len()
                    invariant
                        i <= a.len(),
                        *self == Json::Object(*a),
                        *other == Json::Object(*b),
                        x == entries_view(a@),
                        y == entries_view(b@),
                        x.dom().finite(),
                        forall|j: int|
                            0 <= j < i ==> y.contains_key((#[trigger] a@[j]).0@) && equal_values(
                                x[a@[j].0@],
                                y[a@[j].0@],
                            ),
                    decreases a.len() - i,
                {
                    proof {
                        lemma_entries_key(a@, a@[i as int].0@);
                    }
                    let p = find_member(a, a[i].0.as_str());
                    let q = find_member(b, a[i].0.as_str());
                    match (p, q) {
                        (Some(p), Some(q)) => {
                            assert(decreases_to!(*self => self->Object_0));
                            assert(decreases_to!(*a => a@[p as int]));
                            assert(decreases_to!(a@[p as int] => a@[p as int].1));
                            if !a[p].1.same(&b[q].1) {
                                assert(!equal_members(x, y));
                                return false;
                            }
                        },
                        _ => {
                            return false;
                        },
                    }
                    i = i + 1;
                }
                let mut j: usize = 0;
                while j < b.len()
                    invariant
                        j <= b.len(),
                        *self == Json::Object(*a),
                        *other == Json::Object(*b),
                        x == entries_view(a@),
                        y == entries_view(b@),
                        forall|k: int|
                            0 <= k < j ==> x.contains_key((#[trigger] b@[k]).0@),
                    decreases b.len() - j,
                {
                    proof {
                        lemma_entries_key(b@, b@[j as int].0@);
                    }
                    if find_member(a, b[j].0.as_str()).is_none() {
                        return false;
                    }
                    j = j + 1;
                }
                proof {
                    assert forall|k: Chars| x.contains_key(k) == y.contains_key(k) by {
                        lemma_entries_key(a@, k);
                        lemma_entries_key(b@, k);
                    }
                    assert forall|k: Chars| x.contains_key(k) implies equal_values(
                        #[trigger] x[k],
                        #[trigger] y[k],
                    ) by {
                        lemma_entries_key(a@, k);
                    }
                    assert(x.dom() =~= y.dom());
                }
                true
            },
            _ => false,
        }
    }
}

/// Whether two optional values are equal.
pub fn same_optional(a: Option<&Json>, b: Option<&Json>) -> (r: bool)
    ensures
        r == equal_optional(a.deep_view(), b.deep_view()),
{
    match (a, b) {
        (Some(a), Some(b)) => a.same(b),
        (None, None) => true,
        _ => false,
    }
}

} // verus!
