//! Text primitives: comparison, search, ordering and measuring of strings.
//!
//! A string is modelled by its sequence of characters. Lengths that the
//! protocol counts in bytes or in UTF-16 code units are spec functions on that
//! sequence.

use vstd::prelude::*;


verus! {

/// Characters of a string, as contracts speak of them.
pub type Chars = Seq<char>;

/// `String::push` appends one character to the end of the string.
pub assume_specification[ std::string::String::push ](s: &mut String, c: char)
    ensures
        final(s)@ == old(s)@.push(c),
;

/// The characters of `s` as a vector, for constant-time indexing.
pub fn chars_of(s: &str) -> (r: Vec<char>)
    ensures
        r@ == s@,
{
    let mut r: Vec<char> = Vec::new();
    for c in it: s.chars()
        invariant
            r@ == it.seq().take(it.index() as int),
            it.seq() == s@,
    {
        r.push(c);
    }
    r
}

/// The string made of the characters `chars[from..to]`.
pub fn string_from(chars: &Vec<char>, from: usize, to: usize) -> (r: String)
    requires
        from <= to <= chars.len(),
    ensures
        r@ == chars@.subrange(from as int, to as int),
{
    let mut r = String::new();
    let mut i: usize = from;
    while i < to
        invariant
            from <= i <= to <= chars.len(),
            r@ == chars@.subrange(from as int, i as int),
        decreases to - i,
    {
        r.push(chars[i]);
        assert(chars@.subrange(from as int, i + 1) == chars@.subrange(from as int, i as int).push(chars@[i as int]));
        i = i + 1;
    }
    r
}

/// Whether two strings hold the same characters.
pub fn str_eq(a: &str, b: &str) -> (r: bool)
    ensures
        r == (a@ == b@),
{
    let x = a.as_bytes();
    let y = b.as_bytes();
    proof {
        vstd::utf8::encode_utf8_decode_utf8(a@);
        vstd::utf8::encode_utf8_decode_utf8(b@);
    }
    if x.len() != y.len() {
        return false;
    }
    let mut i: usize = 0;
    while i < x.len()
        invariant
            x@ == vstd::utf8::encode_utf8(a@),
            y@ == vstd::utf8::encode_utf8(b@),
            x.len() == y.len(),
            i <= x.len(),
            forall|j: int| 0 <= j < i ==> x@[j] == y@[j],
        decreases x.len() - i,
    {
        if x[i] != y[i] {
            return false;
        }
        i = i + 1;
    }
    assert(x@ == y@);
    true
}

/// Decimal digits of a number, without leading zeros.
pub open spec fn decimal(n: nat) -> Chars
    decreases n,
{
    if n < 10 {
        seq![digit(n)]
    } else {
        decimal(n / 10).push(digit(n % 10))
    }
}

/// The character that stands for a number below ten.
pub open spec fn digit(n: nat) -> char {
    ('0' as nat + n) as char
}

fn digit_char(n: u64) -> (r: char)
    requires
        n < 10,
    ensures
        r == digit(n as nat),
{
    (48u8 + n as u8) as char
}

/// The number written in decimal.
pub fn u64_text(n: u64) -> (r: String)
    ensures
        r@ == decimal(n as nat),
    decreases n,
{
    if n < 10 {
        let mut r = String::new();
        r.push(digit_char(n));
        assert(r@ == seq![digit(n as nat)]);
        r
    } else {
        let mut r = u64_text(n / 10);
        r.push(digit_char(n % 10));
        r
    }
}

/// Whether `s` begins with `prefix`.
pub fn starts_with(s: &str, prefix: &str) -> (r: bool)
    ensures
        r == prefix@.is_prefix_of(s@),
{
    let a = chars_of(s);
    let b = chars_of(prefix);
    if b.len() > a.len() {
        return false;
    }
    matches_at(&a, 0, &b)
}

/// Whether `s` ends with `suffix`.
pub fn ends_with(s: &str, suffix: &str) -> (r: bool)
    ensures
        r == suffix@.is_suffix_of(s@),
{
    let a = chars_of(s);
    let b = chars_of(suffix);
    if b.len() > a.len() {
        return false;
    }
    matches_at(&a, a.len() - b.len(), &b)
}

/// Whether `needle` stands in `hay` at position `at`.
pub open spec fn occurs_at(hay: Chars, needle: Chars, at: int) -> bool {
    0 <= at && at + needle.len() <= hay.len() && hay.subrange(at, at + needle.len()) == needle
}

/// Whether `needle` stands anywhere in `hay`.
pub open spec fn occurs(hay: Chars, needle: Chars) -> bool {
    exists|at: int| occurs_at(hay, needle, at)
}

/// Whether `needle` stands in `hay` at position `at`.
pub fn matches_at(hay: &Vec<char>, at: usize, needle: &Vec<char>) -> (r: bool)
    requires
        at + needle.len() <= hay.len(),
    ensures
        r == occurs_at(hay@, needle@, at as int),
{
    let mut i: usize = 0;
    while i < needle.len()
        invariant
            i <= needle.len(),
            at + needle.len() <= hay.len(),
            forall|j: int| 0 <= j < i ==> hay@[at + j] == needle@[j],
        decreases needle.len() - i,
    {
        if hay[at + i] != needle[i] {
            assert(hay@.subrange(at as int, at + needle.len())[i as int] != needle@[i as int]);
            return false;
        }
        i = i + 1;
    }
    assert(hay@.subrange(at as int, at + needle.len()) == needle@);
    true
}

/// Whether `needle` stands anywhere in `hay`.
pub fn contains(hay: &str, needle: &str) -> (r: bool)
    ensures
        r == occurs(hay@, needle@),
{
    let a = chars_of(hay);
    let b = chars_of(needle);
    if b.len() > a.len() {
        return false;
    }
    let last: usize = a.len() - b.len();
    let mut at: usize = 0;
    while at <= last
        invariant
            a@ == hay@,
            b@ == needle@,
            last == a.len() - b.len(),
            at <= last + 1,
            forall|j: int| 0 <= j < at ==> !occurs_at(hay@, needle@, j),
        decreases last + 1 - at,
    {
        if matches_at(&a, at, &b) {
            return true;
        }
        if at == last {
            return false;
        }
        at = at + 1;
    }
    false
}

/// Number of bytes of a character in UTF-8.
pub open spec fn utf8_width(c: char) -> nat {
    let code = c as u32;
    if code <= 0x7F {
        1
    } else if code <= 0x7FF {
        2
    } else if code <= 0xFFFF {
        3
    } else {
        4
    }
}

/// Number of UTF-16 code units of a character.
pub open spec fn utf16_width(c: char) -> nat {
    if c as u32 <= 0xFFFF {
        1
    } else {
        2
    }
}

/// Length of a text in bytes of UTF-8.
pub open spec fn utf8_len(s: Chars) -> nat
    decreases s.len(),
{
    if s.len() == 0 {
        0
    } else {
        utf8_len(s.drop_last()) + utf8_width(s.last())
    }
}

/// Length of a text in UTF-16 code units.
pub open spec fn utf16_len(s: Chars) -> nat
    decreases s.len(),
{
    if s.len() == 0 {
        0
    } else {
        utf16_len(s.drop_last()) + utf16_width(s.last())
    }
}

/// Lengths add up when texts are joined.
pub proof fn lemma_len_add(a: Chars, b: Chars)
    ensures
        utf8_len(a + b) == utf8_len(a) + utf8_len(b),
        utf16_len(a + b) == utf16_len(a) + utf16_len(b),
    decreases b.len(),
{
    if b.len() == 0 {
        assert(a + b == a);
    } else {
        lemma_len_add(a, b.drop_last());
        assert((a + b).drop_last() == a + b.drop_last());
        assert((a + b).last() == b.last());
    }
}

/// The length in bytes is that of the UTF-8 encoding.
pub proof fn lemma_utf8_len(s: Chars)
    ensures
        utf8_len(s) == vstd::utf8::encode_utf8(s).len(),
    decreases s.len(),
{
    if s.len() > 0 {
        let first = s.take(1);
        let rest = s.drop_first();
        lemma_utf8_len(rest);
        lemma_len_add(first, rest);
        assert(first + rest == s);
        assert(first.drop_last() == Seq::<char>::empty());
        assert(utf8_len(first) == utf8_width(s[0])) by {
            assert(first.last() == s[0]);
            assert(utf8_len(first.drop_last()) == 0);
        }
        vstd::utf8::char_is_scalar(s[0]);
    }
}

/// A text never has more UTF-16 code units than bytes, nor more characters
/// than UTF-16 code units.
pub proof fn lemma_len_bounds(s: Chars)
    ensures
        s.len() <= utf16_len(s) <= utf8_len(s),
    decreases s.len(),
{
    if s.len() > 0 {
        lemma_len_bounds(s.drop_last());
    }
}

/// A character is at most four bytes.
pub proof fn lemma_len_max(s: Chars)
    ensures
        utf8_len(s) <= 4 * s.len(),
    decreases s.len(),
{
    if s.len() > 0 {
        lemma_len_max(s.drop_last());
    }
}

/// A part of a text is no longer than the text.
pub proof fn lemma_len_part(s: Chars, from: int, to: int)
    requires
        0 <= from <= to <= s.len(),
    ensures
        utf8_len(s.take(from)) + utf8_len(s.subrange(from, to)) == utf8_len(s.take(to)),
        utf16_len(s.take(from)) + utf16_len(s.subrange(from, to)) == utf16_len(s.take(to)),
        utf8_len(s.take(to)) <= utf8_len(s),
        utf16_len(s.take(to)) <= utf16_len(s),
{
    lemma_len_add(s.take(from), s.subrange(from, to));
    assert(s.take(from) + s.subrange(from, to) == s.take(to));
    lemma_len_add(s.take(to), s.skip(to));
    assert(s.take(to) + s.skip(to) == s);
}

/// The length grows by the width of the character that is appended.
pub proof fn lemma_len_step(s: Chars, i: int)
    requires
        0 <= i < s.len(),
    ensures
        utf8_len(s.take(i + 1)) == utf8_len(s.take(i)) + utf8_width(s[i]),
        utf16_len(s.take(i + 1)) == utf16_len(s.take(i)) + utf16_width(s[i]),
{
    assert(s.take(i + 1).drop_last() == s.take(i));
    assert(s.take(i + 1).last() == s[i]);
}

/// Every length of an existing string is a machine number.
pub fn byte_len(s: &str) -> (r: usize)
    ensures
        r == utf8_len(s@),
        s@.len() <= utf16_len(s@) <= utf8_len(s@),
{
    proof {
        lemma_utf8_len(s@);
        lemma_len_bounds(s@);
    }
    s.as_bytes().len()
}

/// Number of bytes of a character in UTF-8.
pub fn char_bytes(c: char) -> (r: usize)
    ensures
        r == utf8_width(c),
{
    let code: u32 = c as u32;
    if code <= 0x7F {
        1
    } else if code <= 0x7FF {
        2
    } else if code <= 0xFFFF {
        3
    } else {
        4
    }
}

/// Number of UTF-16 code units of a character.
pub fn char_units(c: char) -> (r: usize)
    ensures
        r == utf16_width(c),
{
    if c as u32 <= 0xFFFF {
        1
    } else {
        2
    }
}

/// Number of UTF-16 code units of a string.
pub fn unit_len(s: &str) -> (r: usize)
    ensures
        r == utf16_len(s@),
{
    let _bound = byte_len(s);
    let chars = chars_of(s);
    let mut r: usize = 0;
    let mut i: usize = 0;
    assert(s@.take(0) == Seq::<char>::empty());
    while i < chars.len()
        invariant
            chars@ == s@,
            i <= chars.len(),
            r == utf16_len(s@.take(i as int)),
            utf16_len(s@) <= usize::MAX,
        decreases chars.len() - i,
    {
        proof {
            lemma_len_step(s@, i as int);
            lemma_len_part(s@, i as int, i + 1);
        }
        r = r + char_units(chars[i]);
        i = i + 1;
    }
    assert(s@.take(i as int) == s@);
    r
}

/// The order of strings: by the first character in which they differ.
pub open spec fn text_lt(a: Chars, b: Chars) -> bool
    decreases a.len(),
{
    if b.len() == 0 {
        false
    } else if a.len() == 0 {
        true
    } else if a[0] != b[0] {
        (a[0] as u32) < (b[0] as u32)
    } else {
        text_lt(a.skip(1), b.skip(1))
    }
}

/// Whether `a` comes before `b`.
pub fn str_lt(a: &str, b: &str) -> (r: bool)
    ensures
        r == text_lt(a@, b@),
{
    let x = chars_of(a);
    let y = chars_of(b);
    let mut i: usize = 0;
    assert(x@.skip(0) == x@);
    assert(y@.skip(0) == y@);
    while i < x.len() && i < y.len() && x[i] == y[i]
        invariant
            x@ == a@,
            y@ == b@,
            i <= x.len(),
            i <= y.len(),
            text_lt(a@, b@) == text_lt(x@.skip(i as int), y@.skip(i as int)),
        decreases x.len() - i,
    {
        assert(x@.skip(i as int).skip(1) == x@.skip(i + 1));
        assert(y@.skip(i as int).skip(1) == y@.skip(i + 1));
        i = i + 1;
    }
    if i >= y.len() {
        false
    } else if i >= x.len() {
        true
    } else {
        (x[i] as u32) < (y[i] as u32)
    }
}

/// Where `x` goes into `order`, a list of positions that is sorted by key:
/// behind every entry whose key is not greater than its own.
pub open spec fn insert_order(order: Seq<int>, keys: Seq<Chars>, x: int) -> Seq<int>
    decreases order.len(),
{
    if order.len() == 0 || !text_lt(keys[x], keys[order.last()]) {
        order.push(x)
    } else {
        insert_order(order.drop_last(), keys, x).push(order.last())
    }
}

/// The positions of `keys` in ascending order of key; positions of equal keys
/// keep their order.
pub open spec fn stable_order(keys: Seq<Chars>) -> Seq<int>
    decreases keys.len(),
{
    if keys.len() == 0 {
        Seq::empty()
    } else {
        insert_order(stable_order(keys.drop_last()), keys, keys.len() - 1)
    }
}

/// The items in the order of their keys, equal keys in the order given.
pub open spec fn sorted_by<T>(items: Seq<T>, keys: Seq<Chars>) -> Seq<T> {
    stable_order(keys).map_values(|i: int| items[i])
}

proof fn lemma_insert_order_keys(order: Seq<int>, keys: Seq<Chars>, more: Seq<Chars>, x: int)
    requires
        keys.len() <= more.len(),
        forall|i: int| 0 <= i < keys.len() ==> keys[i] == more[i],
        0 <= x < keys.len(),
        forall|i: int| 0 <= i < order.len() ==> 0 <= #[trigger] order[i] < keys.len(),
    ensures
        insert_order(order, keys, x) == insert_order(order, more, x),
    decreases order.len(),
{
    if order.len() > 0 {
        assert(0 <= order[order.len() - 1] < keys.len());
        assert forall|i: int| 0 <= i < order.drop_last().len() implies 0
            <= #[trigger] order.drop_last()[i] < keys.len() by {
            assert(order.drop_last()[i] == order[i]);
        }
        lemma_insert_order_keys(order.drop_last(), keys, more, x);
    }
}

proof fn lemma_insert_order_range(order: Seq<int>, keys: Seq<Chars>, x: int, bound: int)
    requires
        0 <= x < bound,
        forall|i: int| 0 <= i < order.len() ==> 0 <= #[trigger] order[i] < bound,
    ensures
        insert_order(order, keys, x).len() == order.len() + 1,
        forall|i: int|
            0 <= i <= order.len() ==> 0 <= #[trigger] insert_order(order, keys, x)[i] < bound,
    decreases order.len(),
{
    if order.len() > 0 && text_lt(keys[x], keys[order.last()]) {
        assert forall|i: int| 0 <= i < order.drop_last().len() implies 0
            <= #[trigger] order.drop_last()[i] < bound by {
            assert(order.drop_last()[i] == order[i]);
        }
        lemma_insert_order_range(order.drop_last(), keys, x, bound);
        assert(0 <= order[order.len() - 1] < bound);
    }
}

/// A stable order has one entry per key, and every entry is a position.
pub proof fn lemma_stable_order_range(keys: Seq<Chars>)
    ensures
        stable_order(keys).len() == keys.len(),
        forall|i: int| 0 <= i < keys.len() ==> 0 <= #[trigger] stable_order(keys)[i] < keys.len(),
    decreases keys.len(),
{
    if keys.len() > 0 {
        lemma_stable_order_range(keys.drop_last());
        lemma_insert_order_range(
            stable_order(keys.drop_last()),
            keys,
            keys.len() - 1,
            keys.len() as int,
        );
    }
}

/// The positions of `keys` in ascending order of key.
pub fn sort_order(keys: &Vec<String>) -> (r: Vec<usize>)
    ensures
        r@.map_values(|i: usize| i as int) == stable_order(keys.deep_view()),
        r.len() == keys.len(),
        forall|i: int| 0 <= i < r.len() ==> (#[trigger] r@[i]) < keys.len(),
{
    let ghost k = keys.deep_view();
    let ghost f = |i: usize| i as int;
    let mut order: Vec<usize> = Vec::new();
    let mut n: usize = 0;
    assert(order@.map_values(f) == stable_order(k.take(0)));
    while n < keys.len()
        invariant
            k == keys.deep_view(),
            f == (|i: usize| i as int),
            n == order.len() <= keys.len(),
            order@.map_values(f) == stable_order(k.take(n as int)),
            forall|i: int| 0 <= i < n ==> (#[trigger] order@[i]) < n,
        decreases keys.len() - n,
    {
        let ghost start = order@;
        let mut at: usize = n;
        proof {
            assert(start.take(n as int) == start);
            let whole = insert_order(start.map_values(f), k, n as int);
            assert(whole + start.skip(n as int).map_values(f) == whole);
        }
        // The entries from `at` on come behind the new one.
        while at > 0 && str_lt(keys[n].as_str(), keys[order[at - 1]].as_str())
            invariant
                k == keys.deep_view(),
                f == (|i: usize| i as int),
                at <= n == order.len() < keys.len(),
                order@ == start,
                forall|i: int| 0 <= i < n ==> (#[trigger] order@[i]) < n,
                insert_order(start.map_values(f), k, n as int) == insert_order(
                    start.take(at as int).map_values(f),
                    k,
                    n as int,
                ) + start.skip(at as int).map_values(f),
            decreases at,
        {
            proof {
                let a = start.take(at as int).map_values(f);
                assert(a.last() == start[at - 1] as int);
                assert(a.drop_last() == start.take(at - 1).map_values(f));
                assert(start.skip(at - 1).map_values(f) == seq![a.last()] + start.skip(
                    at as int,
                ).map_values(f));
                let inner = insert_order(a.drop_last(), k, n as int);
                assert(inner.push(a.last()) + start.skip(at as int).map_values(f) == inner + (
                seq![a.last()] + start.skip(at as int).map_values(f)));
            }
            at = at - 1;
        }
        proof {
            let a = start.take(at as int).map_values(f);
            if at > 0 {
                assert(a.last() == start[at - 1] as int);
            }
            assert(insert_order(a, k, n as int) == a.push(n as int));
            assert(start.insert(at as int, n).map_values(f) == a.push(n as int) + start.skip(
                at as int,
            ).map_values(f));
        }
        order.insert(at, n);
        proof {
            let t = k.take(n + 1);
            assert(t.drop_last() == k.take(n as int));
            lemma_stable_order_range(k.take(n as int));
            assert forall|i: int| 0 <= i < start.map_values(f).len() implies 0
                <= #[trigger] start.map_values(f)[i] < t.len() by {
                assert(start[i] < n);
            }
            lemma_insert_order_keys(start.map_values(f), t, k, n as int);
        }
        n = n + 1;
    }
    assert(k.take(n as int) == k);
    order
}

/// Model of a result whose error is a message.
pub open spec fn outcome<T: DeepView>(r: Result<T, String>) -> Result<T::V, Chars> {
    match r {
        Ok(value) => Ok(value.deep_view()),
        Err(message) => Err(message@),
    }
}

/// Texts one behind the other, with a separator between them.
pub open spec fn joined(parts: Seq<Chars>, separator: Chars) -> Chars
    decreases parts.len(),
{
    if parts.len() == 0 {
        Seq::empty()
    } else if parts.len() == 1 {
        parts[0]
    } else {
        joined(parts.drop_last(), separator) + separator + parts.last()
    }
}

/// Puts texts one behind the other, with a separator between them.
pub fn join(parts: &Vec<String>, separator: &str) -> (r: String)
    ensures
        r@ == joined(parts.deep_view(), separator@),
{
    let ghost all = parts.deep_view();
    let mut text = String::new();
    assert(text@ =~= Seq::<char>::empty());
    let mut i: usize = 0;
    while i < parts.len()
        invariant
            all == parts.deep_view(),
            i <= parts.len(),
            text@ == joined(all.take(i as int), separator@),
        decreases parts.len() - i,
    {
        assert(all.take(i + 1).drop_last() == all.take(i as int));
        assert(all.take(i + 1).last() == parts@[i as int]@);
        if i == 0 {
            text = parts[i].clone();
        } else {
            text = text.concat(separator).concat(parts[i].as_str());
        }
        i = i + 1;
    }
    assert(all.take(i as int) == all);
    text
}

} // verus!
