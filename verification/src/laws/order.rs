//! Sorting yields a stable, ascending rearrangement; identifiers differ.

use vstd::prelude::*;

use crate::events;
use crate::probe_set;
use crate::text;
use crate::text::Chars;

verus! {

/// Strings are ordered totally: no string comes before itself, and of two
/// different strings exactly one comes before the other.
pub proof fn law_text_order_is_total(a: Chars, b: Chars)
    ensures
        !text::text_lt(a, a),
        text::text_lt(a, b) ==> !text::text_lt(b, a),
        a != b ==> text::text_lt(a, b) || text::text_lt(b, a),
    decreases a.len() + b.len(),
{
    if a.len() > 0 {
        if b.len() > 0 {
            law_text_order_is_total(a.skip(1), b.skip(1));
            if a[0] == b[0] && a.skip(1) == b.skip(1) {
                assert(a =~= seq![a[0]] + a.skip(1));
                assert(b =~= seq![b[0]] + b.skip(1));
                assert(a == b);
            }
            lemma_codes_differ(a[0], b[0]);
        } else {
            law_text_order_is_total(a.skip(1), b);
        }
    } else if b.len() == 0 {
        assert(a =~= b);
    }
    lemma_irreflexive(a);
}

proof fn lemma_codes_differ(x: char, y: char)
    ensures
        x != y ==> (x as u32) != (y as u32),
{
}

proof fn lemma_irreflexive(a: Chars)
    ensures
        !text::text_lt(a, a),
    decreases a.len(),
{
    if a.len() > 0 {
        lemma_irreflexive(a.skip(1));
    }
}

/// What comes before a string that comes before a third comes before the third.
pub proof fn law_text_order_is_transitive(a: Chars, b: Chars, c: Chars)
    requires
        text::text_lt(a, b),
        text::text_lt(b, c),
    ensures
        text::text_lt(a, c),
    decreases b.len(),
{
    if a.len() > 0 && b.len() > 0 && c.len() > 0 && a[0] == b[0] && b[0] == c[0] {
        law_text_order_is_transitive(a.skip(1), b.skip(1), c.skip(1));
    }
}

/// Whether position `i` stands before position `j` in a stable sort: its key is
/// smaller, or the keys are equal and it came first.
pub open spec fn precedes(keys: Seq<Chars>, i: int, j: int) -> bool {
    text::text_lt(keys[i], keys[j]) || (keys[i] == keys[j] && i < j)
}

proof fn lemma_precedes_transitive(keys: Seq<Chars>, i: int, j: int, k: int)
    requires
        precedes(keys, i, j),
        precedes(keys, j, k),
    ensures
        precedes(keys, i, k),
{
    if text::text_lt(keys[i], keys[j]) && text::text_lt(keys[j], keys[k]) {
        law_text_order_is_transitive(keys[i], keys[j], keys[k]);
    }
}

proof fn lemma_insert_elements(order: Seq<int>, keys: Seq<Chars>, x: int)
    ensures
        text::insert_order(order, keys, x).len() == order.len() + 1,
        forall|v: int|
            #[trigger] text::insert_order(order, keys, x).contains(v) <==> order.contains(v) || v
                == x,
    decreases order.len(),
{
    let whole = text::insert_order(order, keys, x);
    if order.len() == 0 || !text::text_lt(keys[x], keys[order.last()]) {
        assert(whole == order.push(x));
        assert forall|v: int| #[trigger] whole.contains(v) <==> order.contains(v) || v == x by {
            assert(whole[order.len() as int] == x);
            if order.contains(v) {
                let i = order.index_of(v);
                assert(whole[i] == v);
            }
        }
    } else {
        let rest = order.drop_last();
        let part = text::insert_order(rest, keys, x);
        lemma_insert_elements(rest, keys, x);
        assert(whole == part.push(order.last()));
        assert forall|v: int| #[trigger] whole.contains(v) <==> order.contains(v) || v == x by {
            assert(whole[part.len() as int] == order.last());
            if whole.contains(v) {
                let i = whole.index_of(v);
                if i < part.len() {
                    assert(part[i] == v);
                    assert(part.contains(v));
                    if rest.contains(v) {
                        assert(order[rest.index_of(v)] == v);
                    }
                } else {
                    assert(order[order.len() - 1] == v);
                }
            }
            if order.contains(v) {
                let i = order.index_of(v);
                if i < rest.len() {
                    assert(rest[i] == v);
                    assert(part.contains(v));
                    assert(whole[part.index_of(v)] == v);
                }
            }
            if v == x {
                assert(part.contains(v));
                assert(whole[part.index_of(v)] == v);
            }
        }
    }
}

proof fn lemma_insert_ordered(order: Seq<int>, keys: Seq<Chars>, x: int)
    requires
        forall|i: int, j: int| 0 <= i < j < order.len() ==> precedes(keys, order[i], order[j]),
        forall|i: int| 0 <= i < order.len() ==> #[trigger] order[i] < x,
    ensures
        forall|i: int, j: int|
            0 <= i < j < order.len() + 1 ==> precedes(
                keys,
                text::insert_order(order, keys, x)[i],
                text::insert_order(order, keys, x)[j],
            ),
    decreases order.len(),
{
    let whole = text::insert_order(order, keys, x);
    if order.len() == 0 {
    } else if !text::text_lt(keys[x], keys[order.last()]) {
        law_text_order_is_total(keys[x], keys[order.last()]);
        assert(precedes(keys, order.last(), x));
        assert forall|i: int, j: int| 0 <= i < j < order.len() + 1 implies precedes(
            keys,
            whole[i],
            whole[j],
        ) by {
            if j == order.len() && i < order.len() - 1 {
                assert(precedes(keys, order[i], order[order.len() - 1]));
                lemma_precedes_transitive(keys, order[i], order.last(), x);
            }
        }
    } else {
        let rest = order.drop_last();
        let part = text::insert_order(rest, keys, x);
        lemma_insert_ordered(rest, keys, x);
        lemma_insert_elements(rest, keys, x);
        assert forall|i: int, j: int| 0 <= i < j < order.len() + 1 implies precedes(
            keys,
            whole[i],
            whole[j],
        ) by {
            if j == order.len() {
                assert(part.contains(part[i]));
                if part[i] != x {
                    let k = rest.index_of(part[i]);
                    assert(precedes(keys, order[k], order[order.len() - 1]));
                }
            } else {
                assert(whole[i] == part[i] && whole[j] == part[j]);
            }
        }
    }
}

/// A sort takes every position exactly once and puts the positions in the order
/// of their keys; positions of equal keys keep their order.
pub proof fn law_sort_is_a_stable_rearrangement(keys: Seq<Chars>)
    ensures
        text::stable_order(keys).len() == keys.len(),
        forall|v: int| #[trigger] text::stable_order(keys).contains(v) <==> 0 <= v < keys.len(),
        forall|i: int, j: int|
            0 <= i < j < keys.len() ==> precedes(
                keys,
                text::stable_order(keys)[i],
                text::stable_order(keys)[j],
            ),
    decreases keys.len(),
{
    if keys.len() > 0 {
        let rest = keys.drop_last();
        let order = text::stable_order(rest);
        law_sort_is_a_stable_rearrangement(rest);
        text::lemma_stable_order_range(rest);
        assert forall|i: int, j: int| 0 <= i < j < order.len() implies precedes(
            keys,
            order[i],
            order[j],
        ) by {
            assert(precedes(rest, order[i], order[j]));
        }
        lemma_insert_ordered(order, keys, keys.len() - 1);
        lemma_insert_elements(order, keys, keys.len() - 1);
    }
}

/// A sorted list ascends by key.
pub proof fn law_sorted_ascends<T>(items: Seq<T>, keys: Seq<Chars>, key: spec_fn(T) -> Chars)
    requires
        items.len() == keys.len(),
        forall|i: int| 0 <= i < items.len() ==> key(items[i]) == #[trigger] keys[i],
    ensures
        text::sorted_by(items, keys).len() == items.len(),
        forall|i: int, j: int|
            0 <= i < j < items.len() ==> !text::text_lt(
                key(#[trigger] text::sorted_by(items, keys)[j]),
                key(#[trigger] text::sorted_by(items, keys)[i]),
            ),
        forall|i: int|
            0 <= i < items.len() ==> items.contains(#[trigger] text::sorted_by(items, keys)[i]),
        forall|i: int|
            0 <= i < items.len() ==> text::sorted_by(items, keys).contains(#[trigger] items[i]),
{
    let order = text::stable_order(keys);
    let sorted = text::sorted_by(items, keys);
    law_sort_is_a_stable_rearrangement(keys);
    text::lemma_stable_order_range(keys);
    assert forall|i: int, j: int| 0 <= i < j < items.len() implies !text::text_lt(
        key(#[trigger] sorted[j]),
        key(#[trigger] sorted[i]),
    ) by {
        assert(precedes(keys, order[i], order[j]));
        assert(key(items[order[i]]) == keys[order[i]]);
        assert(key(items[order[j]]) == keys[order[j]]);
        law_text_order_is_total(keys[order[i]], keys[order[j]]);
        law_text_order_is_total(keys[order[j]], keys[order[i]]);
    }
    assert forall|i: int| 0 <= i < items.len() implies sorted.contains(#[trigger] items[i]) by {
        assert(order.contains(i));
        let p = order.index_of(i);
        assert(sorted[p] == items[i]);
    }
}

/// Whether texts ascend strictly.
pub open spec fn ascending(list: Seq<Chars>) -> bool {
    forall|i: int, j: int|
        #![trigger list[i], list[j]]
        0 <= i < j < list.len() ==> text::text_lt(list[i], list[j])
}

proof fn lemma_without_repeats(list: Seq<Chars>)
    requires
        forall|i: int, j: int|
            #![trigger list[i], list[j]]
            0 <= i < j < list.len() ==> !text::text_lt(list[j], list[i]),
    ensures
        ascending(events::without_repeats(list)),
        list.len() > 0 ==> events::without_repeats(list).len() > 0
            && events::without_repeats(list).last() == list.last(),
        forall|x: Chars| #[trigger]
            events::without_repeats(list).contains(x) <==> list.contains(x),
    decreases list.len(),
{
    if list.len() > 0 {
        let before = list.drop_last();
        let rest = events::without_repeats(before);
        let whole = events::without_repeats(list);
        lemma_without_repeats(before);
        if !(rest.len() > 0 && rest.last() == list.last()) {
            assert forall|i: int, j: int|
                #![trigger whole[i], whole[j]]
                0 <= i < j < whole.len() implies text::text_lt(whole[i], whole[j]) by {
                if j == rest.len() {
                    let last = list.last();
                    assert(before.last() == list[list.len() - 2]);
                    assert(!text::text_lt(list[list.len() - 1], list[list.len() - 2]));
                    law_text_order_is_total(rest.last(), last);
                    if i < rest.len() - 1 {
                        assert(text::text_lt(rest[i], rest[rest.len() - 1]));
                        law_text_order_is_transitive(rest[i], rest.last(), last);
                    }
                } else {
                    assert(text::text_lt(rest[i], rest[j]));
                }
            }
        }
        assert forall|x: Chars| #[trigger] whole.contains(x) <==> list.contains(x) by {
            if whole.contains(x) {
                let i = whole.index_of(x);
                if i < rest.len() {
                    assert(rest[i] == x);
                    assert(rest.contains(x));
                    assert(list[before.index_of(x)] == x);
                } else {
                    assert(list[list.len() - 1] == x);
                }
            }
            if list.contains(x) {
                let i = list.index_of(x);
                if i < before.len() {
                    assert(before[i] == x);
                    assert(rest.contains(x));
                    assert(whole[rest.index_of(x)] == x);
                } else {
                    assert(whole[whole.len() - 1] == x);
                }
            }
        }
    }
}

/// A list that is sorted without repeats ascends strictly and holds what the
/// list holds.
pub proof fn law_sorted_lists_without_repeats(list: Seq<Chars>)
    ensures
        ascending(events::sorted_unique(list)),
        forall|x: Chars| #[trigger] events::sorted_unique(list).contains(x) <==> list.contains(x),
{
    let key = |x: Chars| x;
    let sorted = text::sorted_by(list, list);
    law_sorted_ascends(list, list, key);
    assert forall|i: int, j: int|
        #![trigger sorted[i], sorted[j]]
        0 <= i < j < sorted.len() implies !text::text_lt(sorted[j], sorted[i]) by {
        assert(!text::text_lt(key(sorted[j]), key(sorted[i])));
    }
    lemma_without_repeats(sorted);
    assert forall|x: Chars| #[trigger] events::sorted_unique(list).contains(
        x,
    ) <==> list.contains(x) by {
        if sorted.contains(x) {
            assert(list.contains(sorted[sorted.index_of(x)]));
        }
        if list.contains(x) {
            assert(sorted.contains(list[list.index_of(x)]));
        }
    }
}

proof fn lemma_decimal_digits(n: nat)
    ensures
        text::decimal(n).len() >= 1,
        n >= 10 ==> text::decimal(n).len() >= 2,
        forall|i: int|
            0 <= i < text::decimal(n).len() ==> '0' <= #[trigger] text::decimal(n)[i] <= '9',
    decreases n,
{
    if n >= 10 {
        lemma_decimal_digits(n / 10);
    }
}

/// Different numbers have different digits.
pub proof fn law_decimals_differ(m: nat, n: nat)
    requires
        m != n,
    ensures
        text::decimal(m) != text::decimal(n),
    decreases m + n,
{
    lemma_decimal_digits(m);
    lemma_decimal_digits(n);
    if m < 10 && n < 10 {
        assert(text::decimal(m)[0] == text::digit(m));
        assert(text::decimal(n)[0] == text::digit(n));
    } else if m >= 10 && n >= 10 && text::decimal(m) == text::decimal(n) {
        let a = text::decimal(m);
        let b = text::decimal(n);
        assert(a.drop_last() == text::decimal(m / 10));
        assert(b.drop_last() == text::decimal(n / 10));
        assert(a.last() == text::digit(m % 10));
        assert(b.last() == text::digit(n % 10));
        if m / 10 != n / 10 {
            law_decimals_differ(m / 10, n / 10);
        }
    }
}

/// Identifiers that are made of different numbers differ, and so do those of
/// different connections.
pub proof fn law_identifiers_differ(prefix: Chars, g: u64, m: u64, h: u64, n: u64)
    requires
        g != h || m != n,
    ensures
        probe_set::numbered(prefix, g, m) != probe_set::numbered(prefix, h, n),
{
    let a = text::decimal(g as nat);
    let b = text::decimal(h as nat);
    let c = text::decimal(m as nat);
    let d = text::decimal(n as nat);
    let x = probe_set::numbered(prefix, g, m);
    let y = probe_set::numbered(prefix, h, n);
    reveal_strlit("-");
    lemma_decimal_digits(g as nat);
    lemma_decimal_digits(h as nat);
    if x == y {
        let p = prefix.len() as int;
        assert(x[p + a.len()] == '-');
        assert(y[p + b.len()] == '-');
        if a.len() < b.len() {
            assert(y[p + a.len()] == b[a.len() as int]);
        } else if b.len() < a.len() {
            assert(x[p + b.len()] == a[b.len() as int]);
        }
        assert(a =~= x.subrange(p, p + a.len()));
        assert(b =~= y.subrange(p, p + b.len()));
        assert(c =~= x.subrange(p + a.len() + 1, x.len() as int));
        assert(d =~= y.subrange(p + b.len() + 1, y.len() as int));
        if g != h {
            law_decimals_differ(g as nat, h as nat);
        } else {
            law_decimals_differ(m as nat, n as nat);
        }
    }
}

} // verus!
