//! How tables answer after a change.

use vstd::prelude::*;

use crate::collections;
use crate::text::Chars;

verus! {

/// No key has two entries.
pub open spec fn distinct<W>(table: Seq<(Chars, W)>) -> bool {
    forall|i: int, j: int|
        0 <= i < j < table.len() ==> (#[trigger] table[i]).0 != (#[trigger] table[j]).0
}

/// A filtered list holds what the list holds and the filter lets pass.
pub broadcast proof fn lemma_filter_holds<T>(list: Seq<T>, keep: spec_fn(T) -> bool, x: T)
    ensures
        #[trigger] list.filter(keep).contains(x) <==> list.contains(x) && keep(x),
{
    lemma_filter_members(list, keep);
}

proof fn lemma_filter_members<T>(list: Seq<T>, keep: spec_fn(T) -> bool)
    ensures
        forall|x: T| #[trigger] list.filter(keep).contains(x) <==> list.contains(x) && keep(x),
    decreases list.len(),
{
    reveal(Seq::filter);
    if list.len() > 0 {
        let rest = list.drop_last();
        lemma_filter_members(rest, keep);
        assert(list == rest.push(list.last()));
        assert forall|x: T| #[trigger] list.filter(keep).contains(x) <==> list.contains(x)
            && keep(x) by {
            let part = rest.filter(keep);
            if list.contains(x) && keep(x) {
                let i = list.index_of(x);
                if i < rest.len() {
                    assert(rest[i] == x);
                    assert(part.contains(x));
                    let j = part.index_of(x);
                    assert(list.filter(keep)[j] == x);
                } else {
                    assert(list.filter(keep)[part.len() as int] == x);
                }
            }
            if list.filter(keep).contains(x) {
                let i = list.filter(keep).index_of(x);
                if i < part.len() {
                    assert(part[i] == x);
                    assert(part.contains(x));
                    let j = rest.index_of(x);
                    assert(list[j] == x);
                } else {
                    assert(list[list.len() - 1] == x);
                }
            }
        }
    }
}

/// Filtering keeps keys distinct.
pub proof fn lemma_filter_distinct<W>(table: Seq<(Chars, W)>, keep: spec_fn((Chars, W)) -> bool)
    requires
        distinct(table),
    ensures
        distinct(table.filter(keep)),
    decreases table.len(),
{
    reveal(Seq::filter);
    if table.len() > 0 {
        let rest = table.drop_last();
        let part = rest.filter(keep);
        assert forall|i: int, j: int| 0 <= i < j < rest.len() implies (#[trigger] rest[i]).0 != (
        #[trigger] rest[j]).0 by {
            assert(table[i].0 != table[j].0);
        }
        lemma_filter_distinct(rest, keep);
        lemma_filter_members(rest, keep);
        if keep(table.last()) {
            assert forall|i: int, j: int| 0 <= i < j < table.filter(keep).len() implies (
            #[trigger] table.filter(keep)[i]).0 != (#[trigger] table.filter(keep)[j]).0 by {
                if j == part.len() {
                    assert(part.contains(part[i]));
                    let k = rest.index_of(part[i]);
                    assert(table[k].0 != table[table.len() - 1].0);
                } else {
                    assert(part[i].0 != part[j].0);
                }
            }
        }
    }
}

/// A table with distinct keys answers with the entry that it holds.
pub proof fn lemma_lookup_member<W>(table: Seq<(Chars, W)>, key: Chars)
    ensures
        collections::lookup(table, key) is Some ==> table.contains(
            (key, collections::lookup(table, key)->Some_0),
        ),
        forall|v: W|
            #[trigger] table.contains((key, v)) ==> collections::lookup(table, key) is Some,
        distinct(table) ==> forall|v: W| #[trigger]
            table.contains((key, v)) ==> collections::lookup(table, key) == Some(v),
    decreases table.len(),
{
    if table.len() > 0 {
        let rest = table.drop_last();
        lemma_lookup_member(rest, key);
        assert(table == rest.push(table.last()));
        assert(table.last() == (table.last().0, table.last().1));
        if table.last().0 == key {
            assert(table[table.len() - 1] == (key, table.last().1));
        } else if collections::lookup(rest, key) is Some {
            let v = collections::lookup(rest, key)->Some_0;
            let i = rest.index_of((key, v));
            assert(table[i] == (key, v));
        }
        if distinct(table) {
            assert forall|i: int, j: int| 0 <= i < j < rest.len() implies (#[trigger] rest[i]).0
                != (#[trigger] rest[j]).0 by {
                assert(table[i].0 != table[j].0);
            }
        }
        assert forall|v: W| #[trigger] table.contains((key, v)) implies collections::lookup(
            table,
            key,
        ) is Some && (distinct(table) ==> collections::lookup(table, key) == Some(v)) by {
            let i = table.index_of((key, v));
            if i < rest.len() {
                assert(rest[i] == (key, v));
                assert(rest.contains((key, v)));
                if distinct(table) {
                    assert(table[i].0 != table[table.len() - 1].0);
                }
            } else {
                assert(table.last() == (key, v));
            }
        }
    }
}

/// Without a key, a table answers as before for all other keys.
pub proof fn lemma_lookup_del<W>(table: Seq<(Chars, W)>, key: Chars, other: Chars)
    ensures
        collections::lookup(collections::del(table, key), other) == (if other == key {
            None
        } else {
            collections::lookup(table, other)
        }),
    decreases table.len(),
{
    reveal(Seq::filter);
    if table.len() > 0 {
        let rest = table.drop_last();
        lemma_lookup_del(rest, key, other);
        if table.last().0 != key {
            let part = collections::del(rest, key);
            assert(collections::del(table, key) == part.push(table.last()));
            assert(part.push(table.last()).drop_last() == part);
        }
    }
}

/// With an entry put under a key, a table answers as before for all other keys.
pub proof fn lemma_lookup_put<W>(table: Seq<(Chars, W)>, key: Chars, value: W, other: Chars)
    ensures
        collections::lookup(collections::put(table, key, value), other) == (if other == key {
            Some(value)
        } else {
            collections::lookup(table, other)
        }),
{
    lemma_lookup_del(table, key, other);
    let part = collections::del(table, key);
    assert(collections::put(table, key, value).drop_last() == part);
}

proof fn lemma_del_distinct<W>(table: Seq<(Chars, W)>, key: Chars)
    requires
        distinct(table),
    ensures
        distinct(collections::del(table, key)),
        forall|i: int|
            0 <= i < collections::del(table, key).len() ==> (#[trigger] collections::del(
                table,
                key,
            )[i]).0 != key && table.contains(collections::del(table, key)[i]),
    decreases table.len(),
{
    reveal(Seq::filter);
    if table.len() > 0 {
        let rest = table.drop_last();
        let part = collections::del(rest, key);
        let whole = collections::del(table, key);
        assert forall|i: int, j: int| 0 <= i < j < rest.len() implies (#[trigger] rest[i]).0 != (
        #[trigger] rest[j]).0 by {
            assert(table[i].0 != table[j].0);
        }
        lemma_del_distinct(rest, key);
        assert(whole == if table.last().0 != key {
            part.push(table.last())
        } else {
            part
        });
        assert forall|i: int| 0 <= i < whole.len() implies (#[trigger] whole[i]).0 != key
            && table.contains(whole[i]) by {
            if i < part.len() {
                assert(rest.contains(part[i]));
                assert(table[rest.index_of(part[i])] == part[i]);
            } else {
                assert(table[table.len() - 1] == whole[i]);
            }
        }
        assert forall|i: int, j: int| 0 <= i < j < whole.len() implies (#[trigger] whole[i]).0 != (
        #[trigger] whole[j]).0 by {
            if j == part.len() {
                assert(rest.contains(part[i]));
                let k = rest.index_of(part[i]);
                assert(table[k].0 != table[table.len() - 1].0);
            } else {
                assert(part[i].0 != part[j].0);
            }
        }
    }
}

/// Taking out and putting in keep keys distinct.
pub proof fn lemma_changes_distinct<W>(table: Seq<(Chars, W)>, key: Chars, value: W)
    requires
        distinct(table),
    ensures
        distinct(collections::del(table, key)),
        distinct(collections::put(table, key, value)),
{
    let part = collections::del(table, key);
    lemma_del_distinct(table, key);
    assert forall|i: int, j: int| 0 <= i < j < part.len() + 1 implies (
    #[trigger] collections::put(table, key, value)[i]).0 != (
    #[trigger] collections::put(table, key, value)[j]).0 by {
        assert(part[i].0 != key);
        if j < part.len() {
            assert(part[i].0 != part[j].0);
        }
    }
}

/// A filtered table answers with the entries that pass.
pub proof fn lemma_lookup_filter<W>(
    table: Seq<(Chars, W)>,
    keep: spec_fn((Chars, W)) -> bool,
    key: Chars,
)
    requires
        distinct(table),
    ensures
        collections::lookup(table.filter(keep), key) == match collections::lookup(table, key) {
            Some(v) => if keep((key, v)) {
                Some(v)
            } else {
                None
            },
            None => None,
        },
{
    let part = table.filter(keep);
    lemma_filter_distinct(table, keep);
    lemma_filter_members(table, keep);
    lemma_lookup_member(table, key);
    lemma_lookup_member(part, key);
    match collections::lookup(part, key) {
        Some(v) => {
            assert(part.contains((key, v)));
            assert(table.contains((key, v)));
        },
        None => {
            if let Some(v) = collections::lookup(table, key) {
                if keep((key, v)) {
                    assert(part.contains((key, v)));
                }
            }
        },
    }
}

/// A table whose values are changed in place answers with the changed values.
pub proof fn lemma_lookup_map<W>(
    table: Seq<(Chars, W)>,
    f: spec_fn((Chars, W)) -> (Chars, W),
    key: Chars,
)
    requires
        forall|e: (Chars, W)| (#[trigger] f(e)).0 == e.0,
    ensures
        collections::lookup(table.map_values(f), key) == match collections::lookup(table, key) {
            Some(v) => Some(f((key, v)).1),
            None => None,
        },
    decreases table.len(),
{
    if table.len() > 0 {
        let rest = table.drop_last();
        lemma_lookup_map(rest, f, key);
        assert(table.map_values(f).drop_last() == rest.map_values(f));
        assert(table.map_values(f).last() == f(table.last()));
        assert(table.last() == (table.last().0, table.last().1));
    }
}

} // verus!
