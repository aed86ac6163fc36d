//! Tables keyed by text, and sets of texts, in order of insertion.

use vstd::prelude::*;

use crate::text::{str_eq, Chars};

verus! {

/// The value that stands under a key; the latest entry of that key counts.
pub open spec fn lookup<W>(table: Seq<(Chars, W)>, key: Chars) -> Option<W>
    decreases table.len(),
{
    if table.len() == 0 {
        None
    } else if table.last().0 == key {
        Some(table.last().1)
    } else {
        lookup(table.drop_last(), key)
    }
}

/// The table without the entries of a key.
pub open spec fn del<W>(table: Seq<(Chars, W)>, key: Chars) -> Seq<(Chars, W)> {
    table.filter(|e: (Chars, W)| e.0 != key)
}

/// The table with one entry for a key, as its last.
pub open spec fn put<W>(table: Seq<(Chars, W)>, key: Chars, value: W) -> Seq<(Chars, W)> {
    del(table, key).push((key, value))
}

/// The set with one more element.
pub open spec fn set_with(set: Seq<Chars>, x: Chars) -> Seq<Chars> {
    if set.contains(x) {
        set
    } else {
        set.push(x)
    }
}

/// The set without an element.
pub open spec fn set_without(set: Seq<Chars>, x: Chars) -> Seq<Chars> {
    set.filter(|y: Chars| y != x)
}

/// Keys of a table.
pub open spec fn keys<W>(table: Seq<(Chars, W)>) -> Seq<Chars> {
    table.map_values(|e: (Chars, W)| e.0)
}

/// Values of a table.
pub open spec fn values<W>(table: Seq<(Chars, W)>) -> Seq<W> {
    table.map_values(|e: (Chars, W)| e.1)
}

/// A table from text to `V`.
pub struct StrMap<V> {
    pub entries: Vec<(String, V)>,
}

impl<V: DeepView> View for StrMap<V> {
    type V = Seq<(Chars, V::V)>;

    open spec fn view(&self) -> Seq<(Chars, V::V)> {
        self.entries.deep_view()
    }
}

impl<V: DeepView> StrMap<V> {
    /// The empty table.
    pub fn new() -> (r: Self)
        ensures
            r@ == Seq::<(Chars, V::V)>::empty(),
    {
        let entries: Vec<(String, V)> = Vec::new();
        let r = StrMap { entries };
        assert(r@ =~= Seq::<(Chars, V::V)>::empty());
        r
    }

    /// Number of entries.
    pub fn len(&self) -> (r: usize)
        ensures
            r == self@.len(),
    {
        self.entries.len()
    }

    /// Position of the entry of a key.
    pub fn position(&self, key: &str) -> (r: Option<usize>)
        ensures
            match r {
                Some(i) => i < self@.len() && self@[i as int].0 == key@ && lookup(self@, key@)
                    == Some(self@[i as int].1),
                None => lookup(self@, key@) is None,
            },
    {
        let mut i: usize = self.entries.len();
        assert(self@.take(i as int) == self@);
        while i > 0
            invariant
                i <= self.entries.len(),
                lookup(self@, key@) == lookup(self@.take(i as int), key@),
            decreases i,
        {
            i = i - 1;
            assert(self@.take(i + 1).drop_last() == self@.take(i as int));
            assert(self@.take(i + 1).last() == self@[i as int]);
            if str_eq(self.entries[i].0.as_str(), key) {
                return Some(i);
            }
        }
        None
    }

    /// The value of a key.
    pub fn get(&self, key: &str) -> (r: Option<&V>)
        ensures
            r.deep_view() == lookup(self@, key@),
    {
        match self.position(key) {
            Some(i) => Some(&self.entries[i].1),
            None => None,
        }
    }

    /// Whether a key has an entry.
    pub fn contains(&self, key: &str) -> (r: bool)
        ensures
            r == (lookup(self@, key@) is Some),
    {
        self.position(key).is_some()
    }

    /// Takes the entries of a key out and hands its value over.
    pub fn remove(&mut self, key: &str) -> (r: Option<V>)
        ensures
            r.deep_view() == lookup(old(self)@, key@),
            final(self)@ == del(old(self)@, key@),
    {
        let ghost before = self@;
        let ghost keep = |e: (Chars, V::V)| e.0 != key@;
        let mut found: Option<V> = None;
        let mut i: usize = self.entries.len();
        proof {
            assert(before.take(i as int) == before);
            assert(before.skip(i as int).filter(keep) == Seq::<(Chars, V::V)>::empty()) by {
                reveal(Seq::filter);
            }
            assert(self@ == before.take(i as int) + before.skip(i as int).filter(keep));
        }
        while i > 0
            invariant
                keep == (|e: (Chars, V::V)| e.0 != key@),
                i <= before.len(),
                i <= self.entries.len(),
                self@ == before.take(i as int) + before.skip(i as int).filter(keep),
                match found {
                    Some(v) => lookup(before, key@) == Some(v.deep_view()),
                    None => lookup(before, key@) == lookup(before.take(i as int), key@),
                },
            decreases i,
        {
            i = i - 1;
            let ghost all = self@;
            proof {
                assert(before.take(i + 1).drop_last() == before.take(i as int));
                assert(before.take(i + 1).last() == before[i as int]);
                assert(before.skip(i as int) == seq![before[i as int]] + before.skip(i + 1));
                before.skip(i + 1).lemma_filter_prepend(before[i as int], keep);
                assert(all[i as int] == before[i as int]);
            }
            if str_eq(self.entries[i].0.as_str(), key) {
                let entry = self.entries.remove(i);
                assert(self@ =~= all.remove(i as int));
                if found.is_none() {
                    found = Some(entry.1);
                }
            }
            assert(self@ =~= before.take(i as int) + before.skip(i as int).filter(keep));
        }
        assert(before.take(0) == Seq::<(Chars, V::V)>::empty());
        assert(before.skip(0) == before);
        assert(self@ =~= before.filter(keep));
        found
    }

    /// Sets the value of a key.
    pub fn insert(&mut self, key: String, value: V)
        ensures
            final(self)@ == put(old(self)@, key@, value.deep_view()),
    {
        let _ = self.remove(key.as_str());
        let ghost before = self@;
        self.entries.push((key, value));
        assert(self@ =~= before.push((key@, value.deep_view())));
    }

    /// Takes all entries out.
    pub fn clear(&mut self)
        ensures
            final(self)@ == Seq::<(Chars, V::V)>::empty(),
    {
        self.entries.clear();
        assert(self@ =~= Seq::<(Chars, V::V)>::empty());
    }
}

/// The elements that are marked.
pub open spec fn marked<W>(list: Seq<W>, marks: Seq<bool>) -> Seq<W>
    decreases list.len(),
{
    if list.len() == 0 {
        Seq::empty()
    } else if marks[list.len() - 1] {
        marked(list.drop_last(), marks).push(list.last())
    } else {
        marked(list.drop_last(), marks)
    }
}

/// Marks that say of each element whether a predicate holds select what the
/// predicate selects.
pub proof fn lemma_marked<W>(list: Seq<W>, marks: Seq<bool>, keep: spec_fn(W) -> bool)
    requires
        list.len() <= marks.len(),
        forall|i: int| 0 <= i < list.len() ==> marks[i] == keep(#[trigger] list[i]),
    ensures
        marked(list, marks) == list.filter(keep),
    decreases list.len(),
{
    reveal(Seq::filter);
    if list.len() > 0 {
        assert forall|i: int| 0 <= i < list.drop_last().len() implies marks[i] == keep(
            #[trigger] list.drop_last()[i],
        ) by {
            assert(list.drop_last()[i] == list[i]);
        }
        lemma_marked(list.drop_last(), marks, keep);
        assert(marks[list.len() - 1] == keep(list[list.len() - 1]));
    }
}

proof fn lemma_marked_skip<W>(list: Seq<W>, marks: Seq<bool>, i: int)
    requires
        0 <= i < list.len() == marks.len(),
    ensures
        marked(list.skip(i), marks.skip(i)) == (if marks[i] {
            seq![list[i]] + marked(list.skip(i + 1), marks.skip(i + 1))
        } else {
            marked(list.skip(i + 1), marks.skip(i + 1))
        }),
    decreases list.len(),
{
    let n = list.len() as int;
    if i + 1 == n {
        assert(list.skip(i).len() == 1);
        assert(list.skip(i).drop_last() == Seq::<W>::empty());
        assert(list.skip(i + 1) == Seq::<W>::empty());
        assert(marked(list.skip(i).drop_last(), marks.skip(i)) == Seq::<W>::empty());
        assert(marked(list.skip(i), marks.skip(i)) =~= if marks[i] {
            seq![list[i]]
        } else {
            Seq::empty()
        });
    } else {
        let a = list.skip(i);
        let b = list.skip(i + 1);
        lemma_marked_skip(list.drop_last(), marks.drop_last(), i);
        assert(a.drop_last() == list.drop_last().skip(i));
        assert(b.drop_last() == list.drop_last().skip(i + 1));
        lemma_marked_prefix(a.drop_last(), marks.skip(i), marks.drop_last().skip(i));
        lemma_marked_prefix(b.drop_last(), marks.skip(i + 1), marks.drop_last().skip(i + 1));
        assert(a.last() == list.last() && b.last() == list.last());
        if marks[n - 1] && marks[i] {
            assert((seq![list[i]] + marked(b.drop_last(), marks.skip(i + 1))).push(list.last())
                =~= seq![list[i]] + marked(b.drop_last(), marks.skip(i + 1)).push(list.last()));
        }
    }
}

proof fn lemma_marked_prefix<W>(list: Seq<W>, a: Seq<bool>, b: Seq<bool>)
    requires
        list.len() <= a.len(),
        list.len() <= b.len(),
        forall|i: int| 0 <= i < list.len() ==> a[i] == b[i],
    ensures
        marked(list, a) == marked(list, b),
    decreases list.len(),
{
    if list.len() > 0 {
        lemma_marked_prefix(list.drop_last(), a, b);
    }
}

/// Keeps the marked elements of a list.
pub fn keep_marked<T: DeepView>(list: &mut Vec<T>, marks: &Vec<bool>)
    requires
        old(list).len() == marks.len(),
    ensures
        final(list).deep_view() == marked(old(list).deep_view(), marks@),
{
    let ghost all = list.deep_view();
    let mut i: usize = list.len();
    proof {
        assert(marked(all.skip(i as int), marks@.skip(i as int)) =~= Seq::<T::V>::empty());
        assert(list.deep_view() =~= all.take(i as int) + marked(
            all.skip(i as int),
            marks@.skip(i as int),
        ));
    }
    while i > 0
        invariant
            i <= list.len(),
            i <= marks.len() == all.len(),
            list.deep_view() == all.take(i as int) + marked(
                all.skip(i as int),
                marks@.skip(i as int),
            ),
        decreases i,
    {
        i = i - 1;
        let ghost was = list.deep_view();
        proof {
            lemma_marked_skip(all, marks@, i as int);
            assert(was[i as int] == all[i as int]);
        }
        if !marks[i] {
            let _ = list.remove(i);
            assert(list.deep_view() =~= was.remove(i as int));
        }
        assert(list.deep_view() =~= all.take(i as int) + marked(
            all.skip(i as int),
            marks@.skip(i as int),
        ));
    }
    assert(all.skip(0) == all);
    assert(marks@.skip(0) == marks@);
    assert(list.deep_view() =~= marked(all, marks@));
}

/// Whether a set of texts holds an element.
pub fn set_contains(set: &Vec<String>, x: &str) -> (r: bool)
    ensures
        r == set.deep_view().contains(x@),
{
    let mut i: usize = 0;
    while i < set.len()
        invariant
            i <= set.len(),
            forall|j: int| 0 <= j < i ==> set.deep_view()[j] != x@,
        decreases set.len() - i,
    {
        if str_eq(set[i].as_str(), x) {
            assert(set.deep_view()[i as int] == x@);
            return true;
        }
        assert(set.deep_view()[i as int] != x@);
        i = i + 1;
    }
    false
}

/// Adds an element to a set of texts.
pub fn set_insert(set: &mut Vec<String>, x: &str)
    ensures
        final(set).deep_view() == set_with(old(set).deep_view(), x@),
{
    if !set_contains(&*set, x) {
        let ghost before = set.deep_view();
        set.push(x.to_owned());
        assert(set.deep_view() =~= before.push(x@));
    }
}

/// Takes an element out of a set of texts.
pub fn set_remove(set: &mut Vec<String>, x: &str)
    ensures
        final(set).deep_view() == set_without(old(set).deep_view(), x@),
{
    let ghost before = set.deep_view();
    let ghost keep = |y: Chars| y != x@;
    let mut kept: Vec<String> = Vec::new();
    let mut i: usize = 0;
    assert(kept.deep_view() =~= before.take(0).filter(keep)) by {
        reveal(Seq::filter);
    }
    while i < set.len()
        invariant
            keep == (|y: Chars| y != x@),
            before == set.deep_view(),
            i <= set.len(),
            kept.deep_view() == before.take(i as int).filter(keep),
        decreases set.len() - i,
    {
        proof {
            assert(before.take(i + 1) == before.take(i as int).push(before[i as int]));
            before.take(i as int).lemma_filter_push(before[i as int], keep);
        }
        let ghost was = kept.deep_view();
        if !str_eq(set[i].as_str(), x) {
            kept.push(set[i].clone());
            assert(kept.deep_view() =~= was.push(before[i as int]));
        }
        i = i + 1;
    }
    assert(before.take(i as int) == before);
    *set = kept;
}

/// A copy of a list of texts.
pub fn copy_texts(list: &Vec<String>) -> (r: Vec<String>)
    ensures
        r.deep_view() == list.deep_view(),
{
    let mut r: Vec<String> = Vec::new();
    let mut i: usize = 0;
    while i < list.len()
        invariant
            i == r.len() <= list.len(),
            forall|j: int| 0 <= j < i ==> r@[j]@ == list@[j]@,
        decreases list.len() - i,
    {
        r.push(list[i].clone());
        i = i + 1;
    }
    assert(r.deep_view() =~= list.deep_view());
    r
}

/// A copy of an optional text.
pub fn copy_optional(value: &Option<String>) -> (r: Option<String>)
    ensures
        r.deep_view() == value.deep_view(),
{
    match value {
        Some(s) => Some(s.clone()),
        None => None,
    }
}

/// Whether two optional texts are the same.
pub fn same_text(a: Option<&str>, b: Option<&str>) -> (r: bool)
    ensures
        r == (a.deep_view() == b.deep_view()),
{
    match (a, b) {
        (Some(a), Some(b)) => str_eq(a, b),
        (None, None) => true,
        _ => false,
    }
}

/// An optional text, borrowed.
pub fn optional_str(value: &Option<String>) -> (r: Option<&str>)
    ensures
        r.deep_view() == value.deep_view(),
{
    match value {
        Some(s) => Some(s.as_str()),
        None => None,
    }
}

/// Taking the entries of a key out twice changes no more than once.
pub proof fn lemma_del_twice<W>(table: Seq<(Chars, W)>, key: Chars)
    ensures
        del(del(table, key), key) == del(table, key),
    decreases table.len(),
{
    reveal(Seq::filter);
    if table.len() > 0 {
        let inner = del(table.drop_last(), key);
        lemma_del_twice(table.drop_last(), key);
        if table.last().0 != key {
            assert(inner.push(table.last()).drop_last() == inner);
            assert(del(table, key) == inner.push(table.last()));
        } else {
            assert(del(table, key) == inner);
        }
    }
}

/// A key without entries can be taken out without effect.
pub proof fn lemma_del_absent<W>(table: Seq<(Chars, W)>, key: Chars)
    requires
        lookup(table, key) is None,
    ensures
        del(table, key) == table,
    decreases table.len(),
{
    reveal(Seq::filter);
    if table.len() > 0 {
        lemma_del_absent(table.drop_last(), key);
        assert(table.drop_last().push(table.last()) == table);
    }
}

/// What was put under a key is found there.
pub proof fn lemma_put_found<W>(table: Seq<(Chars, W)>, key: Chars, value: W)
    ensures
        lookup(put(table, key, value), key) == Some(value),
{
    assert(put(table, key, value).last() == (key, value));
}

} // verus!
