//! Values by name.
//!
//! A table is a list of names and values in which no name occurs twice. Its view is the map
//! from names to values.

use vstd::prelude::*;

use crate::text;

verus! {

// ---------------------------------------------------------------------------
// Entries by name
// ---------------------------------------------------------------------------

/// A list of named values, each name by the text that it holds.
pub open spec fn named<V>(entries: Seq<(String, V)>) -> Seq<
    (Seq<char>, V),
> {
    entries.map_values(|e: (String, V)| (e.0@, e.1))
}

/// The value that each name stands for: of two entries with one name the later.
pub open spec fn by_name<V>(entries: Seq<(Seq<char>, V)>) -> Map<
    Seq<char>,
    V,
>
    decreases entries.len(),
{
    if entries.len() == 0 {
        Map::empty()
    } else {
        by_name(entries.drop_last()).insert(entries.last().0, entries.last().1)
    }
}

/// No name occurs twice.
pub open spec fn names_distinct<V>(entries: Seq<(Seq<char>, V)>) -> bool {
    forall|i: int, j: int|
        0 <= i < j < entries.len() ==> (#[trigger] entries[i]).0 != (#[trigger] entries[j]).0
}

/// The names stand in ascending order.
pub open spec fn names_ascend<V>(entries: Seq<(Seq<char>, V)>) -> bool {
    forall|i: int, j: int|
        0 <= i < j < entries.len() ==> text::before(
            (#[trigger] entries[i]).0,
            (#[trigger] entries[j]).0,
        )
}

/// Where names are distinct, a name stands for the entry that holds it.
pub proof fn lemma_by_name<V>(entries: Seq<(Seq<char>, V)>)
    requires
        names_distinct(entries),
    ensures
        forall|i: int|
            0 <= i < entries.len() ==> by_name(entries).contains_key((#[trigger] entries[i]).0)
                && by_name(entries)[entries[i].0] == entries[i].1,
        forall|name: Seq<char>| #[trigger]
            by_name(entries).contains_key(name) ==> exists|i: int|
                0 <= i < entries.len() && (#[trigger] entries[i]).0 == name,
    decreases entries.len(),
{
    if entries.len() > 0 {
        let rest = entries.drop_last();
        assert forall|i: int, j: int| 0 <= i < j < rest.len() implies (#[trigger] rest[i]).0 != (
        #[trigger] rest[j]).0 by {
            assert(rest[i] == entries[i] && rest[j] == entries[j]);
        }
        lemma_by_name(rest);
        let last = entries.len() - 1;
        assert forall|i: int| 0 <= i < entries.len() implies by_name(entries).contains_key(
            (#[trigger] entries[i]).0,
        ) && by_name(entries)[entries[i].0] == entries[i].1 by {
            if i < last {
                assert(entries[i] == rest[i]);
                assert(entries[i].0 != entries[last].0);
            }
        }
        assert forall|name: Seq<char>| #[trigger]
            by_name(entries).contains_key(name) implies exists|i: int|
            0 <= i < entries.len() && (#[trigger] entries[i]).0 == name by {
            if name == entries.last().0 {
                assert(entries[last].0 == name);
            } else {
                assert(by_name(rest).contains_key(name));
                let i = choose|i: int| 0 <= i < rest.len() && (#[trigger] rest[i]).0 == name;
                assert(entries[i].0 == name);
            }
        }
    }
}

/// Two sequences with distinct names that hold the same entries stand for the same map.
proof fn lemma_by_name_same_entries<V>(
    a: Seq<(Seq<char>, V)>,
    b: Seq<(Seq<char>, V)>,
)
    requires
        names_distinct(a),
        names_distinct(b),
        forall|i: int| 0 <= i < a.len() ==> b.contains(#[trigger] a[i]),
        forall|i: int| 0 <= i < b.len() ==> a.contains(#[trigger] b[i]),
    ensures
        by_name(a) == by_name(b),
{
    lemma_by_name(a);
    lemma_by_name(b);
    assert forall|name: Seq<char>| by_name(a).contains_key(name) == by_name(b).contains_key(
        name,
    ) by {
        if by_name(a).contains_key(name) {
            let i = choose|i: int| 0 <= i < a.len() && (#[trigger] a[i]).0 == name;
            assert(b.contains(a[i]));
            let j = choose|j: int| 0 <= j < b.len() && b[j] == a[i];
            assert(b[j].0 == name);
        }
        if by_name(b).contains_key(name) {
            let i = choose|i: int| 0 <= i < b.len() && (#[trigger] b[i]).0 == name;
            assert(a.contains(b[i]));
            let j = choose|j: int| 0 <= j < a.len() && a[j] == b[i];
            assert(a[j].0 == name);
        }
    }
    assert forall|name: Seq<char>| by_name(a).contains_key(name) implies by_name(a)[name]
        == by_name(b)[name] by {
        let i = choose|i: int| 0 <= i < a.len() && (#[trigger] a[i]).0 == name;
        assert(b.contains(a[i]));
        let j = choose|j: int| 0 <= j < b.len() && b[j] == a[i];
        assert(b[j].0 == name);
    }
    assert(by_name(a) =~= by_name(b));
}

/// Values, each under a name of its own.
pub struct NameTable<V> {
    pub entries: Vec<(String, V)>,
}

impl<V> View for NameTable<V> {
    type V = Map<Seq<char>, V>;

    open spec fn view(&self) -> Map<Seq<char>, V> {
        by_name(named(self.entries@))
    }
}

impl<V> NameTable<V> {
    /// No name occurs twice.
    pub open spec fn wf(self) -> bool {
        names_distinct(named(self.entries@))
    }

    /// A table without entries.
    pub fn new() -> (table: NameTable<V>)
        ensures
            table.wf(),
            table@ == Map::<Seq<char>, V>::empty(),
    {
        NameTable { entries: Vec::new() }
    }

    /// How many entries there are.
    pub fn len(&self) -> (n: usize)
        requires
            self.wf(),
        ensures
            n == self@.dom().len(),
            self@.dom().finite(),
    {
        proof {
            lemma_by_name_len(named(self.entries@));
        }
        self.entries.len()
    }

    fn find(&self, name: &str) -> (at: Option<usize>)
        ensures
            match at {
                Some(i) => i < self.entries@.len() && self.entries@[i as int].0@ == name@,
                None => forall|i: int|
                    0 <= i < self.entries@.len() ==> (#[trigger] self.entries@[i]).0@ != name@,
            },
    {
        let mut i: usize = 0;
        while i < self.entries.len()
            invariant
                i <= self.entries@.len(),
                forall|j: int| 0 <= j < i ==> (#[trigger] self.entries@[j]).0@ != name@,
            decreases self.entries@.len() - i,
        {
            if text::same_text(self.entries[i].0.as_str(), name) {
                return Some(i);
            }
            i += 1;
        }
        None
    }

    /// The value of that name.
    pub fn get(&self, name: &str) -> (value: Option<&V>)
        requires
            self.wf(),
        ensures
            match value {
                Some(value) => self@.contains_key(name@) && self@[name@] == *value,
                None => !self@.contains_key(name@),
            },
    {
        proof {
            lemma_by_name(named(self.entries@));
        }
        match self.find(name) {
            Some(i) => {
                proof {
                    assert(named(self.entries@)[i as int] == (
                        self.entries@[i as int].0@,
                        self.entries@[i as int].1,
                    ));
                }
                Some(&self.entries[i].1)
            },
            None => {
                proof {
                    if self@.contains_key(name@) {
                        let i = choose|i: int|
                            0 <= i < named(self.entries@).len() && (#[trigger] named(
                                self.entries@,
                            )[i]).0 == name@;
                        assert(self.entries@[i].0@ == name@);
                    }
                }
                None
            },
        }
    }

    /// Puts a value under a name, in place of the one that had it.
    pub fn insert(&mut self, name: String, value: V) -> (replaced: bool)
        requires
            old(self).wf(),
        ensures
            final(self).wf(),
            final(self)@ == old(self)@.insert(name@, value),
            replaced == old(self)@.contains_key(name@),
    {
        let ghost before = named(self.entries@);
        proof {
            lemma_by_name(before);
        }
        match self.find(name.as_str()) {
            Some(i) => {
                let ghost key = name@;
                self.entries.set(i, (name, value));
                proof {
                    let after = named(self.entries@);
                    assert(before[i as int].0 == key);
                    assert(after =~= before.update(i as int, (key, value)));
                    assert(names_distinct(after)) by {
                        assert forall|a: int, b: int| 0 <= a < b < after.len() implies (
                        #[trigger] after[a]).0 != (#[trigger] after[b]).0 by {
                            assert(before[a].0 != before[b].0);
                        }
                    }
                    lemma_by_name(after);
                    assert forall|k: Seq<char>| by_name(after).contains_key(k) == by_name(
                        before,
                    ).insert(key, value).contains_key(k) by {
                        if by_name(after).contains_key(k) {
                            let j = choose|j: int|
                                0 <= j < after.len() && (#[trigger] after[j]).0 == k;
                            assert(before[j].0 == k);
                        }
                        if by_name(before).contains_key(k) {
                            let j = choose|j: int|
                                0 <= j < before.len() && (#[trigger] before[j]).0 == k;
                            assert(after[j].0 == k);
                        }
                        assert(after[i as int].0 == key);
                    }
                    assert forall|k: Seq<char>| by_name(after).contains_key(k) implies by_name(
                        after,
                    )[k] == by_name(before).insert(key, value)[k] by {
                        let j = choose|j: int| 0 <= j < after.len() && (#[trigger] after[j]).0 == k;
                        if j == i {
                        } else {
                            assert(before[j] == after[j]);
                            assert(before[j].0 != before[i as int].0);
                        }
                    }
                    assert(by_name(after) =~= by_name(before).insert(key, value));
                }
                true
            },
            None => {
                let ghost key = name@;
                proof {
                    if by_name(before).contains_key(key) {
                        let j = choose|j: int|
                            0 <= j < before.len() && (#[trigger] before[j]).0 == key;
                        assert(self.entries@[j].0@ == key);
                    }
                }
                self.entries.push((name, value));
                proof {
                    let after = named(self.entries@);
                    assert(after =~= before.push((key, value)));
                    assert(after.drop_last() =~= before);
                    assert forall|a: int, b: int| 0 <= a < b < after.len() implies (
                    #[trigger] after[a]).0 != (#[trigger] after[b]).0 by {
                        assert(after[a] == before[a]);
                        assert(old(self).entries@[a].0@ == before[a].0);
                        if b < before.len() {
                            assert(after[b] == before[b]);
                        }
                    }
                }
                false
            },
        }
    }

    /// The entries in the order of their names.
    pub fn into_sorted(self) -> (sorted: Vec<(String, V)>)
        requires
            self.wf(),
        ensures
            names_ascend(named(sorted@)),
            by_name(named(sorted@)) == self@,
            sorted@.len() == self.entries@.len(),
    {
        let mut rest = self.entries;
        let ghost all = named(rest@);
        let mut sorted: Vec<(String, V)> = Vec::new();
        while rest.len() > 0
            invariant
                names_distinct(all),
                rest@.len() <= all.len(),
                named(rest@) == all.take(rest@.len() as int),
                rest@.len() + sorted@.len() == all.len(),
                names_ascend(named(sorted@)),
                forall|i: int|
                    0 <= i < sorted@.len() ==> all.skip(rest@.len() as int).contains(
                        #[trigger] named(sorted@)[i],
                    ),
                forall|i: int|
                    rest@.len() <= i < all.len() ==> named(sorted@).contains(#[trigger] all[i]),
            decreases rest@.len(),
        {
            let ghost n = rest@.len() as int;
            let ghost done = named(sorted@);
            let ghost rest_named = named(rest@);
            let entry = rest.pop().unwrap();
            let ghost item = (entry.0@, entry.1);
            proof {
                assert(rest_named[n - 1] == item);
                assert(all[n - 1] == item);
                assert(named(rest@) =~= all.take(n - 1));
            }
            let mut at: usize = 0;
            while at < sorted.len() && text::comes_before(
                sorted[at].0.as_str(),
                entry.0.as_str(),
            )
                invariant
                    at <= sorted@.len(),
                    done == named(sorted@),
                    item == (entry.0@, entry.1),
                    forall|j: int|
                        0 <= j < at ==> text::before((#[trigger] done[j]).0, item.0),
                decreases sorted@.len() - at,
            {
                proof {
                    assert(done[at as int].0 == sorted@[at as int].0@);
                }
                at += 1;
            }
            proof {
                lemma_insertion_point(all, n, done, item);
                if at < sorted@.len() {
                    assert(done[at as int].0 == sorted@[at as int].0@);
                }
            }
            sorted.insert(at, entry);
            proof {
                assert(named(sorted@) =~= done.insert(at as int, item));
                lemma_inserted(all, n, done, item, at as int);
            }
        }
        proof {
            let out = named(sorted@);
            assert(all.skip(0) =~= all);
            assert forall|i: int, j: int| 0 <= i < j < out.len() implies (#[trigger] out[i]).0 != (
            #[trigger] out[j]).0 by {
                text::lemma_before_total(out[i].0, out[j].0);
            }
            lemma_by_name_same_entries(out, all);
        }
        sorted
    }
}

/// An entry taken from before `n` has a name of its own among those taken from `n` on.
proof fn lemma_insertion_point<V>(
    all: Seq<(Seq<char>, V)>,
    n: int,
    done: Seq<(Seq<char>, V)>,
    item: (Seq<char>, V),
)
    requires
        names_distinct(all),
        0 < n <= all.len(),
        item == all[n - 1],
        forall|i: int| 0 <= i < done.len() ==> all.skip(n).contains(#[trigger] done[i]),
    ensures
        forall|i: int| 0 <= i < done.len() ==> (#[trigger] done[i]).0 != item.0,
{
    assert forall|i: int| 0 <= i < done.len() implies (#[trigger] done[i]).0 != item.0 by {
        assert(all.skip(n).contains(done[i]));
        let k = choose|k: int| 0 <= k < all.skip(n).len() && all.skip(n)[k] == done[i];
        assert(all[n + k] == done[i]);
        assert(all[n - 1].0 != all[n + k].0);
    }
}

/// Inserting behind all smaller names keeps the order and adds just the entry.
proof fn lemma_inserted<V>(
    all: Seq<(Seq<char>, V)>,
    n: int,
    done: Seq<(Seq<char>, V)>,
    item: (Seq<char>, V),
    at: int,
)
    requires
        0 < n <= all.len(),
        item == all[n - 1],
        0 <= at <= done.len(),
        names_ascend(done),
        forall|i: int| 0 <= i < done.len() ==> (#[trigger] done[i]).0 != item.0,
        forall|j: int| 0 <= j < at ==> text::before((#[trigger] done[j]).0, item.0),
        at < done.len() ==> !text::before(done[at].0, item.0),
        forall|i: int| 0 <= i < done.len() ==> all.skip(n).contains(#[trigger] done[i]),
        forall|i: int| n <= i < all.len() ==> done.contains(#[trigger] all[i]),
    ensures
        names_ascend(done.insert(at, item)),
        forall|i: int|
            0 <= i < done.len() + 1 ==> all.skip(n - 1).contains(
                #[trigger] done.insert(at, item)[i],
            ),
        forall|i: int|
            n - 1 <= i < all.len() ==> done.insert(at, item).contains(#[trigger] all[i]),
{
    let out = done.insert(at, item);
    assert forall|j: int| at <= j < done.len() implies text::before(
        item.0,
        (#[trigger] done[j]).0,
    ) by {
        text::lemma_before_total(done[at].0, item.0);
        if at < j {
            assert(text::before(done[at].0, done[j].0));
            text::lemma_before_transitive(item.0, done[at].0, done[j].0);
        }
    }
    assert forall|i: int, j: int| 0 <= i < j < out.len() implies text::before(
        (#[trigger] out[i]).0,
        (#[trigger] out[j]).0,
    ) by {
        let a = if i < at {
            i
        } else {
            i - 1
        };
        let b = if j < at {
            j
        } else {
            j - 1
        };
        if i == at {
            assert(out[j] == done[b]);
        } else if j == at {
            assert(out[i] == done[a]);
        } else {
            assert(out[i] == done[a] && out[j] == done[b]);
        }
    }
    assert forall|i: int| 0 <= i < done.len() + 1 implies all.skip(n - 1).contains(
        #[trigger] out[i],
    ) by {
        if i == at {
            assert(all.skip(n - 1)[0] == item);
        } else {
            let a = if i < at {
                i
            } else {
                i - 1
            };
            assert(out[i] == done[a]);
            assert(all.skip(n).contains(done[a]));
            let k = choose|k: int| 0 <= k < all.skip(n).len() && all.skip(n)[k] == done[a];
            assert(all.skip(n - 1)[k + 1] == done[a]);
        }
    }
    assert forall|i: int| n - 1 <= i < all.len() implies out.contains(#[trigger] all[i]) by {
        if i == n - 1 {
            assert(out[at] == item);
        } else {
            assert(done.contains(all[i]));
            let k = choose|k: int| 0 <= k < done.len() && done[k] == all[i];
            if k < at {
                assert(out[k] == all[i]);
            } else {
                assert(out[k + 1] == all[i]);
            }
        }
    }
}

proof fn lemma_by_name_len<V>(entries: Seq<(Seq<char>, V)>)
    requires
        names_distinct(entries),
    ensures
        by_name(entries).dom().finite(),
        by_name(entries).dom().len() == entries.len(),
    decreases entries.len(),
{
    if entries.len() > 0 {
        let rest = entries.drop_last();
        assert forall|i: int, j: int| 0 <= i < j < rest.len() implies (#[trigger] rest[i]).0 != (
        #[trigger] rest[j]).0 by {
            assert(rest[i] == entries[i] && rest[j] == entries[j]);
        }
        lemma_by_name_len(rest);
        lemma_by_name(rest);
        let last = entries.len() - 1;
        assert(!by_name(rest).contains_key(entries.last().0)) by {
            if by_name(rest).contains_key(entries.last().0) {
                let i = choose|i: int|
                    0 <= i < rest.len() && (#[trigger] rest[i]).0 == entries.last().0;
                assert(entries[i].0 == entries[last].0);
            }
        }
        assert(by_name(entries).dom() =~= by_name(rest).dom().insert(entries.last().0));
    }
}

/// Entries in the order of their names can be listed in one way only.
pub proof fn lemma_sorted_unique<V>(
    a: Seq<(Seq<char>, V)>,
    b: Seq<(Seq<char>, V)>,
)
    requires
        names_ascend(a),
        names_ascend(b),
        by_name(a) == by_name(b),
    ensures
        a == b,
    decreases a.len(),
{
    lemma_ascend_distinct(a);
    lemma_ascend_distinct(b);
    lemma_by_name(a);
    lemma_by_name(b);
    if a.len() == 0 {
        if b.len() > 0 {
            assert(by_name(a).contains_key(b[0].0));
        }
        assert(a =~= b);
    } else {
        assert(by_name(b).contains_key(a[0].0));
        assert(b.len() > 0);
        // The last name of either is the greatest of all, so the last entries agree.
        let x = a.last();
        let y = b.last();
        assert(a[a.len() - 1] == x && b[b.len() - 1] == y);
        assert(by_name(b).contains_key(x.0));
        let j = choose|j: int| 0 <= j < b.len() && (#[trigger] b[j]).0 == x.0;
        assert(by_name(a).contains_key(y.0));
        let i = choose|i: int| 0 <= i < a.len() && (#[trigger] a[i]).0 == y.0;
        text::lemma_before_total(x.0, y.0);
        text::lemma_before_total(y.0, x.0);
        if j < b.len() - 1 {
            assert(text::before(x.0, y.0));
            assert(i < a.len() - 1);
            assert(text::before(y.0, x.0));
        }
        assert(x.0 == y.0);
        assert(x == y);
        let s = a.drop_last();
        let t = b.drop_last();
        assert(names_ascend(s)) by {
            assert forall|p: int, q: int| 0 <= p < q < s.len() implies text::before(
                (#[trigger] s[p]).0,
                (#[trigger] s[q]).0,
            ) by {
                assert(s[p] == a[p] && s[q] == a[q]);
            }
        }
        assert(names_ascend(t)) by {
            assert forall|p: int, q: int| 0 <= p < q < t.len() implies text::before(
                (#[trigger] t[p]).0,
                (#[trigger] t[q]).0,
            ) by {
                assert(t[p] == b[p] && t[q] == b[q]);
            }
        }
        lemma_by_name_drop(a);
        lemma_by_name_drop(b);
        lemma_sorted_unique(s, t);
        assert(a =~= s.push(x));
        assert(b =~= t.push(y));
    }
}

proof fn lemma_ascend_distinct<V>(entries: Seq<(Seq<char>, V)>)
    requires
        names_ascend(entries),
    ensures
        names_distinct(entries),
{
    assert forall|i: int, j: int| 0 <= i < j < entries.len() implies (#[trigger] entries[i]).0 != (
    #[trigger] entries[j]).0 by {
        text::lemma_before_total(entries[i].0, entries[j].0);
    }
}

/// Without its last entry a sequence of distinct names lacks just that name.
proof fn lemma_by_name_drop<V>(entries: Seq<(Seq<char>, V)>)
    requires
        names_ascend(entries),
        entries.len() > 0,
    ensures
        by_name(entries.drop_last()) == by_name(entries).remove(entries.last().0),
{
    let rest = entries.drop_last();
    let last = entries.len() - 1;
    lemma_ascend_distinct(entries);
    assert forall|i: int, j: int| 0 <= i < j < rest.len() implies (#[trigger] rest[i]).0 != (
    #[trigger] rest[j]).0 by {
        assert(rest[i] == entries[i] && rest[j] == entries[j]);
    }
    lemma_by_name(rest);
    assert(!by_name(rest).contains_key(entries.last().0)) by {
        if by_name(rest).contains_key(entries.last().0) {
            let i = choose|i: int|
                0 <= i < rest.len() && (#[trigger] rest[i]).0 == entries.last().0;
            assert(entries[i].0 == entries[last].0);
        }
    }
    assert(by_name(rest) =~= by_name(entries).remove(entries.last().0));
}

/// A name stands for the last entry that has it.
pub proof fn law_the_last_entry_of_a_name_counts<V>(entries: Seq<(Seq<char>, V)>, k: int)
    requires
        0 <= k < entries.len(),
        forall|j: int| k < j < entries.len() ==> (#[trigger] entries[j]).0 != entries[k].0,
    ensures
        by_name(entries).contains_key(entries[k].0),
        by_name(entries)[entries[k].0] == entries[k].1,
    decreases entries.len(),
{
    let last = entries.len() - 1;
    if k < last {
        let rest = entries.drop_last();
        assert forall|j: int| k < j < rest.len() implies (#[trigger] rest[j]).0 != rest[k].0 by {
            assert(entries[j].0 != entries[k].0);
        }
        law_the_last_entry_of_a_name_counts(rest, k);
        assert(entries[last].0 != entries[k].0);
    }
}

/// A name that an entry has stands for something.
pub proof fn law_a_name_with_entry_stands_for_something<V>(entries: Seq<(Seq<char>, V)>, k: int)
    requires
        0 <= k < entries.len(),
    ensures
        by_name(entries).contains_key(entries[k].0),
    decreases entries.len(),
{
    if k < entries.len() - 1 {
        law_a_name_with_entry_stands_for_something(entries.drop_last(), k);
    }
}

/// A name that no entry has stands for nothing.
pub proof fn law_a_name_without_entry_stands_for_nothing<V>(
    entries: Seq<(Seq<char>, V)>,
    name: Seq<char>,
)
    requires
        forall|j: int| 0 <= j < entries.len() ==> (#[trigger] entries[j]).0 != name,
    ensures
        !by_name(entries).contains_key(name),
    decreases entries.len(),
{
    if entries.len() > 0 {
        let rest = entries.drop_last();
        assert forall|j: int| 0 <= j < rest.len() implies (#[trigger] rest[j]).0 != name by {
            assert(entries[j].0 != name);
        }
        law_a_name_without_entry_stands_for_nothing(rest, name);
        assert(entries[entries.len() - 1].0 != name);
    }
}

/// Names that ascend, or that are distinct, do so for any two of them; and a list of entries
/// keeps each name and each value in its place.
pub proof fn law_entries_are_compared_in_pairs<V>(entries: Seq<(String, V)>, i: int, j: int)
    requires
        0 <= i < j < entries.len(),
    ensures
        named(entries).len() == entries.len(),
        named(entries)[i] == (entries[i].0@, entries[i].1),
        names_ascend(named(entries)) ==> text::before(entries[i].0@, entries[j].0@),
        names_distinct(named(entries)) ==> entries[i].0@ != entries[j].0@,
{
    let all = named(entries);
    if names_ascend(all) {
        assert(text::before(all[i].0, all[j].0));
    }
    if names_distinct(all) {
        assert(all[i].0 != all[j].0);
    }
}

} // verus!
