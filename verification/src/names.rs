//! A table keyed by name and walked in the order of its names.

use vstd::prelude::*;

use crate::text::comes_before;
use crate::text::lemma_order_irreflexive;
use crate::text::lemma_order_transitive;
use crate::text::place;
use crate::text::Place;

verus! {

/// Whether entries stand in strictly increasing order of their names.
pub open spec fn ordered<V>(entries: Seq<(Seq<char>, V)>) -> bool {
    forall|i: int, j: int|
        0 <= i < j < entries.len() ==> comes_before(
            (#[trigger] entries[i]).0,
            (#[trigger] entries[j]).0,
        )
}

/// Whether an entry has this name.
pub open spec fn has_name<V>(entries: Seq<(Seq<char>, V)>, name: Seq<char>) -> bool {
    exists|i: int| 0 <= i < entries.len() && (#[trigger] entries[i]).0 == name
}

/// The place of an entry with this name.
pub open spec fn place_of<V>(entries: Seq<(Seq<char>, V)>, name: Seq<char>) -> int {
    choose|i: int| 0 <= i < entries.len() && (#[trigger] entries[i]).0 == name
}

/// The map that entries stand for.
pub open spec fn map_of<V>(entries: Seq<(Seq<char>, V)>) -> Map<Seq<char>, V> {
    Map::new(
        |name: Seq<char>| has_name(entries, name),
        |name: Seq<char>| entries[place_of(entries, name)].1,
    )
}

/// Each entry of an ordered sequence is what the map holds under its name.
pub proof fn lemma_entry<V>(entries: Seq<(Seq<char>, V)>, i: int)
    requires
        ordered(entries),
        0 <= i < entries.len(),
    ensures
        map_of(entries).dom().contains(entries[i].0),
        map_of(entries)[entries[i].0] == entries[i].1,
        place_of(entries, entries[i].0) == i,
{
    let name = entries[i].0;
    assert(has_name(entries, name));
    let p = place_of(entries, name);
    assert(entries[p].0 == name);
    lemma_order_irreflexive(name);
    if p < i {
        assert(comes_before(entries[p].0, entries[i].0));
    } else if i < p {
        assert(comes_before(entries[i].0, entries[p].0));
    }
}

/// What the map holds under a name stands at the entry of that name.
pub proof fn lemma_named<V>(entries: Seq<(Seq<char>, V)>, name: Seq<char>)
    requires
        ordered(entries),
        map_of(entries).dom().contains(name),
    ensures
        0 <= place_of(entries, name) < entries.len(),
        entries[place_of(entries, name)] == (name, map_of(entries)[name]),
{
    assert(has_name(entries, name));
}

proof fn lemma_insert<V>(entries: Seq<(Seq<char>, V)>, at: int, name: Seq<char>, value: V)
    requires
        ordered(entries),
        0 <= at <= entries.len(),
        forall|i: int| 0 <= i < at ==> comes_before((#[trigger] entries[i]).0, name),
        forall|i: int|
            at <= i < entries.len() ==> comes_before(name, (#[trigger] entries[i]).0),
    ensures
        ordered(entries.insert(at, (name, value))),
        map_of(entries.insert(at, (name, value))) == map_of(entries).insert(name, value),
        !map_of(entries).dom().contains(name),
{
    let longer = entries.insert(at, (name, value));
    assert forall|i: int, j: int| 0 <= i < j < longer.len() implies comes_before(
        (#[trigger] longer[i]).0,
        (#[trigger] longer[j]).0,
    ) by {
        let a = if i < at { i } else { i - 1 };
        let b = if j < at { j } else { j - 1 };
        if i != at {
            assert(longer[i] == entries[a]);
        }
        if j != at {
            assert(longer[j] == entries[b]);
        }
    }
    lemma_order_irreflexive(name);
    assert(map_of(longer) =~= map_of(entries).insert(name, value)) by {
        assert forall|k: Seq<char>| map_of(longer).dom().contains(k) == map_of(entries).insert(
            name,
            value,
        ).dom().contains(k) by {
            if has_name(longer, k) && k != name {
                let i = place_of(longer, k);
                assert(longer[i].0 == k);
                let a = if i < at { i } else { i - 1 };
                assert(entries[a] == longer[i]);
                assert(has_name(entries, k));
            }
            if has_name(entries, k) {
                let a = place_of(entries, k);
                assert(entries[a].0 == k);
                let i = if a < at { a } else { a + 1 };
                assert(longer[i] == entries[a]);
                assert(has_name(longer, k));
            }
            if k == name {
                assert(longer[at].0 == name);
                assert(has_name(longer, k));
            }
        }
        assert forall|k: Seq<char>| #[trigger] map_of(longer).dom().contains(k) implies map_of(
            longer,
        )[k] == map_of(entries).insert(name, value)[k] by {
            if k == name {
                assert(longer[at].0 == name);
                lemma_entry(longer, at);
            } else {
                let i = place_of(longer, k);
                assert(longer[i].0 == k);
                let a = if i < at { i } else { i - 1 };
                assert(entries[a] == longer[i]);
                lemma_entry(entries, a);
            }
        }
    }
    if has_name(entries, name) {
        let p = place_of(entries, name);
        assert(entries[p].0 == name);
    }
}

proof fn lemma_update<V>(entries: Seq<(Seq<char>, V)>, at: int, value: V)
    requires
        ordered(entries),
        0 <= at < entries.len(),
    ensures
        ordered(entries.update(at, (entries[at].0, value))),
        map_of(entries.update(at, (entries[at].0, value))) == map_of(entries).insert(
            entries[at].0,
            value,
        ),
        map_of(entries).dom().contains(entries[at].0),
{
    let name = entries[at].0;
    let changed = entries.update(at, (name, value));
    assert forall|i: int| 0 <= i < entries.len() implies (#[trigger] changed[i]).0
        == entries[i].0 by {}
    assert(ordered(changed));
    lemma_entry(entries, at);
    assert(map_of(changed) =~= map_of(entries).insert(name, value)) by {
        assert forall|k: Seq<char>| map_of(changed).dom().contains(k) == map_of(entries).insert(
            name,
            value,
        ).dom().contains(k) by {
            if has_name(changed, k) {
                let i = place_of(changed, k);
                assert(changed[i].0 == k);
                assert(entries[i].0 == k);
                assert(has_name(entries, k));
            }
            if has_name(entries, k) {
                let i = place_of(entries, k);
                assert(entries[i].0 == k);
                assert(changed[i].0 == k);
                assert(has_name(changed, k));
            }
        }
        assert forall|k: Seq<char>| #[trigger] map_of(changed).dom().contains(k) implies map_of(
            changed,
        )[k] == map_of(entries).insert(name, value)[k] by {
            let i = place_of(changed, k);
            assert(changed[i].0 == k);
            lemma_entry(entries, i);
            lemma_entry(changed, i);
            if k == name {
                assert(entries[i].0 == name);
            }
        }
    }
}

/// An ordered sequence holds as many names as it has entries.
pub proof fn lemma_name_count<V>(entries: Seq<(Seq<char>, V)>)
    requires
        ordered(entries),
    ensures
        map_of(entries).dom().finite(),
        map_of(entries).dom().len() == entries.len(),
    decreases entries.len(),
{
    if entries.len() == 0 {
        assert(map_of(entries).dom() =~= Set::<Seq<char>>::empty());
    } else {
        let shorter = entries.drop_last();
        let name = entries.last().0;
        assert(ordered(shorter)) by {
            assert forall|i: int, j: int| 0 <= i < j < shorter.len() implies comes_before(
                (#[trigger] shorter[i]).0,
                (#[trigger] shorter[j]).0,
            ) by {
                assert(shorter[i] == entries[i] && shorter[j] == entries[j]);
            }
        }
        lemma_name_count(shorter);
        lemma_insert(shorter, shorter.len() as int, name, entries.last().1);
        assert(entries =~= shorter.insert(shorter.len() as int, entries.last()));
        assert(map_of(entries).dom() =~= map_of(shorter).dom().insert(name));
    }
}

/// A table from names to values, walked in the order of its names.
pub struct NameTable<V> {
    entries: Vec<(String, V)>,
}

impl<V> View for NameTable<V> {
    type V = Seq<(Seq<char>, V)>;

    /// The entries, in the order of their names.
    closed spec fn view(&self) -> Seq<(Seq<char>, V)> {
        self.entries@.map_values(|e: (String, V)| (e.0@, e.1))
    }
}

impl<V> NameTable<V> {
    #[verifier::type_invariant]
    spec fn entries_ordered(self) -> bool {
        ordered(self@)
    }

    /// The map that this table stands for.
    pub open spec fn map(&self) -> Map<Seq<char>, V> {
        map_of(self@)
    }

    /// An empty table.
    pub fn new() -> (out: Self)
        ensures
            out@ == Seq::<(Seq<char>, V)>::empty(),
            out.map() == Map::<Seq<char>, V>::empty(),
    {
        let out = NameTable { entries: Vec::new() };
        assert(out@ =~= Seq::<(Seq<char>, V)>::empty());
        assert(out.map() =~= Map::<Seq<char>, V>::empty());
        out
    }

    /// How many names the table holds.
    pub fn len(&self) -> (n: usize)
        ensures
            n == self@.len(),
            ordered(self@),
    {
        proof {
            use_type_invariant(self);
        }
        self.entries.len()
    }

    /// Whether the table holds no name.
    pub fn is_empty(&self) -> (yes: bool)
        ensures
            yes == (self@.len() == 0),
    {
        self.entries.len() == 0
    }

    /// The `i`-th name in order.
    pub fn name_at(&self, i: usize) -> (name: &str)
        requires
            i < self@.len(),
        ensures
            name@ == self@[i as int].0,
    {
        self.entries[i].0.as_str()
    }

    /// The value under the `i`-th name in order.
    pub fn value_at(&self, i: usize) -> (value: &V)
        requires
            i < self@.len(),
        ensures
            *value == self@[i as int].1,
    {
        &self.entries[i].1
    }

    /// The place of `name`, or the place that it would stand at.
    fn seek(&self, name: &str) -> (found: (usize, bool))
        ensures
            found.0 <= self@.len(),
            found.1 ==> found.0 < self@.len() && self@[found.0 as int].0 == name@,
            !found.1 ==> (forall|i: int|
                0 <= i < found.0 ==> comes_before((#[trigger] self@[i]).0, name@)),
            !found.1 ==> (forall|i: int|
                found.0 <= i < self@.len() ==> comes_before(name@, (#[trigger] self@[i]).0)),
    {
        proof {
            use_type_invariant(self);
        }
        let mut i: usize = 0;
        while i < self.entries.len()
            invariant
                ordered(self@),
                self@.len() == self.entries@.len(),
                i <= self.entries.len(),
                forall|j: int| 0 <= j < i ==> comes_before((#[trigger] self@[j]).0, name@),
            decreases self.entries.len() - i,
        {
            match place(self.entries[i].0.as_str(), name) {
                Place::Before => {
                    i = i + 1;
                },
                Place::Same => {
                    return (i, true);
                },
                Place::After => {
                    assert forall|j: int| i <= j < self@.len() implies comes_before(
                        name@,
                        (#[trigger] self@[j]).0,
                    ) by {
                        if j > i {
                            lemma_order_transitive(name@, self@[i as int].0, self@[j].0);
                        }
                    }
                    return (i, false);
                },
            }
        }
        (i, false)
    }

    /// The value under `name`.
    pub fn get(&self, name: &str) -> (value: Option<&V>)
        ensures
            match value {
                Some(v) => self.map().dom().contains(name@) && *v == self.map()[name@],
                None => !self.map().dom().contains(name@),
            },
    {
        proof {
            use_type_invariant(self);
        }
        let (at, found) = self.seek(name);
        if found {
            proof {
                lemma_entry(self@, at as int);
            }
            Some(&self.entries[at].1)
        } else {
            proof {
                if has_name(self@, name@) {
                    let p = place_of(self@, name@);
                    assert(self@[p].0 == name@);
                    lemma_order_irreflexive(name@);
                }
            }
            None
        }
    }

    /// Whether the table holds `name`.
    pub fn contains(&self, name: &str) -> (yes: bool)
        ensures
            yes == self.map().dom().contains(name@),
    {
        self.get(name).is_some()
    }

    /// Puts `value` under `name`, in place of what stood there.
    pub fn insert(&mut self, name: String, value: V)
        ensures
            final(self).map() == old(self).map().insert(name@, value),
    {
        proof {
            use_type_invariant(&*self);
        }
        let (at, found) = self.seek(name.as_str());
        let ghost before = self@;
        let ghost key = name@;
        let mut entries: Vec<(String, V)> = Vec::new();
        std::mem::swap(&mut self.entries, &mut entries);
        let ghost held = entries@;
        if found {
            entries[at] = (name, value);
            proof {
                lemma_update(before, at as int, value);
                assert(entries@.map_values(|e: (String, V)| (e.0@, e.1)) =~= before.update(
                    at as int,
                    (key, value),
                ));
            }
        } else {
            entries.insert(at, (name, value));
            proof {
                lemma_insert(before, at as int, key, value);
                assert(entries@.map_values(|e: (String, V)| (e.0@, e.1)) =~= before.insert(
                    at as int,
                    (key, value),
                ));
            }
        }
        self.entries = entries;
    }

    /// Puts `value` under `name` where nothing stands there yet.
    pub fn insert_if_absent(&mut self, name: String, value: V)
        ensures
            final(self).map() == (if old(self).map().dom().contains(name@) {
                old(self).map()
            } else {
                old(self).map().insert(name@, value)
            }),
    {
        if !self.contains(name.as_str()) {
            self.insert(name, value);
        }
    }
}

} // verus!
