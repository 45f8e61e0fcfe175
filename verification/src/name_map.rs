//! A table keyed by names, in which every name occurs once.

use crate::types::XorName;
use vstd::prelude::*;

verus! {

/// The name under which the entry at `i` is kept.
pub open spec fn key_at<V>(entries: Seq<(XorName, V)>, i: int) -> Seq<u8> {
    entries[i].0@
}

/// No two entries share a name.
pub open spec fn distinct<V>(entries: Seq<(XorName, V)>) -> bool {
    forall|i: int, j: int|
        0 <= i < j < entries.len() ==> #[trigger] key_at(entries, i) != #[trigger] key_at(
            entries,
            j,
        )
}

/// Some entry is kept under `name`.
pub open spec fn holds<V>(entries: Seq<(XorName, V)>, name: Seq<u8>) -> bool {
    exists|i: int| 0 <= i < entries.len() && #[trigger] key_at(entries, i) == name
}

/// The place of the entry kept under `name`.
pub open spec fn place<V>(entries: Seq<(XorName, V)>, name: Seq<u8>) -> int {
    choose|i: int| 0 <= i < entries.len() && #[trigger] key_at(entries, i) == name
}

/// The entries as a map from name to value.
pub open spec fn as_map<V>(entries: Seq<(XorName, V)>) -> Map<Seq<u8>, V> {
    Map::new(|name: Seq<u8>| holds(entries, name), |name: Seq<u8>| entries[place(entries, name)].1)
}

/// Where names are distinct, the entry at `i` is what the map holds under
/// its name.
pub proof fn entry_is_mapped<V>(entries: Seq<(XorName, V)>, i: int)
    requires
        distinct(entries),
        0 <= i < entries.len(),
    ensures
        as_map(entries).dom().contains(key_at(entries, i)),
        as_map(entries)[key_at(entries, i)] == entries[i].1,
{
    let name = key_at(entries, i);
    assert(holds(entries, name));
    let j = place(entries, name);
    assert(key_at(entries, j) == name);
    if i < j {
        assert(key_at(entries, i) != key_at(entries, j));
    }
    if j < i {
        assert(key_at(entries, j) != key_at(entries, i));
    }
}

/// A table from names to values. It stands where a hash map would, and
/// keeps its entries in the order in which their names first came.
pub struct NameMap<V> {
    entries: Vec<(XorName, V)>,
}

impl<V> View for NameMap<V> {
    type V = Map<Seq<u8>, V>;

    closed spec fn view(&self) -> Map<Seq<u8>, V> {
        as_map(self.entries@)
    }
}

impl<V> NameMap<V> {
    #[verifier::type_invariant]
    spec fn names_are_distinct(self) -> bool {
        distinct(self.entries@)
    }

    /// The entries in the order in which they are kept.
    pub closed spec fn entries(&self) -> Seq<(XorName, V)> {
        self.entries@
    }

    pub fn new() -> (table: NameMap<V>)
        ensures
            table@ == Map::<Seq<u8>, V>::empty(),
            table.entries().len() == 0,
    {
        let table = NameMap { entries: Vec::new() };
        assert(table@ =~= Map::<Seq<u8>, V>::empty());
        table
    }

    /// How many entries are kept. The map is the entries read as a map, and
    /// no name occurs twice among them.
    pub fn len(&self) -> (count: usize)
        ensures
            count == self.entries().len(),
            self@ == as_map(self.entries()),
            distinct(self.entries()),
            self@.dom().finite(),
    {
        proof {
            use_type_invariant(self);
            finite_domain(self.entries@);
        }
        self.entries.len()
    }

    /// The name of the entry at `i`.
    pub fn name_at(&self, i: usize) -> (name: XorName)
        requires
            i < self.entries().len(),
        ensures
            name@ == key_at(self.entries(), i as int),
            self@.dom().contains(name@),
            self@[name@] == self.entries()[i as int].1,
    {
        proof {
            use_type_invariant(self);
            entry_is_mapped(self.entries@, i as int);
        }
        self.entries[i].0
    }

    /// The value of the entry at `i`.
    pub fn value_at(&self, i: usize) -> (value: &V)
        requires
            i < self.entries().len(),
        ensures
            *value == self.entries()[i as int].1,
            self@.dom().contains(key_at(self.entries(), i as int)),
            self@[key_at(self.entries(), i as int)] == *value,
    {
        proof {
            use_type_invariant(self);
            entry_is_mapped(self.entries@, i as int);
        }
        &self.entries[i].1
    }

    fn find(&self, name: &XorName) -> (found: Option<usize>)
        ensures
            match found {
                Some(i) => i < self.entries@.len() && key_at(self.entries@, i as int) == name@,
                None => !holds(self.entries@, name@),
            },
    {
        let mut i: usize = 0;
        while i < self.entries.len()
            invariant
                i <= self.entries@.len(),
                forall|j: int| 0 <= j < i ==> #[trigger] key_at(self.entries@, j) != name@,
            decreases self.entries@.len() - i,
        {
            if self.entries[i].0.same(name) {
                return Some(i);
            }
            i += 1;
        }
        None
    }

    pub fn contains_key(&self, name: &XorName) -> (found: bool)
        ensures
            found == self@.dom().contains(name@),
    {
        self.find(name).is_some()
    }

    pub fn get(&self, name: &XorName) -> (value: Option<&V>)
        ensures
            match value {
                Some(v) => self@.dom().contains(name@) && *v == self@[name@],
                None => !self@.dom().contains(name@),
            },
    {
        proof {
            use_type_invariant(self);
        }
        match self.find(name) {
            Some(i) => {
                proof {
                    entry_is_mapped(self.entries@, i as int);
                }
                Some(&self.entries[i].1)
            },
            None => None,
        }
    }

    /// Keeps `value` under `name` and hands back what was kept there.
    pub fn insert(&mut self, name: XorName, value: V) -> (prior: Option<V>)
        ensures
            final(self)@ == old(self)@.insert(name@, value),
            match prior {
                Some(v) => old(self)@.dom().contains(name@) && v == old(self)@[name@],
                None => !old(self)@.dom().contains(name@),
            },
    {
        proof {
            use_type_invariant(&*self);
        }
        let ghost before = self.entries@;
        match self.find(&name) {
            Some(i) => {
                proof {
                    entry_is_mapped(before, i as int);
                }
                let mut entries: Vec<(XorName, V)> = Vec::new();
                std::mem::swap(&mut self.entries, &mut entries);
                let gone = entries.remove(i);
                entries.insert(i, (name, value));
                proof {
                    let after = entries@;
                    assert(after =~= before.update(i as int, (name, value)));
                    assert forall|a: int, b: int| 0 <= a < b < after.len() implies key_at(
                        after,
                        a,
                    ) != key_at(after, b) by {
                        assert(key_at(after, a) == key_at(before, a));
                        assert(key_at(after, b) == key_at(before, b));
                    }
                    replaced_entry(before, after, i as int, name, value);
                }
                self.entries = entries;
                Some(gone.1)
            },
            None => {
                let mut entries: Vec<(XorName, V)> = Vec::new();
                std::mem::swap(&mut self.entries, &mut entries);
                entries.push((name, value));
                proof {
                    let after = entries@;
                    assert forall|a: int, b: int| 0 <= a < b < after.len() implies key_at(
                        after,
                        a,
                    ) != key_at(after, b) by {
                        assert(key_at(after, a) == key_at(before, a));
                        if b < before.len() {
                            assert(key_at(after, b) == key_at(before, b));
                        }
                    }
                    pushed_entry(before, after, name, value);
                }
                self.entries = entries;
                None
            },
        }
    }

    /// Drops what is kept under `name` and hands it back.
    pub fn remove(&mut self, name: &XorName) -> (prior: Option<V>)
        ensures
            final(self)@ == old(self)@.remove(name@),
            match prior {
                Some(v) => old(self)@.dom().contains(name@) && v == old(self)@[name@],
                None => !old(self)@.dom().contains(name@),
            },
    {
        proof {
            use_type_invariant(&*self);
        }
        let ghost before = self.entries@;
        match self.find(name) {
            Some(i) => {
                proof {
                    entry_is_mapped(before, i as int);
                }
                let mut entries: Vec<(XorName, V)> = Vec::new();
                std::mem::swap(&mut self.entries, &mut entries);
                let gone = entries.remove(i);
                proof {
                    let after = entries@;
                    assert forall|a: int, b: int| 0 <= a < b < after.len() implies key_at(
                        after,
                        a,
                    ) != key_at(after, b) by {
                        let a0 = if a < i { a } else { a + 1 };
                        let b0 = if b < i { b } else { b + 1 };
                        assert(key_at(after, a) == key_at(before, a0));
                        assert(key_at(after, b) == key_at(before, b0));
                    }
                    removed_entry(before, after, i as int);
                }
                self.entries = entries;
                Some(gone.1)
            },
            None => {
                assert(self@ =~= old(self)@.remove(name@));
                None
            },
        }
    }
}

/// The names of a table are as many as its entries at most.
pub proof fn finite_domain<V>(entries: Seq<(XorName, V)>)
    ensures
        as_map(entries).dom().finite(),
    decreases entries.len(),
{
    if entries.len() == 0 {
        assert(as_map(entries).dom() =~= Set::<Seq<u8>>::empty());
    } else {
        let rest = entries.drop_last();
        finite_domain(rest);
        let last = key_at(entries, entries.len() - 1);
        assert forall|name: Seq<u8>| as_map(entries).dom().contains(name) <==> as_map(
            rest,
        ).dom().insert(last).contains(name) by {
            if holds(entries, name) {
                let i = place(entries, name);
                if i < rest.len() {
                    assert(key_at(rest, i) == name);
                }
            }
            if holds(rest, name) {
                let i = place(rest, name);
                assert(key_at(entries, i) == name);
            }
        }
        assert(as_map(entries).dom() =~= as_map(rest).dom().insert(last));
    }
}

proof fn replaced_entry<V>(
    before: Seq<(XorName, V)>,
    after: Seq<(XorName, V)>,
    i: int,
    name: XorName,
    value: V,
)
    requires
        distinct(before),
        distinct(after),
        0 <= i < before.len(),
        key_at(before, i) == name@,
        after == before.update(i, (name, value)),
    ensures
        as_map(after) == as_map(before).insert(name@, value),
{
    let target = as_map(before).insert(name@, value);
    assert forall|k: Seq<u8>| as_map(after).dom().contains(k) <==> target.dom().contains(k) by {
        if holds(after, k) {
            let j = place(after, k);
            assert(key_at(before, j) == key_at(after, j));
        }
        if holds(before, k) {
            let j = place(before, k);
            assert(key_at(after, j) == key_at(before, j));
        }
        assert(key_at(after, i) == name@);
    }
    assert forall|k: Seq<u8>| as_map(after).dom().contains(k) implies as_map(after)[k]
        == target[k] by {
        let j = place(after, k);
        entry_is_mapped(after, j);
        if j != i {
            assert(key_at(before, j) == k);
            entry_is_mapped(before, j);
            assert(key_at(before, i) == name@);
            if j < i {
                assert(key_at(before, j) != key_at(before, i));
            } else {
                assert(key_at(before, i) != key_at(before, j));
            }
        }
    }
    assert(as_map(after) =~= target);
}

proof fn pushed_entry<V>(
    before: Seq<(XorName, V)>,
    after: Seq<(XorName, V)>,
    name: XorName,
    value: V,
)
    requires
        distinct(before),
        distinct(after),
        !holds(before, name@),
        after == before.push((name, value)),
    ensures
        as_map(after) == as_map(before).insert(name@, value),
{
    let target = as_map(before).insert(name@, value);
    let n = before.len() as int;
    assert(key_at(after, n) == name@);
    assert forall|k: Seq<u8>| as_map(after).dom().contains(k) <==> target.dom().contains(k) by {
        if holds(after, k) {
            let j = place(after, k);
            if j < n {
                assert(key_at(before, j) == k);
            }
        }
        if holds(before, k) {
            let j = place(before, k);
            assert(key_at(after, j) == k);
        }
    }
    assert forall|k: Seq<u8>| as_map(after).dom().contains(k) implies as_map(after)[k]
        == target[k] by {
        let j = place(after, k);
        entry_is_mapped(after, j);
        if j < n {
            assert(key_at(before, j) == k);
            entry_is_mapped(before, j);
        }
    }
    assert(as_map(after) =~= target);
}

proof fn removed_entry<V>(before: Seq<(XorName, V)>, after: Seq<(XorName, V)>, i: int)
    requires
        distinct(before),
        distinct(after),
        0 <= i < before.len(),
        after == before.remove(i),
    ensures
        as_map(after) == as_map(before).remove(key_at(before, i)),
{
    let name = key_at(before, i);
    let target = as_map(before).remove(name);
    assert forall|k: Seq<u8>| as_map(after).dom().contains(k) <==> target.dom().contains(k) by {
        if holds(after, k) {
            let j = place(after, k);
            let j0 = if j < i { j } else { j + 1 };
            assert(key_at(before, j0) == k);
            if j0 < i {
                assert(key_at(before, j0) != key_at(before, i));
            } else {
                assert(key_at(before, i) != key_at(before, j0));
            }
        }
        if holds(before, k) && k != name {
            let j = place(before, k);
            let j1 = if j < i { j } else { j - 1 };
            assert(key_at(after, j1) == k);
        }
    }
    assert forall|k: Seq<u8>| as_map(after).dom().contains(k) implies as_map(after)[k]
        == target[k] by {
        let j = place(after, k);
        entry_is_mapped(after, j);
        let j0 = if j < i { j } else { j + 1 };
        assert(key_at(before, j0) == k);
        entry_is_mapped(before, j0);
    }
    assert(as_map(after) =~= target);
}

/// Where no name occurs twice, the names are as many as the entries.
pub proof fn count_of_names<V>(entries: Seq<(XorName, V)>)
    requires
        distinct(entries),
    ensures
        as_map(entries).dom().finite(),
        as_map(entries).dom().len() == entries.len(),
    decreases entries.len(),
{
    finite_domain(entries);
    if entries.len() == 0 {
        assert(as_map(entries).dom() =~= Set::<Seq<u8>>::empty());
    } else {
        let rest = entries.drop_last();
        assert forall|i: int, j: int| 0 <= i < j < rest.len() implies #[trigger] key_at(rest, i)
            != #[trigger] key_at(rest, j) by {
            assert(key_at(entries, i) != key_at(entries, j));
        }
        count_of_names(rest);
        let last = key_at(entries, entries.len() - 1);
        assert forall|name: Seq<u8>| as_map(entries).dom().contains(name) <==> as_map(
            rest,
        ).dom().insert(last).contains(name) by {
            if holds(entries, name) {
                let i = place(entries, name);
                if i < rest.len() {
                    assert(key_at(rest, i) == name);
                }
            }
            if holds(rest, name) {
                let i = place(rest, name);
                assert(key_at(entries, i) == name);
            }
        }
        assert(as_map(entries).dom() =~= as_map(rest).dom().insert(last));
        if holds(rest, last) {
            let i = place(rest, last);
            assert(key_at(entries, i) != key_at(entries, entries.len() - 1));
        }
    }
}

} // verus!
