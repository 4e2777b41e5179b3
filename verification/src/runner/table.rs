//! A small map from names to values.
use vstd::prelude::*;

verus! {

/// A map keyed by strings. The entries keep the order in which their names were
/// first inserted, and no name occurs twice.
pub struct StringTable<V> {
    entries: Vec<(String, V)>,
}

spec fn entry_names<V>(entries: Seq<(String, V)>) -> Seq<Seq<char>> {
    entries.map_values(|entry: (String, V)| entry.0@)
}

spec fn entry_values<V>(entries: Seq<(String, V)>) -> Seq<V> {
    entries.map_values(|entry: (String, V)| entry.1)
}

impl<V> StringTable<V> {
    /// The names in order.
    pub closed spec fn names(&self) -> Seq<Seq<char>> {
        entry_names(self.entries@)
    }

    /// The values in order.
    pub closed spec fn values(&self) -> Seq<V> {
        entry_values(self.entries@)
    }

    /// Every name has its value.
    pub proof fn lemma_same_length(&self)
        ensures
            self.names().len() == self.values().len(),
    {
    }

    #[verifier::type_invariant]
    spec fn distinct_names(&self) -> bool {
        self.names().no_duplicates()
    }
}

/// The map that lists of names and of their values stand for.
pub open spec fn table_map<V>(names: Seq<Seq<char>>, values: Seq<V>) -> Map<Seq<char>, V> {
    Map::new(|name: Seq<char>| names.contains(name), |name: Seq<char>| values[names.index_of(name)])
}

impl<V> View for StringTable<V> {
    type V = Map<Seq<char>, V>;

    open spec fn view(&self) -> Map<Seq<char>, V> {
        table_map(self.names(), self.values())
    }
}

impl<V> StringTable<V> {
    pub fn new() -> (table: Self)
        ensures
            table.names() == Seq::<Seq<char>>::empty(),
            table.values() == Seq::<V>::empty(),
            table@ == Map::<Seq<char>, V>::empty(),
    {
        let table = StringTable { entries: Vec::new() };
        assert(table.names() =~= Seq::empty());
        assert(table.values() =~= Seq::empty());
        assert(table@ =~= Map::empty());
        table
    }

    /// The number of entries.
    pub fn len(&self) -> (len: usize)
        ensures
            len == self.names().len(),
            len == self.values().len(),
            self.names().no_duplicates(),
    {
        proof {
            use_type_invariant(self);
        }
        self.entries.len()
    }

    /// The value at a position in the order of insertion.
    pub fn value_at(&self, index: usize) -> (value: &V)
        requires
            index < self.values().len(),
        ensures
            *value == self.values()[index as int],
    {
        &self.entries[index].1
    }

    /// The position of `name`, or `None` where it is not in the table.
    fn position(&self, name: &str) -> (position: Option<usize>)
        ensures
            match position {
                Some(i) => i < self.names().len() && self.names()[i as int] == name@,
                None => !self.names().contains(name@),
            },
    {
        let wanted = name.to_owned();
        let mut i: usize = 0;
        while i < self.entries.len()
            invariant
                wanted@ == name@,
                i <= self.entries.len(),
                forall|j: int| 0 <= j < i ==> #[trigger] self.names()[j] != name@,
            decreases self.entries.len() - i,
        {
            if self.entries[i].0 == wanted {
                return Some(i);
            }
            i += 1;
        }
        None
    }

    /// The value of `name`.
    pub fn get(&self, name: &str) -> (value: Option<&V>)
        ensures
            match value {
                Some(v) => self@.contains_key(name@) && *v == self@[name@],
                None => !self@.contains_key(name@),
            },
    {
        proof {
            use_type_invariant(self);
        }
        match self.position(name) {
            Some(i) => {
                proof {
                    assert(self.names().contains(name@));
                    assert(self.names().index_of(name@) == i);
                }
                Some(&self.entries[i].1)
            },
            None => None,
        }
    }

    /// Sets the value of `name`, in place of an earlier one where there is one.
    pub fn insert(&mut self, name: String, value: V)
        ensures
            final(self)@ == old(self)@.insert(name@, value),
            final(self).names() == if old(self).names().contains(name@) {
                old(self).names()
            } else {
                old(self).names().push(name@)
            },
            final(self).values() == if old(self).names().contains(name@) {
                old(self).values().update(old(self).names().index_of(name@), value)
            } else {
                old(self).values().push(value)
            },
    {
        proof {
            use_type_invariant(&*self);
        }
        let position = self.position(name.as_str());
        let ghost names = self.names();
        let ghost values = self.values();
        let mut entries: Vec<(String, V)> = Vec::new();
        std::mem::swap(&mut entries, &mut self.entries);
        match position {
            Some(i) => {
                entries.set(i, (name, value));
                proof {
                    assert(entry_names(entries@) =~= names);
                    assert(entry_values(entries@) =~= values.update(i as int, value));
                    lemma_replaced(names, values, i as int, value);
                }
            },
            None => {
                entries.push((name, value));
                proof {
                    assert(entry_names(entries@) =~= names.push(name@));
                    assert(entry_values(entries@) =~= values.push(value));
                    lemma_appended(names, values, name@, value);
                }
            },
        }
        self.entries = entries;
    }
}

proof fn lemma_replaced<V>(names: Seq<Seq<char>>, values: Seq<V>, i: int, value: V)
    requires
        names.no_duplicates(),
        names.len() == values.len(),
        0 <= i < names.len(),
    ensures
        table_map(names, values.update(i, value)) == table_map(names, values).insert(
            names[i],
            value,
        ),
{
    assert(names.contains(names[i]));
    assert(table_map(names, values.update(i, value)) =~= table_map(names, values).insert(
        names[i],
        value,
    ));
}

proof fn lemma_appended<V>(names: Seq<Seq<char>>, values: Seq<V>, name: Seq<char>, value: V)
    requires
        names.no_duplicates(),
        names.len() == values.len(),
        !names.contains(name),
    ensures
        names.push(name).no_duplicates(),
        table_map(names.push(name), values.push(value)) == table_map(names, values).insert(
            name,
            value,
        ),
{
    let more = names.push(name);
    assert(more[names.len() as int] == name);
    assert forall|other: Seq<char>|
        more.contains(other) <==> names.contains(other) || other == name by {
        if names.contains(other) {
            assert(more[names.index_of(other)] == other);
        }
    }
    assert forall|other: Seq<char>| names.contains(other) implies more.index_of(other)
        == names.index_of(other) by {
        assert(more[names.index_of(other)] == other);
    }
    assert(table_map(more, values.push(value)) =~= table_map(names, values).insert(name, value));
}

/// A table of distinct names gives for each of them the value at its place, and has no
/// other.
pub proof fn law_values_of_names<V>(names: Seq<Seq<char>>, values: Seq<V>)
    requires
        names.no_duplicates(),
        names.len() == values.len(),
    ensures
        forall|i: int|
            0 <= i < names.len() ==> table_map(names, values).contains_key(#[trigger] names[i])
                && table_map(names, values)[names[i]] == values[i],
        forall|name: Seq<char>| #[trigger]
            table_map(names, values).contains_key(name) ==> names.contains(name),
{
    assert forall|i: int| 0 <= i < names.len() implies table_map(names, values).contains_key(
        #[trigger] names[i],
    ) && table_map(names, values)[names[i]] == values[i] by {
        assert(names.contains(names[i]));
        assert(names.index_of(names[i]) == i);
    }
}

} // verus!
