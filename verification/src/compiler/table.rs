//! A table from names to values, filled in the order of definition.

use vstd::prelude::*;

verus! {

/// One entry of a table.
#[derive(Debug)]
pub struct Named<T> {
    pub name: String,
    pub value: T,
}

/// The map that a sequence of entries stands for: the first entry under a
/// name stays, a later one of the same name counts for nothing.
pub open spec fn entries_map<T>(entries: Seq<Named<T>>) -> Map<Seq<char>, T>
    decreases entries.len(),
{
    if entries.len() == 0 {
        Map::empty()
    } else {
        let before = entries_map(entries.drop_last());
        if before.contains_key(entries.last().name@) {
            before
        } else {
            before.insert(entries.last().name@, entries.last().value)
        }
    }
}

/// A name that no entry bears is not in the map.
pub proof fn lemma_entries_map_absent<T>(entries: Seq<Named<T>>, name: Seq<char>)
    requires
        forall|j: int| 0 <= j < entries.len() ==> entries[j].name@ != name,
    ensures
        !entries_map(entries).contains_key(name),
    decreases entries.len(),
{
    if entries.len() > 0 {
        lemma_entries_map_absent(entries.drop_last(), name);
    }
}

/// The map holds, under a name, the value of the first entry that bears it.
pub proof fn lemma_entries_map_first<T>(entries: Seq<Named<T>>, i: int, name: Seq<char>)
    requires
        0 <= i < entries.len(),
        entries[i].name@ == name,
        forall|j: int| 0 <= j < i ==> entries[j].name@ != name,
    ensures
        entries_map(entries).contains_key(name),
        entries_map(entries)[name] == entries[i].value,
    decreases entries.len(),
{
    if i < entries.len() - 1 {
        lemma_entries_map_first(entries.drop_last(), i, name);
    } else {
        lemma_entries_map_absent(entries.drop_last(), name);
    }
}

/// A table from names to values. It only grows: what stands under a name
/// stays there, and a second value under the same name is refused.
#[derive(Debug)]
pub struct Table<T> {
    entries: Vec<Named<T>>,
}

impl<T> View for Table<T> {
    type V = Map<Seq<char>, T>;

    closed spec fn view(&self) -> Map<Seq<char>, T> {
        entries_map(self.entries@)
    }
}

impl<T> Table<T> {
    /// The empty table.
    pub fn new() -> (r: Table<T>)
        ensures
            r@ == Map::<Seq<char>, T>::empty(),
    {
        Table { entries: Vec::new() }
    }

    /// Puts `value` under `name`, unless the name is taken: then the table
    /// stays as it is. Tells whether the value was put in.
    pub fn insert(&mut self, name: String, value: T) -> (inserted: bool)
        ensures
            inserted == !old(self)@.contains_key(name@),
            inserted ==> final(self)@ == old(self)@.insert(name@, value),
            !inserted ==> final(self)@ == old(self)@,
    {
        if self.get(&name).is_some() {
            return false;
        }
        let ghost before = self.entries@;
        self.entries.push(Named { name, value });
        assert(self.entries@.drop_last() =~= before);
        true
    }

    /// The value under `name`, if there is one.
    pub fn get(&self, name: &String) -> (r: Option<&T>)
        ensures
            r is Some <==> self@.contains_key(name@),
            r matches Some(v) ==> *v == self@[name@],
    {
        let mut i: usize = 0;
        while i < self.entries.len()
            invariant
                i <= self.entries.len(),
                forall|j: int| 0 <= j < i ==> self.entries@[j].name@ != name@,
            decreases self.entries.len() - i,
        {
            if self.entries[i].name == *name {
                proof {
                    lemma_entries_map_first(self.entries@, i as int, name@);
                }
                return Some(&self.entries[i].value);
            }
            i += 1;
        }
        proof {
            lemma_entries_map_absent(self.entries@, name@);
        }
        None
    }

    /// The entries in the order in which they were put in.
    pub fn entries(&self) -> (r: &Vec<Named<T>>)
        ensures
            entries_map(r@) == self@,
    {
        &self.entries
    }
}

} // verus!
