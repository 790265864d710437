//! A map from names to values whose values can be changed in place.

use vstd::prelude::*;
use vstd::hash_map::StringHashMap;

verus! {

/// A map from names to values. A name, once there, stays there.
pub struct Table<V> {
    index: StringHashMap<usize>,
    slots: Vec<V>,
}

impl<V> View for Table<V> {
    type V = Map<Seq<char>, V>;

    closed spec fn view(&self) -> Map<Seq<char>, V> {
        Map::new(
            |name: Seq<char>| self.index@.contains_key(name),
            |name: Seq<char>| self.slots@[self.index@[name] as int],
        )
    }
}

impl<V> Table<V> {
    /// Each name has a slot of its own.
    pub closed spec fn wf(&self) -> bool {
        &&& forall|name: Seq<char>| #[trigger]
            self.index@.contains_key(name) ==> self.index@[name] < self.slots@.len()
        &&& forall|a: Seq<char>, b: Seq<char>|
            #![trigger self.index@[a], self.index@[b]]
            self.index@.contains_key(a) && self.index@.contains_key(b) && self.index@[a]
                == self.index@[b] ==> a == b
    }

    /// A table without any name.
    pub fn new() -> (table: Table<V>)
        ensures
            table.wf(),
            table@ == Map::<Seq<char>, V>::empty(),
    {
        Table { index: StringHashMap::new(), slots: Vec::new() }
    }

    /// The value of a name.
    pub fn get(&self, name: &str) -> (value: Option<&V>)
        requires
            self.wf(),
        ensures
            match value {
                Some(v) => self@.contains_key(name@) && *v == self@[name@],
                None => !self@.contains_key(name@),
            },
    {
        match self.index.get(name) {
            Some(i) => {
                assert(self.index@.contains_key(name@));
                Some(&self.slots[*i])
            },
            None => None,
        }
    }

    /// The value of a name, to be changed in place.
    pub fn get_mut(&mut self, name: &str) -> (value: Option<&mut V>)
        requires
            old(self).wf(),
        ensures
            final(self).wf(),
            match value {
                Some(v) => {
                    &&& old(self)@.contains_key(name@)
                    &&& *v == old(self)@[name@]
                    &&& final(self)@ == old(self)@.insert(name@, *final(v))
                },
                None => !old(self)@.contains_key(name@) && final(self)@ == old(self)@,
            },
    {
        match self.index.get(name) {
            Some(i) => {
                let i: usize = *i;
                assert(self.index@.contains_key(name@));
                Some(&mut self.slots[i])
            },
            None => None,
        }
    }

    /// Gives a value to a name that has none yet.
    pub fn insert(&mut self, name: String, value: V)
        requires
            old(self).wf(),
            !old(self)@.contains_key(name@),
        ensures
            final(self).wf(),
            final(self)@ == old(self)@.insert(name@, value),
    {
        let slot: usize = self.slots.len();
        self.slots.push(value);
        self.index.insert(name, slot);
    }
}

} // verus!
