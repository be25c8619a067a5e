use vstd::prelude::*;
use vstd::hash_map::StringHashMap;

verus! {

/// Collects items, some of them under a key, for a `KeyedSlice`.
pub struct KeyedSliceBuilder<T> {
    vec: Vec<T>,
    key_index_map: StringHashMap<usize>,
}

/// Items that are found by their place and, where they have one, by their
/// key.
pub struct KeyedSlice<T> {
    pub arr: Vec<T>,
    pub key_index_map: StringHashMap<usize>,
}

impl<T> KeyedSliceBuilder<T> {
    /// The items collected so far.
    pub closed spec fn items(&self) -> Seq<T> {
        self.vec@
    }

    /// The place of the item of each key.
    pub closed spec fn keys(&self) -> Map<Seq<char>, usize> {
        self.key_index_map@
    }

    pub fn new() -> (builder: Self)
        ensures
            builder.items() == Seq::<T>::empty(),
            builder.keys() == Map::<Seq<char>, usize>::empty(),
    {
        Self { vec: Vec::new(), key_index_map: StringHashMap::new() }
    }

    /// Adds an item without a key and gives its place.
    pub fn add(&mut self, item: T) -> (index: usize)
        ensures
            index == old(self).items().len(),
            final(self).items() == old(self).items().push(item),
            final(self).keys() == old(self).keys(),
    {
        self.vec.push(item);
        let index = self.vec.len() - 1;
        index
    }

    /// Adds an item under `key` and gives its place. A key that was used
    /// before leads to the new item from now on.
    pub fn add_as(&mut self, item: T, key: &'static str) -> (index: usize)
        ensures
            index == old(self).items().len(),
            final(self).items() == old(self).items().push(item),
            final(self).keys() == old(self).keys().insert(key@, index),
    {
        let index = self.add(item);
        self.key_index_map.insert(key.to_owned(), index);
        index
    }

    pub fn build(self) -> (slice: KeyedSlice<T>)
        ensures
            slice.arr@ == self.items(),
            slice.key_index_map@ == self.keys(),
    {
        KeyedSlice { arr: self.vec, key_index_map: self.key_index_map }
    }
}

impl<T> KeyedSlice<T> {
    /// The item under `key`, if the key leads to one.
    pub open spec fn spec_by_key(&self, key: Seq<char>) -> Option<T> {
        if self.key_index_map@.contains_key(key) && self.key_index_map@[key] < self.arr@.len() {
            Some(self.arr@[self.key_index_map@[key] as int])
        } else {
            None
        }
    }

    pub fn empty() -> (slice: Self)
        ensures
            slice.arr@ == Seq::<T>::empty(),
            slice.key_index_map@ == Map::<Seq<char>, usize>::empty(),
    {
        Self { arr: Vec::new(), key_index_map: StringHashMap::with_capacity(0) }
    }

    /// The item at the place `id`, if there is one.
    pub fn by_id(&self, id: usize) -> (item: Option<&T>)
        ensures
            item == if id < self.arr@.len() {
                Some(&self.arr@[id as int])
            } else {
                None
            },
    {
        if id < self.arr.len() {
            Some(&self.arr[id])
        } else {
            None
        }
    }

    /// The item at the place `id`, if there is one, to be changed.
    pub fn by_id_mut(&mut self, id: usize) -> (item: Option<&mut T>)
        ensures
            final(self).key_index_map == old(self).key_index_map,
            match item {
                Some(slot) => {
                    &&& id < old(self).arr@.len()
                    &&& *slot == old(self).arr@[id as int]
                    &&& final(self).arr@ == old(self).arr@.update(id as int, *final(slot))
                },
                None => id >= old(self).arr@.len() && final(self).arr@ == old(self).arr@,
            },
    {
        if id < self.arr.len() {
            Some(&mut self.arr[id])
        } else {
            None
        }
    }

    /// The item under `key`, if the key leads to one.
    pub fn by_key(&self, key: &str) -> (item: Option<&T>)
        ensures
            item == match self.spec_by_key(key@) {
                Some(found) => Some(&found),
                None => None,
            },
    {
        match self.key_index_map.get(key) {
            Some(index) => self.by_id(*index),
            None => None,
        }
    }

    /// The item under `key`, if the key leads to one, to be changed.
    pub fn by_key_mut(&mut self, key: &str) -> (item: Option<&mut T>)
        ensures
            final(self).key_index_map == old(self).key_index_map,
            match item {
                Some(slot) => {
                    let index = old(self).key_index_map@[key@];
                    &&& old(self).spec_by_key(key@) == Some(*slot)
                    &&& final(self).arr@ == old(self).arr@.update(index as int, *final(slot))
                },
                None => old(self).spec_by_key(key@) is None && final(self).arr@ == old(self).arr@,
            },
    {
        let index = match self.key_index_map.get(key) {
            Some(index) => *index,
            None => {
                return None;
            },
        };
        self.by_id_mut(index)
    }
}

} // verus!
