//! Hash-table indexes used by the registry.
//!
//! The registry keeps two hash tables: one from a system's type token to its
//! slot in the system pool, one from a workload label to its slot in the
//! workload list.  Both are `hashbrown` maps held behind opaque wrappers;
//! their contents are named by uninterpreted spec functions, and every
//! method the scheduler calls carries a contract over those names.

use vstd::prelude::*;

verus! {

/// Table from a raw type token to a pool slot.
#[verifier::external_body]
pub struct TypeIdMap {
    inner: hashbrown::HashMap<u64, usize>,
}

/// What a [`TypeIdMap`] holds.
pub uninterp spec fn type_id_map_of(m: TypeIdMap) -> Map<u64, usize>;

impl TypeIdMap {
    /// Relies on hashbrown::HashMap::new; the contents are pinned down by
    /// the `clear` that follows.
    #[verifier::external_body]
    fn raw() -> TypeIdMap {
        TypeIdMap { inner: hashbrown::HashMap::new() }
    }

    /// Relies on hashbrown::HashMap::clear: removes every key-value pair.
    #[verifier::external_body]
    fn clear(&mut self)
        ensures
            type_id_map_of(*final(self)).dom().finite() && type_id_map_of(*final(self)).len() == 0,
    {
        self.inner.clear();
    }

    /// An empty table.
    pub fn new() -> (r: TypeIdMap)
        ensures
            type_id_map_of(r) == Map::<u64, usize>::empty(),
    {
        let mut m = TypeIdMap::raw();
        m.clear();
        m
    }

    /// Relies on hashbrown::HashMap::get: the value stored under the key,
    /// if any.
    #[verifier::external_body]
    pub fn get(&self, key: u64) -> (r: Option<usize>)
        ensures
            match r {
                Some(v) => type_id_map_of(*self).contains_key(key)
                    && type_id_map_of(*self)[key] == v,
                None => !type_id_map_of(*self).contains_key(key),
            },
    {
        self.inner.get(&key).copied()
    }

    /// Relies on hashbrown::HashMap::insert: stores the value under the key,
    /// replacing any previous value.
    #[verifier::external_body]
    pub fn insert(&mut self, key: u64, value: usize)
        ensures
            type_id_map_of(*final(self)) == type_id_map_of(*old(self)).insert(key, value),
    {
        self.inner.insert(key, value);
    }
}

/// Table from a workload label to a slot in the workload list.
#[verifier::external_body]
pub struct LabelMap {
    inner: hashbrown::HashMap<String, usize>,
}

/// What a [`LabelMap`] holds.
pub uninterp spec fn label_map_of(m: LabelMap) -> Map<Seq<char>, usize>;

impl LabelMap {
    /// Relies on hashbrown::HashMap::new; the contents are pinned down by
    /// the `clear` that follows.
    #[verifier::external_body]
    fn raw() -> LabelMap {
        LabelMap { inner: hashbrown::HashMap::new() }
    }

    /// Relies on hashbrown::HashMap::clear: removes every key-value pair.
    #[verifier::external_body]
    fn clear(&mut self)
        ensures
            label_map_of(*final(self)).dom().finite() && label_map_of(*final(self)).len() == 0,
    {
        self.inner.clear();
    }

    /// An empty table.
    pub fn new() -> (r: LabelMap)
        ensures
            label_map_of(r) == Map::<Seq<char>, usize>::empty(),
    {
        let mut m = LabelMap::raw();
        m.clear();
        m
    }

    /// Relies on hashbrown::HashMap::get: the value stored under the key,
    /// if any.
    #[verifier::external_body]
    pub fn get(&self, key: &String) -> (r: Option<usize>)
        ensures
            match r {
                Some(v) => label_map_of(*self).contains_key(key@)
                    && label_map_of(*self)[key@] == v,
                None => !label_map_of(*self).contains_key(key@),
            },
    {
        self.inner.get(key).copied()
    }

    /// Relies on hashbrown::HashMap::contains_key: whether the key is
    /// present.
    #[verifier::external_body]
    pub fn contains_key(&self, key: &String) -> (r: bool)
        ensures
            r == label_map_of(*self).contains_key(key@),
    {
        self.inner.contains_key(key)
    }

    /// Relies on hashbrown::HashMap::insert: stores the value under the key,
    /// replacing any previous value.
    #[verifier::external_body]
    pub fn insert(&mut self, key: String, value: usize)
        ensures
            label_map_of(*final(self)) == label_map_of(*old(self)).insert(key@, value),
    {
        self.inner.insert(key, value);
    }
}

} // verus!
