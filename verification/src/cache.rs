//! The types whose metatables have been registered.

use std::collections::HashMap;

use vstd::prelude::*;

use crate::value::TypeKey;

verus! {

/// How many types a metatable cache has room for.
pub const CACHE_CAPACITY: usize = 32;

/// The types whose metatables have been registered. It has room for a fixed number of them, so
/// that no entry ever moves.
#[derive(Debug)]
pub struct MetatableCache {
    keys: HashMap<u64, u8>,
}

impl MetatableCache {
    pub closed spec fn view(&self) -> Set<TypeKey> {
        self.keys@.dom()
    }

    pub fn new() -> (r: MetatableCache)
        ensures
            r@ == Set::<TypeKey>::empty(),
            r@.finite(),
    {
        let r = MetatableCache { keys: HashMap::with_capacity(CACHE_CAPACITY) };
        assert(r@ =~= Set::<TypeKey>::empty());
        r
    }

    /// There is room for another type.
    pub fn has_room(&self) -> (b: bool)
        ensures
            b == (self@.len() < CACHE_CAPACITY),
    {
        broadcast use vstd::std_specs::hash::group_hash_axioms;

        self.keys.len() < CACHE_CAPACITY
    }

    /// There is room for another type once the type `key` has been noted.
    pub fn has_room_after(&self, key: TypeKey) -> (b: bool)
        ensures
            b == (self@.insert(key).len() < CACHE_CAPACITY),
    {
        broadcast use vstd::std_specs::hash::group_hash_axioms;

        if self.contains(key) {
            assert(self@.insert(key) =~= self@);
            self.keys.len() < CACHE_CAPACITY
        } else {
            self.keys.len() < CACHE_CAPACITY - 1
        }
    }

    pub fn contains(&self, key: TypeKey) -> (b: bool)
        ensures
            b == self@.contains(key),
    {
        broadcast use vstd::std_specs::hash::group_hash_axioms;

        self.keys.contains_key(&key)
    }

    /// Notes the type `key`.
    pub fn insert(&mut self, key: TypeKey)
        requires
            old(self)@.len() < CACHE_CAPACITY,
        ensures
            final(self)@ == old(self)@.insert(key),
    {
        broadcast use vstd::std_specs::hash::group_hash_axioms;

        let _ = self.keys.insert(key, 0);
        assert(self@ =~= old(self)@.insert(key));
    }
}

} // verus!
