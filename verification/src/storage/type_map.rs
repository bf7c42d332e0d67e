use super::type_info::TypeInfo;
use hashbrown::hash_map::DefaultHashBuilder;
use hashbrown::HashMap;
use std::hash::{BuildHasher, BuildHasherDefault, Hasher};
use vstd::prelude::*;

verus! {

/// A hasher for keys that are already well spread: the one integer written
/// to it is the hash.
#[derive(Default)]
pub struct TypeIdHasher {
    hash: u64,
}

impl TypeIdHasher {
    /// The hash as it stands.
    pub closed spec fn digest(&self) -> u64 {
        self.hash
    }

    /// Makes `hash` the hash, whatever it was.
    fn keep(&mut self, hash: u64)
        ensures
            final(self).digest() == hash,
    {
        self.hash = hash;
    }
}

/// `Hasher::write` and `Hasher::finish` of hashbrown's default hasher, on a
/// fresh one: the hash of `bytes` taken the general way. Which keys that
/// hasher has goes by the features it is built with, and which steps it
/// takes by the instructions of the target, so the value is not the same
/// everywhere and nothing is claimed of it.
#[verifier::external_body]
fn general_hash(bytes: &[u8]) -> u64 {
    let mut hasher = <DefaultHashBuilder as BuildHasher>::Hasher::default();
    hasher.write(bytes);
    hasher.finish()
}

impl Hasher for TypeIdHasher {
    fn write_u64(&mut self, n: u64)
        ensures
            final(self).digest() == n,
    {
        self.hash = n;
    }

    fn write_u128(&mut self, n: u128)
        ensures
            final(self).digest() == n % 0x1_0000_0000_0000_0000,
    {
        self.hash = (n & 0xffff_ffff_ffff_ffff) as u64;
        assert(n & 0xffff_ffff_ffff_ffff == n % 0x1_0000_0000_0000_0000) by (bit_vector);
    }

    /// Takes the hash of `bytes` from the general hasher: the way in for
    /// keys that are no single integer.
    fn write(&mut self, bytes: &[u8]) {
        let hash = general_hash(bytes);
        self.keep(hash);
    }

    fn finish(&self) -> (h: u64)
        ensures
            h == self.digest(),
    {
        self.hash
    }
}

/// A map from type descriptors to positions, keyed by identity.
///
/// It is a `hashbrown::HashMap` hashed by `TypeIdHasher`. What is mapped to
/// lives in a vector beside the map; the map holds where.
#[verifier::external_body]
pub struct TypeMap {
    inner: HashMap<TypeInfo, usize, BuildHasherDefault<TypeIdHasher>>,
}

/// What a `TypeMap` holds: for each identity that is a key, its position.
pub uninterp spec fn type_map_entries(m: TypeMap) -> Map<u128, usize>;

impl TypeMap {
    /// `HashMap::default`: a map without entries.
    #[verifier::external_body]
    pub(crate) fn new() -> (m: TypeMap)
        ensures
            type_map_entries(m) == no_entries(),
    {
        TypeMap { inner: HashMap::default() }
    }

    /// `HashMap::insert`: `ty` is mapped to `position` afterwards and the
    /// other entries stay; the position that `ty` had before comes back.
    #[verifier::external_body]
    pub(crate) fn insert(&mut self, ty: TypeInfo, position: usize) -> (before: Option<usize>)
        ensures
            type_map_entries(*final(self)) == type_map_entries(*old(self)).insert(
                ty.spec_id(),
                position,
            ),
            before == lookup(type_map_entries(*old(self)), ty.spec_id()),
    {
        self.inner.insert(ty, position)
    }

    /// `HashMap::get`: the position of `ty`, if it is a key.
    #[verifier::external_body]
    pub(crate) fn get(&self, ty: &TypeInfo) -> (position: Option<usize>)
        ensures
            position == lookup(type_map_entries(*self), ty.spec_id()),
    {
        self.inner.get(ty).copied()
    }

    /// `HashMap::remove`: `ty` is no key afterwards and the other entries
    /// stay; the position that `ty` had comes back.
    #[verifier::external_body]
    pub(crate) fn remove(&mut self, ty: &TypeInfo) -> (before: Option<usize>)
        ensures
            type_map_entries(*final(self)) == type_map_entries(*old(self)).remove(ty.spec_id()),
            before == lookup(type_map_entries(*old(self)), ty.spec_id()),
    {
        self.inner.remove(ty)
    }
}

/// The entries of a map that holds nothing.
pub open spec fn no_entries() -> Map<u128, usize> {
    Map::empty()
}

/// The value of `key` in `entries`, if it has one.
pub open spec fn lookup(entries: Map<u128, usize>, key: u128) -> Option<usize> {
    if entries.contains_key(key) {
        Some(entries[key])
    } else {
        None
    }
}

} // verus!
