//! An ordered map from identifiers to byte strings of bounded length, kept
//! in one segment.

use crate::error::{Error, ErrorView};
use crate::listing::is_listing;
use crate::record::MAX_SIZE;
use crate::segment::{Region, Segment};
use ic_stable_structures::memory_manager::VirtualMemory;
use ic_stable_structures::storable::Blob;
use ic_stable_structures::{DefaultMemoryImpl, StableBTreeMap};
use vstd::prelude::*;

verus! {

/// A B-tree map of `ic_stable_structures` from `u64` to byte strings of at
/// most 1024 bytes.
#[verifier::external_body]
pub struct ByteTree {
    inner: StableBTreeMap<u64, Blob<1024>, VirtualMemory<DefaultMemoryImpl>>,
}

/// The entries that a tree holds.
pub uninterp spec fn tree_entries(t: ByteTree) -> Map<u64, Seq<u8>>;

/// `StableBTreeMap::init`: the map of the region, or an empty one where the
/// region holds none. Nothing is stated of the entries found.
#[verifier::external_body]
fn tree_init(region: Region) -> (t: ByteTree) {
    ByteTree { inner: StableBTreeMap::init(region.inner) }
}

/// `StableBTreeMap::insert`: the key holds the value afterwards, the other
/// entries stay, and the value that the key held before is returned. The
/// value goes in as a `Blob<1024>`, which takes at most 1024 bytes.
#[verifier::external_body]
fn tree_insert(t: &mut ByteTree, key: u64, value: &[u8]) -> (previous: Option<Vec<u8>>)
    requires
        value@.len() <= 1024,
    ensures
        tree_entries(*final(t)) == tree_entries(*old(t)).insert(key, value@),
        match previous {
            Some(bytes) => tree_entries(*old(t)).contains_key(key) && bytes@ == tree_entries(
                *old(t),
            )[key],
            None => !tree_entries(*old(t)).contains_key(key),
        },
{
    let blob = Blob::<1024>::try_from(value).unwrap();
    t.inner.insert(key, blob).map(|b| b.as_slice().to_vec())
}

/// `StableBTreeMap::get`: the value that the key holds, if it holds one.
#[verifier::external_body]
fn tree_get(t: &ByteTree, key: u64) -> (value: Option<Vec<u8>>)
    ensures
        match value {
            Some(bytes) => tree_entries(*t).contains_key(key) && bytes@ == tree_entries(*t)[key],
            None => !tree_entries(*t).contains_key(key),
        },
{
    t.inner.get(&key).map(|b| b.as_slice().to_vec())
}

/// `StableBTreeMap::remove`: the key holds nothing afterwards, the other
/// entries stay, and the value that the key held is returned.
#[verifier::external_body]
fn tree_remove(t: &mut ByteTree, key: u64) -> (previous: Option<Vec<u8>>)
    ensures
        tree_entries(*final(t)) == tree_entries(*old(t)).remove(key),
        match previous {
            Some(bytes) => tree_entries(*old(t)).contains_key(key) && bytes@ == tree_entries(
                *old(t),
            )[key],
            None => !tree_entries(*old(t)).contains_key(key),
        },
{
    t.inner.remove(&key).map(|b| b.as_slice().to_vec())
}

/// `StableBTreeMap::iter`, collected: every entry once, sorted by key.
#[verifier::external_body]
fn tree_iter(t: &ByteTree) -> (entries: Vec<(u64, Vec<u8>)>)
    ensures
        is_listing(tree_entries(*t), entries.deep_view()),
{
    t.inner.iter().map(|(k, b)| (k, b.as_slice().to_vec())).collect()
}

/// The text of the failure to store a value of more than [`MAX_SIZE`] bytes.
pub open spec fn value_too_large_text() -> Seq<char> {
    "Value is too large"@
}

/// An ordered map from `u64` to byte strings of at most [`MAX_SIZE`] bytes.
pub struct BoundedMap {
    handle: u8,
    tree: ByteTree,
}

impl View for BoundedMap {
    type V = Map<u64, Seq<u8>>;

    closed spec fn view(&self) -> Map<u64, Seq<u8>> {
        tree_entries(self.tree)
    }
}

impl BoundedMap {
    /// The number of the segment that holds the map.
    pub closed spec fn handle(&self) -> u8 {
        self.handle
    }

    /// The map that `segment` holds; an empty one where the segment holds
    /// none.
    pub fn attach(segment: Segment) -> (m: BoundedMap)
        ensures
            m.handle() == segment.handle(),
    {
        let (handle, region) = segment.into_region();
        BoundedMap { handle, tree: tree_init(region) }
    }

    /// The number of the segment that holds the map.
    pub fn segment(&self) -> (n: u8)
        ensures
            n == self.handle(),
    {
        self.handle
    }

    /// Stores `value` under `key` and gives the value that the key held
    /// before. A value of more than [`MAX_SIZE`] bytes is refused, and the
    /// map stays as it is.
    pub fn insert(&mut self, key: u64, value: &[u8]) -> (r: Result<Option<Vec<u8>>, Error>)
        ensures
            final(self).handle() == old(self).handle(),
            match r {
                Ok(previous) => {
                    &&& value@.len() <= MAX_SIZE
                    &&& final(self)@ == old(self)@.insert(key, value@)
                    &&& match previous {
                        Some(bytes) => old(self)@.contains_key(key) && bytes@ == old(self)@[key],
                        None => !old(self)@.contains_key(key),
                    }
                },
                Err(e) => {
                    &&& value@.len() > MAX_SIZE
                    &&& final(self)@ == old(self)@
                    &&& e@ == (ErrorView::InvalidInput { msg: value_too_large_text() })
                },
            },
    {
        if value.len() > MAX_SIZE {
            return Err(Error::invalid_input("Value is too large"));
        }
        Ok(tree_insert(&mut self.tree, key, value))
    }

    /// The value that `key` holds, if it holds one.
    pub fn get(&self, key: u64) -> (value: Option<Vec<u8>>)
        ensures
            match value {
                Some(bytes) => self@.contains_key(key) && bytes@ == self@[key],
                None => !self@.contains_key(key),
            },
    {
        tree_get(&self.tree, key)
    }

    /// Whether `key` holds a value.
    pub fn contains_key(&self, key: u64) -> (b: bool)
        ensures
            b == self@.contains_key(key),
    {
        tree_get(&self.tree, key).is_some()
    }

    /// Takes `key` out of the map and gives the value that it held.
    pub fn remove(&mut self, key: u64) -> (previous: Option<Vec<u8>>)
        ensures
            final(self).handle() == old(self).handle(),
            final(self)@ == old(self)@.remove(key),
            match previous {
                Some(bytes) => old(self)@.contains_key(key) && bytes@ == old(self)@[key],
                None => !old(self)@.contains_key(key),
            },
    {
        tree_remove(&mut self.tree, key)
    }

    /// The entries of the map in ascending order of their keys.
    pub fn entries(&self) -> (entries: Vec<(u64, Vec<u8>)>)
        ensures
            is_listing(self@, entries.deep_view()),
    {
        tree_iter(&self.tree)
    }
}

} // verus!
