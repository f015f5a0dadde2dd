use vstd::prelude::*;
use std::collections::HashMap;

verus! {

broadcast use vstd::std_specs::hash::group_hash_axioms;

/// What a cache knows of one asset id.
#[derive(Clone, Copy, Debug, PartialEq, Eq)]
pub enum AssetLookup<T> {
    /// Nothing was recorded for the id yet: it has to be decoded.
    Unknown,
    /// The id was decoded once and had no asset.
    Missing,
    /// The id was decoded once and this is what it held.
    Present(T),
}

impl<T> AssetLookup<T> {
    /// Nothing was recorded for the id yet.
    pub fn is_unknown(&self) -> (r: bool)
        ensures
            r == (*self is Unknown),
    {
        match self {
            AssetLookup::Unknown => true,
            _ => false,
        }
    }
}

/// What `m` holds for `id`, if it was recorded with an asset.
pub open spec fn known<T>(m: Map<u32, Option<T>>, id: u32) -> Option<T> {
    if m.contains_key(id) {
        m[id]
    } else {
        None
    }
}

/// The lookup that a cache with contents `m` answers for `id`.
pub open spec fn lookup_of<T>(m: Map<u32, Option<T>>, id: u32) -> AssetLookup<T> {
    if !m.contains_key(id) {
        AssetLookup::Unknown
    } else {
        match m[id] {
            Some(v) => AssetLookup::Present(v),
            None => AssetLookup::Missing,
        }
    }
}

/// A memo table from asset ids to what decoding them gave, failures included.
/// An entry, once recorded, is never replaced.
pub struct AssetCache<T> {
    entries: HashMap<u32, Option<T>>,
}

impl<T> View for AssetCache<T> {
    type V = Map<u32, Option<T>>;

    closed spec fn view(&self) -> Map<u32, Option<T>> {
        self.entries@
    }
}

impl<T: Copy> AssetCache<T> {
    pub fn new() -> (r: AssetCache<T>)
        ensures
            r@ == Map::<u32, Option<T>>::empty(),
    {
        AssetCache { entries: HashMap::new() }
    }

    /// What is known of `id`.
    pub fn lookup(&self, id: u32) -> (r: AssetLookup<T>)
        ensures
            r == lookup_of(self@, id),
    {
        match self.entries.get(&id) {
            Some(v) => match *v {
                Some(a) => AssetLookup::Present(a),
                None => AssetLookup::Missing,
            },
            None => AssetLookup::Unknown,
        }
    }

    /// The asset recorded for `id`, if any.
    pub fn get(&self, id: u32) -> (r: Option<T>)
        ensures
            r == known(self@, id),
    {
        match self.entries.get(&id) {
            Some(v) => *v,
            None => None,
        }
    }

    /// Records what decoding `id` gave; an id already recorded keeps its first entry.
    pub fn record(&mut self, id: u32, value: Option<T>)
        ensures
            final(self)@ == if old(self)@.contains_key(id) {
                old(self)@
            } else {
                old(self)@.insert(id, value)
            },
    {
        if !self.entries.contains_key(&id) {
            self.entries.insert(id, value);
        }
    }
}

} // verus!
