use vstd::prelude::*;
use std::collections::HashMap;
use std::marker::PhantomData;
use crate::random_t::random_between;

verus! {

/// A source of facts about the type `T`.
pub struct Fact<T: ?Sized> {
    _data: PhantomData<T>,
}

/// The fact at `index` of three, counted from 0.
pub open spec fn spec_pick(facts: [&'static str; 3], index: int) -> &'static str {
    facts@[index]
}

/// The fact at `index` of three, counted from 0.
pub fn pick(facts: [&'static str; 3], index: usize) -> (res: &'static str)
    requires
        index <= 2,
    ensures
        res == spec_pick(facts, index as int),
{
    facts[index]
}

/// What is known about `String`.
pub open spec fn spec_string_facts() -> [&'static str; 3] {
    [
        "String is a wrapper around a Vec<u8>",
        "String doesn't copy data it holds when changing it",
        "String, just like str, guarantees valid UTF-8",
    ]
}

/// What is known about slices.
pub open spec fn spec_slice_facts() -> [&'static str; 3] {
    [
        "Slices are only accessible through a pointer",
        "Slices can refer to data from any source: heap, stack, read-only memory",
        "Slices are always a continuous block of data",
    ]
}

/// What is known about `HashMap`.
pub open spec fn spec_hash_map_facts() -> [&'static str; 3] {
    [
        "HashMap requires the key to implement Hash trait",
        "HashMap takes the owned value of the key to set an item, but to get an item - a borrow is enough",
        "HashMap has O(1) lookup, but it has a big constant because of hashing, so sometimes searching a Vec can be faster",
    ]
}

impl<T: ?Sized> Fact<T> {
    /// A source of facts about `T`; it holds no data.
    pub fn new() -> (res: Self) {
        Fact { _data: PhantomData }
    }
}

impl Fact<String> {
    /// One of the three facts about `String`, picked by chance.
    pub fn fact(&self) -> (res: &'static str)
        ensures
            exists|index: int| 0 <= index <= 2 && res == spec_pick(spec_string_facts(), index),
    {
        let facts = [
            "String is a wrapper around a Vec<u8>",
            "String doesn't copy data it holds when changing it",
            "String, just like str, guarantees valid UTF-8",
        ];
        assert(facts == spec_string_facts());
        pick(facts, random_between(0, 2))
    }
}

impl<T> Fact<[T]> {
    /// One of the three facts about slices, picked by chance.
    pub fn fact(&self) -> (res: &'static str)
        ensures
            exists|index: int| 0 <= index <= 2 && res == spec_pick(spec_slice_facts(), index),
    {
        let facts = [
            "Slices are only accessible through a pointer",
            "Slices can refer to data from any source: heap, stack, read-only memory",
            "Slices are always a continuous block of data",
        ];
        assert(facts == spec_slice_facts());
        pick(facts, random_between(0, 2))
    }
}

impl<K, V> Fact<HashMap<K, V>> {
    /// One of the three facts about `HashMap`, picked by chance.
    pub fn fact(&self) -> (res: &'static str)
        ensures
            exists|index: int| 0 <= index <= 2 && res == spec_pick(spec_hash_map_facts(), index),
    {
        let facts = [
            "HashMap requires the key to implement Hash trait",
            "HashMap takes the owned value of the key to set an item, but to get an item - a borrow is enough",
            "HashMap has O(1) lookup, but it has a big constant because of hashing, so sometimes searching a Vec can be faster",
        ];
        assert(facts == spec_hash_map_facts());
        pick(facts, random_between(0, 2))
    }
}

} // verus!
