//! A palette: packed colours by number.

use std::collections::HashMap;
use vstd::prelude::*;

verus! {

/// `HashMap::get_mut`: the value that `map` holds under `key`, open for
/// writing, or `None` where it holds none. What is written through the
/// reference is the value under `key` afterwards, and nothing else in the
/// map changes.
#[verifier::external_body]
fn value_mut(map: &mut HashMap<usize, u32>, key: usize) -> (found: Option<&mut u32>)
    ensures
        match found {
            Some(value) => old(map)@.contains_key(key) && *value == old(map)@[key] && final(map)@
                == old(map)@.insert(key, *final(value)),
            None => !old(map)@.contains_key(key) && final(map)@ == old(map)@,
        },
{
    map.get_mut(&key)
}

/// A palette of a limited number of colours, each under a number.
pub struct ColorMap(HashMap<usize, u32>);

impl View for ColorMap {
    type V = Map<usize, u32>;

    closed spec fn view(&self) -> Map<usize, u32> {
        self.0@
    }
}

impl ColorMap {
    /// A palette without colours.
    pub fn new() -> (palette: Self)
        ensures
            palette@ == Map::<usize, u32>::empty(),
    {
        Self(HashMap::new())
    }

    /// Puts `value` under `key`, and gives back the colour that was under
    /// `key` before, if there was one.
    pub fn add(&mut self, key: usize, value: u32) -> (replaced: Option<u32>)
        ensures
            final(self)@ == old(self)@.insert(key, value),
            replaced == if old(self)@.contains_key(key) {
                Some(old(self)@[key])
            } else {
                None
            },
    {
        self.0.insert(key, value)
    }

    /// The colour under `key`, if there is one.
    pub fn get(&self, key: usize) -> (found: Option<&u32>)
        ensures
            found == if self@.contains_key(key) {
                Some(&self@[key])
            } else {
                None
            },
    {
        self.0.get(&key)
    }

    /// The colour under `key`, open for writing, if there is one.
    ///
    /// What is written through the reference is the colour under `key`
    /// afterwards; no other colour changes.
    pub fn get_mut(&mut self, key: usize) -> (found: Option<&mut u32>)
        ensures
            match found {
                Some(value) => old(self)@.contains_key(key) && *value == old(self)@[key]
                    && final(self)@ == old(self)@.insert(key, *final(value)),
                None => !old(self)@.contains_key(key) && final(self)@ == old(self)@,
            },
    {
        value_mut(&mut self.0, key)
    }
}

} // verus!
