//! Locations: a Wikidata item and where it is.
//!
//! The coordinate itself is a type parameter: the library never computes
//! with it, it only stores, compares by identity and hands it back.

use vstd::prelude::*;

verus! {

/// A Wikidata item id such as "Q42".
#[derive(Debug, PartialEq, Eq, Hash)]
pub struct ItemId(pub String);

impl ItemId {
    pub fn new(id: String) -> (r: Self)
        ensures
            r.0 == id,
    {
        ItemId(id)
    }
}

impl Clone for ItemId {
    fn clone(&self) -> (r: Self)
        ensures
            r == *self,
    {
        ItemId(self.0.clone())
    }
}

/// Returned when a coordinate is out of range or not finite.
#[derive(Debug, Clone, Copy, PartialEq, Eq, Structural)]
pub struct CoordinateError;

/// A Wikidata item and its coordinate.
#[derive(Debug, PartialEq)]
pub struct Location<C> {
    pub item_id: ItemId,
    pub coordinate: C,
}

impl<C: Copy> Location<C> {
    pub fn new(item_id: ItemId, coordinate: C) -> (r: Self)
        ensures
            r.item_id == item_id,
            r.coordinate == coordinate,
    {
        Location { item_id, coordinate }
    }
}

impl<C: Copy> Clone for Location<C> {
    fn clone(&self) -> (r: Self)
        ensures
            r == *self,
    {
        Location { item_id: self.item_id.clone(), coordinate: self.coordinate }
    }
}

} // verus!
