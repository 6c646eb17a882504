//! Commons images shown to players.

use vstd::prelude::*;
use crate::coordinates::ItemId;

verus! {

/// A single image associated with a location.
#[derive(Debug, PartialEq)]
pub struct Image {
    pub url: String,
    pub thumb_url: String,
    pub width: u32,
    pub height: u32,
}

impl Clone for Image {
    fn clone(&self) -> (r: Self)
        ensures
            r == *self,
    {
        Image {
            url: self.url.clone(),
            thumb_url: self.thumb_url.clone(),
            width: self.width,
            height: self.height,
        }
    }
}

/// All images fetched for one location. Empty sets are valid.
#[derive(Debug, PartialEq)]
pub struct ImageSet {
    pub item_id: ItemId,
    pub images: Vec<Image>,
}

/// A copy of a list of images, element for element.
pub fn clone_images(v: &Vec<Image>) -> (r: Vec<Image>)
    ensures
        r@ == v@,
{
    let mut r: Vec<Image> = Vec::new();
    let mut i: usize = 0;
    while i < v.len()
        invariant
            0 <= i <= v@.len(),
            r@ == v@.take(i as int),
        decreases v@.len() - i,
    {
        r.push(v[i].clone());
        assert(v@.take(i + 1) =~= v@.take(i as int).push(v@[i as int]));
        i = i + 1;
    }
    assert(v@.take(v@.len() as int) =~= v@);
    r
}

} // verus!
