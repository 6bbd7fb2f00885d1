//! Positions in space.

use crate::binary64::is_zero;
use crate::binary64::lemma_zero_words;
use crate::binary64::zero;
use crate::binary64::ZERO;
use vstd::prelude::*;

verus! {

/// A position in three-dimensional Cartesian space, in meters from the
/// phase center of the array, each coordinate as a binary64 word.
#[derive(Clone, Copy, Debug, PartialEq, Eq, Structural, Hash)]
pub struct Point {
    pub x: u64,
    pub y: u64,
    pub z: u64,
}

impl Point {
    /// Every coordinate is a zero of either sign.
    pub open spec fn at_origin(self) -> bool {
        zero(self.x) && zero(self.y) && zero(self.z)
    }

    /// The point with the given coordinate words.
    pub fn new(x: u64, y: u64, z: u64) -> (r: Point)
        ensures
            r.x == x,
            r.y == y,
            r.z == z,
    {
        Point { x, y, z }
    }

    /// The phase center itself, where an element stands unless it is placed
    /// elsewhere.
    pub fn origin() -> (r: Point)
        ensures
            r.x == 0,
            r.y == 0,
            r.z == 0,
            r.at_origin(),
    {
        proof {
            lemma_zero_words(ZERO);
        }
        Point { x: ZERO, y: ZERO, z: ZERO }
    }

    /// Tells whether the point is the phase center.
    pub fn is_origin(&self) -> (r: bool)
        ensures
            r == self.at_origin(),
    {
        is_zero(self.x) && is_zero(self.y) && is_zero(self.z)
    }
}

} // verus!
