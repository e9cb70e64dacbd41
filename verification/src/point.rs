//! A pair of coordinates.

use vstd::prelude::*;

verus! {

/// A point with two coordinates of one type.
pub struct Point<T> {
    /// The first coordinate.
    pub x: T,
    /// The second coordinate.
    pub y: T,
}

impl<T> Point<T> {
    /// The first coordinate.
    pub fn x(&self) -> (x: &T)
        ensures
            *x == self.x,
    {
        &self.x
    }
}

impl Point<i32> {
    /// The second coordinate.
    pub fn y(&self) -> (y: i32)
        ensures
            y == self.y,
    {
        self.y
    }
}

} // verus!
