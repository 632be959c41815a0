//! Rectangle for laying out rooms.

use vstd::prelude::*;
use crate::components::Position;

verus! {

/// A rectangle on the map from `(left, top)` to `(right, bottom)`.
#[derive(Clone, Copy, PartialEq, Eq, Structural, Debug)]
pub struct Rectangle {
    /// Left x coordinate of the rectangle.
    pub left: i32,
    /// Top y coordinate of the rectangle.
    pub top: i32,
    /// Right x coordinate of the rectangle.
    pub right: i32,
    /// Bottom y coordinate of the rectangle.
    pub bottom: i32,
}

impl Rectangle {
    /// Whether two rectangles share a point; touching edges count.
    pub open spec fn spec_overlaps(self, other: Rectangle) -> bool {
        self.left <= other.right && self.right >= other.left && self.top <= other.bottom
            && self.bottom >= other.top
    }

    /// The midpoint of the rectangle, each coordinate rounded towards zero.
    pub open spec fn spec_center(self) -> Position {
        Position {
            x: (if self.left + self.right >= 0 {
                (self.left + self.right) / 2
            } else {
                -((-(self.left + self.right)) / 2)
            }) as i32,
            y: (if self.top + self.bottom >= 0 {
                (self.top + self.bottom) / 2
            } else {
                -((-(self.top + self.bottom)) / 2)
            }) as i32,
        }
    }

    /// Creates the rectangle with its top left corner at `(x, y)` and the given
    /// `width` and `height`.
    pub fn new(x: i32, y: i32, width: i32, height: i32) -> (r: Self)
        requires
            i32::MIN <= x + width <= i32::MAX,
            i32::MIN <= y + height <= i32::MAX,
        ensures
            r.left == x,
            r.top == y,
            r.right == x + width,
            r.bottom == y + height,
    {
        Rectangle { left: x, top: y, right: x + width, bottom: y + height }
    }

    /// Whether the rectangle overlaps with `other`.
    pub fn overlaps(&self, other: &Rectangle) -> (b: bool)
        ensures
            b == self.spec_overlaps(*other),
    {
        self.left <= other.right && self.right >= other.left && self.top <= other.bottom
            && self.bottom >= other.top
    }

    /// The center of the rectangle.
    pub fn center(&self) -> (c: Position)
        requires
            i32::MIN <= self.left + self.right <= i32::MAX,
            i32::MIN <= self.top + self.bottom <= i32::MAX,
        ensures
            c == self.spec_center(),
    {
        let x: i32 = (self.left + self.right) / 2;
        let y: i32 = (self.top + self.bottom) / 2;
        Position { x, y }
    }
}

/// Overlapping is symmetric.
pub proof fn lemma_overlaps_symmetric(a: Rectangle, b: Rectangle)
    ensures
        a.spec_overlaps(b) == b.spec_overlaps(a),
{
}

/// A rectangle whose corners are in order overlaps itself.
pub proof fn lemma_overlaps_reflexive(a: Rectangle)
    requires
        a.left <= a.right,
        a.top <= a.bottom,
    ensures
        a.spec_overlaps(a),
{
}

} // verus!
