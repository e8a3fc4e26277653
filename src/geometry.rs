//! Rectangles and points in whole pixels.
use vstd::prelude::*;

verus! {

/// An axis-aligned rectangle: origin at its top-left corner, then its size.
#[derive(Clone, Copy, Debug, PartialEq, Eq, Structural)]
pub struct Rect {
    pub x: u64,
    pub y: u64,
    pub w: u64,
    pub h: u64,
}

/// A point in window coordinates; it may lie left of or above the window.
#[derive(Clone, Copy, Debug, PartialEq, Eq, Structural)]
pub struct Point {
    pub x: i64,
    pub y: i64,
}

/// The point lies inside the rectangle: the left and top edges belong to it,
/// the right and bottom edges do not.
pub open spec fn spec_contains(r: Rect, p: Point) -> bool {
    &&& r.x <= p.x < r.x + r.w
    &&& r.y <= p.y < r.y + r.h
}

impl Rect {
    pub fn new(x: u64, y: u64, w: u64, h: u64) -> (r: Rect)
        ensures
            r == (Rect { x, y, w, h }),
    {
        Rect { x, y, w, h }
    }

    /// Point-in-rectangle test, exact over the integers.
    pub fn contains(&self, p: Point) -> (r: bool)
        ensures
            r == spec_contains(*self, p),
    {
        if p.x < 0 || p.y < 0 {
            return false;
        }
        let px = p.x as u64;
        let py = p.y as u64;
        self.x <= px && px - self.x < self.w && self.y <= py && py - self.y < self.h
    }
}

impl Point {
    pub fn new(x: i64, y: i64) -> (r: Point)
        ensures
            r == (Point { x, y }),
    {
        Point { x, y }
    }
}

} // verus!
