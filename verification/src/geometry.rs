//! Integer points, sizes and rectangles in logical coordinates.
use vstd::prelude::*;

verus! {

#[derive(Debug, Clone, Copy, PartialEq, Eq, Structural, Default)]
pub struct Point {
    pub x: i32,
    pub y: i32,
}

#[derive(Debug, Clone, Copy, PartialEq, Eq, Structural, Default)]
pub struct Size {
    pub w: i32,
    pub h: i32,
}

#[derive(Debug, Clone, Copy, PartialEq, Eq, Structural, Default)]
pub struct Rectangle {
    pub loc: Point,
    pub size: Size,
}

impl Point {
    pub fn new(x: i32, y: i32) -> (p: Point)
        ensures
            p.x == x,
            p.y == y,
    {
        Point { x, y }
    }
}

impl Size {
    pub fn new(w: i32, h: i32) -> (s: Size)
        ensures
            s.w == w,
            s.h == h,
    {
        Size { w, h }
    }
}

/// Whether the rectangle holds the point (its left and top edges included,
/// its right and bottom edges excluded).
pub open spec fn rect_contains(r: Rectangle, p: Point) -> bool {
    r.loc.x <= p.x < r.loc.x + r.size.w && r.loc.y <= p.y < r.loc.y + r.size.h
}

/// The centre of a rectangle, rounded toward its top-left corner as integer
/// division of the size does.
pub open spec fn rect_center(r: Rectangle) -> (int, int) {
    (r.loc.x + r.size.w / 2, r.loc.y + r.size.h / 2)
}

/// Whether all of a rectangle's edges fit in 32-bit coordinates.
pub open spec fn rect_fits(r: Rectangle) -> bool {
    i32::MIN <= r.loc.x + r.size.w <= i32::MAX && i32::MIN <= r.loc.y + r.size.h <= i32::MAX
        && r.size.w >= 0 && r.size.h >= 0
}

impl Rectangle {
    pub fn new(loc: Point, size: Size) -> (r: Rectangle)
        ensures
            r.loc == loc,
            r.size == size,
    {
        Rectangle { loc, size }
    }

    pub fn contains(&self, p: Point) -> (b: bool)
        ensures
            b == rect_contains(*self, p),
    {
        let x = p.x as i64;
        let y = p.y as i64;
        (self.loc.x as i64) <= x && x < (self.loc.x as i64) + (self.size.w as i64) && (
        self.loc.y as i64) <= y && y < (self.loc.y as i64) + (self.size.h as i64)
    }

    /// The centre point, with sizes halved by integer division.
    pub fn center(&self) -> (p: Point)
        requires
            rect_fits(*self),
        ensures
            p.x == rect_center(*self).0,
            p.y == rect_center(*self).1,
    {
        Point { x: self.loc.x + self.size.w / 2, y: self.loc.y + self.size.h / 2 }
    }
}

} // verus!
