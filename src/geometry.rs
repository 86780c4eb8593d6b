use vstd::prelude::*;

verus! {

/// Largest magnitude of a coordinate or an extent that the library handles.
///
/// Keeping every coordinate within this bound lets sums of a few of them stay
/// inside `i32`.
pub const COORD_MAX: i32 = 16777216;

/// Whether an integer lies within the coordinate bound.
pub open spec fn coord_ok(v: int) -> bool {
    -(COORD_MAX as int) <= v <= COORD_MAX as int
}

/// A point in logical compositor space.
#[derive(Clone, Copy, Debug, PartialEq, Eq, Structural)]
pub struct Point {
    pub x: i32,
    pub y: i32,
}

/// A width and a height in logical units.
#[derive(Clone, Copy, Debug, PartialEq, Eq, Structural)]
pub struct Size {
    pub w: i32,
    pub h: i32,
}

/// An axis-aligned rectangle: its top-left corner and its extent.
#[derive(Clone, Copy, Debug, PartialEq, Eq, Structural)]
pub struct Rect {
    pub x: i32,
    pub y: i32,
    pub w: i32,
    pub h: i32,
}

impl Point {
    pub open spec fn wf(self) -> bool {
        coord_ok(self.x as int) && coord_ok(self.y as int)
    }
}

impl Size {
    /// A size is valid when neither extent is negative and both are bounded.
    pub open spec fn wf(self) -> bool {
        0 <= self.w <= COORD_MAX && 0 <= self.h <= COORD_MAX
    }
}

impl Rect {
    /// A rectangle is valid when its size is valid and its corners are
    /// bounded.
    pub open spec fn wf(self) -> bool {
        &&& coord_ok(self.x as int)
        &&& coord_ok(self.y as int)
        &&& 0 <= self.w <= COORD_MAX
        &&& 0 <= self.h <= COORD_MAX
        &&& coord_ok(self.x + self.w)
        &&& coord_ok(self.y + self.h)
    }

    /// The point lies in the rectangle: left and top edges included, right and
    /// bottom edges excluded.
    pub open spec fn contains_spec(self, p: Point) -> bool {
        self.x <= p.x < self.x + self.w && self.y <= p.y < self.y + self.h
    }

    pub fn new(loc: Point, size: Size) -> (r: Rect)
        ensures
            r == (Rect { x: loc.x, y: loc.y, w: size.w, h: size.h }),
    {
        Rect { x: loc.x, y: loc.y, w: size.w, h: size.h }
    }

    pub fn loc(&self) -> (r: Point)
        ensures
            r == (Point { x: self.x, y: self.y }),
    {
        Point { x: self.x, y: self.y }
    }

    pub fn size(&self) -> (r: Size)
        ensures
            r == (Size { w: self.w, h: self.h }),
    {
        Size { w: self.w, h: self.h }
    }

    /// Whether `p` lies in this rectangle.
    pub fn contains(&self, p: Point) -> (r: bool)
        ensures
            r == self.contains_spec(p),
    {
        let px = p.x as i64;
        let py = p.y as i64;
        let x = self.x as i64;
        let y = self.y as i64;
        x <= px && px < x + self.w as i64 && y <= py && py < y + self.h as i64
    }
}

} // verus!
