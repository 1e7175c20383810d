//! Integer geometry used by hit-testing and layout: points, sizes and
//! rectangles in parent or window coordinates.

use vstd::prelude::*;

verus! {

/// Largest magnitude a rectangle coordinate or extent may have. Keeping
/// rectangles inside this range makes every sum of two rectangle
/// coordinates fit comfortably in an `i64`.
pub const COORD_LIMIT: i64 = 0x4000_0000;

/// Positions handed in by the platform may drift outside rectangle range
/// while an event is remapped down the tree, but stay far away from the
/// `i64` boundary.
pub const POS_LIMIT: i64 = 0x4000_0000_0000_0000;

#[derive(Debug, Clone, Copy, PartialEq, Eq, Structural)]
pub struct Point {
    pub x: i64,
    pub y: i64,
}

#[derive(Debug, Clone, Copy, PartialEq, Eq, Structural)]
pub struct Size {
    pub x: i64,
    pub y: i64,
}

#[derive(Debug, Clone, Copy, PartialEq, Eq, Structural)]
pub struct Rect {
    pub top_left: Point,
    pub size: Size,
}

impl Point {
    pub open spec fn wf(self) -> bool {
        &&& -COORD_LIMIT <= self.x <= COORD_LIMIT
        &&& -COORD_LIMIT <= self.y <= COORD_LIMIT
    }

    /// Position that is representable but possibly outside rectangle range.
    pub open spec fn in_pos_range(self) -> bool {
        &&& -POS_LIMIT <= self.x <= POS_LIMIT
        &&& -POS_LIMIT <= self.y <= POS_LIMIT
    }

    pub open spec fn spec_minus(self, other: Point) -> Point {
        Point { x: (self.x - other.x) as i64, y: (self.y - other.y) as i64 }
    }

    pub open spec fn spec_plus(self, other: Point) -> Point {
        Point { x: (self.x + other.x) as i64, y: (self.y + other.y) as i64 }
    }

    pub open spec fn sub_fits(self, other: Point) -> bool {
        &&& i64::MIN <= self.x - other.x <= i64::MAX
        &&& i64::MIN <= self.y - other.y <= i64::MAX
    }

    pub open spec fn add_fits(self, other: Point) -> bool {
        &&& i64::MIN <= self.x + other.x <= i64::MAX
        &&& i64::MIN <= self.y + other.y <= i64::MAX
    }

    /// Componentwise difference; `None` when a component would not fit.
    pub fn checked_sub(self, other: Point) -> (r: Option<Point>)
        ensures
            r.is_some() <==> self.sub_fits(other),
            r.is_some() ==> r.unwrap() == self.spec_minus(other),
    {
        match (self.x.checked_sub(other.x), self.y.checked_sub(other.y)) {
            (Some(x), Some(y)) => Some(Point { x, y }),
            _ => None,
        }
    }

    /// Componentwise sum; `None` when a component would not fit.
    pub fn checked_add(self, other: Point) -> (r: Option<Point>)
        ensures
            r.is_some() <==> self.add_fits(other),
            r.is_some() ==> r.unwrap() == self.spec_plus(other),
    {
        match (self.x.checked_add(other.x), self.y.checked_add(other.y)) {
            (Some(x), Some(y)) => Some(Point { x, y }),
            _ => None,
        }
    }
}

impl Size {
    pub open spec fn wf(self) -> bool {
        &&& 0 <= self.x <= COORD_LIMIT
        &&& 0 <= self.y <= COORD_LIMIT
    }
}

impl Rect {
    pub open spec fn wf(self) -> bool {
        &&& self.top_left.wf()
        &&& self.size.wf()
    }

    pub open spec fn spec_contains(self, pos: Point) -> bool {
        &&& self.top_left.x <= pos.x < self.top_left.x + self.size.x
        &&& self.top_left.y <= pos.y < self.top_left.y + self.size.y
    }

    pub open spec fn bottom_right_spec(self) -> Point {
        self.top_left.spec_plus(Point { x: self.size.x, y: self.size.y })
    }

    pub open spec fn spec_translate(self, delta: Point) -> Rect {
        Rect { top_left: self.top_left.spec_plus(delta), size: self.size }
    }

    /// Whether `pos` lies inside the rectangle, in the rectangle's own
    /// coordinate system.
    pub fn contains(&self, pos: Point) -> (r: bool)
        requires
            self.wf(),
        ensures
            r == self.spec_contains(pos),
    {
        self.top_left.x <= pos.x && pos.x < self.top_left.x + self.size.x && self.top_left.y
            <= pos.y && pos.y < self.top_left.y + self.size.y
    }

    pub fn bottom_right(&self) -> (r: Point)
        requires
            self.wf(),
        ensures
            r == self.bottom_right_spec(),
    {
        Point { x: self.top_left.x + self.size.x, y: self.top_left.y + self.size.y }
    }

    /// The same rectangle shifted by `delta`; `None` when a coordinate
    /// would not fit.
    pub fn checked_translate(&self, delta: Point) -> (r: Option<Rect>)
        ensures
            r.is_some() <==> self.top_left.add_fits(delta),
            r.is_some() ==> r.unwrap() == self.spec_translate(delta),
    {
        match self.top_left.checked_add(delta) {
            Some(top_left) => Some(Rect { top_left, size: self.size }),
            None => None,
        }
    }
}

} // verus!
