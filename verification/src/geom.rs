//! Positions, sizes and rectangles in physical pixels.

use vstd::prelude::*;

verus! {

/// A position: `(x, y)` with the origin at the top-left.
#[derive(Clone, Copy, Debug, Default, PartialEq, Eq, Structural)]
pub struct Coord(pub i32, pub i32);

/// An extent: `(width, height)`.
#[derive(Clone, Copy, Debug, Default, PartialEq, Eq, Structural)]
pub struct Size(pub u32, pub u32);

/// A rectangular region: its top-left corner and its extent.
///
/// The region covers the points `p` with `pos <= p < pos + size` on both
/// axes, so a rectangle with a zero extent covers nothing.
#[derive(Clone, Copy, Debug, Default, PartialEq, Eq, Structural)]
pub struct Rect {
    pub pos: Coord,
    pub size: Size,
}

/// A position cut to the range of `i32`.
pub open spec fn clip(v: int) -> int {
    if v < i32::MIN {
        i32::MIN as int
    } else if v > i32::MAX {
        i32::MAX as int
    } else {
        v
    }
}

/// An extent cut to the range of `u32`: a negative one is zero.
pub open spec fn cut(v: int) -> int {
    if v < 0 {
        0
    } else if v > u32::MAX {
        u32::MAX as int
    } else {
        v
    }
}

/// A position cut to the range of `i32`.
pub fn clip_pos(v: i128) -> (r: i32)
    ensures
        r == clip(v as int),
{
    if v < i32::MIN as i128 {
        i32::MIN
    } else if v > i32::MAX as i128 {
        i32::MAX
    } else {
        v as i32
    }
}

/// An extent cut to the range of `u32`.
pub fn cut_size(v: i128) -> (r: u32)
    ensures
        r == cut(v as int),
{
    if v < 0 {
        0
    } else if v > u32::MAX as i128 {
        u32::MAX
    } else {
        v as u32
    }
}

impl Coord {
    /// The origin.
    pub fn zero() -> (r: Coord)
        ensures
            r == Coord(0, 0),
    {
        Coord(0, 0)
    }

    /// The component along one axis.
    pub open spec fn on(self, vertical: bool) -> int {
        if vertical { self.1 as int } else { self.0 as int }
    }

    /// The component along one axis.
    pub fn extract(self, vertical: bool) -> (r: i32)
        ensures
            r == self.on(vertical),
    {
        if vertical { self.1 } else { self.0 }
    }
}

impl Size {
    /// The empty extent.
    pub fn zero() -> (r: Size)
        ensures
            r == Size(0, 0),
    {
        Size(0, 0)
    }

    /// The component along one axis.
    pub open spec fn on(self, vertical: bool) -> int {
        if vertical { self.1 as int } else { self.0 as int }
    }

    /// The component along one axis.
    pub fn extract(self, vertical: bool) -> (r: u32)
        ensures
            r == self.on(vertical),
    {
        if vertical { self.1 } else { self.0 }
    }

    /// The same extent on both axes.
    pub fn uniform(v: u32) -> (r: Size)
        ensures
            r == Size(v, v),
    {
        Size(v, v)
    }
}

impl Rect {
    /// A rectangle from its corner and extent.
    pub fn new(pos: Coord, size: Size) -> (r: Rect)
        ensures
            r.pos == pos,
            r.size == size,
    {
        Rect { pos, size }
    }

    /// Whether the region covers the point `(x, y)`.
    pub open spec fn covers(self, x: int, y: int) -> bool {
        &&& self.pos.0 <= x < self.pos.0 + self.size.0
        &&& self.pos.1 <= y < self.pos.1 + self.size.1
    }

    /// Whether the two regions have a point in common.
    pub open spec fn overlaps(self, other: Rect) -> bool {
        exists|x: int, y: int| self.covers(x, y) && other.covers(x, y)
    }

    /// Two regions have a point in common where, on both axes, the later
    /// of the two starts lies before the earlier of the two ends.
    pub proof fn lemma_overlaps(self, other: Rect)
        ensures
            self.overlaps(other) <==> {
                &&& self.pos.0 < other.pos.0 + other.size.0
                &&& other.pos.0 < self.pos.0 + self.size.0
                &&& self.pos.1 < other.pos.1 + other.size.1
                &&& other.pos.1 < self.pos.1 + self.size.1
                &&& self.size.0 > 0 && self.size.1 > 0
                &&& other.size.0 > 0 && other.size.1 > 0
            },
    {
        if self.pos.0 < other.pos.0 + other.size.0 && other.pos.0 < self.pos.0 + self.size.0
            && self.pos.1 < other.pos.1 + other.size.1 && other.pos.1 < self.pos.1 + self.size.1
            && self.size.0 > 0 && self.size.1 > 0 && other.size.0 > 0 && other.size.1 > 0 {
            let x = if self.pos.0 >= other.pos.0 { self.pos.0 as int } else { other.pos.0 as int };
            let y = if self.pos.1 >= other.pos.1 { self.pos.1 as int } else { other.pos.1 as int };
            assert(self.covers(x, y) && other.covers(x, y));
        }
    }

    /// Whether the two regions have a point in common.
    pub fn intersects(&self, other: &Rect) -> (r: bool)
        ensures
            r == self.overlaps(*other),
    {
        proof {
            self.lemma_overlaps(*other);
        }
        let ax: i64 = self.pos.0 as i64;
        let ay: i64 = self.pos.1 as i64;
        let bx: i64 = other.pos.0 as i64;
        let by: i64 = other.pos.1 as i64;
        self.size.0 > 0 && self.size.1 > 0 && other.size.0 > 0 && other.size.1 > 0 && ax < bx
            + other.size.0 as i64 && bx < ax + self.size.0 as i64 && ay < by + other.size.1 as i64
            && by < ay + self.size.1 as i64
    }

    /// Whether the region covers `c`.
    pub fn contains(&self, c: Coord) -> (r: bool)
        ensures
            r == self.covers(c.0 as int, c.1 as int),
    {
        let x: i64 = c.0 as i64;
        let y: i64 = c.1 as i64;
        let x0: i64 = self.pos.0 as i64;
        let y0: i64 = self.pos.1 as i64;
        x0 <= x && x < x0 + self.size.0 as i64 && y0 <= y && y < y0 + self.size.1 as i64
    }
}

} // verus!
