//! Where a pop-up goes.
//!
//! A pop-up opens beside the widget it belongs to, its anchor, within the
//! rectangle of the window. Along the axis in which it opens it is placed
//! before or behind the anchor, on the side that has room for it. Along the
//! other axis it starts where the anchor starts, as far as the window lets
//! it.

use crate::geom::{clip, clip_pos, Coord, Rect, Size};
use vstd::prelude::*;

verus! {

/// The side of its anchor on which a pop-up opens.
#[derive(Clone, Copy, Debug, PartialEq, Eq, Hash, Structural)]
pub enum Direction {
    Right,
    Down,
    Left,
    Up,
}

impl Direction {
    /// Whether the direction runs along the horizontal axis.
    pub open spec fn horizontal(self) -> bool {
        self == Direction::Right || self == Direction::Left
    }

    /// Whether the direction runs towards the start of its axis.
    pub open spec fn reversed(self) -> bool {
        self == Direction::Left || self == Direction::Up
    }

    /// Whether the direction runs along the horizontal axis.
    pub fn is_horizontal(self) -> (r: bool)
        ensures
            r == self.horizontal(),
    {
        match self {
            Direction::Right => true,
            Direction::Left => true,
            Direction::Down => false,
            Direction::Up => false,
        }
    }

    /// Whether the direction runs along the vertical axis.
    pub fn is_vertical(self) -> (r: bool)
        ensures
            r == !self.horizontal(),
    {
        !self.is_horizontal()
    }

    /// Whether the direction runs towards the start of its axis.
    pub fn is_reversed(self) -> (r: bool)
        ensures
            r == self.reversed(),
    {
        match self {
            Direction::Right => false,
            Direction::Down => false,
            Direction::Left => true,
            Direction::Up => true,
        }
    }
}

/// The larger of two numbers.
pub open spec fn at_least(a: int, b: int) -> int {
    if a >= b { a } else { b }
}

/// The smaller of two numbers.
pub open spec fn at_most(a: int, b: int) -> int {
    if a <= b { a } else { b }
}

/// The room before the anchor: from the start of the window to the start of
/// the anchor, less the margin behind the pop-up.
pub open spec fn room_before(window_pos: int, anchor_pos: int, margins: (u16, u16)) -> int {
    at_least(anchor_pos - (window_pos + margins.1), 0)
}

/// The room behind the anchor: what the window has left beyond the room
/// before the anchor, the anchor itself and the margin before the pop-up.
pub open spec fn room_after(
    window_pos: int,
    window_size: int,
    anchor_pos: int,
    anchor_size: int,
    margins: (u16, u16),
) -> int {
    at_least(
        window_size - (anchor_size + room_before(window_pos, anchor_pos, margins) + margins.0),
        0,
    )
}

/// Position and size of a pop-up along the axis in which it opens.
///
/// Where the room behind the anchor takes the ideal size the pop-up goes
/// there, unless the direction is reversed and the room before the anchor
/// takes it too. Else it goes before the anchor where the ideal size fits
/// there. Where it fits on neither side the pop-up takes the larger room,
/// all of it, and the room behind the anchor where both are the same.
pub open spec fn placed_in(
    window_pos: int,
    window_size: int,
    anchor_pos: int,
    anchor_size: int,
    ideal: int,
    margins: (u16, u16),
    reversed: bool,
) -> (int, int) {
    let before = room_before(window_pos, anchor_pos, margins);
    let after = room_after(window_pos, window_size, anchor_pos, anchor_size, margins);
    let ahead = clip(anchor_pos - ideal - margins.1);
    let behind = clip(anchor_pos + anchor_size + margins.0);
    if after >= ideal {
        if reversed && before >= ideal {
            (ahead, ideal)
        } else {
            (behind, ideal)
        }
    } else if before >= ideal {
        (ahead, ideal)
    } else if before > after {
        (window_pos, before)
    } else {
        (behind, after)
    }
}

/// Position and size of a pop-up along the axis across the one in which it
/// opens: it is as large as its ideal size or the anchor, whichever is
/// larger, but no larger than the window; it starts with the anchor, but no
/// further on than where the ideal size still ends within the window, and
/// not before the window.
pub open spec fn placed_out(
    window_pos: int,
    window_size: int,
    anchor_pos: int,
    anchor_size: int,
    ideal: int,
) -> (int, int) {
    (
        at_least(at_most(anchor_pos, window_pos + window_size - ideal), window_pos),
        at_most(at_least(ideal, anchor_size), window_size),
    )
}

/// The rectangle of a pop-up of the size `ideal` that opens in `direction`
/// from the anchor `anchor` within `window`. `horiz` and `vert` are the
/// margins of the pop-up before and behind it along the two axes.
pub open spec fn popup_place(
    window: Rect,
    anchor: Rect,
    ideal: Size,
    horiz: (u16, u16),
    vert: (u16, u16),
    direction: Direction,
) -> Rect {
    let reversed = direction.reversed();
    if direction.horizontal() {
        let x = placed_in(
            window.pos.0 as int,
            window.size.0 as int,
            anchor.pos.0 as int,
            anchor.size.0 as int,
            ideal.0 as int,
            horiz,
            reversed,
        );
        let y = placed_out(
            window.pos.1 as int,
            window.size.1 as int,
            anchor.pos.1 as int,
            anchor.size.1 as int,
            ideal.1 as int,
        );
        Rect { pos: Coord(x.0 as i32, y.0 as i32), size: Size(x.1 as u32, y.1 as u32) }
    } else {
        let x = placed_out(
            window.pos.0 as int,
            window.size.0 as int,
            anchor.pos.0 as int,
            anchor.size.0 as int,
            ideal.0 as int,
        );
        let y = placed_in(
            window.pos.1 as int,
            window.size.1 as int,
            anchor.pos.1 as int,
            anchor.size.1 as int,
            ideal.1 as int,
            vert,
            reversed,
        );
        Rect { pos: Coord(x.0 as i32, y.0 as i32), size: Size(x.1 as u32, y.1 as u32) }
    }
}

/// Position and size of a pop-up along the axis in which it opens.
pub fn place_in(
    window_pos: i32,
    window_size: u32,
    anchor_pos: i32,
    anchor_size: u32,
    ideal: u32,
    margins: (u16, u16),
    reversed: bool,
) -> (r: (i32, u32))
    ensures
        (r.0 as int, r.1 as int) == placed_in(
            window_pos as int,
            window_size as int,
            anchor_pos as int,
            anchor_size as int,
            ideal as int,
            margins,
            reversed,
        ),
{
    let gap: i64 = anchor_pos as i64 - (window_pos as i64 + margins.1 as i64);
    let before: i64 = if gap >= 0 { gap } else { 0 };
    let rest: i64 = window_size as i64 - (anchor_size as i64 + before + margins.0 as i64);
    let after: i64 = if rest >= 0 { rest } else { 0 };
    let ahead: i32 = clip_pos(anchor_pos as i128 - ideal as i128 - margins.1 as i128);
    let behind: i32 = clip_pos(anchor_pos as i128 + anchor_size as i128 + margins.0 as i128);
    if after >= ideal as i64 {
        if reversed && before >= ideal as i64 {
            (ahead, ideal)
        } else {
            (behind, ideal)
        }
    } else if before >= ideal as i64 {
        (ahead, ideal)
    } else if before > after {
        (window_pos, before as u32)
    } else {
        (behind, after as u32)
    }
}

/// Position and size of a pop-up along the axis across the one in which it
/// opens.
pub fn place_out(window_pos: i32, window_size: u32, anchor_pos: i32, anchor_size: u32, ideal: u32)
    -> (r: (i32, u32))
    ensures
        (r.0 as int, r.1 as int) == placed_out(
            window_pos as int,
            window_size as int,
            anchor_pos as int,
            anchor_size as int,
            ideal as int,
        ),
{
    let limit: i64 = window_pos as i64 + window_size as i64 - ideal as i64;
    let inner: i64 = if (anchor_pos as i64) <= limit { anchor_pos as i64 } else { limit };
    let pos: i64 = if inner >= window_pos as i64 { inner } else { window_pos as i64 };
    let wish: u32 = if ideal >= anchor_size { ideal } else { anchor_size };
    let size: u32 = if wish <= window_size { wish } else { window_size };
    (pos as i32, size)
}

/// The rectangle of a pop-up of the size `ideal` that opens in `direction`
/// from the anchor `anchor` within `window`.
pub fn popup_rect(
    window: Rect,
    anchor: Rect,
    ideal: Size,
    horiz: (u16, u16),
    vert: (u16, u16),
    direction: Direction,
) -> (r: Rect)
    ensures
        r == popup_place(window, anchor, ideal, horiz, vert, direction),
{
    let reversed = direction.is_reversed();
    if direction.is_horizontal() {
        let (x, w) = place_in(
            window.pos.0,
            window.size.0,
            anchor.pos.0,
            anchor.size.0,
            ideal.0,
            horiz,
            reversed,
        );
        let (y, h) = place_out(window.pos.1, window.size.1, anchor.pos.1, anchor.size.1, ideal.1);
        Rect::new(Coord(x, y), Size(w, h))
    } else {
        let (x, w) = place_out(window.pos.0, window.size.0, anchor.pos.0, anchor.size.0, ideal.0);
        let (y, h) = place_in(
            window.pos.1,
            window.size.1,
            anchor.pos.1,
            anchor.size.1,
            ideal.1,
            vert,
            reversed,
        );
        Rect::new(Coord(x, y), Size(w, h))
    }
}

} // verus!
