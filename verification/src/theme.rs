//! The sizes that a simple theme gives to widgets.
//!
//! A theme works in whole pixels from four lengths: the height of a line of
//! text, the margin around a widget, the width of a frame and the width of
//! the frame of a button. It measures text itself; what follows from the
//! measured extent is decided here.

use crate::geom::{clip, clip_pos, Coord, Rect};
use crate::layout::size_rules::{capped, larger, Margins, RulesView, SizeRules, StretchPolicy};
use vstd::prelude::*;

verus! {

/// The kinds of widget that a theme tells apart.
#[derive(Clone, Copy, Debug, PartialEq, Eq, Hash, Structural)]
pub enum WidgetClass {
    Container,
    Frame,
    Window,
    Label,
    Entry,
    Button,
    CheckBox,
}

/// The lengths of a theme, in pixels.
#[derive(Clone, Copy, Debug, PartialEq, Eq, Structural)]
pub struct ThemeDims {
    /// The height of a line of text.
    pub line_height: u32,
    /// The margin around a widget.
    pub margin: u32,
    /// The width of a frame.
    pub frame_size: u32,
    /// The width of the frame of a button.
    pub button_frame: u32,
}

/// Rules for an extent between `min` and `ideal`, raised to `min` where it
/// is smaller, without margins or stretch.
pub open spec fn between(min: nat, ideal: nat) -> RulesView {
    RulesView {
        min,
        ideal: larger(min, ideal),
        margins: (0, 0),
        stretch: StretchPolicy::Fixed,
    }
}

/// The rules of a widget of the class `class` along an axis, where its text
/// has the extent `text` along that axis.
///
/// Containers, frames and windows get their size from their children. A label
/// is at least three lines wide and one line high, and would like to show its
/// text. An entry is as wide as a label within its frame, and one line high
/// within it. A button is three lines wide and one line high within its
/// frame, and would like to show its text. A check box is a line within a
/// frame, both ways. Every length stops at the largest `u32`.
pub open spec fn class_rules(dims: ThemeDims, class: WidgetClass, vertical: bool, text: nat)
    -> RulesView {
    let line = dims.line_height as nat;
    let wide = capped(3 * line);
    let frame = capped(2 * (dims.frame_size as nat));
    let button = capped(2 * (dims.button_frame as nat));
    match class {
        WidgetClass::Container | WidgetClass::Frame | WidgetClass::Window => RulesView::empty(),
        WidgetClass::Label => if vertical {
            between(line, text)
        } else {
            between(wide, text)
        },
        WidgetClass::Entry => if vertical {
            between(capped(line + frame), 0)
        } else {
            between(wide, text).followed_by(between(frame, 0))
        },
        WidgetClass::Button => if vertical {
            between(capped(line + button), 0)
        } else {
            between(capped(wide + button), text)
        },
        WidgetClass::CheckBox => between(capped(line + frame), 0),
    }
}

/// The margins of a widget of the class `class`: a frame keeps its own
/// width free on every side; every other widget keeps twice the margin
/// free behind it. Lengths beyond the range of `i32` are cut to it.
pub open spec fn class_margins(dims: ThemeDims, class: WidgetClass) -> Margins {
    if class == WidgetClass::Frame {
        let f = clip(dims.frame_size as int) as i32;
        Margins { first: Coord(f, f), last: Coord(f, f), inter: (0, 0) }
    } else {
        let m = clip(2 * dims.margin) as i32;
        Margins { first: Coord(0, 0), last: Coord(m, m), inter: (0, 0) }
    }
}

fn cap_add(a: u32, b: u32) -> (r: u32)
    ensures
        r == capped((a + b) as nat),
{
    if a > u32::MAX - b {
        u32::MAX
    } else {
        a + b
    }
}

impl ThemeDims {
    /// The rules of a widget of the class `class` along an axis, where its
    /// text has the extent `text` along that axis.
    pub fn size_rules(&self, class: WidgetClass, vertical: bool, text: u32) -> (r: SizeRules)
        ensures
            r@ == class_rules(*self, class, vertical, text as nat),
    {
        let line: u32 = self.line_height;
        let wide: u32 = cap_add(cap_add(line, line), line);
        let frame: u32 = cap_add(self.frame_size, self.frame_size);
        let button: u32 = cap_add(self.button_frame, self.button_frame);
        match class {
            WidgetClass::Container => SizeRules::empty(),
            WidgetClass::Frame => SizeRules::empty(),
            WidgetClass::Window => SizeRules::empty(),
            WidgetClass::Label => if vertical {
                SizeRules::variable(line, text)
            } else {
                SizeRules::variable(wide, text)
            },
            WidgetClass::Entry => if vertical {
                SizeRules::fixed(cap_add(line, frame))
            } else {
                SizeRules::variable(wide, text) + SizeRules::fixed(frame)
            },
            WidgetClass::Button => if vertical {
                SizeRules::fixed(cap_add(line, button))
            } else {
                SizeRules::variable(cap_add(wide, button), text)
            },
            WidgetClass::CheckBox => SizeRules::fixed(cap_add(line, frame)),
        }
    }

    /// The margins of a widget of the class `class`.
    pub fn margins(&self, class: WidgetClass) -> (m: Margins)
        ensures
            m == class_margins(*self, class),
    {
        match class {
            WidgetClass::Frame => {
                let f: i32 = clip_pos(self.frame_size as i128);
                Margins { first: Coord(f, f), last: Coord(f, f), inter: (0, 0) }
            },
            _ => {
                let m: i32 = clip_pos(2 * (self.margin as i128));
                Margins { first: Coord(0, 0), last: Coord(m, m), inter: (0, 0) }
            },
        }
    }
}

/// Where content goes within an extent that is larger than it.
#[derive(Clone, Copy, Debug, PartialEq, Eq, Hash, Structural)]
pub enum Align {
    /// At the start.
    Begin,
    /// In the middle.
    Centre,
    /// At the end.
    End,
    /// Drawn out over the whole extent, from the start.
    Stretch,
}

/// How far into an extent the point lies from which text is laid out: at the
/// start, the middle or the end of it.
pub open spec fn align_offset(align: Align, extent: nat) -> nat {
    match align {
        Align::Begin | Align::Stretch => 0,
        Align::Centre => extent / 2,
        Align::End => extent,
    }
}

/// The point from which text is laid out in `rect`, by its alignment along
/// the two axes. A position beyond the range of `i32` is cut to it.
pub open spec fn text_origin(rect: Rect, align: (Align, Align)) -> Coord {
    Coord(
        clip(rect.pos.0 + align_offset(align.0, rect.size.0 as nat)) as i32,
        clip(rect.pos.1 + align_offset(align.1, rect.size.1 as nat)) as i32,
    )
}

fn offset_in(align: Align, extent: u32) -> (r: u32)
    ensures
        r == align_offset(align, extent as nat),
{
    match align {
        Align::Begin => 0,
        Align::Stretch => 0,
        Align::Centre => extent / 2,
        Align::End => extent,
    }
}

/// The point from which text is laid out in `rect`.
pub fn text_position(rect: Rect, align: (Align, Align)) -> (r: Coord)
    ensures
        r == text_origin(rect, align),
{
    Coord(
        clip_pos(rect.pos.0 as i128 + offset_in(align.0, rect.size.0) as i128),
        clip_pos(rect.pos.1 as i128 + offset_in(align.1, rect.size.1) as i128),
    )
}

} // verus!
