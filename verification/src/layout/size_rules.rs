//! Size preferences of one widget, or of a group of widgets, along one axis.

use crate::geom::{clip, clip_pos, cut, cut_size, Coord, Rect, Size};
use vstd::prelude::*;
use vstd::std_specs::ops::AddSpecImpl;

verus! {

/// How eagerly a widget takes space beyond its ideal size.
///
/// The tiers are ordered `Fixed < Low < High < Filler`. Space left over once
/// every widget of a sequence has its ideal size goes to the widgets of the
/// highest tier present; a `Fixed` widget never grows past its ideal size.
#[derive(Clone, Copy, Debug, PartialEq, Eq, PartialOrd, Ord, Hash, Structural)]
pub enum StretchPolicy {
    /// Never larger than the ideal size.
    Fixed,
    /// Larger only where nothing more eager is present.
    Low,
    /// Takes extra space before `Low` does.
    High,
    /// Takes whatever space is left.
    Filler,
}

impl StretchPolicy {
    /// The position of the tier in the order, from 0 for `Fixed`.
    pub open spec fn tier(self) -> nat {
        match self {
            StretchPolicy::Fixed => 0,
            StretchPolicy::Low => 1,
            StretchPolicy::High => 2,
            StretchPolicy::Filler => 3,
        }
    }

    /// The more eager of two tiers.
    pub open spec fn or_higher(self, other: StretchPolicy) -> StretchPolicy {
        if self.tier() >= other.tier() { self } else { other }
    }

    /// The position of the tier in the order, from 0 for `Fixed`.
    pub fn level(self) -> (r: u8)
        ensures
            r == self.tier(),
    {
        match self {
            StretchPolicy::Fixed => 0,
            StretchPolicy::Low => 1,
            StretchPolicy::High => 2,
            StretchPolicy::Filler => 3,
        }
    }

    /// The more eager of two tiers.
    pub fn highest(self, other: StretchPolicy) -> (r: StretchPolicy)
        ensures
            r == self.or_higher(other),
    {
        if self.level() >= other.level() { self } else { other }
    }
}

/// Margins of a container: the space kept free before its first child and
/// after its last one, as `(x, y)`, and the gap between neighbouring
/// children, as `(horizontal, vertical)`.
#[derive(Clone, Copy, Debug, PartialEq, Eq)]
pub struct Margins {
    pub first: Coord,
    pub last: Coord,
    pub inter: (u16, u16),
}

impl Margins {
    /// No margins at all.
    pub fn zero() -> (m: Margins)
        ensures
            m.first == Coord(0, 0),
            m.last == Coord(0, 0),
            m.inter == (0u16, 0u16),
    {
        Margins { first: Coord(0, 0), last: Coord(0, 0), inter: (0, 0) }
    }

    /// The gap between neighbouring children along one axis.
    pub open spec fn gap(self, vertical: bool) -> nat {
        if vertical { self.inter.1 as nat } else { self.inter.0 as nat }
    }

    /// The gap between neighbouring children along one axis.
    pub fn inter_on(&self, vertical: bool) -> (g: u32)
        ensures
            g == self.gap(vertical),
    {
        if vertical { self.inter.1 as u32 } else { self.inter.0 as u32 }
    }

    /// What is left of `rect` inside the outer margins: its corner moves in
    /// by `first`, and its extent loses `first` and `last`. Positions are cut
    /// to the range of `i32`, extents to that of `u32`.
    pub open spec fn inside(self, rect: Rect) -> Rect {
        Rect {
            pos: Coord(
                clip(rect.pos.0 + self.first.0) as i32,
                clip(rect.pos.1 + self.first.1) as i32,
            ),
            size: Size(
                cut(rect.size.0 - self.first.0 - self.last.0) as u32,
                cut(rect.size.1 - self.first.1 - self.last.1) as u32,
            ),
        }
    }

    /// What is left of `rect` inside the outer margins.
    pub fn shrink(&self, rect: Rect) -> (r: Rect)
        ensures
            r == self.inside(rect),
    {
        Rect {
            pos: Coord(
                clip_pos(rect.pos.0 as i128 + self.first.0 as i128),
                clip_pos(rect.pos.1 as i128 + self.first.1 as i128),
            ),
            size: Size(
                cut_size(rect.size.0 as i128 - self.first.0 as i128 - self.last.0 as i128),
                cut_size(rect.size.1 as i128 - self.first.1 as i128 - self.last.1 as i128),
            ),
        }
    }

    /// The outer margins along one axis as the two margins of a widget:
    /// each is cut to the range of `u16`, a negative one to zero.
    pub open spec fn edges(self, vertical: bool) -> (nat, nat) {
        (edge(self.first.on(vertical)), edge(self.last.on(vertical)))
    }
}

/// A signed margin cut to the range of `u16`.
pub open spec fn edge(v: int) -> nat {
    if v < 0 { 0 } else if v > 0xffff { 0xffff } else { v as nat }
}

fn edge_of(v: i32) -> (r: u16)
    ensures
        r == edge(v as int),
{
    if v < 0 { 0 } else if v > 0xffff { 0xffff } else { v as u16 }
}

/// The sum of two sizes, held at the largest `u32`.
pub open spec fn capped(v: nat) -> nat {
    if v > u32::MAX { u32::MAX as nat } else { v }
}

/// The larger of two numbers.
pub open spec fn larger(a: nat, b: nat) -> nat {
    if a >= b { a } else { b }
}

/// What a [`SizeRules`] value says, as plain numbers.
pub struct RulesView {
    /// The smallest size at which the widget is usable.
    pub min: nat,
    /// The size the widget would like to have.
    pub ideal: nat,
    /// The margins the widget asks for before and after itself.
    pub margins: (nat, nat),
    /// How eagerly it grows past `ideal`.
    pub stretch: StretchPolicy,
}

impl RulesView {
    /// `min` does not exceed `ideal`, and all numbers fit their fields.
    pub open spec fn valid(self) -> bool {
        &&& self.min <= self.ideal <= u32::MAX
        &&& self.margins.0 <= u16::MAX
        &&& self.margins.1 <= u16::MAX
    }

    /// How far `ideal` lies above `min`.
    pub open spec fn headroom(self) -> nat {
        if self.ideal >= self.min { (self.ideal - self.min) as nat } else { 0 }
    }

    /// The rules of a widget without size, margins or stretch.
    pub open spec fn empty() -> RulesView {
        RulesView { min: 0, ideal: 0, margins: (0, 0), stretch: StretchPolicy::Fixed }
    }

    /// Rules for two widgets laid out one after the other: the sizes add
    /// (held at the largest `u32`), each margin is the larger of the two on
    /// its side, and the stretch is the more eager one.
    ///
    /// Margins are never added up, neither to one another nor to the sizes:
    /// where two margins meet they overlap. The space between the two
    /// widgets is the container's to give; [`gap_to`](Self::gap_to) says how
    /// much of it the two ask for.
    pub open spec fn followed_by(self, next: RulesView) -> RulesView {
        RulesView {
            min: capped(self.min + next.min),
            ideal: capped(self.ideal + next.ideal),
            margins: (
                larger(self.margins.0, next.margins.0),
                larger(self.margins.1, next.margins.1),
            ),
            stretch: self.stretch.or_higher(next.stretch),
        }
    }

    /// The space that a widget asks for between itself and the widget
    /// `next` behind it: the margins of the two edges that meet overlap, so
    /// it is the larger of the two and not their sum.
    pub open spec fn gap_to(self, next: RulesView) -> nat {
        larger(self.margins.1, next.margins.0)
    }

    /// Empty rules change nothing in a sequence, whichever side they are on.
    pub proof fn lemma_empty_is_neutral(self)
        requires
            self.valid(),
        ensures
            RulesView::empty().followed_by(self) == self,
            self.followed_by(RulesView::empty()) == self,
    {
    }

    /// The rules of a sequence do not depend on the order of its widgets.
    pub proof fn lemma_followed_by_commutes(self, next: RulesView)
        ensures
            self.followed_by(next) == next.followed_by(self),
    {
    }

    /// The rules of a sequence do not depend on how its widgets are grouped.
    pub proof fn lemma_followed_by_associates(self, second: RulesView, third: RulesView)
        ensures
            self.followed_by(second).followed_by(third) == self.followed_by(
                second.followed_by(third),
            ),
    {
    }

    /// The rules of widgets side by side do not depend on their order, nor
    /// on how they are grouped.
    pub proof fn lemma_beside_commutes(self, second: RulesView, third: RulesView)
        ensures
            self.beside(second) == second.beside(self),
            self.beside(second).beside(third) == self.beside(second.beside(third)),
    {
    }

    /// Rules for two widgets that share the extent along this axis: every
    /// number is the larger of the two, and the stretch is the more eager one.
    pub open spec fn beside(self, other: RulesView) -> RulesView {
        RulesView {
            min: larger(self.min, other.min),
            ideal: larger(self.ideal, other.ideal),
            margins: (
                larger(self.margins.0, other.margins.0),
                larger(self.margins.1, other.margins.1),
            ),
            stretch: self.stretch.or_higher(other.stretch),
        }
    }

    /// The same rules with `min_by` more minimum size and `ideal_by` more
    /// ideal size, the ideal size being raised to the minimum where it would
    /// fall below it.
    pub open spec fn widened(self, min_by: nat, ideal_by: nat) -> RulesView {
        RulesView {
            min: capped(self.min + min_by),
            ideal: larger(capped(self.min + min_by), capped(self.ideal + ideal_by)),
            ..self
        }
    }

    /// Rules for content inside a frame that adds `frame` at one end, or at
    /// both ends where `both_ends` holds. The margins are the larger of the
    /// content's and the frame's.
    pub open spec fn framed(self, frame: RulesView, both_ends: bool) -> RulesView {
        let k: nat = if both_ends { 2 } else { 1 };
        RulesView {
            min: capped(self.min + k * frame.min),
            ideal: capped(self.ideal + k * frame.ideal),
            margins: (
                larger(self.margins.0, frame.margins.0),
                larger(self.margins.1, frame.margins.1),
            ),
            stretch: self.stretch.or_higher(frame.stretch),
        }
    }
}

/// The sizes a widget accepts along one axis: a minimum, an ideal size not
/// below it, the margins it asks for, and how eagerly it stretches.
#[derive(Clone, Copy, Debug, PartialEq, Eq)]
pub struct SizeRules {
    min: u32,
    ideal: u32,
    before: u16,
    after: u16,
    stretch: StretchPolicy,
}

impl View for SizeRules {
    type V = RulesView;

    closed spec fn view(&self) -> RulesView {
        RulesView {
            min: self.min as nat,
            ideal: self.ideal as nat,
            margins: (self.before as nat, self.after as nat),
            stretch: self.stretch,
        }
    }
}

fn cap_sum(a: u32, b: u32) -> (r: u32)
    ensures
        r == capped((a + b) as nat),
{
    if a > u32::MAX - b { u32::MAX } else { a + b }
}

fn max_u16(a: u16, b: u16) -> (r: u16)
    ensures
        r == larger(a as nat, b as nat),
{
    if a >= b { a } else { b }
}

impl SizeRules {
    #[verifier::type_invariant]
    pub open spec fn well_formed(self) -> bool {
        self@.valid()
    }

    /// Rules without size, margins or stretch: adding them to other rules
    /// changes nothing.
    pub fn empty() -> (r: SizeRules)
        ensures
            r@ == RulesView::empty(),
    {
        SizeRules { min: 0, ideal: 0, before: 0, after: 0, stretch: StretchPolicy::Fixed }
    }

    /// Rules for a widget of exactly one size.
    pub fn fixed(size: u32) -> (r: SizeRules)
        ensures
            r@ == (RulesView {
                min: size as nat,
                ideal: size as nat,
                margins: (0, 0),
                stretch: StretchPolicy::Fixed,
            }),
    {
        SizeRules { min: size, ideal: size, before: 0, after: 0, stretch: StretchPolicy::Fixed }
    }

    /// Rules for a widget that is usable from `min` and would like `ideal`.
    /// An `ideal` below `min` is raised to `min`.
    pub fn variable(min: u32, ideal: u32) -> (r: SizeRules)
        ensures
            r@ == (RulesView {
                min: min as nat,
                ideal: larger(min as nat, ideal as nat),
                margins: (0, 0),
                stretch: StretchPolicy::Fixed,
            }),
    {
        let ideal: u32 = if ideal >= min { ideal } else { min };
        SizeRules { min, ideal, before: 0, after: 0, stretch: StretchPolicy::Fixed }
    }

    /// The same rules with another stretch policy.
    pub fn with_stretch(self, stretch: StretchPolicy) -> (r: SizeRules)
        ensures
            r@ == (RulesView { stretch, ..self@ }),
    {
        proof {
            use_type_invariant(&self);
        }
        SizeRules { stretch, ..self }
    }

    /// The same rules with other margins, before and after the widget.
    pub fn with_margins(self, margins: (u16, u16)) -> (r: SizeRules)
        ensures
            r@ == (RulesView { margins: (margins.0 as nat, margins.1 as nat), ..self@ }),
    {
        proof {
            use_type_invariant(&self);
        }
        SizeRules { before: margins.0, after: margins.1, ..self }
    }

    /// The same rules with `min_by` more minimum size and `ideal_by` more
    /// ideal size, the ideal size being raised to the minimum where it would
    /// fall below it.
    pub fn widened(self, min_by: u32, ideal_by: u32) -> (r: SizeRules)
        ensures
            r@ == self@.widened(min_by as nat, ideal_by as nat),
    {
        proof {
            use_type_invariant(&self);
        }
        let min: u32 = cap_sum(self.min, min_by);
        let ideal: u32 = cap_sum(self.ideal, ideal_by);
        SizeRules { min, ideal: if ideal >= min { ideal } else { min }, ..self }
    }

    /// The smallest acceptable size.
    pub fn min_size(&self) -> (r: u32)
        ensures
            r == self@.min,
            self@.valid(),
    {
        proof {
            use_type_invariant(self);
        }
        self.min
    }

    /// The preferred size.
    pub fn ideal_size(&self) -> (r: u32)
        ensures
            r == self@.ideal,
            self@.valid(),
    {
        proof {
            use_type_invariant(self);
        }
        self.ideal
    }

    /// The margins asked for before and after the widget.
    pub fn margins(&self) -> (r: (u16, u16))
        ensures
            r.0 == self@.margins.0,
            r.1 == self@.margins.1,
    {
        (self.before, self.after)
    }

    /// The space that this widget asks for between itself and the widget
    /// with the rules `next` behind it: the larger of the two margins that
    /// meet.
    pub fn collapsed_gap(&self, next: &SizeRules) -> (r: u16)
        ensures
            r == self@.gap_to(next@),
    {
        max_u16(self.after, next.before)
    }

    /// The stretch policy.
    pub fn stretch(&self) -> (r: StretchPolicy)
        ensures
            r == self@.stretch,
    {
        self.stretch
    }

    /// Rules for this widget and `other` where both share the extent along
    /// the axis, as the cells of one grid column share its width.
    pub fn max(self, other: SizeRules) -> (r: SizeRules)
        ensures
            r@ == self@.beside(other@),
    {
        proof {
            use_type_invariant(&self);
            use_type_invariant(&other);
        }
        SizeRules {
            min: if self.min >= other.min { self.min } else { other.min },
            ideal: if self.ideal >= other.ideal { self.ideal } else { other.ideal },
            before: max_u16(self.before, other.before),
            after: max_u16(self.after, other.after),
            stretch: self.stretch.highest(other.stretch),
        }
    }

    /// Rules for this content inside a frame. The frame's size is added once,
    /// or at both ends of the content where `both_ends` holds.
    pub fn surrounded_by(self, frame: SizeRules, both_ends: bool) -> (r: SizeRules)
        ensures
            r@ == self@.framed(frame@, both_ends),
    {
        proof {
            use_type_invariant(&self);
            use_type_invariant(&frame);
        }
        let (fmin, fideal): (u32, u32) = if both_ends {
            (cap_sum(frame.min, frame.min), cap_sum(frame.ideal, frame.ideal))
        } else {
            (frame.min, frame.ideal)
        };
        SizeRules {
            min: cap_sum(self.min, fmin),
            ideal: cap_sum(self.ideal, fideal),
            before: max_u16(self.before, frame.before),
            after: max_u16(self.after, frame.after),
            stretch: self.stretch.highest(frame.stretch),
        }
    }

    /// Rules for content of a given, inflexible size: the component of `size`
    /// along the axis, with the container margins along it.
    pub fn extract_fixed(vertical: bool, size: Size, margins: Margins) -> (r: SizeRules)
        ensures
            r@ == (RulesView {
                min: size.on(vertical) as nat,
                ideal: size.on(vertical) as nat,
                margins: margins.edges(vertical),
                stretch: StretchPolicy::Fixed,
            }),
    {
        let s: u32 = size.extract(vertical);
        SizeRules {
            min: s,
            ideal: s,
            before: edge_of(margins.first.extract(vertical)),
            after: edge_of(margins.last.extract(vertical)),
            stretch: StretchPolicy::Fixed,
        }
    }
}

impl core::ops::Add for SizeRules {
    type Output = SizeRules;

    /// Rules for this widget followed by `rhs` along the axis: the sizes
    /// add, the margins overlap.
    fn add(self, rhs: SizeRules) -> (r: SizeRules)
        ensures
            r@ == self@.followed_by(rhs@),
    {
        proof {
            use_type_invariant(&self);
            use_type_invariant(&rhs);
        }
        SizeRules {
            min: cap_sum(self.min, rhs.min),
            ideal: cap_sum(self.ideal, rhs.ideal),
            before: max_u16(self.before, rhs.before),
            after: max_u16(self.after, rhs.after),
            stretch: self.stretch.highest(rhs.stretch),
        }
    }
}

impl AddSpecImpl for SizeRules {
    open spec fn obeys_add_spec() -> bool {
        true
    }

    open spec fn add_req(self, rhs: SizeRules) -> bool {
        true
    }

    closed spec fn add_spec(self, rhs: SizeRules) -> SizeRules {
        SizeRules {
            min: capped((self.min + rhs.min) as nat) as u32,
            ideal: capped((self.ideal + rhs.ideal) as nat) as u32,
            before: larger(self.before as nat, rhs.before as nat) as u16,
            after: larger(self.after as nat, rhs.after as nat) as u16,
            stretch: self.stretch.or_higher(rhs.stretch),
        }
    }
}

} // verus!
