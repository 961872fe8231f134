//! What all solvers and all setters have in common.
//!
//! A container measures itself by making a solver, handing it the rules of
//! each child, and finishing it. It places its children by making a setter
//! and asking it for the rectangle of each child. What a child is known by,
//! and what the container keeps between passes, differs between the kinds
//! of container.

use crate::geom::{clip, clip_pos, cut, cut_size, Coord, Rect, Size};
use crate::layout::size_rules::{capped, SizeRules};
use crate::layout::storage::Storage;
use crate::layout::AxisInfo;
use vstd::prelude::*;

verus! {

/// Measures a container from the rules of its children.
pub trait RulesSolver: Sized {
    /// What the container keeps between passes.
    type Storage: Storage;

    /// What a child is known by.
    type ChildInfo;

    /// Whether the solver can take the child now.
    spec fn ready(&self, storage: &Self::Storage, child: Self::ChildInfo) -> bool;

    /// The axis that the child is asked about.
    spec fn asks(&self, child: Self::ChildInfo) -> AxisInfo;

    /// Taking `rules` for the child turns this solver and the storage
    /// `before` into `after` and `stored`.
    spec fn took(
        &self,
        before: &Self::Storage,
        child: Self::ChildInfo,
        rules: SizeRules,
        after: &Self,
        stored: &Self::Storage,
    ) -> bool;

    /// Whether the solver can be finished now.
    spec fn complete(&self, storage: &Self::Storage) -> bool;

    /// Finishing this solver gives `rules` and turns the storage `before`
    /// into `stored`.
    spec fn gave(&self, before: &Self::Storage, rules: SizeRules, stored: &Self::Storage) -> bool;

    /// Asks the child for its rules, by `child_rules`, and takes them.
    fn for_child<CR: FnOnce(AxisInfo) -> SizeRules>(
        &mut self,
        storage: &mut Self::Storage,
        child_info: Self::ChildInfo,
        child_rules: CR,
    )
        requires
            old(self).ready(old(storage), child_info),
            call_requires(child_rules, (old(self).asks(child_info),)),
        ensures
            exists|rules: SizeRules|
                call_ensures(child_rules, (old(self).asks(child_info),), rules) && old(self).took(
                    old(storage),
                    child_info,
                    rules,
                    final(self),
                    final(storage),
                ),
    ;

    /// The rules of the container.
    fn finish(self, storage: &mut Self::Storage) -> (rules: SizeRules)
        requires
            self.complete(old(storage)),
        ensures
            self.gave(old(storage), rules, final(storage)),
    ;
}

/// Places the children of a container.
pub trait RulesSetter {
    /// What the container keeps between passes.
    type Storage: Storage;

    /// What a child is known by.
    type ChildInfo;

    /// Whether the child is one of the container.
    spec fn has(&self, child: Self::ChildInfo) -> bool;

    /// The rectangle of the child.
    spec fn places(&self, child: Self::ChildInfo) -> Rect;

    /// The rectangle of the child. The setter gives the same rectangle
    /// whenever it is asked again.
    fn child_rect(&mut self, child_info: Self::ChildInfo) -> (r: Rect)
        requires
            old(self).has(child_info),
        ensures
            r == old(self).places(child_info),
            forall|child: Self::ChildInfo|
                final(self).has(child) == old(self).has(child) && final(self).places(child) == old(
                    self,
                ).places(child),
    ;
}

/// A size with the margins on both sides of each axis added, every extent
/// stopping at the largest `u32`.
pub open spec fn padded(size: Size, horiz: (u16, u16), vert: (u16, u16)) -> Size {
    Size(
        capped((size.0 + horiz.0 + horiz.1) as nat) as u32,
        capped((size.1 + vert.0 + vert.1) as nat) as u32,
    )
}

/// What is left of a rectangle inside the margins.
pub open spec fn inset(rect: Rect, horiz: (u16, u16), vert: (u16, u16)) -> Rect {
    Rect {
        pos: Coord(clip(rect.pos.0 + horiz.0) as i32, clip(rect.pos.1 + vert.0) as i32),
        size: Size(
            cut(rect.size.0 - horiz.0 - horiz.1) as u32,
            cut(rect.size.1 - vert.0 - vert.1) as u32,
        ),
    }
}

/// What a widget said about its size the last time it was asked.
///
/// The cache is kept between layout passes. The heights depend on the width
/// that the widget has, so they are asked for again whenever the width has
/// changed. Whoever changes the widget so that its rules may differ says so
/// by [`invalidate_rule_cache`](SolveCache::invalidate_rule_cache); the
/// rules of both axes are then asked for again before the next placement.
#[derive(Clone, Copy, Debug, PartialEq, Eq)]
pub struct SolveCache {
    min: Size,
    ideal: Size,
    horiz: (u16, u16),
    vert: (u16, u16),
    refresh_rules: bool,
    last_width: u32,
}

/// What a cache holds.
pub struct CacheView {
    /// The minimum size, without margins.
    pub min: Size,
    /// The ideal size, without margins.
    pub ideal: Size,
    /// The margins before and behind the widget along the horizontal axis.
    pub horiz: (u16, u16),
    /// The margins along the vertical axis.
    pub vert: (u16, u16),
    /// Whether the rules may have changed since they were asked for.
    pub stale: bool,
    /// The width for which the heights were asked.
    pub width: u32,
}

impl View for SolveCache {
    type V = CacheView;

    closed spec fn view(&self) -> CacheView {
        CacheView {
            min: self.min,
            ideal: self.ideal,
            horiz: self.horiz,
            vert: self.vert,
            stale: self.refresh_rules,
            width: self.last_width,
        }
    }
}

impl CacheView {
    /// The cache of a widget with the rules `w` along the horizontal axis
    /// and the rules `h` along the vertical axis at its ideal width.
    pub open spec fn found(w: SizeRules, h: SizeRules) -> CacheView {
        CacheView {
            min: Size(w@.min as u32, h@.min as u32),
            ideal: Size(w@.ideal as u32, h@.ideal as u32),
            horiz: (w@.margins.0 as u16, w@.margins.1 as u16),
            vert: (h@.margins.0 as u16, h@.margins.1 as u16),
            stale: false,
            width: w@.ideal as u32,
        }
    }

    /// The width that the widget has in `rect`: that of `rect`, less the
    /// horizontal margins where they lie within it.
    pub open spec fn width_in(self, rect: Rect, inner_margin: bool) -> u32 {
        if inner_margin {
            cut(rect.size.0 - self.horiz.0 - self.horiz.1) as u32
        } else {
            rect.size.0
        }
    }

    /// The rectangle that the widget has in `rect`: `rect` itself, or what
    /// the margins leave of it where they lie within it.
    pub open spec fn rect_in(self, rect: Rect, inner_margin: bool) -> Rect {
        if inner_margin {
            inset(rect, self.horiz, self.vert)
        } else {
            rect
        }
    }

    /// The cache with new rules along the horizontal axis.
    pub open spec fn with_width_rules(self, w: SizeRules) -> CacheView {
        CacheView {
            min: Size(w@.min as u32, self.min.1),
            ideal: Size(w@.ideal as u32, self.ideal.1),
            horiz: (w@.margins.0 as u16, w@.margins.1 as u16),
            ..self
        }
    }

    /// The cache with new rules along the vertical axis, asked for at the
    /// width `width`. The cache is fresh afterwards.
    pub open spec fn with_height_rules(self, h: SizeRules, width: u32) -> CacheView {
        CacheView {
            min: Size(self.min.0, h@.min as u32),
            ideal: Size(self.ideal.0, h@.ideal as u32),
            vert: (h@.margins.0 as u16, h@.margins.1 as u16),
            stale: false,
            width,
            ..self
        }
    }
}

impl SolveCache {
    /// The axis about which a widget is asked first: the horizontal one.
    pub fn width_axis() -> (axis: AxisInfo)
        ensures
            axis == (AxisInfo { vertical: false, fixed_other: None }),
    {
        AxisInfo { vertical: false, fixed_other: None }
    }

    /// The axis about which a widget of the width `width` is asked next: the
    /// vertical one.
    pub fn height_axis(width: u32) -> (axis: AxisInfo)
        ensures
            axis == (AxisInfo { vertical: true, fixed_other: Some(width) }),
    {
        AxisInfo { vertical: true, fixed_other: Some(width) }
    }

    /// The cache of a widget that gave the rules `w` along the horizontal
    /// axis, and the rules `h` along the vertical axis when asked at its
    /// ideal width.
    pub fn new(w: SizeRules, h: SizeRules) -> (cache: SolveCache)
        ensures
            cache@ == CacheView::found(w, h),
    {
        SolveCache {
            min: Size(w.min_size(), h.min_size()),
            ideal: Size(w.ideal_size(), h.ideal_size()),
            horiz: w.margins(),
            vert: h.margins(),
            refresh_rules: false,
            last_width: w.ideal_size(),
        }
    }

    /// Asks a widget about both axes and keeps what it says: first about the
    /// horizontal axis, by `ask_width`, then about the vertical axis at its
    /// ideal width, by `ask_height`.
    pub fn find_constraints<W: FnOnce(AxisInfo) -> SizeRules, H: FnOnce(AxisInfo) -> SizeRules>(
        ask_width: W,
        ask_height: H,
    ) -> (cache: SolveCache)
        requires
            call_requires(ask_width, (AxisInfo { vertical: false, fixed_other: None },)),
            forall|width: u32|
                call_requires(ask_height, (AxisInfo { vertical: true, fixed_other: Some(width) },)),
        ensures
            exists|w: SizeRules, h: SizeRules|
                {
                    &&& call_ensures(
                        ask_width,
                        (AxisInfo { vertical: false, fixed_other: None },),
                        w,
                    )
                    &&& call_ensures(
                        ask_height,
                        (AxisInfo { vertical: true, fixed_other: Some(w@.ideal as u32) },),
                        h,
                    )
                    &&& cache@ == CacheView::found(w, h)
                },
    {
        let w = ask_width(SolveCache::width_axis());
        let h = ask_height(SolveCache::height_axis(w.ideal_size()));
        SolveCache::new(w, h)
    }

    /// The minimum size, with the margins around it where `inner_margin`
    /// holds.
    pub fn min(&self, inner_margin: bool) -> (size: Size)
        ensures
            size == if inner_margin {
                padded(self@.min, self@.horiz, self@.vert)
            } else {
                self@.min
            },
    {
        if inner_margin {
            pad(self.min, self.horiz, self.vert)
        } else {
            self.min
        }
    }

    /// The ideal size, with the margins around it where `inner_margin`
    /// holds.
    pub fn ideal(&self, inner_margin: bool) -> (size: Size)
        ensures
            size == if inner_margin {
                padded(self@.ideal, self@.horiz, self@.vert)
            } else {
                self@.ideal
            },
    {
        if inner_margin {
            pad(self.ideal, self.horiz, self.vert)
        } else {
            self.ideal
        }
    }

    /// The margins along the horizontal and along the vertical axis.
    pub fn margins(&self) -> (m: ((u16, u16), (u16, u16)))
        ensures
            m == (self@.horiz, self@.vert),
    {
        (self.horiz, self.vert)
    }

    /// Says that the rules of the widget may have changed.
    pub fn invalidate_rule_cache(&mut self)
        ensures
            final(self)@ == (CacheView { stale: true, ..old(self)@ }),
    {
        self.refresh_rules = true;
    }

    /// Whether the rules along the horizontal axis have to be asked for
    /// before the widget is placed: they have where the cache is stale.
    pub fn needs_width_rules(&self) -> (r: bool)
        ensures
            r == self@.stale,
    {
        self.refresh_rules
    }

    /// The axis about which the widget has to be asked before it is placed in
    /// `rect`, if any: the vertical one at the width it gets, where the
    /// cache is stale or was made for another width.
    pub fn needs_height_rules(&self, rect: Rect, inner_margin: bool) -> (r: Option<AxisInfo>)
        ensures
            r == if self@.stale || self@.width_in(rect, inner_margin) != self@.width {
                Some(
                    AxisInfo {
                        vertical: true,
                        fixed_other: Some(self@.width_in(rect, inner_margin)),
                    },
                )
            } else {
                None
            },
    {
        let width = self.width_in(rect, inner_margin);
        if self.refresh_rules || width != self.last_width {
            Some(SolveCache::height_axis(width))
        } else {
            None
        }
    }

    /// The width that the widget has in `rect`.
    pub fn width_in(&self, rect: Rect, inner_margin: bool) -> (width: u32)
        ensures
            width == self@.width_in(rect, inner_margin),
    {
        if inner_margin {
            cut_size(rect.size.0 as i128 - self.horiz.0 as i128 - self.horiz.1 as i128)
        } else {
            rect.size.0
        }
    }

    /// Keeps new rules along the horizontal axis.
    pub fn set_width_rules(&mut self, w: SizeRules)
        ensures
            final(self)@ == old(self)@.with_width_rules(w),
    {
        self.min = Size(w.min_size(), self.min.1);
        self.ideal = Size(w.ideal_size(), self.ideal.1);
        self.horiz = w.margins();
    }

    /// Keeps new rules along the vertical axis, which were asked for at the
    /// width `width`.
    pub fn set_height_rules(&mut self, h: SizeRules, width: u32)
        ensures
            final(self)@ == old(self)@.with_height_rules(h, width),
    {
        self.min = Size(self.min.0, h.min_size());
        self.ideal = Size(self.ideal.0, h.ideal_size());
        self.vert = h.margins();
        self.last_width = width;
        self.refresh_rules = false;
    }

    /// The rectangle that the widget gets in `rect`.
    pub fn rect_in(&self, rect: Rect, inner_margin: bool) -> (r: Rect)
        ensures
            r == self@.rect_in(rect, inner_margin),
    {
        if inner_margin {
            Rect {
                pos: Coord(
                    clip_pos(rect.pos.0 as i128 + self.horiz.0 as i128),
                    clip_pos(rect.pos.1 as i128 + self.vert.0 as i128),
                ),
                size: Size(
                    cut_size(rect.size.0 as i128 - self.horiz.0 as i128 - self.horiz.1 as i128),
                    cut_size(rect.size.1 as i128 - self.vert.0 as i128 - self.vert.1 as i128),
                ),
            }
        } else {
            rect
        }
    }
}

fn pad(size: Size, horiz: (u16, u16), vert: (u16, u16)) -> (r: Size)
    ensures
        r == padded(size, horiz, vert),
{
    let w: u64 = size.0 as u64 + horiz.0 as u64 + horiz.1 as u64;
    let h: u64 = size.1 as u64 + vert.0 as u64 + vert.1 as u64;
    Size(
        if w > u32::MAX as u64 { u32::MAX } else { w as u32 },
        if h > u32::MAX as u64 { u32::MAX } else { h as u32 },
    )
}

} // verus!
