//! Rows and columns.
//!
//! A row lays its children out one after the other along its own axis, with
//! the same gap between neighbours. Along that axis the rules of the row are
//! the rules of the children in sequence; across it they are the rules of
//! the children side by side. A column is a row whose axis is vertical.

use crate::geom::{clip, clip_pos, Coord, Rect, Size};
use crate::layout::size_rules::{Margins, RulesView, SizeRules};
use crate::layout::sizer::{RulesSetter, RulesSolver};
use crate::layout::share::{lemma_sum_to_grows, sum_to};
use crate::layout::solve::{all_valid, gaps, lemma_sizes_within, solution, solves, views};
use crate::layout::storage::{resized, RowStorage, RowTemporary};
use crate::layout::AxisInfo;
use core::marker::PhantomData;
use vstd::prelude::*;

verus! {

/// The axis along which a row lays out its children.
pub trait Direction {
    /// Whether the axis is the vertical one.
    spec fn vertical() -> bool;

    /// Whether the axis is the vertical one.
    fn is_vertical() -> (r: bool)
        ensures
            r == Self::vertical(),
    ;
}

/// From left to right.
#[derive(Clone, Copy, Debug, Default)]
pub struct Horizontal;

/// From top to bottom.
#[derive(Clone, Copy, Debug, Default)]
pub struct Vertical;

impl Direction for Horizontal {
    open spec fn vertical() -> bool {
        false
    }

    fn is_vertical() -> (r: bool) {
        false
    }
}

impl Direction for Vertical {
    open spec fn vertical() -> bool {
        true
    }

    fn is_vertical() -> (r: bool) {
        true
    }
}

/// Where child `k` of a row starts, measured from the start of the first:
/// behind the `k` children before it and as many gaps.
pub open spec fn offset(widths: Seq<u32>, gap: nat, k: int) -> nat
    decreases k,
{
    if k <= 0 {
        0
    } else {
        offset(widths, gap, k - 1) + widths[k - 1] as nat + gap
    }
}

/// The rectangle of child `i` of a row that fills `content`: along the
/// row's axis it starts at its offset and has its own size, across the axis
/// it has the position and size of `content`. A start beyond the range of
/// `i32` is cut to it.
pub open spec fn row_rect(vertical: bool, content: Rect, widths: Seq<u32>, gap: nat, i: int) -> Rect {
    let at = clip(content.pos.on(vertical) + offset(widths, gap, i)) as i32;
    if vertical {
        Rect { pos: Coord(content.pos.0, at), size: Size(content.size.0, widths[i]) }
    } else {
        Rect { pos: Coord(at, content.pos.1), size: Size(widths[i], content.size.1) }
    }
}

/// No child of the row starts beyond the range of `i32`.
pub open spec fn row_unclipped(vertical: bool, content: Rect, widths: Seq<u32>, gap: nat) -> bool {
    content.pos.on(vertical) + offset(widths, gap, widths.len() as int) <= i32::MAX
}

/// Offsets grow with the index, by at least the sizes in between.
pub proof fn lemma_offset_grows(widths: Seq<u32>, gap: nat, i: int, j: int)
    requires
        0 <= i < j <= widths.len(),
    ensures
        offset(widths, gap, i) + widths[i] as nat <= offset(widths, gap, j),
    decreases j,
{
    if i + 1 < j {
        lemma_offset_grows(widths, gap, i, j - 1);
    }
}

/// Sizes as numbers without a limit.
pub open spec fn nats(sizes: Seq<u32>) -> Seq<nat> {
    Seq::new(sizes.len(), |i: int| sizes[i] as nat)
}

/// An offset is the sizes and the gaps before it.
pub proof fn lemma_offset_is_sum(widths: Seq<u32>, gap: nat, k: int)
    requires
        0 <= k <= widths.len(),
    ensures
        offset(widths, gap, k) == sum_to(nats(widths), k) + k * gap,
    decreases k,
{
    if k > 0 {
        lemma_offset_is_sum(widths, gap, k - 1);
        assert((k - 1) * gap + gap == k * gap) by (nonlinear_arith);
    } else {
        assert(0 * gap == 0);
    }
}

/// Where the extent of a row covers at least its gaps, every child ends
/// within the extent: the children and the gaps between them never take
/// more room than the row has.
pub proof fn lemma_row_within(
    widths: Seq<u32>,
    rules: Seq<RulesView>,
    target: nat,
    gap: nat,
    i: int,
)
    requires
        all_valid(rules),
        solves(widths, rules, target, gap),
        target >= gaps(rules.len(), gap),
        0 <= i < widths.len(),
    ensures
        offset(widths, gap, i) + widths[i] <= target,
{
    let n = widths.len() as int;
    lemma_offset_is_sum(widths, gap, i);
    lemma_sum_to_grows(nats(widths), i + 1, n);
    lemma_sizes_within(rules, target, gap);
    assert(nats(widths) =~= solution(rules, target, gap));
    assert(i * gap <= (n - 1) * gap) by (nonlinear_arith)
        requires
            0 <= i <= n - 1,
    ;
}

/// In a row of which no child is cut, a point lies in the rectangle of at
/// most one child.
pub proof fn lemma_rects_apart(
    vertical: bool,
    content: Rect,
    widths: Seq<u32>,
    gap: nat,
    i: int,
    j: int,
    x: int,
    y: int,
)
    requires
        row_unclipped(vertical, content, widths, gap),
        0 <= i < widths.len(),
        0 <= j < widths.len(),
        row_rect(vertical, content, widths, gap, i).covers(x, y),
        row_rect(vertical, content, widths, gap, j).covers(x, y),
    ensures
        i == j,
{
    let n = widths.len() as int;
    if i < j {
        lemma_offset_grows(widths, gap, i, j);
        lemma_offset_grows(widths, gap, j, n);
    } else if j < i {
        lemma_offset_grows(widths, gap, j, i);
        lemma_offset_grows(widths, gap, i, n);
    }
}

pub(crate) fn row_offset(widths: &[u32], gap: u32, k: usize) -> (r: u128)
    requires
        k <= widths@.len(),
    ensures
        r == offset(widths@, gap as nat, k as int),
{
    let mut r: u128 = 0;
    let mut i: usize = 0;
    while i < k
        invariant
            i <= k <= widths@.len(),
            r == offset(widths@, gap as nat, i as int),
            r <= i * 0x2_0000_0000,
        decreases k - i,
    {
        assert(i * 0x2_0000_0000 + 0x2_0000_0000 == (i + 1) * 0x2_0000_0000) by (nonlinear_arith);
        assert((i + 1) * 0x2_0000_0000 <= 0x1_0000_0000_0000_0000 * 0x2_0000_0000)
            by (nonlinear_arith)
            requires
                i + 1 <= 0x1_0000_0000_0000_0000,
        ;
        r = r + widths[i] as u128 + gap as u128;
        i += 1;
    }
    r
}

fn rect_in_row(vertical: bool, content: &Rect, widths: &[u32], gap: u32, i: usize) -> (r: Rect)
    requires
        i < widths@.len(),
    ensures
        r == row_rect(vertical, *content, widths@, gap as nat, i as int),
{
    let off: u128 = row_offset(widths, gap, i);
    assert(off <= i * 0x2_0000_0000 <= 0x1_0000_0000_0000_0000 * 0x2_0000_0000) by {
        lemma_offset_bound(widths@, gap as nat, i as int);
        assert(i * 0x2_0000_0000 <= 0x1_0000_0000_0000_0000 * 0x2_0000_0000) by (nonlinear_arith)
            requires
                i <= 0x1_0000_0000_0000_0000,
        ;
    }
    if vertical {
        let at: i32 = clip_pos(content.pos.1 as i128 + off as i128);
        Rect { pos: Coord(content.pos.0, at), size: Size(content.size.0, widths[i]) }
    } else {
        let at: i32 = clip_pos(content.pos.0 as i128 + off as i128);
        Rect { pos: Coord(at, content.pos.1), size: Size(widths[i], content.size.1) }
    }
}

/// An offset is bounded by the number of children before it.
pub proof fn lemma_offset_bound(widths: Seq<u32>, gap: nat, k: int)
    requires
        0 <= k <= widths.len(),
        gap <= u32::MAX,
    ensures
        offset(widths, gap, k) <= k * 0x2_0000_0000,
    decreases k,
{
    if k > 0 {
        lemma_offset_bound(widths, gap, k - 1);
        assert((k - 1) * 0x2_0000_0000 + 0x2_0000_0000 == k * 0x2_0000_0000) by (nonlinear_arith);
    }
}

/// Measures a row: takes the rules of each child and gives the rules of the
/// row.
///
/// `D` is the row's axis, `T` holds one size for each child, and `R` is the
/// row's storage.
pub struct RowSolver<D, T: RowTemporary, R: RowStorage> {
    axis: AxisInfo,
    cross: bool,
    rules: SizeRules,
    widths: T,
    _d: PhantomData<D>,
    _r: PhantomData<R>,
}

impl<D: Direction, T: RowTemporary, R: RowStorage> RowSolver<D, T, R> {
    /// The axis that is measured.
    pub closed spec fn axis(&self) -> AxisInfo {
        self.axis
    }

    /// Whether the measured axis lies across the row's own axis.
    pub closed spec fn is_cross(&self) -> bool {
        self.cross
    }

    /// The rules of the children taken so far.
    pub closed spec fn total(&self) -> SizeRules {
        self.rules
    }

    /// The sizes of the children along the row's axis, where they are known:
    /// all zero otherwise.
    pub closed spec fn widths(&self) -> Seq<u32> {
        self.widths.widths()
    }

    /// The axis that child `child` is asked about: the measured axis, and
    /// where the row's extent along its own axis is fixed and the other axis
    /// is measured, the child's own size in place of the row's.
    pub open spec fn axis_for(&self, child: int) -> AxisInfo {
        if self.is_cross() && self.axis().fixed_other.is_some() {
            AxisInfo { vertical: self.axis().vertical, fixed_other: Some(self.widths()[child]) }
        } else {
            self.axis()
        }
    }

    /// Taking `rules` for child `child` turns this solver and `before` into
    /// `after` and `stored`. Along the row's axis the rules are stored for
    /// the child and follow the total; across it they stand beside the
    /// total and the storage is left alone.
    pub open spec fn takes(
        &self,
        before: Seq<SizeRules>,
        child: int,
        rules: SizeRules,
        after: &Self,
        stored: Seq<SizeRules>,
    ) -> bool {
        &&& after.axis() == self.axis()
        &&& after.is_cross() == self.is_cross()
        &&& after.widths() == self.widths()
        &&& if self.is_cross() {
            &&& stored == before
            &&& after.total()@ == self.total()@.beside(rules@)
        } else {
            &&& stored == before.update(child, rules)
            &&& after.total()@ == self.total()@.followed_by(rules@)
        }
    }

    /// A solver for a row of `n` children, measuring `axis`.
    ///
    /// The storage is made `n + 1` long. Where `axis` is the axis across the
    /// row and carries the row's extent along its own axis, that extent is
    /// divided among the children by the rules in the storage, as if the
    /// children lay side by side without gaps; each child is then asked
    /// with its own part.
    pub fn new(axis: AxisInfo, n: usize, storage: &mut R) -> (s: Self)
        requires
            n < usize::MAX,
            T::holds(n),
            R::holds((n + 1) as usize),
        ensures
            s.axis() == axis,
            s.is_cross() == (axis.vertical != D::vertical()),
            s.total()@ == RulesView::empty(),
            resized(old(storage).rules(), final(storage).rules(), (n + 1) as usize),
            s.widths().len() == n,
            match axis.fixed_other {
                Some(extent) if s.is_cross() => solves(
                    s.widths(),
                    views(final(storage).rules().take(n as int)),
                    extent as nat,
                    0,
                ),
                _ => s.widths() == Seq::new(n as nat, |i: int| 0u32),
            },
    {
        let mut widths = T::zeroed(n);
        storage.set_len(n + 1);
        let cross = axis.vertical != D::is_vertical();
        if let Some(extent) = axis.fixed_other {
            if cross {
                let rules = vstd::slice::slice_subrange(storage.as_ref(), 0, n);
                SizeRules::solve_seq(widths.as_mut(), rules, extent, 0);
            }
        }
        RowSolver { axis, cross, rules: SizeRules::empty(), widths, _d: PhantomData, _r: PhantomData }
    }

    /// The number of children.
    pub fn len(&self) -> (n: usize)
        ensures
            n == self.widths().len(),
    {
        self.widths.as_ref().len()
    }

    /// The axis that child `child` is asked about.
    pub fn child_axis(&self, child: usize) -> (axis: AxisInfo)
        requires
            child < self.widths().len(),
        ensures
            axis == self.axis_for(child as int),
    {
        if self.cross && self.axis.fixed_other.is_some() {
            AxisInfo { vertical: self.axis.vertical, fixed_other: Some(self.widths.as_ref()[child]) }
        } else {
            self.axis
        }
    }

    /// Takes the rules that child `child` gave when asked about
    /// [`child_axis`](Self::child_axis).
    pub fn add_child(&mut self, storage: &mut R, child: usize, rules: SizeRules)
        requires
            child < old(self).widths().len(),
            old(storage).rules().len() == old(self).widths().len() + 1,
        ensures
            old(self).takes(
                old(storage).rules(),
                child as int,
                rules,
                final(self),
                final(storage).rules(),
            ),
    {
        if !self.cross {
            let stored = storage.as_mut();
            stored[child] = rules;
            self.rules = self.rules + rules;
        } else {
            self.rules = self.rules.max(rules);
        }
    }
}

impl<D: Direction, T: RowTemporary, R: RowStorage> RulesSolver for RowSolver<D, T, R> {
    type Storage = R;

    type ChildInfo = usize;

    /// The child is one of the row, and the storage has a slot for each
    /// child and one more.
    open spec fn ready(&self, storage: &R, child: usize) -> bool {
        &&& child < self.widths().len()
        &&& storage.rules().len() == self.widths().len() + 1
    }

    open spec fn asks(&self, child: usize) -> AxisInfo {
        self.axis_for(child as int)
    }

    open spec fn took(
        &self,
        before: &R,
        child: usize,
        rules: SizeRules,
        after: &Self,
        stored: &R,
    ) -> bool {
        self.takes(before.rules(), child as int, rules, after, stored.rules())
    }

    open spec fn complete(&self, storage: &R) -> bool {
        storage.rules().len() == self.widths().len() + 1
    }

    /// The rules are those of the children taken. Along the row's axis
    /// they are also stored in the last slot of the storage.
    open spec fn gave(&self, before: &R, rules: SizeRules, stored: &R) -> bool {
        &&& rules == self.total()
        &&& stored.rules() == if self.is_cross() {
            before.rules()
        } else {
            before.rules().update(self.widths().len() as int, rules)
        }
    }

    fn for_child<CR: FnOnce(AxisInfo) -> SizeRules>(
        &mut self,
        storage: &mut R,
        child_info: usize,
        child_rules: CR,
    ) {
        let axis = self.child_axis(child_info);
        let rules = child_rules(axis);
        self.add_child(storage, child_info, rules);
        assert(old(self).took(old(storage), child_info, rules, self, storage));
    }

    fn finish(self, storage: &mut R) -> (rules: SizeRules) {
        let n = self.widths.as_ref().len();
        if !self.cross {
            let stored = storage.as_mut();
            stored[n] = self.rules;
        }
        self.rules
    }
}

/// Places the children of a row: gives each child its rectangle within the
/// rectangle of the row.
///
/// `D` is the row's axis, `T` holds one size for each child, and `R` is the
/// row's storage.
pub struct RowSetter<D, T: RowTemporary, R: RowStorage> {
    crect: Rect,
    inter: u32,
    widths: T,
    _d: PhantomData<D>,
    _r: PhantomData<R>,
}

impl<D: Direction, T: RowTemporary, R: RowStorage> RowSetter<D, T, R> {
    /// The rectangle that the children fill: that of the row without its
    /// outer margins.
    pub closed spec fn content(&self) -> Rect {
        self.crect
    }

    /// The gap between neighbours.
    pub closed spec fn gap(&self) -> nat {
        self.inter as nat
    }

    /// The sizes of the children along the row's axis.
    pub closed spec fn widths(&self) -> Seq<u32> {
        self.widths.widths()
    }

    /// The rectangle of child `child`.
    pub open spec fn rect_of(&self, child: int) -> Rect {
        row_rect(D::vertical(), self.content(), self.widths(), self.gap(), child)
    }

    /// A setter for a row of `n` children that has the rectangle `rect`.
    ///
    /// The storage is made `n + 1` long. What `margins` leave of `rect`
    /// along the row's axis is divided among the children by the rules in
    /// the storage, with the margins' gap between neighbours.
    pub fn new(rect: Rect, margins: Margins, n: usize, storage: &mut R) -> (s: Self)
        requires
            n < usize::MAX,
            T::holds(n),
            R::holds((n + 1) as usize),
        ensures
            s.content() == margins.inside(rect),
            s.gap() == margins.gap(D::vertical()),
            resized(old(storage).rules(), final(storage).rules(), (n + 1) as usize),
            solves(
                s.widths(),
                views(final(storage).rules().take(n as int)),
                s.content().size.on(D::vertical()) as nat,
                s.gap(),
            ),
    {
        let mut widths = T::zeroed(n);
        storage.set_len(n + 1);
        let crect = margins.shrink(rect);
        let vertical = D::is_vertical();
        let width = crect.size.extract(vertical);
        let inter = margins.inter_on(vertical);
        let rules = vstd::slice::slice_subrange(storage.as_ref(), 0, n);
        SizeRules::solve_seq(widths.as_mut(), rules, width, inter);
        RowSetter { crect, inter, widths, _d: PhantomData, _r: PhantomData }
    }

    /// The number of children.
    pub fn len(&self) -> (n: usize)
        ensures
            n == self.widths().len(),
    {
        self.widths.as_ref().len()
    }

    /// A solver that finds the children of this row by position.
    pub fn position_solver(&self) -> (r: RowPositionSolver<'_>)
        ensures
            r.vertical() == D::vertical(),
            r.content() == self.content(),
            r.gap() == self.gap(),
            r.widths() == self.widths(),
    {
        RowPositionSolver {
            vertical: D::is_vertical(),
            content: self.crect,
            gap: self.inter,
            widths: self.widths.as_ref(),
        }
    }
}

impl<D: Direction, T: RowTemporary, R: RowStorage> RulesSetter for RowSetter<D, T, R> {
    type Storage = R;

    type ChildInfo = usize;

    open spec fn has(&self, child: usize) -> bool {
        child < self.widths().len()
    }

    open spec fn places(&self, child: usize) -> Rect {
        self.rect_of(child as int)
    }

    fn child_rect(&mut self, child_info: usize) -> (r: Rect) {
        rect_in_row(D::is_vertical(), &self.crect, self.widths.as_ref(), self.inter, child_info)
    }
}

/// Finds the children of a row by position, from the sizes that the row's
/// setter gave them.
pub struct RowPositionSolver<'a> {
    vertical: bool,
    content: Rect,
    gap: u32,
    widths: &'a [u32],
}

impl<'a> RowPositionSolver<'a> {
    /// Whether the row's axis is the vertical one.
    pub closed spec fn vertical(&self) -> bool {
        self.vertical
    }

    /// The rectangle that the children fill.
    pub closed spec fn content(&self) -> Rect {
        self.content
    }

    /// The gap between neighbours.
    pub closed spec fn gap(&self) -> nat {
        self.gap as nat
    }

    /// The sizes of the children along the row's axis.
    pub closed spec fn widths(&self) -> Seq<u32> {
        self.widths@
    }

    /// The rectangle of child `child`.
    pub open spec fn rect_of(&self, child: int) -> Rect {
        row_rect(self.vertical(), self.content(), self.widths(), self.gap(), child)
    }

    /// No child starts beyond the range of `i32`.
    pub open spec fn unclipped(&self) -> bool {
        row_unclipped(self.vertical(), self.content(), self.widths(), self.gap())
    }

    /// A solver for the row whose children fill `content` with the sizes
    /// `widths` along its axis and `gap` between neighbours.
    pub fn new(vertical: bool, content: Rect, gap: u32, widths: &'a [u32]) -> (r: Self)
        ensures
            r.vertical() == vertical,
            r.content() == content,
            r.gap() == gap,
            r.widths() == widths@,
    {
        RowPositionSolver { vertical, content, gap, widths }
    }

    /// The first child whose rectangle covers `coord`, or `None` where no
    /// rectangle does. In a row of which no child is cut the rectangles
    /// do not overlap, so this is then the only such child.
    pub fn find_child_index(&self, coord: Coord) -> (r: Option<usize>)
        ensures
            match r {
                Some(i) => {
                    &&& i < self.widths().len()
                    &&& self.rect_of(i as int).covers(coord.0 as int, coord.1 as int)
                    &&& forall|j: int|
                        0 <= j < i ==> !self.rect_of(j).covers(coord.0 as int, coord.1 as int)
                },
                None => forall|j: int|
                    0 <= j < self.widths().len() ==> !self.rect_of(j).covers(
                        coord.0 as int,
                        coord.1 as int,
                    ),
            },
            self.unclipped() ==> forall|j: int|
                0 <= j < self.widths().len() && self.rect_of(j).covers(
                    coord.0 as int,
                    coord.1 as int,
                ) ==> r == Some(j as usize),
    {
        let n: usize = self.widths.len();
        let mut i: usize = 0;
        while i < n
            invariant
                n == self.widths().len(),
                i <= n,
                forall|j: int|
                    0 <= j < i ==> !self.rect_of(j).covers(coord.0 as int, coord.1 as int),
            decreases n - i,
        {
            let rect = rect_in_row(self.vertical, &self.content, self.widths, self.gap, i);
            if rect.contains(coord) {
                proof {
                    if self.unclipped() {
                        assert forall|j: int|
                            0 <= j < n && self.rect_of(j).covers(
                                coord.0 as int,
                                coord.1 as int,
                            ) implies j == i by {
                            lemma_rects_apart(
                                self.vertical(),
                                self.content(),
                                self.widths(),
                                self.gap(),
                                i as int,
                                j,
                                coord.0 as int,
                                coord.1 as int,
                            );
                        }
                    }
                }
                return Some(i);
            }
            i += 1;
        }
        None
    }

    /// The children whose rectangles have a point in common with `rect`, in
    /// index order.
    pub fn find_children(&self, rect: Rect) -> (r: Vec<usize>)
        ensures
            forall|k: int|
                0 <= k < r@.len() ==> r@[k] < self.widths().len() && self.rect_of(
                    (#[trigger] r@[k]) as int,
                ).overlaps(rect),
            forall|k: int, l: int| 0 <= k < l < r@.len() ==> r@[k] < r@[l],
            forall|j: int|
                0 <= j < self.widths().len() && self.rect_of(j).overlaps(rect) ==> r@.contains(
                    j as usize,
                ),
    {
        let n: usize = self.widths.len();
        let mut found: Vec<usize> = Vec::new();
        let mut i: usize = 0;
        while i < n
            invariant
                n == self.widths().len(),
                i <= n,
                forall|k: int|
                    0 <= k < found@.len() ==> found@[k] < i && self.rect_of(
                        (#[trigger] found@[k]) as int,
                    ).overlaps(rect),
                forall|k: int, l: int| 0 <= k < l < found@.len() ==> found@[k] < found@[l],
                forall|j: int|
                    0 <= j < i && self.rect_of(j).overlaps(rect) ==> found@.contains(j as usize),
            decreases n - i,
        {
            let child = rect_in_row(self.vertical, &self.content, self.widths, self.gap, i);
            if child.intersects(&rect) {
                let ghost before = found@;
                found.push(i);
                proof {
                    assert(found@[before.len() as int] == i);
                    assert forall|j: int|
                        0 <= j < i + 1 && self.rect_of(j).overlaps(rect) implies found@.contains(
                        j as usize,
                    ) by {
                        if j < i {
                            assert(before.contains(j as usize));
                            let k = choose|k: int| 0 <= k < before.len() && before[k] == j as usize;
                            assert(found@[k] == j as usize);
                        }
                    }
                }
            }
            i += 1;
        }
        found
    }
}

} // verus!
