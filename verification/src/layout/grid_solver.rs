//! Grids of cells that may span several columns and rows.
//!
//! Along each axis a grid has lines: its columns along the horizontal axis,
//! its rows along the vertical one. The rules of a line are the rules of the
//! cells in it side by side. A cell that spans several lines is looked at
//! once all cells were taken: what its rules ask for beyond the rules of its
//! lines together is dealt out to those lines. The rules of the grid are the
//! rules of its lines in sequence.

use crate::geom::{clip, clip_pos, cut, cut_size, Coord, Rect, Size};
use crate::layout::row_solver::{lemma_offset_bound, offset, row_offset};
use crate::layout::share::{
    lemma_entry_le_total, lemma_share_unit, lemma_share_without_weight, lemma_shares_total,
    lemma_sum_to_add, lemma_sum_to_le, rank, share, shares, sum_to, total, unit_weights,
};
use crate::layout::size_rules::{capped, larger, Margins, RulesView, SizeRules};
use crate::layout::sizer::{RulesSetter, RulesSolver};
use crate::layout::solve::{
    all_valid, ideals, lemma_top_tier_present, mins, solves, top_tier, views,
};
use crate::layout::storage::{resized, GridStorage};
use crate::layout::AxisInfo;
use core::marker::PhantomData;
use vstd::prelude::*;

verus! {

/// The lines that a cell covers: the columns from `col` up to, but not
/// including, `col_end`, and the rows from `row` up to `row_end`.
#[derive(Clone, Copy, Debug, PartialEq, Eq)]
pub struct GridChildInfo {
    pub col: u32,
    pub col_end: u32,
    pub row: u32,
    pub row_end: u32,
}

impl GridChildInfo {
    /// The cell covers at least one column and one row, all of them within a
    /// grid of `cols` columns and `rows` rows.
    pub open spec fn within(self, cols: usize, rows: usize) -> bool {
        &&& self.col < self.col_end <= cols
        &&& self.row < self.row_end <= rows
    }

    /// The first line that the cell covers along an axis.
    pub open spec fn start(self, vertical: bool) -> int {
        if vertical { self.row as int } else { self.col as int }
    }

    /// The line behind the last one that the cell covers along an axis.
    pub open spec fn end(self, vertical: bool) -> int {
        if vertical { self.row_end as int } else { self.col_end as int }
    }

    /// The first line and the line behind the last one along an axis.
    pub fn span(&self, vertical: bool) -> (r: (usize, usize))
        ensures
            r.0 == self.start(vertical),
            r.1 == self.end(vertical),
    {
        if vertical {
            (self.row as usize, self.row_end as usize)
        } else {
            (self.col as usize, self.col_end as usize)
        }
    }
}

/// The rules of a cell that spans the lines from `start` up to `end`.
#[derive(Clone, Copy, Debug)]
pub struct GridSpan {
    pub start: usize,
    pub end: usize,
    pub rules: SizeRules,
}

/// The column rules or the row rules of a storage.
pub open spec fn lines<S: GridStorage>(storage: &S, vertical: bool) -> Seq<SizeRules> {
    if vertical { storage.row_rules() } else { storage.col_rules() }
}

/// How much `need` exceeds `have`.
pub open spec fn lack(need: nat, have: nat) -> nat {
    if need > have { (need - have) as nat } else { 0 }
}

/// The highest stretch tier among the lines from `start` up to `end`.
pub open spec fn span_top(rules: Seq<RulesView>, start: int, end: int) -> nat {
    top_tier(rules.subrange(start, end), end - start)
}

/// For each line from `start` up to `end`, 1 if it is of the highest tier
/// among them, else 0. The lines with 1 take what a spanning cell lacks.
pub open spec fn span_weights(rules: Seq<RulesView>, start: int, end: int) -> Seq<nat> {
    Seq::new(
        (end - start) as nat,
        |j: int|
            if rules[start + j].stretch.tier() == span_top(rules, start, end) {
                1nat
            } else {
                0nat
            },
    )
}

/// A line after a cell with the rules `cell` was spread over it and its
/// neighbours: wider by its parts of what the cell lacks, as eager as the
/// cell where it takes a part, and with the cell's margin where it is the
/// first or the last line of the cell.
pub open spec fn spread_line(
    line: RulesView,
    cell: RulesView,
    min_by: nat,
    ideal_by: nat,
    takes: bool,
    first: bool,
    last: bool,
) -> RulesView {
    let wide = line.widened(min_by, ideal_by);
    RulesView {
        margins: (
            if first { larger(wide.margins.0, cell.margins.0) } else { wide.margins.0 },
            if last { larger(wide.margins.1, cell.margins.1) } else { wide.margins.1 },
        ),
        stretch: if takes { wide.stretch.or_higher(cell.stretch) } else { wide.stretch },
        ..wide
    }
}

/// The rules of all lines after a cell with the rules `cell`, spanning the
/// lines from `start` up to `end`, was spread over them.
///
/// What the cell's minimum lacks beyond the minimums of its lines, and what
/// its ideal lacks beyond their ideals, is dealt out evenly to those of its
/// lines that are of the highest stretch tier among them, the first ones
/// taking the odd pixels. Lines outside the cell stay as they are.
pub open spec fn spread(rules: Seq<RulesView>, start: int, end: int, cell: RulesView) -> Seq<
    RulesView,
> {
    let within = rules.subrange(start, end);
    let weights = span_weights(rules, start, end);
    let min_lack = lack(cell.min, total(mins(within)));
    let ideal_lack = lack(cell.ideal, total(ideals(within)));
    Seq::new(
        rules.len(),
        |c: int|
            if start <= c < end {
                spread_line(
                    rules[c],
                    cell,
                    share(min_lack, weights, c - start),
                    share(ideal_lack, weights, c - start),
                    weights[c - start] == 1,
                    c == start,
                    c == end - 1,
                )
            } else {
                rules[c]
            },
    )
}

/// Some line of a cell takes what the cell lacks.
pub proof fn lemma_span_has_takers(rules: Seq<RulesView>, start: int, end: int)
    requires
        0 <= start < end <= rules.len(),
    ensures
        total(span_weights(rules, start, end)) > 0,
{
    let within = rules.subrange(start, end);
    lemma_top_tier_present(within, end - start);
    let j = choose|j: int|
        0 <= j < end - start && (#[trigger] within[j]).stretch.tier() == top_tier(
            within,
            end - start,
        );
    assert(span_weights(rules, start, end)[j] == 1);
    lemma_entry_le_total(span_weights(rules, start, end), j);
}

/// Once a cell is spread over its lines, the lines together cover what the
/// cell asks for, both as their minimum and as their ideal size, and all
/// rules are valid as before.
pub proof fn lemma_spread_covers(rules: Seq<RulesView>, start: int, end: int, cell: RulesView)
    requires
        all_valid(rules),
        cell.valid(),
        0 <= start < end <= rules.len(),
    ensures
        all_valid(spread(rules, start, end, cell)),
        total(mins(spread(rules, start, end, cell).subrange(start, end))) >= cell.min,
        total(ideals(spread(rules, start, end, cell).subrange(start, end))) >= cell.ideal,
{
    let n = end - start;
    let within = rules.subrange(start, end);
    let after = spread(rules, start, end, cell).subrange(start, end);
    let weights = span_weights(rules, start, end);
    let min_lack = lack(cell.min, total(mins(within)));
    let ideal_lack = lack(cell.ideal, total(ideals(within)));
    lemma_span_has_takers(rules, start, end);
    assert forall|c: int| 0 <= c < rules.len() implies (#[trigger] spread(
        rules,
        start,
        end,
        cell,
    )[c]).valid() by {
        assert(rules[c].valid());
    }
    assert forall|j: int| 0 <= j < n implies (#[trigger] after[j]).min == capped(
        within[j].min + share(min_lack, weights, j),
    ) && after[j].ideal >= capped(
        within[j].ideal + share(ideal_lack, weights, j),
    ) by {
        assert(within[j] == rules[start + j]);
    }
    // the minimum sizes
    if exists|j: int| 0 <= j < n && within[j].min + share(min_lack, weights, j) > u32::MAX {
        let j = choose|j: int| 0 <= j < n && within[j].min + share(min_lack, weights, j) > u32::MAX;
        assert(mins(after)[j] == after[j].min);
        lemma_entry_le_total(mins(after), j);
    } else {
        assert forall|j: int| 0 <= j < n implies #[trigger] mins(after)[j] == mins(within)[j]
            + shares(min_lack, weights)[j] by {
            assert(mins(after)[j] == after[j].min);
        }
        lemma_shares_total(min_lack, weights);
        lemma_sum_to_add(mins(within), shares(min_lack, weights), mins(after), n);
    }
    // the ideal sizes
    if exists|j: int| 0 <= j < n && within[j].ideal + share(ideal_lack, weights, j) > u32::MAX {
        let j = choose|j: int|
            0 <= j < n && within[j].ideal + share(ideal_lack, weights, j) > u32::MAX;
        assert(ideals(after)[j] == after[j].ideal);
        lemma_entry_le_total(ideals(after), j);
    } else {
        let sums = Seq::new(
            n as nat,
            |j: int| ideals(within)[j] + shares(ideal_lack, weights)[j],
        );
        assert forall|j: int| 0 <= j < n implies #[trigger] sums[j] <= ideals(after)[j] by {
            assert(ideals(after)[j] == after[j].ideal);
        }
        lemma_shares_total(ideal_lack, weights);
        lemma_sum_to_add(ideals(within), shares(ideal_lack, weights), sums, n);
        lemma_sum_to_le(sums, ideals(after), n);
    }
}

/// The rules of all lines after the first `k` of `spans` were spread over
/// them, one after the other.
pub open spec fn spread_all(rules: Seq<RulesView>, spans: Seq<GridSpan>, k: int) -> Seq<RulesView>
    decreases k,
{
    if k <= 0 {
        rules
    } else {
        spread(
            spread_all(rules, spans, k - 1),
            spans[k - 1].start as int,
            spans[k - 1].end as int,
            spans[k - 1].rules@,
        )
    }
}

/// The rules of the first `k` lines in sequence.
pub open spec fn in_sequence(rules: Seq<RulesView>, k: int) -> RulesView
    decreases k,
{
    if k <= 0 {
        RulesView::empty()
    } else {
        in_sequence(rules, k - 1).followed_by(rules[k - 1])
    }
}

/// The rules of lines in sequence ask for the sum of what the lines ask for,
/// as far as a `u32` holds it.
pub proof fn lemma_in_sequence_sums(rules: Seq<RulesView>, k: int)
    requires
        0 <= k <= rules.len(),
    ensures
        in_sequence(rules, k).min == capped(sum_to(mins(rules), k)),
        in_sequence(rules, k).ideal == capped(sum_to(ideals(rules), k)),
        in_sequence(rules, k).stretch.tier() == top_tier(rules, k),
    decreases k,
{
    if k > 0 {
        lemma_in_sequence_sums(rules, k - 1);
    }
}

/// The extent of the lines from `start` up to `end` with the gaps between
/// them, cut to the range of `u32`.
pub open spec fn span_extent(sizes: Seq<u32>, gap: nat, start: int, end: int) -> int {
    cut(offset(sizes, gap, end) - offset(sizes, gap, start) - gap)
}

/// The rectangle of a cell in a grid that fills `content` with columns of
/// the sizes `widths` and rows of the sizes `heights`: it reaches from the
/// start of its first column and row to the end of its last ones, over the
/// gaps in between.
pub open spec fn cell_rect(
    content: Rect,
    widths: Seq<u32>,
    heights: Seq<u32>,
    gaps: (nat, nat),
    info: GridChildInfo,
) -> Rect {
    Rect {
        pos: Coord(
            clip(content.pos.0 + offset(widths, gaps.0, info.col as int)) as i32,
            clip(content.pos.1 + offset(heights, gaps.1, info.row as int)) as i32,
        ),
        size: Size(
            span_extent(widths, gaps.0, info.col as int, info.col_end as int) as u32,
            span_extent(heights, gaps.1, info.row as int, info.row_end as int) as u32,
        ),
    }
}

fn lines_of<S: GridStorage>(storage: &S, vertical: bool) -> (r: &[SizeRules])
    ensures
        r@ == lines(storage, vertical),
{
    if vertical {
        storage.heights()
    } else {
        storage.widths()
    }
}

fn set_line<S: GridStorage>(storage: &mut S, vertical: bool, index: usize, rules: SizeRules)
    requires
        index < lines(old(storage), vertical).len(),
    ensures
        lines(final(storage), vertical) == lines(old(storage), vertical).update(
            index as int,
            rules,
        ),
        lines(final(storage), !vertical) == lines(old(storage), !vertical),
{
    if vertical {
        let stored = storage.height_rules();
        stored[index] = rules;
    } else {
        let stored = storage.width_rules();
        stored[index] = rules;
    }
}

fn span_size(sizes: &[u32], gap: u32, start: usize, end: usize) -> (r: u32)
    requires
        start <= end <= sizes@.len(),
    ensures
        r == span_extent(sizes@, gap as nat, start as int, end as int),
{
    let to: u128 = row_offset(sizes, gap, end);
    let from: u128 = row_offset(sizes, gap, start);
    proof {
        lemma_offset_bound(sizes@, gap as nat, end as int);
        lemma_offset_bound(sizes@, gap as nat, start as int);
        assert(end * 0x2_0000_0000 <= 0x1_0000_0000_0000_0000 * 0x2_0000_0000)
            by (nonlinear_arith)
            requires
                end <= 0x1_0000_0000_0000_0000,
        ;
        assert(start * 0x2_0000_0000 <= 0x1_0000_0000_0000_0000 * 0x2_0000_0000)
            by (nonlinear_arith)
            requires
                start <= 0x1_0000_0000_0000_0000,
        ;
    }
    cut_size(to as i128 - from as i128 - gap as i128)
}

/// The sums of the minimum and ideal sizes of the lines of a span, their
/// highest tier, and how many of them are of that tier.
fn span_survey(rules: &[SizeRules], start: usize, end: usize) -> (r: (u128, u128, u8, u128))
    requires
        start < end <= rules@.len(),
    ensures
        r.0 == total(mins(views(rules@).subrange(start as int, end as int))),
        r.1 == total(ideals(views(rules@).subrange(start as int, end as int))),
        r.2 == span_top(views(rules@), start as int, end as int),
        r.3 == total(span_weights(views(rules@), start as int, end as int)),
        unit_weights(span_weights(views(rules@), start as int, end as int)),
{
    let ghost within = views(rules@).subrange(start as int, end as int);
    let ghost weights = span_weights(views(rules@), start as int, end as int);
    let mut least: u128 = 0;
    let mut wish: u128 = 0;
    let mut top: u8 = 0;
    let mut i: usize = start;
    while i < end
        invariant
            start <= i <= end <= rules@.len(),
            within == views(rules@).subrange(start as int, end as int),
            least == sum_to(mins(within), i - start),
            wish == sum_to(ideals(within), i - start),
            top == top_tier(within, i - start),
            least <= (i - start) * 0xffff_ffff,
            wish <= (i - start) * 0xffff_ffff,
        decreases end - i,
    {
        let r: SizeRules = rules[i];
        let level: u8 = r.stretch().level();
        proof {
            assert(within[i - start] == r@);
            assert((i - start) * 0xffff_ffff + 0xffff_ffff == (i + 1 - start) * 0xffff_ffff)
                by (nonlinear_arith);
            assert((i + 1 - start) * 0xffff_ffff <= 0x1_0000_0000_0000_0000 * 0xffff_ffff)
                by (nonlinear_arith)
                requires
                    i + 1 - start <= 0x1_0000_0000_0000_0000,
            ;
        }
        least = least + r.min_size() as u128;
        wish = wish + r.ideal_size() as u128;
        if level > top {
            top = level;
        }
        i += 1;
    }
    let mut count: u128 = 0;
    let mut i: usize = start;
    while i < end
        invariant
            start <= i <= end <= rules@.len(),
            within == views(rules@).subrange(start as int, end as int),
            weights == span_weights(views(rules@), start as int, end as int),
            top == top_tier(within, end - start),
            count == sum_to(weights, i - start),
            count <= i - start,
        decreases end - i,
    {
        let r: SizeRules = rules[i];
        proof {
            assert(views(rules@)[i as int] == r@);
        }
        if r.stretch().level() == top {
            count = count + 1;
        }
        i += 1;
    }
    (least, wish, top, count)
}

/// A part of what a spanning cell lacks: an even part, and one pixel more
/// for the first `lack % count` lines that take a part.
fn even_part(lack: u32, count: u128, seen: u128) -> (part: u32)
    requires
        0 < count,
        seen < count,
    ensures
        part == lack as nat / count as nat + if (seen as nat) < lack as nat % count as nat {
            1nat
        } else {
            0nat
        },
{
    let each: u128 = lack as u128 / count;
    let odd: u128 = lack as u128 % count;
    proof {
        vstd::arithmetic::div_mod::lemma_fundamental_div_mod(lack as int, count as int);
        assert(count * each >= each) by (nonlinear_arith)
            requires
                count >= 1,
                each >= 0,
        ;
        if odd > 0 {
            assert(each < lack);
        }
    }
    if seen < odd {
        (each + 1) as u32
    } else {
        each as u32
    }
}

/// Spreads a cell with the rules `cell`, spanning the lines from `start` up
/// to `end`, over the rules of the lines.
fn spread_span(rules: &mut [SizeRules], start: usize, end: usize, cell: SizeRules)
    requires
        start < end <= old(rules)@.len(),
    ensures
        final(rules)@.len() == old(rules)@.len(),
        views(final(rules)@) == spread(views(old(rules)@), start as int, end as int, cell@),
{
    let ghost before = views(rules@);
    let ghost weights = span_weights(before, start as int, end as int);
    let (least, wish, top, count) = span_survey(rules, start, end);
    let min: u32 = cell.min_size();
    let ideal: u32 = cell.ideal_size();
    let min_lack: u32 = if min as u128 > least { (min as u128 - least) as u32 } else { 0 };
    let ideal_lack: u32 = if ideal as u128 > wish { (ideal as u128 - wish) as u32 } else { 0 };
    let margins = cell.margins();
    let mut seen: u128 = 0;
    let mut i: usize = start;
    while i < end
        invariant
            start <= i <= end <= rules@.len(),
            rules@.len() == before.len(),
            weights == span_weights(before, start as int, end as int),
            unit_weights(weights),
            count == total(weights),
            top == span_top(before, start as int, end as int),
            min_lack == lack(cell@.min, total(mins(before.subrange(start as int, end as int)))),
            ideal_lack == lack(
                cell@.ideal,
                total(ideals(before.subrange(start as int, end as int))),
            ),
            margins.0 == cell@.margins.0,
            margins.1 == cell@.margins.1,
            seen == rank(weights, i - start),
            forall|c: int|
                0 <= c < rules@.len() && !(start <= c < i) ==> (#[trigger] rules@[c])@
                    == before[c],
            forall|c: int|
                start <= c < i ==> (#[trigger] rules@[c])@ == spread(
                    before,
                    start as int,
                    end as int,
                    cell@,
                )[c],
        decreases end - i,
    {
        let line: SizeRules = rules[i];
        let takes: bool = line.stretch().level() == top;
        proof {
            assert(line@ == before[i as int]);
            assert(weights[i - start] == if takes { 1nat } else { 0nat });
            if takes {
                lemma_share_unit(min_lack as nat, weights, i - start);
                lemma_share_unit(ideal_lack as nat, weights, i - start);
            } else {
                lemma_share_without_weight(min_lack as nat, weights, i - start);
                lemma_share_without_weight(ideal_lack as nat, weights, i - start);
            }
        }
        let (min_by, ideal_by): (u32, u32) = if takes {
            (even_part(min_lack, count, seen), even_part(ideal_lack, count, seen))
        } else {
            (0, 0)
        };
        let mut wide = line.widened(min_by, ideal_by);
        if takes {
            wide = wide.with_stretch(wide.stretch().highest(cell.stretch()));
            seen = seen + 1;
        }
        let own = wide.margins();
        let before_edge: u16 = if i == start && margins.0 > own.0 { margins.0 } else { own.0 };
        let after_edge: u16 = if i == end - 1 && margins.1 > own.1 { margins.1 } else { own.1 };
        wide = wide.with_margins((before_edge, after_edge));
        rules[i] = wide;
        i += 1;
    }
    assert(views(rules@) =~= spread(before, start as int, end as int, cell@));
}

/// Measures a grid: takes the rules of each cell and gives the rules of the
/// grid. `S` is the grid's storage.
pub struct GridSolver<S: GridStorage> {
    axis: AxisInfo,
    cols: usize,
    rows: usize,
    sizes: Vec<u32>,
    spans: Vec<GridSpan>,
    _s: PhantomData<S>,
}

impl<S: GridStorage> GridSolver<S> {
    /// The axis that is measured.
    pub closed spec fn axis(&self) -> AxisInfo {
        self.axis
    }

    /// The numbers of columns and of rows.
    pub closed spec fn dims(&self) -> (usize, usize) {
        (self.cols, self.rows)
    }

    /// The number of lines along an axis.
    pub open spec fn count(&self, vertical: bool) -> usize {
        if vertical { self.dims().1 } else { self.dims().0 }
    }

    /// The sizes of the lines along the other axis, where its extent is
    /// fixed: all zero otherwise.
    pub closed spec fn sizes(&self) -> Seq<u32> {
        self.sizes@
    }

    /// The spanning cells taken so far, in the order in which they came.
    pub closed spec fn pending(&self) -> Seq<GridSpan> {
        self.spans@
    }

    /// The axis that the cell `info` is asked about: the measured axis, and
    /// where the grid's extent along the other axis is fixed, the extent of
    /// the cell's own lines in place of the grid's.
    pub open spec fn axis_for(&self, info: GridChildInfo) -> AxisInfo {
        let other = !self.axis().vertical;
        if self.axis().fixed_other.is_some() {
            AxisInfo {
                vertical: self.axis().vertical,
                fixed_other: Some(
                    span_extent(self.sizes(), 0, info.start(other), info.end(other)) as u32,
                ),
            }
        } else {
            self.axis()
        }
    }

    /// Taking `rules` for the cell `info` turns this solver and the line
    /// rules `before` into `after` and `stored`. The rules of a cell in a
    /// single line stand beside those of the line; a cell that spans several
    /// lines is kept for [`finish`](Self::finish).
    pub open spec fn takes(
        &self,
        before: Seq<SizeRules>,
        info: GridChildInfo,
        rules: SizeRules,
        after: &Self,
        stored: Seq<SizeRules>,
    ) -> bool {
        let start = info.start(self.axis().vertical);
        let end = info.end(self.axis().vertical);
        &&& after.axis() == self.axis()
        &&& after.dims() == self.dims()
        &&& after.sizes() == self.sizes()
        &&& if end == start + 1 {
            &&& after.pending() == self.pending()
            &&& views(stored) == views(before).update(start, before[start]@.beside(rules@))
        } else {
            &&& after.pending() == self.pending().push(
                GridSpan { start: start as usize, end: end as usize, rules },
            )
            &&& stored == before
        }
    }

    /// Every spanning cell taken so far lies within the lines of the
    /// measured axis.
    pub open spec fn spans_fit(&self) -> bool {
        forall|k: int|
            0 <= k < self.pending().len() ==> (#[trigger] self.pending()[k]).start
                < self.pending()[k].end <= self.count(self.axis().vertical)
    }

    /// A solver for a grid of `dim.0` columns and `dim.1` rows, measuring
    /// `axis`.
    ///
    /// The storage is made to hold one rule more than there are columns and
    /// one more than there are rows, and the rules of the lines along `axis`
    /// are emptied. Where `axis` carries the grid's extent along the other
    /// axis, that extent is divided among the lines of the other axis by
    /// their rules in the storage, without gaps.
    pub fn new(axis: AxisInfo, dim: (usize, usize), storage: &mut S) -> (s: Self)
        requires
            dim.0 < usize::MAX,
            dim.1 < usize::MAX,
            S::holds((dim.0 + 1) as usize, (dim.1 + 1) as usize),
        ensures
            s.axis() == axis,
            s.dims() == dim,
            s.pending() == Seq::<GridSpan>::empty(),
            s.spans_fit(),
            lines(final(storage), axis.vertical).len() == s.count(axis.vertical) + 1,
            forall|i: int|
                0 <= i < s.count(axis.vertical) ==> (#[trigger] lines(
                    final(storage),
                    axis.vertical,
                )[i])@ == RulesView::empty(),
            lines(final(storage), axis.vertical)[s.count(axis.vertical) as int]@ == if s.count(
                axis.vertical,
            ) < lines(old(storage), axis.vertical).len() {
                lines(old(storage), axis.vertical)[s.count(axis.vertical) as int]@
            } else {
                RulesView::empty()
            },
            resized(
                lines(old(storage), !axis.vertical),
                lines(final(storage), !axis.vertical),
                (s.count(!axis.vertical) + 1) as usize,
            ),
            match axis.fixed_other {
                Some(extent) => solves(
                    s.sizes(),
                    views(lines(final(storage), !axis.vertical).take(s.count(!axis.vertical) as int)),
                    extent as nat,
                    0,
                ),
                None => s.sizes() == Seq::new(s.count(!axis.vertical) as nat, |i: int| 0u32),
            },
    {
        let (cols, rows) = dim;
        storage.set_dims(cols + 1, rows + 1);
        let ghost resized_other = lines(storage, !axis.vertical);
        let n: usize = if axis.vertical { rows } else { cols };
        let ghost last = lines(storage, axis.vertical)[n as int];
        let m: usize = if axis.vertical { cols } else { rows };
        let mut i: usize = 0;
        while i < n
            invariant
                i <= n,
                lines(storage, axis.vertical).len() == n + 1,
                lines(storage, axis.vertical)[n as int] == last,
                lines(storage, !axis.vertical) == resized_other,
                forall|j: int|
                    0 <= j < i ==> (#[trigger] lines(storage, axis.vertical)[j])@
                        == RulesView::empty(),
            decreases n - i,
        {
            set_line(storage, axis.vertical, i, SizeRules::empty());
            i += 1;
        }
        let mut sizes: Vec<u32> = Vec::new();
        while sizes.len() < m
            invariant
                sizes@.len() <= m,
                forall|j: int| 0 <= j < sizes@.len() ==> sizes@[j] == 0,
            decreases m - sizes@.len(),
        {
            sizes.push(0);
        }
        assert(sizes@ =~= Seq::new(m as nat, |i: int| 0u32));
        if let Some(extent) = axis.fixed_other {
            let rules = vstd::slice::slice_subrange(lines_of(storage, !axis.vertical), 0, m);
            SizeRules::solve_seq(sizes.as_mut_slice(), rules, extent, 0);
        }
        GridSolver { axis, cols, rows, sizes, spans: Vec::new(), _s: PhantomData }
    }

    /// The axis that the cell `info` is asked about.
    pub fn child_axis(&self, info: GridChildInfo) -> (axis: AxisInfo)
        requires
            info.within(self.dims().0, self.dims().1),
            self.sizes().len() == self.count(!self.axis().vertical),
        ensures
            axis == self.axis_for(info),
    {
        if self.axis.fixed_other.is_some() {
            let (start, end) = info.span(!self.axis.vertical);
            let extent = span_size(self.sizes.as_slice(), 0, start, end);
            AxisInfo { vertical: self.axis.vertical, fixed_other: Some(extent) }
        } else {
            self.axis
        }
    }

    /// Takes the rules that the cell `info` gave when asked about
    /// [`child_axis`](Self::child_axis).
    pub fn add_child(&mut self, storage: &mut S, info: GridChildInfo, rules: SizeRules)
        requires
            info.within(old(self).dims().0, old(self).dims().1),
            old(self).spans_fit(),
            lines(old(storage), old(self).axis().vertical).len() == old(self).count(
                old(self).axis().vertical,
            ) + 1,
        ensures
            old(self).takes(
                lines(old(storage), old(self).axis().vertical),
                info,
                rules,
                final(self),
                lines(final(storage), old(self).axis().vertical),
            ),
            lines(final(storage), !old(self).axis().vertical) == lines(
                old(storage),
                !old(self).axis().vertical,
            ),
            final(self).spans_fit(),
            lines(final(storage), old(self).axis().vertical).len() == lines(
                old(storage),
                old(self).axis().vertical,
            ).len(),
    {
        let vertical = self.axis.vertical;
        let (start, end) = info.span(vertical);
        if end == start + 1 {
            let line: SizeRules = lines_of(storage, vertical)[start];
            let ghost before = lines(storage, vertical);
            set_line(storage, vertical, start, line.max(rules));
            assert(views(lines(storage, vertical)) =~= views(before).update(
                start as int,
                before[start as int]@.beside(rules@),
            ));
        } else {
            let ghost before = self.spans@;
            self.spans.push(GridSpan { start, end, rules });
            assert forall|k: int| 0 <= k < self.spans@.len() implies (#[trigger] self.spans@[k]).start
                < self.spans@[k].end <= self.count(vertical) by {
                if k < before.len() {
                    assert(self.spans@[k] == before[k]);
                    assert(old(self).pending()[k] == before[k]);
                }
            }
        }
    }

}

impl<S: GridStorage> RulesSolver for GridSolver<S> {
    type Storage = S;

    type ChildInfo = GridChildInfo;

    /// The cell lies within the grid, and the solver and the storage are as
    /// [`new`](GridSolver::new) and the children taken since left them.
    open spec fn ready(&self, storage: &S, child: GridChildInfo) -> bool {
        &&& child.within(self.dims().0, self.dims().1)
        &&& self.complete(storage)
    }

    open spec fn asks(&self, child: GridChildInfo) -> AxisInfo {
        self.axis_for(child)
    }

    open spec fn took(
        &self,
        before: &S,
        child: GridChildInfo,
        rules: SizeRules,
        after: &Self,
        stored: &S,
    ) -> bool {
        &&& self.takes(
            lines(before, self.axis().vertical),
            child,
            rules,
            after,
            lines(stored, self.axis().vertical),
        )
        &&& lines(stored, !self.axis().vertical) == lines(before, !self.axis().vertical)
        &&& after.complete(stored)
    }

    open spec fn complete(&self, storage: &S) -> bool {
        &&& self.spans_fit()
        &&& self.sizes().len() == self.count(!self.axis().vertical)
        &&& lines(storage, self.axis().vertical).len() == self.count(self.axis().vertical) + 1
    }

    /// The rules are those of the lines in sequence, once every spanning
    /// cell was spread over its lines in the order in which the cells came.
    /// The rules of the lines are left in the storage, followed by the rules
    /// of the grid.
    open spec fn gave(&self, before: &S, rules: SizeRules, stored: &S) -> bool {
        let vertical = self.axis().vertical;
        let done = spread_all(
            views(lines(before, vertical)),
            self.pending(),
            self.pending().len() as int,
        );
        &&& rules@ == in_sequence(done, self.count(vertical) as int)
        &&& views(lines(stored, vertical)) == done.update(self.count(vertical) as int, rules@)
        &&& lines(stored, !vertical) == lines(before, !vertical)
    }

    fn for_child<CR: FnOnce(AxisInfo) -> SizeRules>(
        &mut self,
        storage: &mut S,
        child_info: GridChildInfo,
        child_rules: CR,
    ) {
        let axis = self.child_axis(child_info);
        let rules = child_rules(axis);
        self.add_child(storage, child_info, rules);
        assert(old(self).took(old(storage), child_info, rules, self, storage));
    }

    fn finish(self, storage: &mut S) -> (rules: SizeRules) {
        let vertical = self.axis.vertical;
        let n: usize = if vertical { self.rows } else { self.cols };
        let ghost before = views(lines(storage, vertical));
        let ghost other = lines(storage, !vertical);
        let mut k: usize = 0;
        while k < self.spans.len()
            invariant
                k <= self.spans@.len(),
                self.spans_fit(),
                self.axis().vertical == vertical,
                n == self.count(vertical),
                lines(storage, vertical).len() == n + 1,
                lines(storage, !vertical) == other,
                views(lines(storage, vertical)) == spread_all(before, self.spans@, k as int),
            decreases self.spans@.len() - k,
        {
            let span: GridSpan = self.spans[k];
            assert(self.pending()[k as int] == span);
            if vertical {
                spread_span(storage.height_rules(), span.start, span.end, span.rules);
            } else {
                spread_span(storage.width_rules(), span.start, span.end, span.rules);
            }
            k += 1;
        }
        let ghost done = views(lines(storage, vertical));
        let mut rules = SizeRules::empty();
        let mut i: usize = 0;
        while i < n
            invariant
                i <= n,
                lines(storage, vertical).len() == n + 1,
                views(lines(storage, vertical)) == done,
                rules@ == in_sequence(done, i as int),
            decreases n - i,
        {
            let line: SizeRules = lines_of(storage, vertical)[i];
            assert(done[i as int] == line@);
            rules = rules + line;
            i += 1;
        }
        set_line(storage, vertical, n, rules);
        assert(views(lines(storage, vertical)) =~= done.update(n as int, rules@));
        rules
    }
}

/// Places the cells of a grid: gives each cell its rectangle within the
/// rectangle of the grid. `S` is the grid's storage.
pub struct GridSetter<S: GridStorage> {
    crect: Rect,
    inter: (u32, u32),
    widths: Vec<u32>,
    heights: Vec<u32>,
    _s: PhantomData<S>,
}

impl<S: GridStorage> GridSetter<S> {
    /// The rectangle that the cells fill: that of the grid without its
    /// outer margins.
    pub closed spec fn content(&self) -> Rect {
        self.crect
    }

    /// The gaps between neighbouring columns and between neighbouring rows.
    pub closed spec fn gaps(&self) -> (nat, nat) {
        (self.inter.0 as nat, self.inter.1 as nat)
    }

    /// The sizes of the columns.
    pub closed spec fn widths(&self) -> Seq<u32> {
        self.widths@
    }

    /// The sizes of the rows.
    pub closed spec fn heights(&self) -> Seq<u32> {
        self.heights@
    }

    /// The rectangle of the cell `info`.
    pub open spec fn rect_of(&self, info: GridChildInfo) -> Rect {
        cell_rect(self.content(), self.widths(), self.heights(), self.gaps(), info)
    }

    /// A setter for a grid of `dim.0` columns and `dim.1` rows that has the
    /// rectangle `rect`.
    ///
    /// What `margins` leave of `rect` is divided among the columns by the
    /// column rules in the storage, and among the rows by the row rules,
    /// with the margins' gaps between neighbours.
    pub fn new(rect: Rect, margins: Margins, dim: (usize, usize), storage: &mut S) -> (s: Self)
        requires
            dim.0 < usize::MAX,
            dim.1 < usize::MAX,
            S::holds((dim.0 + 1) as usize, (dim.1 + 1) as usize),
        ensures
            s.content() == margins.inside(rect),
            s.gaps() == (margins.gap(false), margins.gap(true)),
            resized(old(storage).col_rules(), final(storage).col_rules(), (dim.0 + 1) as usize),
            resized(old(storage).row_rules(), final(storage).row_rules(), (dim.1 + 1) as usize),
            solves(
                s.widths(),
                views(final(storage).col_rules().take(dim.0 as int)),
                s.content().size.0 as nat,
                s.gaps().0,
            ),
            solves(
                s.heights(),
                views(final(storage).row_rules().take(dim.1 as int)),
                s.content().size.1 as nat,
                s.gaps().1,
            ),
    {
        let (cols, rows) = dim;
        storage.set_dims(cols + 1, rows + 1);
        let crect = margins.shrink(rect);
        let inter = (margins.inter_on(false), margins.inter_on(true));
        let mut widths: Vec<u32> = zeros(cols);
        let mut heights: Vec<u32> = zeros(rows);
        let col_rules = vstd::slice::slice_subrange(storage.widths(), 0, cols);
        SizeRules::solve_seq(widths.as_mut_slice(), col_rules, crect.size.0, inter.0);
        let row_rules = vstd::slice::slice_subrange(storage.heights(), 0, rows);
        SizeRules::solve_seq(heights.as_mut_slice(), row_rules, crect.size.1, inter.1);
        GridSetter { crect, inter, widths, heights, _s: PhantomData }
    }

}

impl<S: GridStorage> RulesSetter for GridSetter<S> {
    type Storage = S;

    type ChildInfo = GridChildInfo;

    open spec fn has(&self, child: GridChildInfo) -> bool {
        child.within(self.widths().len() as usize, self.heights().len() as usize)
    }

    open spec fn places(&self, child: GridChildInfo) -> Rect {
        self.rect_of(child)
    }

    fn child_rect(&mut self, child_info: GridChildInfo) -> (r: Rect) {
        let (col, col_end) = child_info.span(false);
        let (row, row_end) = child_info.span(true);
        let x: u128 = row_offset(self.widths.as_slice(), self.inter.0, col);
        let y: u128 = row_offset(self.heights.as_slice(), self.inter.1, row);
        proof {
            lemma_offset_bound(self.widths@, self.inter.0 as nat, col as int);
            lemma_offset_bound(self.heights@, self.inter.1 as nat, row as int);
            assert(col * 0x2_0000_0000 <= 0x1_0000_0000 * 0x2_0000_0000) by (nonlinear_arith)
                requires
                    col <= 0x1_0000_0000,
            ;
            assert(row * 0x2_0000_0000 <= 0x1_0000_0000 * 0x2_0000_0000) by (nonlinear_arith)
                requires
                    row <= 0x1_0000_0000,
            ;
        }
        Rect {
            pos: Coord(
                clip_pos(self.crect.pos.0 as i128 + x as i128),
                clip_pos(self.crect.pos.1 as i128 + y as i128),
            ),
            size: Size(
                span_size(self.widths.as_slice(), self.inter.0, col, col_end),
                span_size(self.heights.as_slice(), self.inter.1, row, row_end),
            ),
        }
    }
}

fn zeros(n: usize) -> (r: Vec<u32>)
    ensures
        r@.len() == n,
        forall|i: int| 0 <= i < n ==> r@[i] == 0,
{
    let mut r: Vec<u32> = Vec::new();
    while r.len() < n
        invariant
            r@.len() <= n,
            forall|j: int| 0 <= j < r@.len() ==> r@[j] == 0,
        decreases n - r@.len(),
    {
        r.push(0);
    }
    r
}

} // verus!
