//! What a container keeps between layout passes.
//!
//! A row keeps the rules of its children followed by one slot for the rules
//! of the row as a whole; a grid keeps the same for its columns and for its
//! rows. Storage of a fixed length lives in an array and accepts only that
//! length; dynamic storage lives in a `Vec` and takes any length.

use crate::layout::sealed::Sealed;
use crate::layout::size_rules::{RulesView, SizeRules};
use vstd::prelude::*;

verus! {

/// Setting the length to `len` turned `before` into `after`: the entries that
/// both have are unchanged, and new ones are empty rules.
pub open spec fn resized(before: Seq<SizeRules>, after: Seq<SizeRules>, len: usize) -> bool {
    &&& after.len() == len
    &&& forall|i: int| 0 <= i < len && i < before.len() ==> after[i] == before[i]
    &&& forall|i: int| before.len() <= i < len ==> (#[trigger] after[i])@ == RulesView::empty()
}

/// Marks what a container may keep between layout passes.
pub trait Storage {

}

impl Storage for () {

}

/// Storage for the rules of a row: those of its children, then those of the
/// row itself.
pub trait RowStorage: Storage + Sealed + Clone {
    /// The rules held.
    spec fn rules(&self) -> Seq<SizeRules>;

    /// Whether storage of this type can have the length `len`.
    spec fn holds(len: usize) -> bool;

    /// The rules held.
    fn as_ref(&self) -> (r: &[SizeRules])
        ensures
            r@ == self.rules(),
    ;

    /// The rules held, to be changed in place.
    fn as_mut(&mut self) -> (r: &mut [SizeRules])
        ensures
            r@ == old(self).rules(),
            final(self).rules() == final(r)@,
    ;

    /// Makes the storage `len` long.
    fn set_len(&mut self, len: usize)
        requires
            Self::holds(len),
        ensures
            resized(old(self).rules(), final(self).rules(), len),
    ;
}

/// Row storage of a fixed length `N`: one more than the number of children.
#[derive(Clone, Debug)]
pub struct FixedRowStorage<const N: usize> {
    rules: [SizeRules; N],
}

impl<const N: usize> Sealed for FixedRowStorage<N> {

}

impl<const N: usize> Storage for FixedRowStorage<N> {

}

impl<const N: usize> FixedRowStorage<N> {
    /// Storage that holds empty rules only.
    pub fn new() -> (r: Self)
        ensures
            r.rules().len() == N,
            forall|i: int| 0 <= i < N ==> (#[trigger] r.rules()[i])@ == RulesView::empty(),
    {
        FixedRowStorage { rules: vstd::array::array_fill_for_copy_types(SizeRules::empty()) }
    }
}

impl<const N: usize> Default for FixedRowStorage<N> {
    fn default() -> (r: Self)
        ensures
            r.rules().len() == N,
            forall|i: int| 0 <= i < N ==> (#[trigger] r.rules()[i])@ == RulesView::empty(),
    {
        FixedRowStorage::new()
    }
}

impl<const N: usize> RowStorage for FixedRowStorage<N> {
    closed spec fn rules(&self) -> Seq<SizeRules> {
        self.rules@
    }

    open spec fn holds(len: usize) -> bool {
        len == N
    }

    fn as_ref(&self) -> (r: &[SizeRules]) {
        self.rules.as_slice()
    }

    fn as_mut(&mut self) -> (r: &mut [SizeRules]) {
        &mut self.rules
    }

    fn set_len(&mut self, len: usize) {
    }
}

/// Row storage of any length.
#[derive(Clone, Debug)]
pub struct DynRowStorage {
    rules: Vec<SizeRules>,
}

impl Sealed for DynRowStorage {

}

impl Storage for DynRowStorage {

}

impl DynRowStorage {
    /// Storage without entries.
    pub fn new() -> (r: Self)
        ensures
            r.rules().len() == 0,
    {
        DynRowStorage { rules: Vec::new() }
    }
}

impl Default for DynRowStorage {
    fn default() -> (r: Self)
        ensures
            r.rules().len() == 0,
    {
        DynRowStorage::new()
    }
}

impl RowStorage for DynRowStorage {
    closed spec fn rules(&self) -> Seq<SizeRules> {
        self.rules@
    }

    open spec fn holds(len: usize) -> bool {
        true
    }

    fn as_ref(&self) -> (r: &[SizeRules]) {
        self.rules.as_slice()
    }

    fn as_mut(&mut self) -> (r: &mut [SizeRules]) {
        self.rules.as_mut_slice()
    }

    fn set_len(&mut self, len: usize) {
        resize_rules(&mut self.rules, len);
    }
}

fn resize_rules(rules: &mut Vec<SizeRules>, len: usize)
    ensures
        resized(old(rules)@, final(rules)@, len),
{
    let ghost before = rules@;
    rules.truncate(len);
    while rules.len() < len
        invariant
            rules@.len() <= len,
            before.len() <= rules@.len() || rules@.len() == len,
            forall|i: int| 0 <= i < rules@.len() && i < before.len() ==> rules@[i] == before[i],
            forall|i: int|
                before.len() <= i < rules@.len() ==> (#[trigger] rules@[i])@ == RulesView::empty(),
        decreases len - rules@.len(),
    {
        rules.push(SizeRules::empty());
    }
}

/// Sizes that a solver or setter works on: one for each child of a row.
pub trait RowTemporary: Sealed + Sized {
    /// The sizes held.
    spec fn widths(&self) -> Seq<u32>;

    /// Whether a value of this type can have the length `len`.
    spec fn holds(len: usize) -> bool;

    /// `len` sizes that are all zero.
    fn zeroed(len: usize) -> (r: Self)
        requires
            Self::holds(len),
        ensures
            r.widths() == Seq::new(len as nat, |i: int| 0u32),
    ;

    /// The sizes held.
    fn as_ref(&self) -> (r: &[u32])
        ensures
            r@ == self.widths(),
    ;

    /// The sizes held, to be changed in place.
    fn as_mut(&mut self) -> (r: &mut [u32])
        ensures
            r@ == old(self).widths(),
            final(self).widths() == final(r)@,
    ;

    /// Makes it `len` long: the sizes that stay are unchanged, new ones are
    /// zero.
    fn set_len(&mut self, len: usize)
        requires
            Self::holds(len),
        ensures
            final(self).widths().len() == len,
            forall|i: int|
                0 <= i < len && i < old(self).widths().len() ==> final(self).widths()[i] == old(
                    self,
                ).widths()[i],
            forall|i: int| old(self).widths().len() <= i < len ==> final(self).widths()[i] == 0,
    ;
}

impl Sealed for Vec<u32> {

}

impl RowTemporary for Vec<u32> {
    open spec fn widths(&self) -> Seq<u32> {
        self@
    }

    open spec fn holds(len: usize) -> bool {
        true
    }

    fn zeroed(len: usize) -> (r: Self) {
        let mut v: Vec<u32> = Vec::new();
        resize_widths(&mut v, len);
        assert(v@ =~= Seq::new(len as nat, |i: int| 0u32));
        v
    }

    fn as_ref(&self) -> (r: &[u32]) {
        self.as_slice()
    }

    fn as_mut(&mut self) -> (r: &mut [u32]) {
        self.as_mut_slice()
    }

    fn set_len(&mut self, len: usize) {
        resize_widths(self, len);
    }
}

fn resize_widths(widths: &mut Vec<u32>, len: usize)
    ensures
        final(widths)@.len() == len,
        forall|i: int| 0 <= i < len && i < old(widths)@.len() ==> final(widths)@[i] == old(widths)@[i],
        forall|i: int| old(widths)@.len() <= i < len ==> final(widths)@[i] == 0,
{
    let ghost before = widths@;
    widths.truncate(len);
    while widths.len() < len
        invariant
            widths@.len() <= len,
            before.len() <= widths@.len() || widths@.len() == len,
            forall|i: int| 0 <= i < widths@.len() && i < before.len() ==> widths@[i] == before[i],
            forall|i: int| before.len() <= i < widths@.len() ==> widths@[i] == 0,
        decreases len - widths@.len(),
    {
        widths.push(0);
    }
}

impl<const N: usize> Sealed for [u32; N] {

}

impl<const N: usize> RowTemporary for [u32; N] {
    open spec fn widths(&self) -> Seq<u32> {
        self@
    }

    open spec fn holds(len: usize) -> bool {
        len == N
    }

    fn zeroed(len: usize) -> (r: Self) {
        let a: [u32; N] = vstd::array::array_fill_for_copy_types(0u32);
        assert(a@ =~= Seq::new(len as nat, |i: int| 0u32));
        a
    }

    fn as_ref(&self) -> (r: &[u32]) {
        self.as_slice()
    }

    fn as_mut(&mut self) -> (r: &mut [u32]) {
        self
    }

    fn set_len(&mut self, len: usize) {
    }
}

/// Storage for the rules of a grid: those of its columns, then those of all
/// columns together, and the same for its rows.
pub trait GridStorage: Storage + Sealed + Clone {
    /// The rules of the columns, then of all columns together.
    spec fn col_rules(&self) -> Seq<SizeRules>;

    /// The rules of the rows, then of all rows together.
    spec fn row_rules(&self) -> Seq<SizeRules>;

    /// Whether storage of this type can hold `cols` column rules and `rows`
    /// row rules.
    spec fn holds(cols: usize, rows: usize) -> bool;

    /// The rules of the columns, then of all columns together.
    fn widths(&self) -> (r: &[SizeRules])
        ensures
            r@ == self.col_rules(),
    ;

    /// The rules of the rows, then of all rows together.
    fn heights(&self) -> (r: &[SizeRules])
        ensures
            r@ == self.row_rules(),
    ;

    /// The column rules, to be changed in place.
    fn width_rules(&mut self) -> (r: &mut [SizeRules])
        ensures
            r@ == old(self).col_rules(),
            final(self).col_rules() == final(r)@,
            final(self).row_rules() == old(self).row_rules(),
    ;

    /// The row rules, to be changed in place.
    fn height_rules(&mut self) -> (r: &mut [SizeRules])
        ensures
            r@ == old(self).row_rules(),
            final(self).row_rules() == final(r)@,
            final(self).col_rules() == old(self).col_rules(),
    ;

    /// Makes the storage hold `cols` column rules and `rows` row rules.
    fn set_dims(&mut self, cols: usize, rows: usize)
        requires
            Self::holds(cols, rows),
        ensures
            resized(old(self).col_rules(), final(self).col_rules(), cols),
            resized(old(self).row_rules(), final(self).row_rules(), rows),
    ;
}

/// Grid storage of fixed lengths: `C` is one more than the number of
/// columns, `R` one more than the number of rows.
#[derive(Clone, Debug)]
pub struct FixedGridStorage<const C: usize, const R: usize> {
    cols: [SizeRules; C],
    rows: [SizeRules; R],
}

impl<const C: usize, const R: usize> Sealed for FixedGridStorage<C, R> {

}

impl<const C: usize, const R: usize> Storage for FixedGridStorage<C, R> {

}

impl<const C: usize, const R: usize> FixedGridStorage<C, R> {
    /// Storage that holds empty rules only.
    pub fn new() -> (r: Self)
        ensures
            r.col_rules().len() == C,
            r.row_rules().len() == R,
            forall|i: int| 0 <= i < C ==> (#[trigger] r.col_rules()[i])@ == RulesView::empty(),
            forall|i: int| 0 <= i < R ==> (#[trigger] r.row_rules()[i])@ == RulesView::empty(),
    {
        FixedGridStorage {
            cols: vstd::array::array_fill_for_copy_types(SizeRules::empty()),
            rows: vstd::array::array_fill_for_copy_types(SizeRules::empty()),
        }
    }
}

impl<const C: usize, const R: usize> Default for FixedGridStorage<C, R> {
    fn default() -> (r: Self)
        ensures
            r.col_rules().len() == C,
            r.row_rules().len() == R,
            forall|i: int| 0 <= i < C ==> (#[trigger] r.col_rules()[i])@ == RulesView::empty(),
            forall|i: int| 0 <= i < R ==> (#[trigger] r.row_rules()[i])@ == RulesView::empty(),
    {
        FixedGridStorage::new()
    }
}

impl<const C: usize, const R: usize> GridStorage for FixedGridStorage<C, R> {
    closed spec fn col_rules(&self) -> Seq<SizeRules> {
        self.cols@
    }

    closed spec fn row_rules(&self) -> Seq<SizeRules> {
        self.rows@
    }

    open spec fn holds(cols: usize, rows: usize) -> bool {
        cols == C && rows == R
    }

    fn widths(&self) -> (r: &[SizeRules]) {
        self.cols.as_slice()
    }

    fn heights(&self) -> (r: &[SizeRules]) {
        self.rows.as_slice()
    }

    fn width_rules(&mut self) -> (r: &mut [SizeRules]) {
        &mut self.cols
    }

    fn height_rules(&mut self) -> (r: &mut [SizeRules]) {
        &mut self.rows
    }

    fn set_dims(&mut self, cols: usize, rows: usize) {
    }
}

/// Grid storage of any size.
#[derive(Clone, Debug)]
pub struct DynGridStorage {
    cols: Vec<SizeRules>,
    rows: Vec<SizeRules>,
}

impl Sealed for DynGridStorage {

}

impl Storage for DynGridStorage {

}

impl DynGridStorage {
    /// Storage without entries.
    pub fn new() -> (r: Self)
        ensures
            r.col_rules().len() == 0,
            r.row_rules().len() == 0,
    {
        DynGridStorage { cols: Vec::new(), rows: Vec::new() }
    }
}

impl Default for DynGridStorage {
    fn default() -> (r: Self)
        ensures
            r.col_rules().len() == 0,
            r.row_rules().len() == 0,
    {
        DynGridStorage::new()
    }
}

impl GridStorage for DynGridStorage {
    closed spec fn col_rules(&self) -> Seq<SizeRules> {
        self.cols@
    }

    closed spec fn row_rules(&self) -> Seq<SizeRules> {
        self.rows@
    }

    open spec fn holds(cols: usize, rows: usize) -> bool {
        true
    }

    fn widths(&self) -> (r: &[SizeRules]) {
        self.cols.as_slice()
    }

    fn heights(&self) -> (r: &[SizeRules]) {
        self.rows.as_slice()
    }

    fn width_rules(&mut self) -> (r: &mut [SizeRules]) {
        self.cols.as_mut_slice()
    }

    fn height_rules(&mut self) -> (r: &mut [SizeRules]) {
        self.rows.as_mut_slice()
    }

    fn set_dims(&mut self, cols: usize, rows: usize) {
        resize_rules(&mut self.cols, cols);
        resize_rules(&mut self.rows, rows);
    }
}

} // verus!
