//! The layout solver.
//!
//! [`SizeRules`] says which sizes a widget accepts along one axis, and
//! [`SizeRules::solve_seq`] divides an extent among a sequence of them.
//! [`AxisInfo`] names the axis that is being measured.
//!
//! A container measures its children with a solver and places them with a
//! setter. Both work on a storage that the container keeps between passes:
//!
//! - [`SingleSolver`] and [`SingleSetter`] for a single child;
//! - [`RowSolver`] and [`RowSetter`] for a row or a column, over a
//!   [`RowStorage`];
//! - [`GridSolver`] and [`GridSetter`] for cells of a grid that may span
//!   several rows and columns, over a [`GridStorage`].
//!
//! [`RowPositionSolver`] finds the child of a row under a point.

pub mod grid_solver;
pub mod row_solver;
mod sealed;
pub mod share;
pub mod single_solver;
pub mod size_rules;
pub mod sizer;
pub mod solve;
pub mod storage;

pub use grid_solver::{GridChildInfo, GridSetter, GridSolver, GridSpan};
pub use row_solver::{
    Direction, Horizontal, RowPositionSolver, RowSetter, RowSolver, Vertical,
};
pub use sealed::Sealed;
pub use single_solver::{SingleSetter, SingleSolver};
pub use sizer::{RulesSetter, RulesSolver, SolveCache};
pub use size_rules::{Margins, RulesView, SizeRules, StretchPolicy};
pub use storage::{
    DynGridStorage, DynRowStorage, FixedGridStorage, FixedRowStorage, GridStorage, RowStorage,
    RowTemporary, Storage,
};

use crate::geom::Size;
use vstd::prelude::*;

verus! {

/// The axis that is being measured, and the extent along the other axis
/// where that is already decided.
#[derive(Clone, Copy, Debug, PartialEq, Eq)]
pub struct AxisInfo {
    /// Whether the measured axis is the vertical one.
    pub vertical: bool,
    /// The extent along the other axis, if it is fixed.
    pub fixed_other: Option<u32>,
}

impl AxisInfo {
    /// An axis, with the extent along the other axis if that is fixed.
    pub fn new(vertical: bool, fixed: Option<u32>) -> (r: AxisInfo)
        ensures
            r.vertical == vertical,
            r.fixed_other == fixed,
    {
        AxisInfo { vertical, fixed_other: fixed }
    }

    /// Whether the measured axis is the vertical one.
    pub fn is_vertical(&self) -> (r: bool)
        ensures
            r == self.vertical,
    {
        self.vertical
    }

    /// Whether the measured axis is the horizontal one.
    pub fn is_horizontal(self) -> (r: bool)
        ensures
            r == !self.vertical,
    {
        !self.vertical
    }

    /// The extent along the other axis, if it is fixed.
    pub fn other(&self) -> (r: Option<u32>)
        ensures
            r == self.fixed_other,
    {
        self.fixed_other
    }

    /// The extent along the other axis, if it is fixed and the measured axis
    /// is the one asked about.
    pub fn size_other_if_fixed(&self, vertical: bool) -> (r: Option<u32>)
        ensures
            r == if vertical == self.vertical { self.fixed_other } else { None },
    {
        if vertical == self.vertical {
            self.fixed_other
        } else {
            None
        }
    }

    /// The component of `size` along the measured axis.
    pub fn extract_size(&self, size: Size) -> (r: u32)
        ensures
            r == size.on(self.vertical),
    {
        if !self.vertical {
            size.0
        } else {
            size.1
        }
    }
}

} // verus!
