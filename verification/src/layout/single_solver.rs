//! Containers with a single child.

use crate::geom::Rect;
use crate::layout::size_rules::{Margins, RulesView, SizeRules};
use crate::layout::sizer::{RulesSetter, RulesSolver};
use crate::layout::AxisInfo;
use vstd::prelude::*;

verus! {

/// Measures a container with one child: the rules of the child are the
/// rules of the container.
pub struct SingleSolver {
    axis: AxisInfo,
    rules: SizeRules,
}

impl SingleSolver {
    /// The axis that is measured.
    pub closed spec fn axis(&self) -> AxisInfo {
        self.axis
    }

    /// The rules taken so far: empty ones before the child was asked.
    pub closed spec fn total(&self) -> SizeRules {
        self.rules
    }

    /// A solver that measures `axis`.
    pub fn new(axis: AxisInfo) -> (s: Self)
        ensures
            s.axis() == axis,
            s.total()@ == RulesView::empty(),
    {
        SingleSolver { axis, rules: SizeRules::empty() }
    }

    /// Takes the rules that the child gave when asked about the axis.
    pub fn add_child(&mut self, rules: SizeRules)
        ensures
            final(self).axis() == old(self).axis(),
            final(self).total() == rules,
    {
        self.rules = rules;
    }

}

impl RulesSolver for SingleSolver {
    type Storage = ();

    type ChildInfo = ();

    open spec fn ready(&self, storage: &(), child: ()) -> bool {
        true
    }

    open spec fn asks(&self, child: ()) -> AxisInfo {
        self.axis()
    }

    open spec fn took(&self, before: &(), child: (), rules: SizeRules, after: &Self, stored: &()) -> bool {
        &&& after.axis() == self.axis()
        &&& after.total() == rules
    }

    open spec fn complete(&self, storage: &()) -> bool {
        true
    }

    open spec fn gave(&self, before: &(), rules: SizeRules, stored: &()) -> bool {
        rules == self.total()
    }

    fn for_child<CR: FnOnce(AxisInfo) -> SizeRules>(
        &mut self,
        storage: &mut (),
        child_info: (),
        child_rules: CR,
    ) {
        let rules = child_rules(self.axis);
        self.add_child(rules);
        assert(old(self).took(storage, child_info, rules, self, storage));
    }

    fn finish(self, storage: &mut ()) -> (rules: SizeRules) {
        self.rules
    }
}

/// Places the single child of a container: it gets what the margins leave
/// of the container's rectangle.
pub struct SingleSetter {
    crect: Rect,
}

impl SingleSetter {
    /// The rectangle of the child.
    pub closed spec fn content(&self) -> Rect {
        self.crect
    }

    /// A setter for a container that has the rectangle `rect`.
    pub fn new(rect: Rect, margins: Margins) -> (s: Self)
        ensures
            s.content() == margins.inside(rect),
    {
        SingleSetter { crect: margins.shrink(rect) }
    }

}

impl RulesSetter for SingleSetter {
    type Storage = ();

    type ChildInfo = ();

    open spec fn has(&self, child: ()) -> bool {
        true
    }

    open spec fn places(&self, child: ()) -> Rect {
        self.content()
    }

    fn child_rect(&mut self, child_info: ()) -> (r: Rect) {
        self.crect
    }
}

} // verus!
