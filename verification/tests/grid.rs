use kas_layout::geom::{Coord, Rect, Size};
use kas_layout::layout::{
    AxisInfo, DynGridStorage, FixedGridStorage, GridChildInfo, GridSetter, GridSolver,
    GridStorage, Margins, RulesSetter, RulesSolver, SingleSetter, SingleSolver, SizeRules,
    StretchPolicy,
};

fn rules(min: u32, ideal: u32, stretch: StretchPolicy) -> SizeRules {
    SizeRules::variable(min, ideal).with_stretch(stretch)
}

fn cell(col: u32, col_end: u32, row: u32, row_end: u32) -> GridChildInfo {
    GridChildInfo { col, col_end, row, row_end }
}

fn sizes(r: &[SizeRules]) -> Vec<(u32, u32)> {
    r.iter().map(|r| (r.min_size(), r.ideal_size())).collect()
}

#[test]
fn spanning_cell_covers_its_columns_and_the_gap_between() {
    let mut storage = DynGridStorage::new();
    storage.set_dims(4, 2);
    storage.width_rules()[0] = SizeRules::fixed(40);
    storage.width_rules()[1] = SizeRules::fixed(60);
    storage.width_rules()[2] = SizeRules::fixed(50);
    storage.height_rules()[0] = SizeRules::fixed(10);
    let m = Margins { first: Coord(0, 0), last: Coord(0, 0), inter: (2, 0) };
    let rect = Rect::new(Coord(0, 0), Size(154, 10));
    let mut setter = GridSetter::new(rect, m, (3, 1), &mut storage);
    assert_eq!(setter.child_rect(cell(0, 2, 0, 1)), Rect::new(Coord(0, 0), Size(102, 10)));
    assert_eq!(setter.child_rect(cell(0, 1, 0, 1)), Rect::new(Coord(0, 0), Size(40, 10)));
    assert_eq!(setter.child_rect(cell(1, 2, 0, 1)), Rect::new(Coord(42, 0), Size(60, 10)));
    assert_eq!(setter.child_rect(cell(2, 3, 0, 1)), Rect::new(Coord(104, 0), Size(50, 10)));
    assert_eq!(setter.child_rect(cell(0, 3, 0, 1)), Rect::new(Coord(0, 0), Size(154, 10)));
}

#[test]
fn grid_places_cells_in_both_directions() {
    let mut storage = FixedGridStorage::<3, 3>::new();
    storage.width_rules()[0] = SizeRules::fixed(10);
    storage.width_rules()[1] = rules(10, 20, StretchPolicy::Low);
    storage.height_rules()[0] = SizeRules::fixed(5);
    storage.height_rules()[1] = SizeRules::fixed(7);
    let m = Margins { first: Coord(1, 2), last: Coord(3, 4), inter: (5, 6) };
    let rect = Rect::new(Coord(100, 200), Size(50, 30));
    let mut setter = GridSetter::new(rect, m, (2, 2), &mut storage);
    // 46 pixels wide inside the margins: 5 in the gap, 10 and 31 in columns
    assert_eq!(setter.child_rect(cell(0, 1, 0, 1)), Rect::new(Coord(101, 202), Size(10, 5)));
    assert_eq!(setter.child_rect(cell(1, 2, 0, 1)), Rect::new(Coord(116, 202), Size(31, 5)));
    assert_eq!(setter.child_rect(cell(0, 1, 1, 2)), Rect::new(Coord(101, 213), Size(10, 7)));
    assert_eq!(setter.child_rect(cell(0, 2, 0, 2)), Rect::new(Coord(101, 202), Size(46, 18)));
}

#[test]
fn cells_of_one_line_stand_side_by_side() {
    let mut storage = DynGridStorage::new();
    let axis = AxisInfo::new(false, None);
    let mut solver = GridSolver::new(axis, (2, 2), &mut storage);
    solver.add_child(&mut storage, cell(0, 1, 0, 1), rules(10, 20, StretchPolicy::Fixed));
    solver.add_child(&mut storage, cell(0, 1, 1, 2), rules(5, 30, StretchPolicy::Low));
    solver.for_child(&mut storage, cell(1, 2, 0, 1), |a| {
        assert_eq!(a, axis);
        SizeRules::fixed(7)
    });
    let total = solver.finish(&mut storage);
    assert_eq!(sizes(storage.widths()), vec![(10, 30), (7, 7), (17, 37)]);
    assert_eq!(storage.widths()[0].stretch(), StretchPolicy::Low);
    assert_eq!(storage.widths()[2], total);
    assert_eq!(total.stretch(), StretchPolicy::Low);
    // the rows are untouched by a horizontal pass
    assert_eq!(storage.heights(), &[SizeRules::empty(); 3]);
}

#[test]
fn a_new_pass_forgets_the_rules_of_the_pass_before() {
    let mut storage = DynGridStorage::new();
    let axis = AxisInfo::new(true, None);
    let mut solver = GridSolver::new(axis, (1, 2), &mut storage);
    solver.add_child(&mut storage, cell(0, 1, 0, 1), SizeRules::fixed(50));
    solver.add_child(&mut storage, cell(0, 1, 1, 2), SizeRules::fixed(60));
    let _ = solver.finish(&mut storage);
    assert_eq!(sizes(storage.heights()), vec![(50, 50), (60, 60), (110, 110)]);
    let mut solver = GridSolver::new(axis, (1, 2), &mut storage);
    solver.add_child(&mut storage, cell(0, 1, 0, 1), SizeRules::fixed(5));
    let total = solver.finish(&mut storage);
    assert_eq!(sizes(storage.heights()), vec![(5, 5), (0, 0), (5, 5)]);
    assert_eq!(total.min_size(), 5);
}

#[test]
fn what_a_spanning_cell_lacks_goes_to_its_most_eager_lines() {
    let mut storage = DynGridStorage::new();
    let mut solver = GridSolver::new(AxisInfo::new(false, None), (3, 1), &mut storage);
    solver.add_child(&mut storage, cell(0, 1, 0, 1), rules(10, 20, StretchPolicy::Fixed));
    solver.add_child(&mut storage, cell(1, 2, 0, 1), rules(10, 20, StretchPolicy::Low));
    solver.add_child(&mut storage, cell(2, 3, 0, 1), SizeRules::fixed(5));
    solver.add_child(&mut storage, cell(0, 2, 0, 1), rules(35, 60, StretchPolicy::Fixed));
    let total = solver.finish(&mut storage);
    assert_eq!(sizes(storage.widths()), vec![(10, 20), (25, 40), (5, 5), (40, 65)]);
    assert_eq!(storage.widths()[1].stretch(), StretchPolicy::Low);
    assert_eq!((total.min_size(), total.ideal_size()), (40, 65));
}

#[test]
fn equal_lines_share_what_a_spanning_cell_lacks() {
    let mut storage = DynGridStorage::new();
    let mut solver = GridSolver::new(AxisInfo::new(false, None), (3, 1), &mut storage);
    solver.add_child(&mut storage, cell(0, 1, 0, 1), rules(10, 20, StretchPolicy::Fixed));
    solver.add_child(&mut storage, cell(1, 2, 0, 1), rules(10, 20, StretchPolicy::Fixed));
    let spanning = rules(35, 60, StretchPolicy::High).with_margins((3, 4));
    solver.add_child(&mut storage, cell(0, 2, 0, 1), spanning);
    let _ = solver.finish(&mut storage);
    // 15 pixels of minimum are lacking: 8 and 7; 20 of ideal: 10 and 10
    assert_eq!(sizes(storage.widths()), vec![(18, 30), (17, 30), (0, 0), (35, 60)]);
    assert_eq!(storage.widths()[0].stretch(), StretchPolicy::High);
    assert_eq!(storage.widths()[1].stretch(), StretchPolicy::High);
    assert_eq!(storage.widths()[0].margins(), (3, 0));
    assert_eq!(storage.widths()[1].margins(), (0, 4));
}

#[test]
fn a_spanning_cell_that_fits_changes_no_size() {
    let mut storage = DynGridStorage::new();
    let mut solver = GridSolver::new(AxisInfo::new(true, None), (1, 3), &mut storage);
    solver.add_child(&mut storage, cell(0, 1, 0, 3), rules(25, 30, StretchPolicy::Fixed));
    solver.add_child(&mut storage, cell(0, 1, 0, 1), SizeRules::fixed(10));
    solver.add_child(&mut storage, cell(0, 1, 1, 2), SizeRules::fixed(10));
    solver.add_child(&mut storage, cell(0, 1, 2, 3), SizeRules::fixed(10));
    let _ = solver.finish(&mut storage);
    assert_eq!(sizes(storage.heights()), vec![(10, 10), (10, 10), (10, 10), (30, 30)]);
}

#[test]
fn spanning_cells_are_spread_in_the_order_in_which_they_came() {
    let mut storage = DynGridStorage::new();
    let mut solver = GridSolver::new(AxisInfo::new(false, None), (3, 1), &mut storage);
    solver.add_child(&mut storage, cell(0, 2, 0, 1), SizeRules::fixed(10));
    solver.add_child(&mut storage, cell(1, 3, 0, 1), SizeRules::fixed(11));
    let _ = solver.finish(&mut storage);
    // the first cell gives 5 to each of its columns; the second then lacks
    // 6, which its two columns share
    assert_eq!(sizes(storage.widths()), vec![(5, 5), (8, 8), (3, 3), (16, 16)]);
}

#[test]
fn cells_are_asked_with_the_extent_of_their_own_lines() {
    let mut storage = DynGridStorage::new();
    let mut solver = GridSolver::new(AxisInfo::new(false, None), (3, 2), &mut storage);
    solver.add_child(&mut storage, cell(0, 1, 0, 1), rules(10, 50, StretchPolicy::Fixed));
    solver.add_child(&mut storage, cell(1, 2, 0, 1), rules(10, 20, StretchPolicy::Fixed));
    solver.add_child(&mut storage, cell(2, 3, 0, 1), rules(10, 30, StretchPolicy::Fixed));
    let _ = solver.finish(&mut storage);

    let vert = AxisInfo::new(true, Some(70));
    let mut solver = GridSolver::new(vert, (3, 2), &mut storage);
    assert_eq!(solver.child_axis(cell(0, 1, 0, 1)), AxisInfo::new(true, Some(33)));
    assert_eq!(solver.child_axis(cell(1, 3, 0, 1)), AxisInfo::new(true, Some(37)));
    assert_eq!(solver.child_axis(cell(0, 3, 1, 2)), AxisInfo::new(true, Some(70)));
    solver.for_child(&mut storage, cell(1, 3, 0, 2), |a| SizeRules::fixed(a.other().unwrap()));
    let total = solver.finish(&mut storage);
    assert_eq!(total.min_size(), 37);
    assert_eq!(sizes(storage.heights()), vec![(19, 19), (18, 18), (37, 37)]);
}

#[test]
fn fixed_grid_storage_keeps_its_dimensions() {
    let mut s = FixedGridStorage::<3, 2>::new();
    s.set_dims(3, 2);
    assert_eq!(s.widths().len(), 3);
    assert_eq!(s.heights().len(), 2);
    s.width_rules()[2] = SizeRules::fixed(4);
    assert_eq!(s.clone().widths()[2], SizeRules::fixed(4));
    let d = FixedGridStorage::<1, 1>::default();
    assert_eq!(d.widths(), &[SizeRules::empty()]);
    let mut d = DynGridStorage::default();
    d.set_dims(2, 5);
    assert_eq!((d.widths().len(), d.heights().len()), (2, 5));
}

#[test]
fn a_single_child_has_the_rules_and_the_rectangle_of_its_container() {
    let axis = AxisInfo::new(true, Some(9));
    let mut solver = SingleSolver::new(axis);
    solver.for_child(&mut (), (), |a| {
        assert_eq!(a, axis);
        rules(3, 8, StretchPolicy::High)
    });
    assert_eq!(solver.finish(&mut ()), rules(3, 8, StretchPolicy::High));
    let mut solver = SingleSolver::new(axis);
    solver.add_child(SizeRules::fixed(4));
    assert_eq!(solver.finish(&mut ()), SizeRules::fixed(4));
    assert_eq!(SingleSolver::new(axis).finish(&mut ()), SizeRules::empty());

    let m = Margins { first: Coord(1, 2), last: Coord(3, 4), inter: (9, 9) };
    let mut setter = SingleSetter::new(Rect::new(Coord(10, 20), Size(30, 40)), m);
    assert_eq!(setter.child_rect(()), Rect::new(Coord(11, 22), Size(26, 34)));
}
