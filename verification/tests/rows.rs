use kas_layout::geom::{Coord, Rect, Size};
use kas_layout::layout::{
    AxisInfo, DynRowStorage, FixedRowStorage, Horizontal, Margins, RowPositionSolver, RowSetter,
    RowSolver, RowStorage, RowTemporary, RulesSetter, RulesSolver, SizeRules, StretchPolicy,
    Vertical,
};

fn rules(min: u32, ideal: u32, stretch: StretchPolicy) -> SizeRules {
    SizeRules::variable(min, ideal).with_stretch(stretch)
}

fn margins() -> Margins {
    Margins { first: Coord(2, 3), last: Coord(4, 5), inter: (6, 7) }
}

#[test]
fn dynamic_storage_follows_the_length() {
    let mut s = DynRowStorage::new();
    assert_eq!(s.as_ref().len(), 0);
    s.set_len(3);
    assert_eq!(s.as_ref(), &[SizeRules::empty(); 3]);
    s.as_mut()[1] = SizeRules::fixed(7);
    s.set_len(4);
    assert_eq!(s.as_ref()[1], SizeRules::fixed(7));
    assert_eq!(s.as_ref()[3], SizeRules::empty());
    s.set_len(1);
    assert_eq!(s.as_ref(), &[SizeRules::empty()]);
    assert_eq!(DynRowStorage::default().as_ref().len(), 0);
}

#[test]
fn fixed_storage_keeps_its_length() {
    let mut s = FixedRowStorage::<4>::new();
    assert_eq!(s.as_ref(), &[SizeRules::empty(); 4]);
    s.as_mut()[2] = SizeRules::fixed(7);
    s.set_len(4);
    assert_eq!(s.as_ref().len(), 4);
    assert_eq!(s.as_ref()[2], SizeRules::fixed(7));
    let copy = s.clone();
    assert_eq!(copy.as_ref()[2], SizeRules::fixed(7));
    assert_eq!(FixedRowStorage::<2>::default().as_ref().len(), 2);
}

#[test]
fn temporary_sizes_start_at_zero() {
    let v = <Vec<u32> as RowTemporary>::zeroed(3);
    assert_eq!(v, vec![0, 0, 0]);
    let a = <[u32; 4] as RowTemporary>::zeroed(4);
    assert_eq!(a, [0, 0, 0, 0]);
    let mut v = vec![1u32, 2, 3];
    RowTemporary::set_len(&mut v, 5);
    assert_eq!(v, vec![1, 2, 3, 0, 0]);
    RowTemporary::set_len(&mut v, 2);
    assert_eq!(v, vec![1, 2]);
    RowTemporary::as_mut(&mut v)[0] = 9;
    assert_eq!(RowTemporary::as_ref(&v), &[9, 2]);
}

#[test]
fn row_rules_along_the_row_are_a_sequence() {
    let mut storage = DynRowStorage::new();
    let axis = AxisInfo::new(false, None);
    let mut solver = RowSolver::<Horizontal, Vec<u32>, DynRowStorage>::new(axis, 3, &mut storage);
    assert_eq!(solver.len(), 3);
    assert_eq!(storage.as_ref().len(), 4);
    let given = [
        rules(10, 50, StretchPolicy::Fixed),
        rules(10, 20, StretchPolicy::Low),
        rules(10, 30, StretchPolicy::Fixed).with_margins((3, 4)),
    ];
    for (i, r) in given.iter().enumerate() {
        assert_eq!(solver.child_axis(i), axis);
        solver.for_child(&mut storage, i, |a| {
            assert_eq!(a, axis);
            *r
        });
    }
    let total = solver.finish(&mut storage);
    assert_eq!((total.min_size(), total.ideal_size()), (30, 100));
    assert_eq!(total.margins(), (3, 4));
    assert_eq!(total.stretch(), StretchPolicy::Low);
    assert_eq!(&storage.as_ref()[..3], &given);
    assert_eq!(storage.as_ref()[3], total);
}

#[test]
fn row_rules_across_the_row_stand_side_by_side() {
    let mut storage = FixedRowStorage::<3>::new();
    storage.as_mut()[0] = SizeRules::fixed(1);
    let axis = AxisInfo::new(true, None);
    let mut solver = RowSolver::<Horizontal, [u32; 2], FixedRowStorage<3>>::new(axis, 2, &mut storage);
    solver.add_child(&mut storage, 0, rules(10, 50, StretchPolicy::Fixed));
    solver.add_child(&mut storage, 1, rules(20, 30, StretchPolicy::High));
    let total = solver.finish(&mut storage);
    assert_eq!((total.min_size(), total.ideal_size()), (20, 50));
    assert_eq!(total.stretch(), StretchPolicy::High);
    // the storage belongs to the row's own axis and is left alone
    assert_eq!(storage.as_ref(), &[SizeRules::fixed(1), SizeRules::empty(), SizeRules::empty()]);
}

#[test]
fn a_column_is_a_row_along_the_vertical_axis() {
    let mut storage = DynRowStorage::new();
    let axis = AxisInfo::new(true, None);
    let mut solver = RowSolver::<Vertical, Vec<u32>, DynRowStorage>::new(axis, 2, &mut storage);
    solver.add_child(&mut storage, 0, SizeRules::fixed(10));
    solver.add_child(&mut storage, 1, SizeRules::fixed(5));
    let total = solver.finish(&mut storage);
    assert_eq!((total.min_size(), total.ideal_size()), (15, 15));
    assert_eq!(storage.as_ref()[2], total);
}

#[test]
fn children_are_asked_with_their_own_part_of_a_fixed_extent() {
    let mut storage = DynRowStorage::new();
    let horiz = AxisInfo::new(false, None);
    let mut solver = RowSolver::<Horizontal, Vec<u32>, DynRowStorage>::new(horiz, 3, &mut storage);
    solver.add_child(&mut storage, 0, rules(10, 50, StretchPolicy::Fixed));
    solver.add_child(&mut storage, 1, rules(10, 20, StretchPolicy::Fixed));
    solver.add_child(&mut storage, 2, rules(10, 30, StretchPolicy::Fixed));
    let _ = solver.finish(&mut storage);

    let vert = AxisInfo::new(true, Some(70));
    let mut solver = RowSolver::<Horizontal, Vec<u32>, DynRowStorage>::new(vert, 3, &mut storage);
    let parts = [33, 16, 21];
    for i in 0..3 {
        assert_eq!(solver.child_axis(i), AxisInfo::new(true, Some(parts[i])));
        solver.for_child(&mut storage, i, |a| SizeRules::fixed(a.other().unwrap() * 2));
    }
    let total = solver.finish(&mut storage);
    assert_eq!(total.min_size(), 66);

    // along the row's own axis the row's extent is of no use to a child
    let along = AxisInfo::new(false, Some(70));
    let solver = RowSolver::<Horizontal, Vec<u32>, DynRowStorage>::new(along, 3, &mut storage);
    assert_eq!(solver.child_axis(1), along);
}

fn three_in_a_row() -> (RowSetter<Horizontal, Vec<u32>, DynRowStorage>, DynRowStorage) {
    let mut storage = DynRowStorage::new();
    storage.set_len(4);
    storage.as_mut()[0] = rules(10, 20, StretchPolicy::Fixed);
    storage.as_mut()[1] = rules(10, 20, StretchPolicy::Low);
    storage.as_mut()[2] = rules(10, 20, StretchPolicy::Fixed);
    let rect = Rect::new(Coord(10, 20), Size(100, 50));
    let setter = RowSetter::new(rect, margins(), 3, &mut storage);
    (setter, storage)
}

#[test]
fn a_row_places_its_children_one_after_the_other() {
    let (mut setter, _) = three_in_a_row();
    assert_eq!(setter.len(), 3);
    // 94 pixels inside the margins, 12 of them in gaps: 60 for the ideal
    // sizes and 22 more for the one child that stretches
    assert_eq!(setter.child_rect(0), Rect::new(Coord(12, 23), Size(20, 42)));
    assert_eq!(setter.child_rect(1), Rect::new(Coord(38, 23), Size(42, 42)));
    assert_eq!(setter.child_rect(2), Rect::new(Coord(86, 23), Size(20, 42)));
    // in any order, and as often as asked
    assert_eq!(setter.child_rect(1), Rect::new(Coord(38, 23), Size(42, 42)));
}

#[test]
fn a_column_places_its_children_one_below_the_other() {
    let mut storage = FixedRowStorage::<3>::new();
    storage.as_mut()[0] = SizeRules::fixed(10);
    storage.as_mut()[1] = rules(5, 10, StretchPolicy::Fixed);
    let rect = Rect::new(Coord(-10, -20), Size(30, 40));
    let mut setter =
        RowSetter::<Vertical, [u32; 2], FixedRowStorage<3>>::new(rect, margins(), 2, &mut storage);
    // 32 pixels inside the margins, 7 in the gap: 25 for the children
    assert_eq!(setter.child_rect(0), Rect::new(Coord(-8, -17), Size(24, 10)));
    assert_eq!(setter.child_rect(1), Rect::new(Coord(-8, 0), Size(24, 10)));
}

#[test]
fn a_row_that_is_too_small_still_tiles() {
    let mut storage = DynRowStorage::new();
    storage.set_len(3);
    storage.as_mut()[0] = SizeRules::fixed(30);
    storage.as_mut()[1] = SizeRules::fixed(30);
    let rect = Rect::new(Coord(0, 0), Size(21, 5));
    let m = Margins { first: Coord(0, 0), last: Coord(0, 0), inter: (1, 0) };
    let mut setter = RowSetter::<Horizontal, Vec<u32>, DynRowStorage>::new(rect, m, 2, &mut storage);
    assert_eq!(setter.child_rect(0), Rect::new(Coord(0, 0), Size(10, 5)));
    assert_eq!(setter.child_rect(1), Rect::new(Coord(11, 0), Size(10, 5)));
}

#[test]
fn a_point_in_a_child_finds_that_child() {
    let (mut setter, _) = three_in_a_row();
    let rects: Vec<Rect> = (0..3).map(|i| setter.child_rect(i)).collect();
    let solver = setter.position_solver();
    for (i, r) in rects.iter().enumerate() {
        for x in r.pos.0..r.pos.0 + r.size.0 as i32 {
            for y in [r.pos.1, r.pos.1 + r.size.1 as i32 - 1] {
                assert_eq!(solver.find_child_index(Coord(x, y)), Some(i));
            }
        }
    }
}

#[test]
fn a_point_outside_all_children_finds_none() {
    let (mut setter, _) = three_in_a_row();
    let rects: Vec<Rect> = (0..3).map(|i| setter.child_rect(i)).collect();
    let solver = setter.position_solver();
    for x in -5..130 {
        for y in [22, 23, 64, 65] {
            let inside = rects.iter().position(|r| r.contains(Coord(x, y)));
            assert_eq!(solver.find_child_index(Coord(x, y)), inside);
        }
    }
    // in a gap, before the row, behind it, above and below it
    assert_eq!(solver.find_child_index(Coord(33, 30)), None);
    assert_eq!(solver.find_child_index(Coord(11, 30)), None);
    assert_eq!(solver.find_child_index(Coord(106, 30)), None);
    assert_eq!(solver.find_child_index(Coord(40, 22)), None);
    assert_eq!(solver.find_child_index(Coord(40, 65)), None);
}

#[test]
fn children_are_found_by_rectangle() {
    let (setter, _) = three_in_a_row();
    let solver = setter.position_solver();
    assert_eq!(solver.find_children(Rect::new(Coord(0, 0), Size(200, 200))), vec![0, 1, 2]);
    assert_eq!(solver.find_children(Rect::new(Coord(31, 30), Size(8, 1))), vec![0, 1]);
    assert_eq!(solver.find_children(Rect::new(Coord(32, 30), Size(6, 1))), Vec::<usize>::new());
    assert_eq!(solver.find_children(Rect::new(Coord(79, 64), Size(8, 8))), vec![1, 2]);
    assert_eq!(solver.find_children(Rect::new(Coord(79, 65), Size(8, 8))), Vec::<usize>::new());
    assert_eq!(solver.find_children(Rect::new(Coord(40, 30), Size(0, 5))), Vec::<usize>::new());
}

#[test]
fn a_position_solver_works_from_plain_sizes() {
    let widths = [5u32, 0, 7];
    let content = Rect::new(Coord(100, 0), Size(3, 50));
    let solver = RowPositionSolver::new(true, content, 2, &widths);
    assert_eq!(solver.find_child_index(Coord(100, 0)), Some(0));
    assert_eq!(solver.find_child_index(Coord(102, 4)), Some(0));
    assert_eq!(solver.find_child_index(Coord(102, 5)), None);
    // the second child has no extent and covers nothing
    assert_eq!(solver.find_child_index(Coord(102, 7)), None);
    assert_eq!(solver.find_child_index(Coord(102, 9)), Some(2));
    assert_eq!(solver.find_child_index(Coord(102, 15)), Some(2));
    assert_eq!(solver.find_child_index(Coord(102, 16)), None);
    assert_eq!(solver.find_child_index(Coord(103, 9)), None);
}

#[test]
fn children_tile_the_row_without_overlap() {
    for width in 12..200u32 {
        let mut storage = DynRowStorage::new();
        storage.set_len(5);
        storage.as_mut()[0] = rules(10, 20, StretchPolicy::Fixed);
        storage.as_mut()[1] = rules(0, 35, StretchPolicy::Low);
        storage.as_mut()[2] = rules(7, 7, StretchPolicy::Fixed);
        storage.as_mut()[3] = rules(12, 40, StretchPolicy::Low);
        let rect = Rect::new(Coord(-50, 5), Size(width, 9));
        let m = Margins { first: Coord(0, 0), last: Coord(0, 0), inter: (4, 0) };
        let mut setter =
            RowSetter::<Horizontal, Vec<u32>, DynRowStorage>::new(rect, m, 4, &mut storage);
        let mut end = -50i64;
        for i in 0..4 {
            let r = setter.child_rect(i);
            assert_eq!(r.pos.0 as i64, end + if i == 0 { 0 } else { 4 }, "width {width} child {i}");
            assert_eq!((r.pos.1, r.size.1), (5, 9));
            end = r.pos.0 as i64 + r.size.0 as i64;
        }
        // a child that may stretch is there, so the row is filled to its end
        assert_eq!(end, -50 + width as i64, "width {width}");
    }
}
