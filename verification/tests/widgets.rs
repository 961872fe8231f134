use kas_layout::geom::{Coord, Rect, Size};
use kas_layout::layout::{AxisInfo, Margins, SizeRules, SolveCache, StretchPolicy};
use kas_layout::menu::{
    after_list, entry_rules, handle, menu_path, nav_in_menu, MenuEvent, MenuStep, NavKey, NavStep,
    PathStep,
};
use kas_layout::popup::Direction;
use kas_layout::theme::{text_position, Align, ThemeDims, WidgetClass};
use kas_layout::toolkit::{flow_after, Flow, LoopEventKind, TkAction, WindowEventKind, WindowStep};

fn dims() -> ThemeDims {
    ThemeDims { line_height: 20, margin: 2, frame_size: 4, button_frame: 6 }
}

fn sizes(r: SizeRules) -> (u32, u32) {
    (r.min_size(), r.ideal_size())
}

#[test]
fn theme_sizes_by_class() {
    let d = dims();
    for class in [WidgetClass::Container, WidgetClass::Frame, WidgetClass::Window] {
        assert_eq!(d.size_rules(class, false, 100), SizeRules::empty());
        assert_eq!(d.size_rules(class, true, 100), SizeRules::empty());
    }
    assert_eq!(sizes(d.size_rules(WidgetClass::Label, false, 100)), (60, 100));
    assert_eq!(sizes(d.size_rules(WidgetClass::Label, false, 10)), (60, 60));
    assert_eq!(sizes(d.size_rules(WidgetClass::Label, true, 45)), (20, 45));
    assert_eq!(sizes(d.size_rules(WidgetClass::Label, true, 5)), (20, 20));
    assert_eq!(sizes(d.size_rules(WidgetClass::Entry, false, 100)), (68, 108));
    assert_eq!(sizes(d.size_rules(WidgetClass::Entry, false, 0)), (68, 68));
    assert_eq!(sizes(d.size_rules(WidgetClass::Entry, true, 100)), (28, 28));
    assert_eq!(sizes(d.size_rules(WidgetClass::Button, false, 100)), (72, 100));
    assert_eq!(sizes(d.size_rules(WidgetClass::Button, false, 50)), (72, 72));
    assert_eq!(sizes(d.size_rules(WidgetClass::Button, true, 50)), (32, 32));
    assert_eq!(sizes(d.size_rules(WidgetClass::CheckBox, false, 50)), (28, 28));
    assert_eq!(sizes(d.size_rules(WidgetClass::CheckBox, true, 50)), (28, 28));
    let r = d.size_rules(WidgetClass::Entry, false, 100);
    assert_eq!((r.margins(), r.stretch()), ((0, 0), StretchPolicy::Fixed));
}

#[test]
fn theme_sizes_stop_at_the_largest_size() {
    let d = ThemeDims { line_height: u32::MAX / 2, margin: u32::MAX, frame_size: u32::MAX, button_frame: 1 };
    assert_eq!(sizes(d.size_rules(WidgetClass::Label, false, 0)), (u32::MAX, u32::MAX));
    assert_eq!(sizes(d.size_rules(WidgetClass::CheckBox, true, 0)), (u32::MAX, u32::MAX));
    assert_eq!(sizes(d.size_rules(WidgetClass::Button, true, 0)), (u32::MAX / 2 + 2, u32::MAX / 2 + 2));
    assert_eq!(d.margins(WidgetClass::Label).last, Coord(i32::MAX, i32::MAX));
    assert_eq!(d.margins(WidgetClass::Frame).first, Coord(i32::MAX, i32::MAX));
}

#[test]
fn theme_margins_by_class() {
    let d = dims();
    assert_eq!(
        d.margins(WidgetClass::Frame),
        Margins { first: Coord(4, 4), last: Coord(4, 4), inter: (0, 0) }
    );
    for class in [WidgetClass::Container, WidgetClass::Label, WidgetClass::Button] {
        assert_eq!(
            d.margins(class),
            Margins { first: Coord(0, 0), last: Coord(4, 4), inter: (0, 0) }
        );
    }
}

#[test]
fn text_starts_where_its_alignment_says() {
    let rect = Rect::new(Coord(10, 20), Size(100, 51));
    assert_eq!(text_position(rect, (Align::Begin, Align::Centre)), Coord(10, 45));
    assert_eq!(text_position(rect, (Align::End, Align::End)), Coord(110, 71));
    assert_eq!(text_position(rect, (Align::Centre, Align::Stretch)), Coord(60, 20));
    let far = Rect::new(Coord(i32::MAX - 1, 0), Size(10, u32::MAX));
    assert_eq!(text_position(far, (Align::End, Align::End)), Coord(i32::MAX, i32::MAX));
}

#[test]
fn menu_entry_is_its_text_within_a_frame() {
    let text = SizeRules::variable(30, 50).with_margins((2, 3)).with_stretch(StretchPolicy::Low);
    let h = entry_rules(false, Size(4, 6), text);
    assert_eq!(sizes(h), (38, 58));
    assert_eq!((h.margins(), h.stretch()), ((2, 3), StretchPolicy::Low));
    assert_eq!(sizes(entry_rules(true, Size(4, 6), text)), (42, 62));
}

#[test]
fn sub_menu_opens_and_closes() {
    let d = Direction::Right;
    assert_eq!(handle(MenuEvent::Activate, false, d), MenuStep::Open);
    assert_eq!(handle(MenuEvent::Activate, true, d), MenuStep::Keep);
    assert_eq!(handle(MenuEvent::NewPopup { inside: false }, true, d), MenuStep::Close);
    assert_eq!(handle(MenuEvent::NewPopup { inside: true }, true, d), MenuStep::Keep);
    assert_eq!(handle(MenuEvent::NewPopup { inside: false }, false, d), MenuStep::Keep);
    assert_eq!(handle(MenuEvent::PopupRemoved, true, d), MenuStep::Forget);
    assert_eq!(handle(MenuEvent::Other, true, d), MenuStep::Unhandled);
    let pairs = [
        (Direction::Left, NavKey::Left),
        (Direction::Right, NavKey::Right),
        (Direction::Up, NavKey::Up),
        (Direction::Down, NavKey::Down),
    ];
    let keys = [
        NavKey::Left,
        NavKey::Right,
        NavKey::Up,
        NavKey::Down,
        NavKey::Home,
        NavKey::End,
        NavKey::PageUp,
        NavKey::PageDown,
    ];
    for (dir, own) in pairs {
        for key in keys {
            let expect = if key == own { MenuStep::Open } else { MenuStep::Unhandled };
            assert_eq!(handle(MenuEvent::Nav(key), false, dir), expect);
            let expect = if key == own { MenuStep::Keep } else { MenuStep::Unhandled };
            assert_eq!(handle(MenuEvent::Nav(key), true, dir), expect);
        }
    }
}

#[test]
fn keys_move_through_an_open_menu() {
    let focus = |clear, reverse| NavStep::Focus { clear, reverse };
    for dir in [Direction::Right, Direction::Down, Direction::Left, Direction::Up] {
        for rev in [false, true] {
            // a list that runs along the horizontal axis
            assert_eq!(nav_in_menu(NavKey::Left, false, rev, dir), focus(false, !rev));
            assert_eq!(nav_in_menu(NavKey::Right, false, rev, dir), focus(false, rev));
            // a list that runs along the vertical axis
            assert_eq!(nav_in_menu(NavKey::Up, true, rev, dir), focus(false, !rev));
            assert_eq!(nav_in_menu(NavKey::Down, true, rev, dir), focus(false, rev));
            for vert in [false, true] {
                assert_eq!(nav_in_menu(NavKey::Home, vert, rev, dir), focus(true, false));
                assert_eq!(nav_in_menu(NavKey::End, vert, rev, dir), focus(true, true));
                assert_eq!(nav_in_menu(NavKey::PageUp, vert, rev, dir), NavStep::Unhandled);
                assert_eq!(nav_in_menu(NavKey::PageDown, vert, rev, dir), NavStep::Unhandled);
            }
        }
    }
    // across the list, the key that points back closes the menu
    assert_eq!(nav_in_menu(NavKey::Left, true, false, Direction::Right), NavStep::Close);
    assert_eq!(nav_in_menu(NavKey::Right, true, false, Direction::Left), NavStep::Close);
    assert_eq!(nav_in_menu(NavKey::Up, false, false, Direction::Down), NavStep::Close);
    assert_eq!(nav_in_menu(NavKey::Down, false, true, Direction::Up), NavStep::Close);
    assert_eq!(nav_in_menu(NavKey::Right, true, false, Direction::Right), NavStep::Unhandled);
    assert_eq!(nav_in_menu(NavKey::Left, true, false, Direction::Down), NavStep::Unhandled);
    assert_eq!(nav_in_menu(NavKey::Up, false, false, Direction::Up), NavStep::Unhandled);
}

#[test]
fn a_list_that_asks_to_close_closes_the_menu_only() {
    assert_eq!(after_list(TkAction::Close), (true, TkAction::Nothing));
    assert_eq!(after_list(TkAction::Redraw), (false, TkAction::Redraw));
    assert_eq!(after_list(TkAction::CloseAll), (false, TkAction::CloseAll));
    assert_eq!(after_list(TkAction::Nothing), (false, TkAction::Nothing));
}

#[test]
fn the_way_to_a_menu_entry() {
    let holds = [false, true, false, true, false];
    // open already: the others shut, the last that holds the target goes on
    assert_eq!(
        menu_path(true, false, true, &holds),
        vec![PathStep::Shut(0), PathStep::Shut(2), PathStep::Shut(4), PathStep::Follow(3)]
    );
    assert_eq!(
        menu_path(true, true, true, &[false, false]),
        vec![PathStep::Shut(0), PathStep::Shut(1)]
    );
    // closed: open, and let every entry look for the target
    assert_eq!(
        menu_path(true, false, false, &[false, true]),
        vec![PathStep::Open, PathStep::Follow(0), PathStep::Follow(1)]
    );
    assert_eq!(menu_path(true, true, false, &[false, true]), vec![PathStep::Open]);
    // the target is elsewhere
    assert_eq!(
        menu_path(false, false, true, &[false, true]),
        vec![PathStep::Shut(0), PathStep::Shut(1), PathStep::Close]
    );
    assert_eq!(menu_path(false, false, false, &[false, true]), Vec::<PathStep>::new());
    assert_eq!(menu_path(false, false, true, &[]), vec![PathStep::Close]);
    assert_eq!(menu_path(true, false, true, &[]), Vec::<PathStep>::new());
}

#[test]
fn window_events() {
    assert_eq!(WindowEventKind::CursorEntered.handle(), WindowStep::Keep);
    assert_eq!(WindowEventKind::KeyboardInput.handle(), WindowStep::Keep);
    assert_eq!(WindowEventKind::MouseInput.handle(), WindowStep::Keep);
    assert_eq!(WindowEventKind::RedrawRequested.handle(), WindowStep::Keep);
    assert_eq!(WindowEventKind::Resized.handle(), WindowStep::Resize);
    assert_eq!(WindowEventKind::CloseRequested.handle(), WindowStep::Close);
    assert_eq!(WindowEventKind::Other.handle(), WindowStep::Unhandled);
}

#[test]
fn the_loop_ends_with_the_last_window() {
    assert_eq!(flow_after(LoopEventKind::Window, true, 0), Flow::Exit);
    assert_eq!(flow_after(LoopEventKind::Window, true, 1), Flow::Keep);
    assert_eq!(flow_after(LoopEventKind::Window, false, 0), Flow::Keep);
    assert_eq!(flow_after(LoopEventKind::EventsCleared, false, 3), Flow::Wait);
    assert_eq!(flow_after(LoopEventKind::EventsCleared, true, 0), Flow::Wait);
    assert_eq!(flow_after(LoopEventKind::Device, true, 0), Flow::Keep);
    assert_eq!(flow_after(LoopEventKind::NewEvents, true, 0), Flow::Keep);
    assert_eq!(flow_after(LoopEventKind::Other, true, 0), Flow::Keep);
}

fn cached() -> (SizeRules, SizeRules, SolveCache) {
    let w = SizeRules::variable(10, 20).with_margins((1, 2));
    let h = SizeRules::variable(5, 8).with_margins((3, 4));
    (w, h, SolveCache::new(w, h))
}

#[test]
fn a_cache_keeps_what_the_widget_said() {
    let (w, h, cache) = cached();
    assert_eq!(cache.min(false), Size(10, 5));
    assert_eq!(cache.min(true), Size(13, 12));
    assert_eq!(cache.ideal(false), Size(20, 8));
    assert_eq!(cache.ideal(true), Size(23, 15));
    assert_eq!(cache.margins(), ((1, 2), (3, 4)));
    assert!(!cache.needs_width_rules());
    let found = SolveCache::find_constraints(
        |a| {
            assert_eq!(a, AxisInfo::new(false, None));
            assert_eq!(a, SolveCache::width_axis());
            w
        },
        |a| {
            assert_eq!(a, AxisInfo::new(true, Some(20)));
            assert_eq!(a, SolveCache::height_axis(20));
            h
        },
    );
    assert_eq!(found, cache);
    let big = SolveCache::new(SizeRules::fixed(u32::MAX).with_margins((9, 9)), h);
    assert_eq!(big.min(true), Size(u32::MAX, 12));
}

#[test]
fn heights_are_asked_for_again_when_the_width_changes() {
    let (_, _, mut cache) = cached();
    let rect = Rect::new(Coord(100, 200), Size(20, 50));
    assert_eq!(cache.needs_height_rules(rect, false), None);
    assert_eq!(cache.width_in(rect, true), 17);
    assert_eq!(cache.needs_height_rules(rect, true), Some(AxisInfo::new(true, Some(17))));
    let wider = Rect::new(Coord(100, 200), Size(23, 50));
    assert_eq!(cache.needs_height_rules(wider, true), None);
    assert_eq!(cache.needs_height_rules(wider, false), Some(AxisInfo::new(true, Some(23))));
    cache.set_height_rules(SizeRules::fixed(6).with_margins((0, 1)), 23);
    assert_eq!(cache.needs_height_rules(wider, false), None);
    assert_eq!(cache.min(false), Size(10, 6));
    assert_eq!(cache.ideal(true), Size(23, 7));
    assert_eq!(cache.margins(), ((1, 2), (0, 1)));
}

#[test]
fn a_stale_cache_asks_for_everything_again() {
    let (_, _, mut cache) = cached();
    let rect = Rect::new(Coord(100, 200), Size(20, 50));
    cache.invalidate_rule_cache();
    assert!(cache.needs_width_rules());
    assert_eq!(cache.needs_height_rules(rect, false), Some(AxisInfo::new(true, Some(20))));
    // what the cache holds stays until new rules come
    assert_eq!(cache.min(false), Size(10, 5));
    cache.set_width_rules(SizeRules::variable(11, 30).with_margins((5, 5)));
    assert!(cache.needs_width_rules());
    assert_eq!(cache.min(false), Size(11, 5));
    assert_eq!(cache.ideal(false), Size(30, 8));
    assert_eq!(cache.needs_height_rules(rect, true), Some(AxisInfo::new(true, Some(10))));
    cache.set_height_rules(SizeRules::fixed(9), 10);
    assert!(!cache.needs_width_rules());
    assert_eq!(cache.needs_height_rules(rect, true), None);
    assert_eq!(cache.margins(), ((5, 5), (0, 0)));
}

#[test]
fn a_cache_places_the_widget_inside_its_margins() {
    let (_, _, cache) = cached();
    let rect = Rect::new(Coord(100, 200), Size(20, 50));
    assert_eq!(cache.rect_in(rect, false), rect);
    assert_eq!(cache.rect_in(rect, true), Rect::new(Coord(101, 203), Size(17, 43)));
    let small = Rect::new(Coord(i32::MAX, 0), Size(2, 7));
    assert_eq!(cache.rect_in(small, true), Rect::new(Coord(i32::MAX, 3), Size(0, 0)));
    assert_eq!(cache.width_in(small, true), 0);
}
