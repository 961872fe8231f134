use kas_layout::geom::{Coord, Rect, Size};
use kas_layout::popup::{place_in, place_out, popup_rect, Direction};
use kas_layout::toolkit::{TkAction, WindowId};
use kas_layout::window::{Popup, PopupList, WidgetId};

#[test]
fn directions() {
    assert!(Direction::Right.is_horizontal() && Direction::Left.is_horizontal());
    assert!(Direction::Down.is_vertical() && Direction::Up.is_vertical());
    assert!(!Direction::Down.is_horizontal() && !Direction::Right.is_vertical());
    assert!(Direction::Left.is_reversed() && Direction::Up.is_reversed());
    assert!(!Direction::Right.is_reversed() && !Direction::Down.is_reversed());
}

#[test]
fn popup_opens_behind_the_anchor_where_there_is_room() {
    // 38 before the anchor, 51 behind it
    assert_eq!(place_in(0, 100, 40, 10, 20, (1, 2), false), (51, 20));
    assert_eq!(place_in(0, 100, 40, 10, 51, (1, 2), false), (51, 51));
}

#[test]
fn reversed_popup_opens_before_the_anchor_where_there_is_room() {
    assert_eq!(place_in(0, 100, 40, 10, 20, (1, 2), true), (18, 20));
    // no room before it: behind it after all
    assert_eq!(place_in(0, 100, 40, 10, 39, (1, 2), true), (51, 39));
}

#[test]
fn popup_opens_before_the_anchor_where_only_that_side_has_room() {
    // 78 before the anchor, 11 behind it
    assert_eq!(place_in(0, 100, 80, 10, 20, (1, 2), false), (58, 20));
}

#[test]
fn popup_without_room_takes_the_larger_side() {
    assert_eq!(place_in(0, 100, 40, 10, 90, (1, 2), false), (51, 51));
    assert_eq!(place_in(0, 100, 60, 10, 90, (1, 2), false), (0, 58));
    assert_eq!(place_in(5, 100, 65, 10, 90, (1, 2), true), (5, 58));
    // the same room on both sides: behind
    assert_eq!(place_in(0, 100, 45, 10, 90, (0, 0), false), (55, 45));
    // an anchor that starts before the window has nothing before it
    assert_eq!(place_in(50, 100, 40, 10, 95, (0, 0), false), (50, 90));
    // a window that the anchor fills leaves nothing
    assert_eq!(place_in(0, 10, 0, 10, 5, (0, 0), false), (10, 0));
}

#[test]
fn popup_positions_stay_in_range() {
    // behind an anchor that ends beyond the range
    assert_eq!(place_in(i32::MAX - 100, 200, i32::MAX - 5, 10, 5, (0, 0), false), (i32::MAX, 5));
    assert_eq!(place_in(i32::MIN, u32::MAX, i32::MAX, u32::MAX, 5, (0, 0), false), (i32::MAX - 5, 5));
    // before an anchor at the start of the range
    assert_eq!(place_in(i32::MIN, 100, i32::MIN + 3, 95, 3, (0, 2), true), (i32::MIN + 98, 3));
    assert_eq!(place_in(i32::MIN, 100, i32::MIN + 3, 0, 3, (0, 0), true), (i32::MIN, 3));
    assert_eq!(
        place_in(i32::MIN, u32::MAX, i32::MIN + 10, 0, u32::MAX, (0, 9), false),
        (i32::MIN + 10, u32::MAX - 1)
    );
    assert_eq!(place_in(i32::MIN, u32::MAX, i32::MIN + 10, 0, 10, (0, 0), true), (i32::MIN, 10));
    assert_eq!(place_in(i32::MIN, u32::MAX, i32::MIN + 10, 0, 10, (0, 0), false), (i32::MIN + 10, 10));
}

#[test]
fn across_the_axis_a_popup_starts_with_its_anchor() {
    assert_eq!(place_out(0, 100, 40, 10, 20), (40, 20));
    // as far as the window lets it
    assert_eq!(place_out(0, 100, 90, 10, 20), (80, 20));
    assert_eq!(place_out(10, 100, 5, 10, 20), (10, 20));
    // no larger than the window
    assert_eq!(place_out(0, 100, 40, 10, 200), (0, 100));
    // at least as large as the anchor
    assert_eq!(place_out(0, 100, 40, 50, 20), (40, 50));
    assert_eq!(place_out(i32::MAX, u32::MAX, i32::MIN, u32::MAX, u32::MAX), (i32::MAX, u32::MAX));
}

#[test]
fn popup_rectangle_follows_the_direction() {
    let window = Rect::new(Coord(0, 0), Size(100, 80));
    let anchor = Rect::new(Coord(40, 30), Size(10, 5));
    let ideal = Size(20, 25);
    let h = (1, 2);
    let v = (3, 4);
    assert_eq!(
        popup_rect(window, anchor, ideal, h, v, Direction::Right),
        Rect::new(Coord(51, 30), Size(20, 25))
    );
    assert_eq!(
        popup_rect(window, anchor, ideal, h, v, Direction::Left),
        Rect::new(Coord(18, 30), Size(20, 25))
    );
    assert_eq!(
        popup_rect(window, anchor, ideal, h, v, Direction::Down),
        Rect::new(Coord(40, 38), Size(20, 25))
    );
    assert_eq!(
        popup_rect(window, anchor, ideal, h, v, Direction::Up),
        Rect::new(Coord(40, 1), Size(20, 25))
    );
}

fn popup(id: u32, parent: u32, direction: Direction) -> Popup {
    Popup { id: WidgetId(id), parent: WidgetId(parent), direction }
}

#[test]
fn popups_are_kept_in_the_order_in_which_they_came() {
    let mut list = PopupList::new();
    assert_eq!(list.len(), 0);
    assert_eq!(list.add_popup(WindowId::new(7), popup(1, 2, Direction::Down)), Some(0));
    assert_eq!(list.add_popup(WindowId::new(8), popup(3, 4, Direction::Left)), Some(1));
    assert_eq!(list.add_popup(WindowId::new(9), popup(5, 6, Direction::Up)), Some(2));
    assert_eq!(list.len(), 3);
    assert_eq!(list.get(0), (WindowId::new(7), popup(1, 2, Direction::Down)));
    assert_eq!(list.get(1), (WindowId::new(8), popup(3, 4, Direction::Left)));
    assert_eq!(list.get(2), (WindowId::new(9), popup(5, 6, Direction::Up)));
}

#[test]
fn more_popups_than_fit_inline() {
    let mut list = PopupList::new();
    for i in 0..40u32 {
        let d = [Direction::Right, Direction::Down, Direction::Left, Direction::Up][i as usize % 4];
        assert_eq!(list.add_popup(WindowId::new(i + 1), popup(i, i + 100, d)), Some(i as usize));
    }
    assert_eq!(list.len(), 40);
    for i in 0..40u32 {
        let d = [Direction::Right, Direction::Down, Direction::Left, Direction::Up][i as usize % 4];
        assert_eq!(list.get(i as usize), (WindowId::new(i + 1), popup(i, i + 100, d)));
    }
}

#[test]
fn removing_a_popup_moves_the_later_ones_up() {
    let mut list = PopupList::new();
    let _ = list.add_popup(WindowId::new(7), popup(1, 2, Direction::Down));
    let _ = list.add_popup(WindowId::new(8), popup(3, 4, Direction::Left));
    let _ = list.add_popup(WindowId::new(7), popup(5, 6, Direction::Up));
    assert_eq!(list.remove_popup(WindowId::new(3)), TkAction::Nothing);
    assert_eq!(list.len(), 3);
    // only the oldest pop-up of the window goes
    assert_eq!(list.remove_popup(WindowId::new(7)), TkAction::RegionMoved);
    assert_eq!(list.len(), 2);
    assert_eq!(list.get(0), (WindowId::new(8), popup(3, 4, Direction::Left)));
    assert_eq!(list.get(1), (WindowId::new(7), popup(5, 6, Direction::Up)));
    assert_eq!(list.remove_popup(WindowId::new(7)), TkAction::RegionMoved);
    assert_eq!(list.remove_popup(WindowId::new(7)), TkAction::Nothing);
    assert_eq!(list.remove_popup(WindowId::new(8)), TkAction::RegionMoved);
    assert_eq!(list.len(), 0);
    assert_eq!(list.remove_popup(WindowId::new(8)), TkAction::Nothing);
}

#[test]
fn the_topmost_popup_is_asked_first() {
    let mut list = PopupList::new();
    assert_eq!(list.hit_order(), Vec::<WidgetId>::new());
    let _ = list.add_popup(WindowId::new(7), popup(1, 2, Direction::Down));
    let _ = list.add_popup(WindowId::new(8), popup(3, 4, Direction::Left));
    let _ = list.add_popup(WindowId::new(9), popup(5, 6, Direction::Up));
    assert_eq!(list.hit_order(), vec![WidgetId(5), WidgetId(3), WidgetId(1)]);
}

#[test]
fn a_popup_of_the_list_is_placed_by_its_direction() {
    let mut list = PopupList::new();
    let _ = list.add_popup(WindowId::new(7), popup(1, 2, Direction::Down));
    let _ = list.add_popup(WindowId::new(8), popup(3, 4, Direction::Left));
    let window = Rect::new(Coord(0, 0), Size(100, 80));
    let anchor = Rect::new(Coord(40, 30), Size(10, 5));
    let ideal = Size(20, 25);
    assert_eq!(
        list.place(0, window, anchor, ideal, (1, 2), (3, 4)),
        Rect::new(Coord(40, 38), Size(20, 25))
    );
    assert_eq!(
        list.place(1, window, anchor, ideal, (1, 2), (3, 4)),
        Rect::new(Coord(18, 30), Size(20, 25))
    );
}
