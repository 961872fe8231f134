//! What a sub-menu does.
//!
//! A sub-menu is an entry of a menu that opens a list of further entries in
//! a pop-up. The sub-menu itself does the work on widgets and windows; which
//! work an event asks for is decided here.

use crate::geom::Size;
use crate::layout::size_rules::{Margins, RulesView, SizeRules, StretchPolicy};
use crate::popup::Direction;
use crate::toolkit::TkAction;
use vstd::prelude::*;

verus! {

/// A key that moves the focus.
#[derive(Clone, Copy, Debug, PartialEq, Eq, Hash, Structural)]
pub enum NavKey {
    Left,
    Right,
    Up,
    Down,
    Home,
    End,
    PageUp,
    PageDown,
}

/// What happens to a sub-menu.
#[derive(Clone, Copy, Debug, PartialEq, Eq, Structural)]
pub enum MenuEvent {
    /// The entry was activated.
    Activate,
    /// A pop-up opened; `inside` says whether it belongs to this sub-menu or
    /// to a widget below it.
    NewPopup { inside: bool },
    /// The pop-up of this sub-menu was closed.
    PopupRemoved,
    /// A key that moves the focus was pressed.
    Nav(NavKey),
    /// Anything else.
    Other,
}

/// What a sub-menu does about an event.
#[derive(Clone, Copy, Debug, PartialEq, Eq, Structural)]
pub enum MenuStep {
    /// Open the pop-up.
    Open,
    /// Close the pop-up.
    Close,
    /// Note that the pop-up is gone.
    Forget,
    /// Nothing: the event is dealt with.
    Keep,
    /// Nothing: the event is for someone else.
    Unhandled,
}

/// The direction in which a key points, if it points in one.
pub open spec fn pointing(key: NavKey) -> Option<Direction> {
    match key {
        NavKey::Left => Some(Direction::Left),
        NavKey::Right => Some(Direction::Right),
        NavKey::Up => Some(Direction::Up),
        NavKey::Down => Some(Direction::Down),
        _ => None,
    }
}

/// The direction against `direction`.
pub open spec fn against(direction: Direction) -> Direction {
    match direction {
        Direction::Left => Direction::Right,
        Direction::Right => Direction::Left,
        Direction::Up => Direction::Down,
        Direction::Down => Direction::Up,
    }
}

/// What a sub-menu that opens in `direction` does about `event`, where `open`
/// says whether its pop-up is open.
///
/// Activating the entry opens the pop-up, and so does the key that points
/// in the direction of the sub-menu; where it is open already nothing is
/// left to do. A pop-up that opens elsewhere closes this one. All other keys
/// and events are for someone else.
pub open spec fn menu_step(event: MenuEvent, open: bool, direction: Direction) -> MenuStep {
    match event {
        MenuEvent::Activate => if open { MenuStep::Keep } else { MenuStep::Open },
        MenuEvent::NewPopup { inside } => if open && !inside {
            MenuStep::Close
        } else {
            MenuStep::Keep
        },
        MenuEvent::PopupRemoved => MenuStep::Forget,
        MenuEvent::Nav(key) => if pointing(key) == Some(direction) {
            if open { MenuStep::Keep } else { MenuStep::Open }
        } else {
            MenuStep::Unhandled
        },
        MenuEvent::Other => MenuStep::Unhandled,
    }
}

fn direction_of_key(key: NavKey) -> (r: Option<Direction>)
    ensures
        r == pointing(key),
{
    match key {
        NavKey::Left => Some(Direction::Left),
        NavKey::Right => Some(Direction::Right),
        NavKey::Up => Some(Direction::Up),
        NavKey::Down => Some(Direction::Down),
        NavKey::Home => None,
        NavKey::End => None,
        NavKey::PageUp => None,
        NavKey::PageDown => None,
    }
}

fn opposite(direction: Direction) -> (r: Direction)
    ensures
        r == against(direction),
{
    match direction {
        Direction::Left => Direction::Right,
        Direction::Right => Direction::Left,
        Direction::Up => Direction::Down,
        Direction::Down => Direction::Up,
    }
}

fn same(a: Direction, b: Direction) -> (r: bool)
    ensures
        r == (a == b),
{
    match (a, b) {
        (Direction::Left, Direction::Left) => true,
        (Direction::Right, Direction::Right) => true,
        (Direction::Up, Direction::Up) => true,
        (Direction::Down, Direction::Down) => true,
        _ => false,
    }
}

/// What a sub-menu that opens in `direction` does about `event`.
pub fn handle(event: MenuEvent, open: bool, direction: Direction) -> (step: MenuStep)
    ensures
        step == menu_step(event, open, direction),
{
    match event {
        MenuEvent::Activate => if open { MenuStep::Keep } else { MenuStep::Open },
        MenuEvent::NewPopup { inside } => if open && !inside {
            MenuStep::Close
        } else {
            MenuStep::Keep
        },
        MenuEvent::PopupRemoved => MenuStep::Forget,
        MenuEvent::Nav(key) => match direction_of_key(key) {
            Some(d) => if same(d, direction) {
                if open { MenuStep::Keep } else { MenuStep::Open }
            } else {
                MenuStep::Unhandled
            },
            None => MenuStep::Unhandled,
        },
        MenuEvent::Other => MenuStep::Unhandled,
    }
}

/// What an open sub-menu does about a key that its list did not use.
#[derive(Clone, Copy, Debug, PartialEq, Eq, Structural)]
pub enum NavStep {
    /// Move the focus to the next entry, backwards where `reverse` holds,
    /// and from the first entry where `clear` holds.
    Focus { clear: bool, reverse: bool },
    /// Close the pop-up.
    Close,
    /// Nothing: the key is for someone else.
    Unhandled,
}

/// What an open sub-menu does about `key`, where its list runs along the
/// vertical axis if `inner_vertical` holds, towards the start of the axis if
/// `inner_reversed` holds, and the sub-menu opens in `direction`.
///
/// A key along the axis of the list moves the focus: onwards in the list if
/// it points the way the list runs, else backwards. `Home` and `End` move it
/// to the first and to the last entry. A key that points back against the
/// direction of the sub-menu closes it.
pub open spec fn nav_step(
    key: NavKey,
    inner_vertical: bool,
    inner_reversed: bool,
    direction: Direction,
) -> NavStep {
    match pointing(key) {
        Some(way) => if way.horizontal() != inner_vertical {
            NavStep::Focus { clear: false, reverse: way.reversed() != inner_reversed }
        } else if way == against(direction) {
            NavStep::Close
        } else {
            NavStep::Unhandled
        },
        None => match key {
            NavKey::Home => NavStep::Focus { clear: true, reverse: false },
            NavKey::End => NavStep::Focus { clear: true, reverse: true },
            _ => NavStep::Unhandled,
        },
    }
}

/// What an open sub-menu does about a key that its list did not use.
pub fn nav_in_menu(key: NavKey, inner_vertical: bool, inner_reversed: bool, direction: Direction)
    -> (step: NavStep)
    ensures
        step == nav_step(key, inner_vertical, inner_reversed, direction),
{
    match direction_of_key(key) {
        Some(way) => if way.is_horizontal() != inner_vertical {
            NavStep::Focus { clear: false, reverse: way.is_reversed() != inner_reversed }
        } else if same(way, opposite(direction)) {
            NavStep::Close
        } else {
            NavStep::Unhandled
        },
        None => match key {
            NavKey::Home => NavStep::Focus { clear: true, reverse: false },
            NavKey::End => NavStep::Focus { clear: true, reverse: true },
            _ => NavStep::Unhandled,
        },
    }
}

/// What a sub-menu passes on of the action that its list asked for: a list
/// that asks to be closed has the pop-up closed and nothing passed on.
pub fn after_list(action: TkAction) -> (r: (bool, TkAction))
    ensures
        r == if action == TkAction::Close {
            (true, TkAction::Nothing)
        } else {
            (false, action)
        },
{
    match action {
        TkAction::Close => (true, TkAction::Nothing),
        other => (false, other),
    }
}

/// One step on the way to a target in a tree of menus.
#[derive(Clone, Copy, Debug, PartialEq, Eq, Structural)]
pub enum PathStep {
    /// Open the pop-up of this sub-menu.
    Open,
    /// Have the entry with this index close what it has open.
    Shut(usize),
    /// Have the entry with this index go on towards the target.
    Follow(usize),
    /// Close the pop-up of this sub-menu.
    Close,
}

/// `Shut` for each of the first `k` entries that does not hold the target.
pub open spec fn shut_others(holds: Seq<bool>, k: int) -> Seq<PathStep>
    decreases k,
{
    if k <= 0 {
        Seq::empty()
    } else if holds[k - 1] {
        shut_others(holds, k - 1)
    } else {
        shut_others(holds, k - 1).push(PathStep::Shut((k - 1) as usize))
    }
}

/// The last of the first `k` entries that holds the target, or -1.
pub open spec fn last_holding(holds: Seq<bool>, k: int) -> int
    decreases k,
{
    if k <= 0 {
        -1
    } else if holds[k - 1] {
        k - 1
    } else {
        last_holding(holds, k - 1)
    }
}

/// One step for each of the first `k` entries, in order.
pub open spec fn each(step: spec_fn(usize) -> PathStep, k: int) -> Seq<PathStep> {
    Seq::new(if k >= 0 { k as nat } else { 0 }, |i: int| step(i as usize))
}

/// The steps of a sub-menu on the way to a target.
///
/// `inside` says whether there is a target and it is this sub-menu or lies
/// below it, `at_self` whether it is this sub-menu, `open` whether the
/// pop-up is open, and `holds` for each entry of the list whether the target
/// is that entry or lies below it.
///
/// With the target inside and the pop-up open, the entries that do not hold
/// the target shut what they have open, and then the last entry that holds
/// it goes on. With the pop-up closed, it is opened, and all entries go on
/// unless the target is the sub-menu itself. With the target elsewhere, an
/// open pop-up is closed, after all entries have shut what they had open.
pub open spec fn path_steps(inside: bool, at_self: bool, open: bool, holds: Seq<bool>) -> Seq<
    PathStep,
> {
    let n = holds.len() as int;
    if inside {
        if open {
            let chosen = last_holding(holds, n);
            if chosen >= 0 {
                shut_others(holds, n).push(PathStep::Follow(chosen as usize))
            } else {
                shut_others(holds, n)
            }
        } else if at_self {
            seq![PathStep::Open]
        } else {
            seq![PathStep::Open] + each(|i: usize| PathStep::Follow(i), n)
        }
    } else if open {
        each(|i: usize| PathStep::Shut(i), n).push(PathStep::Close)
    } else {
        Seq::empty()
    }
}

/// The steps of a sub-menu on the way to a target.
pub fn menu_path(inside: bool, at_self: bool, open: bool, holds: &[bool]) -> (steps: Vec<PathStep>)
    ensures
        steps@ == path_steps(inside, at_self, open, holds@),
{
    let n: usize = holds.len();
    let mut steps: Vec<PathStep> = Vec::new();
    if inside {
        if open {
            let mut chosen: Option<usize> = None;
            let mut i: usize = 0;
            while i < n
                invariant
                    n == holds@.len(),
                    i <= n,
                    steps@ == shut_others(holds@, i as int),
                    match chosen {
                        Some(c) => c == last_holding(holds@, i as int),
                        None => last_holding(holds@, i as int) == -1,
                    },
                decreases n - i,
            {
                if holds[i] {
                    chosen = Some(i);
                } else {
                    steps.push(PathStep::Shut(i));
                }
                i += 1;
            }
            if let Some(c) = chosen {
                steps.push(PathStep::Follow(c));
            }
        } else {
            steps.push(PathStep::Open);
            if !at_self {
                let mut i: usize = 0;
                while i < n
                    invariant
                        n == holds@.len(),
                        i <= n,
                        steps@ == seq![PathStep::Open] + each(
                            |i: usize| PathStep::Follow(i),
                            i as int,
                        ),
                    decreases n - i,
                {
                    steps.push(PathStep::Follow(i));
                    i += 1;
                    assert(steps@ =~= seq![PathStep::Open] + each(
                        |i: usize| PathStep::Follow(i),
                        i as int,
                    ));
                }
            }
        }
    } else if open {
        let mut i: usize = 0;
        while i < n
            invariant
                n == holds@.len(),
                i <= n,
                steps@ == each(|i: usize| PathStep::Shut(i), i as int),
            decreases n - i,
        {
            steps.push(PathStep::Shut(i));
            i += 1;
            assert(steps@ =~= each(|i: usize| PathStep::Shut(i), i as int));
        }
        steps.push(PathStep::Close);
    }
    steps
}

/// The rules of a menu entry along an axis: those of its text within a frame
/// of the size `frame` on both sides.
pub fn entry_rules(vertical: bool, frame: Size, text: SizeRules) -> (r: SizeRules)
    ensures
        r@ == text@.framed(
            RulesView {
                min: frame.on(vertical) as nat,
                ideal: frame.on(vertical) as nat,
                margins: (0, 0),
                stretch: StretchPolicy::Fixed,
            },
            true,
        ),
{
    let frame_rules = SizeRules::extract_fixed(vertical, frame, Margins::zero());
    text.surrounded_by(frame_rules, true)
}

} // verus!
