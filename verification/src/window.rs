//! The pop-ups of a window.
//!
//! A window keeps its open pop-ups in the order in which they were opened.
//! A later pop-up lies above an earlier one. The list lives in a
//! `SmallVec`, so the few pop-ups that are usually open need no allocation.

use crate::geom::{Rect, Size};
use crate::popup::{popup_place, popup_rect, Direction};
use crate::toolkit::{TkAction, WindowId};
use smallvec::SmallVec;
use vstd::prelude::*;

verus! {

/// Identifies a widget within a window.
#[derive(Clone, Copy, Debug, PartialEq, Eq, PartialOrd, Ord, Hash, Structural)]
pub struct WidgetId(pub u32);

/// A pop-up: the widget that is shown, the widget it is anchored to, and the
/// side of the anchor on which it opens.
#[derive(Clone, Copy, Debug, PartialEq, Eq, Structural)]
pub struct Popup {
    pub id: WidgetId,
    pub parent: WidgetId,
    pub direction: Direction,
}

/// The store behind a [`PopupList`]: a `SmallVec` with room for sixteen
/// entries before it allocates.
#[verifier::external_body]
pub struct PopupStore {
    items: SmallVec<[(u32, u32, u32, u8); 16]>,
}

/// What a list of pop-ups holds, in order. An entry is the number of the
/// pop-up's window, the numbers of its widget and of its anchor, and the
/// code of its direction.
pub uninterp spec fn entries(list: PopupStore) -> Seq<(u32, u32, u32, u8)>;

/// The number of entries that a list takes at most. Below it
/// `SmallVec::push` is sure not to ask for more capacity than there can be.
pub const POPUP_LIMIT: usize = 0x100_0000;

/// Calls `SmallVec::new`: the new list holds nothing. The call checks the
/// layout of the backing array, which holds for an array of the language.
#[verifier::external_body]
fn list_new() -> (list: PopupStore)
    ensures
        entries(list) == Seq::<(u32, u32, u32, u8)>::empty(),
{
    PopupStore { items: SmallVec::new() }
}

/// Calls `SmallVec::len`: the number of entries.
#[verifier::external_body]
fn list_len(list: &PopupStore) -> (n: usize)
    ensures
        n == entries(*list).len(),
{
    list.items.len()
}

/// Calls `SmallVec`'s `Index::index`, which indexes the slice of entries:
/// the result is the entry at `index`. The call fails for an index that is
/// not below the length.
#[verifier::external_body]
fn list_get(list: &PopupStore, index: usize) -> (item: (u32, u32, u32, u8))
    requires
        index < entries(*list).len(),
    ensures
        item == entries(*list)[index as int],
{
    list.items[index]
}

/// Calls `SmallVec::push`: the item is added behind the entries, which stay
/// as they are. The call fails where the next power of two above the length,
/// or that many entries of 16 bytes, is more than can be allocated: that is
/// far above `POPUP_LIMIT` entries.
#[verifier::external_body]
fn list_push(list: &mut PopupStore, item: (u32, u32, u32, u8))
    requires
        entries(*old(list)).len() < POPUP_LIMIT,
    ensures
        entries(*final(list)) == entries(*old(list)).push(item),
    no_unwind
{
    list.items.push(item)
}

/// Calls `SmallVec::remove`: the entry at `index` is taken out and returned,
/// and the entries behind it move up by one. The call fails for an index
/// that is not below the length.
#[verifier::external_body]
fn list_remove(list: &mut PopupStore, index: usize) -> (item: (
    u32,
    u32,
    u32,
    u8,
))
    requires
        index < entries(*old(list)).len(),
    ensures
        item == entries(*old(list))[index as int],
        entries(*final(list)) == entries(*old(list)).remove(index as int),
    no_unwind
{
    list.items.remove(index)
}

/// The code under which a direction is kept in the list.
pub open spec fn direction_code(direction: Direction) -> u8 {
    match direction {
        Direction::Right => 0,
        Direction::Down => 1,
        Direction::Left => 2,
        Direction::Up => 3,
    }
}

/// The entry under which a pop-up of the window `window` is kept.
pub open spec fn entry_of(window: WindowId, popup: Popup) -> (u32, u32, u32, u8) {
    (window.number(), popup.id.0, popup.parent.0, direction_code(popup.direction))
}

fn code_of(direction: Direction) -> (code: u8)
    ensures
        code == direction_code(direction),
{
    match direction {
        Direction::Right => 0,
        Direction::Down => 1,
        Direction::Left => 2,
        Direction::Up => 3,
    }
}

/// The direction that is kept under a code.
pub open spec fn direction_at(code: u8) -> Direction {
    if code == 0 {
        Direction::Right
    } else if code == 1 {
        Direction::Down
    } else if code == 2 {
        Direction::Left
    } else {
        Direction::Up
    }
}

fn direction_of(code: u8) -> (direction: Direction)
    ensures
        direction == direction_at(code),
{
    if code == 0 {
        Direction::Right
    } else if code == 1 {
        Direction::Down
    } else if code == 2 {
        Direction::Left
    } else {
        Direction::Up
    }
}

/// The first index at or behind `from` whose entry belongs to the window
/// with the number `window`, or the length where there is none.
pub open spec fn first_of(list: Seq<(u32, u32, u32, u8)>, window: u32, from: int) -> int
    decreases list.len() - from,
{
    if from >= list.len() {
        list.len() as int
    } else if list[from].0 == window {
        from
    } else {
        first_of(list, window, from + 1)
    }
}

/// The open pop-ups of a window, in the order in which they were opened.
pub struct PopupList {
    items: PopupStore,
}

impl PopupList {
    #[verifier::type_invariant]
    spec fn well_formed(self) -> bool {
        forall|i: int|
            0 <= i < entries(self.items).len() ==> (#[trigger] entries(self.items)[i]).0 != 0
                && entries(self.items)[i].3 <= 3
    }

    /// The entries of the list, oldest first.
    pub closed spec fn view(&self) -> Seq<(u32, u32, u32, u8)> {
        entries(self.items)
    }

    /// A list without pop-ups.
    pub fn new() -> (list: PopupList)
        ensures
            list@ == Seq::<(u32, u32, u32, u8)>::empty(),
    {
        PopupList { items: list_new() }
    }

    /// The number of open pop-ups.
    pub fn len(&self) -> (n: usize)
        ensures
            n == self@.len(),
    {
        list_len(&self.items)
    }

    /// The pop-up at `index`, with its window.
    pub fn get(&self, index: usize) -> (r: (WindowId, Popup))
        requires
            index < self@.len(),
        ensures
            entry_of(r.0, r.1) == self@[index as int],
    {
        proof {
            use_type_invariant(self);
        }
        let item = list_get(&self.items, index);
        (
            WindowId::new(item.0),
            Popup { id: WidgetId(item.1), parent: WidgetId(item.2), direction: direction_of(item.3) },
        )
    }

    /// Adds a pop-up above the others and returns its index. A list that
    /// holds `POPUP_LIMIT` pop-ups takes no more: it is left as it is, and
    /// the result is `None`.
    pub fn add_popup(&mut self, id: WindowId, popup: Popup) -> (r: Option<usize>)
        ensures
            match r {
                Some(index) => {
                    &&& index == old(self)@.len()
                    &&& final(self)@ == old(self)@.push(entry_of(id, popup))
                },
                None => final(self)@ == old(self)@,
            },
            r.is_some() <==> old(self)@.len() < POPUP_LIMIT,
    {
        proof {
            use_type_invariant(&*self);
        }
        let index = list_len(&self.items);
        if index >= POPUP_LIMIT {
            return None;
        }
        let number = id.get();
        list_push(&mut self.items, (number, popup.id.0, popup.parent.0, code_of(popup.direction)));
        Some(index)
    }

    /// Takes out the oldest pop-up of the window `id`. The pop-ups behind
    /// it move up. The result is `RegionMoved` where one was taken out, and
    /// `Nothing` where the window has no pop-up in the list.
    pub fn remove_popup(&mut self, id: WindowId) -> (action: TkAction)
        ensures
            ({
                let at = first_of(old(self)@, id.number(), 0);
                if at < old(self)@.len() {
                    &&& final(self)@ == old(self)@.remove(at)
                    &&& action == TkAction::RegionMoved
                } else {
                    &&& final(self)@ == old(self)@
                    &&& action == TkAction::Nothing
                }
            }),
    {
        proof {
            use_type_invariant(&*self);
        }
        let number = id.get();
        let n = list_len(&self.items);
        let mut i: usize = 0;
        while i < n
            invariant
                n == entries(self.items).len(),
                i <= n,
                number == id.number(),
                self.items == old(self).items,
                forall|k: int|
                    0 <= k < n ==> (#[trigger] entries(self.items)[k]).0 != 0 && entries(
                        self.items,
                    )[k].3 <= 3,
                first_of(entries(self.items), number, 0) == first_of(
                    entries(self.items),
                    number,
                    i as int,
                ),
            decreases n - i,
        {
            let item = list_get(&self.items, i);
            if item.0 == number {
                let ghost before = entries(self.items);
                proof {
                    assert(first_of(before, number, i as int) == i);
                    let after = before.remove(i as int);
                    assert forall|k: int| 0 <= k < after.len() implies (#[trigger] after[k]).0 != 0
                        && after[k].3 <= 3 by {
                        if k < i {
                            assert(after[k] == before[k]);
                        } else {
                            assert(after[k] == before[k + 1]);
                        }
                    }
                }
                list_remove(&mut self.items, i);
                return TkAction::RegionMoved;
            }
            i += 1;
        }
        TkAction::Nothing
    }

    /// The widgets of the pop-ups from the topmost, which was opened last,
    /// to the lowest: the order in which they are asked what lies under a
    /// point.
    pub fn hit_order(&self) -> (order: Vec<WidgetId>)
        ensures
            order@.len() == self@.len(),
            forall|k: int|
                0 <= k < order@.len() ==> (#[trigger] order@[k]).0 == self@[self@.len() - 1 - k].1,
    {
        let n = list_len(&self.items);
        let mut order: Vec<WidgetId> = Vec::new();
        let mut i: usize = n;
        while i > 0
            invariant
                n == entries(self.items).len(),
                i <= n,
                order@.len() == n - i,
                forall|k: int|
                    0 <= k < order@.len() ==> (#[trigger] order@[k]).0 == entries(self.items)[n
                        - 1 - k].1,
            decreases i,
        {
            i -= 1;
            let item = list_get(&self.items, i);
            order.push(WidgetId(item.1));
        }
        order
    }

    /// The rectangle of the pop-up at `index` in a window with the
    /// rectangle `window`, where the pop-up's anchor has the rectangle
    /// `anchor`, and the pop-up has the ideal size `ideal` and the margins
    /// `horiz` and `vert` along the two axes.
    pub fn place(
        &self,
        index: usize,
        window: Rect,
        anchor: Rect,
        ideal: Size,
        horiz: (u16, u16),
        vert: (u16, u16),
    ) -> (r: Rect)
        requires
            index < self@.len(),
        ensures
            r == popup_place(
                window,
                anchor,
                ideal,
                horiz,
                vert,
                direction_at(self@[index as int].3),
            ),
    {
        let (_, popup) = self.get(index);
        popup_rect(window, anchor, ideal, horiz, vert, popup.direction)
    }
}

} // verus!
