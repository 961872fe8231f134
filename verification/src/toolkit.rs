//! What the widgets and a toolkit tell each other.

use vstd::prelude::*;

verus! {

/// Identifies a window among those of a toolkit. The number is never zero.
#[derive(Clone, Copy, Debug, Eq, PartialEq, Ord, PartialOrd, Hash)]
pub struct WindowId(u32);

impl WindowId {
    #[verifier::type_invariant]
    pub closed spec fn well_formed(self) -> bool {
        self.0 != 0
    }

    /// The number of the window.
    pub closed spec fn number(self) -> u32 {
        self.0
    }

    /// The identifier with the number `n`, which is not zero.
    pub fn new(n: u32) -> (id: WindowId)
        requires
            n != 0,
        ensures
            id.number() == n,
    {
        WindowId(n)
    }

    /// The number of the window.
    pub fn get(self) -> (n: u32)
        ensures
            n == self.number(),
            n != 0,
    {
        proof {
            use_type_invariant(&self);
        }
        self.0
    }
}

/// What a toolkit has to do after events were handled. The actions are
/// ordered: a later one includes what the earlier ones ask for.
#[must_use]
#[derive(Clone, Copy, Debug, Eq, PartialEq, Ord, PartialOrd, Structural)]
pub enum TkAction {
    /// Nothing.
    Nothing,
    /// Draw the whole window again.
    Redraw,
    /// A region moved: find out again what lies under the pointer, and draw.
    RegionMoved,
    /// Lay the window out again, and draw.
    Resize,
    /// Configure all widgets again: this implies laying out and drawing.
    Reconfigure,
    /// Close the window.
    Close,
    /// Close all windows.
    CloseAll,
}

impl TkAction {
    /// The position of the action in the order, from 0 for `Nothing`.
    pub open spec fn rank(self) -> nat {
        match self {
            TkAction::Nothing => 0,
            TkAction::Redraw => 1,
            TkAction::RegionMoved => 2,
            TkAction::Resize => 3,
            TkAction::Reconfigure => 4,
            TkAction::Close => 5,
            TkAction::CloseAll => 6,
        }
    }

    /// The position of the action in the order, from 0 for `Nothing`.
    pub fn level(self) -> (r: u8)
        ensures
            r == self.rank(),
    {
        match self {
            TkAction::Nothing => 0,
            TkAction::Redraw => 1,
            TkAction::RegionMoved => 2,
            TkAction::Resize => 3,
            TkAction::Reconfigure => 4,
            TkAction::Close => 5,
            TkAction::CloseAll => 6,
        }
    }

    /// The later of two actions: the one that includes the other.
    pub fn or(self, other: TkAction) -> (r: TkAction)
        ensures
            r == if self.rank() >= other.rank() { self } else { other },
    {
        if self.level() >= other.level() {
            self
        } else {
            other
        }
    }
}

/// The events of a window that a toolkit tells apart.
#[derive(Clone, Copy, Debug, PartialEq, Eq, Hash, Structural)]
pub enum WindowEventKind {
    CursorEntered,
    KeyboardInput,
    MouseInput,
    RedrawRequested,
    Resized,
    CloseRequested,
    Other,
}

/// What a window does about an event.
#[derive(Clone, Copy, Debug, PartialEq, Eq, Structural)]
pub enum WindowStep {
    /// Nothing: the event is dealt with.
    Keep,
    /// Lay the window out for its new size.
    Resize,
    /// Close the window.
    Close,
    /// Nothing, but the event is worth a note: nobody deals with it.
    Unhandled,
}

impl WindowEventKind {
    /// What a window does about an event of this kind: it follows a new size,
    /// gives way to a request to close, lets input and requests to draw
    /// pass, and notes everything else.
    pub open spec fn step(self) -> WindowStep {
        match self {
            WindowEventKind::Resized => WindowStep::Resize,
            WindowEventKind::CloseRequested => WindowStep::Close,
            WindowEventKind::Other => WindowStep::Unhandled,
            _ => WindowStep::Keep,
        }
    }

    /// What a window does about an event of this kind.
    pub fn handle(self) -> (step: WindowStep)
        ensures
            step == self.step(),
    {
        match self {
            WindowEventKind::CursorEntered => WindowStep::Keep,
            WindowEventKind::KeyboardInput => WindowStep::Keep,
            WindowEventKind::MouseInput => WindowStep::Keep,
            WindowEventKind::RedrawRequested => WindowStep::Keep,
            WindowEventKind::Resized => WindowStep::Resize,
            WindowEventKind::CloseRequested => WindowStep::Close,
            WindowEventKind::Other => WindowStep::Unhandled,
        }
    }
}

/// The events of an event loop that a toolkit tells apart.
#[derive(Clone, Copy, Debug, PartialEq, Eq, Hash, Structural)]
pub enum LoopEventKind {
    /// An event of a device.
    Device,
    /// An event of a window.
    Window,
    /// All events of this round were handed out.
    EventsCleared,
    /// A new round of events begins.
    NewEvents,
    /// Anything else.
    Other,
}

/// How an event loop goes on.
#[derive(Clone, Copy, Debug, PartialEq, Eq, Structural)]
pub enum Flow {
    /// As before.
    Keep,
    /// Sleep until the next event.
    Wait,
    /// Leave the loop.
    Exit,
}

/// How the loop goes on after an event of the kind `kind`, where `closed`
/// says whether the event closed its window, and `windows` is the number of
/// windows that are open after it: the loop ends with the last window, and
/// sleeps once a round of events is handed out.
pub open spec fn flow(kind: LoopEventKind, closed: bool, windows: usize) -> Flow {
    match kind {
        LoopEventKind::Window => if closed && windows == 0 { Flow::Exit } else { Flow::Keep },
        LoopEventKind::EventsCleared => Flow::Wait,
        _ => Flow::Keep,
    }
}

/// How the loop goes on after an event.
pub fn flow_after(kind: LoopEventKind, closed: bool, windows: usize) -> (r: Flow)
    ensures
        r == flow(kind, closed, windows),
{
    match kind {
        LoopEventKind::Window => if closed && windows == 0 {
            Flow::Exit
        } else {
            Flow::Keep
        },
        LoopEventKind::EventsCleared => Flow::Wait,
        LoopEventKind::Device => Flow::Keep,
        LoopEventKind::NewEvents => Flow::Keep,
        LoopEventKind::Other => Flow::Keep,
    }
}

} // verus!
