//! The event model: what a display reports to the application.
use vstd::prelude::*;

use crate::Flags;
use crate::display::DisplayID;
use crate::frame::FrameID;

verus! {

/// The sending half of the standard library's channel.
#[verifier::external_type_specification]
#[verifier::external_body]
#[verifier::reject_recursive_types(T)]
pub struct ExSender<T>(std::sync::mpsc::Sender<T>);

/// The receiving half of the standard library's channel.
#[verifier::external_type_specification]
#[verifier::external_body]
#[verifier::reject_recursive_types(T)]
pub struct ExReceiver<T>(std::sync::mpsc::Receiver<T>);

/// The end of the event channel that the application reads.
pub type EventReceiver = std::sync::mpsc::Receiver<Event>;

/// The end of the event channel that displays and their listeners write to.
pub type EventSender = std::sync::mpsc::Sender<Event>;

/// No mouse button is held down.
pub const MouseButton_None: Flags = 0b0000_0000_0000_0000_0000_0000_0000_0000;

/// The left mouse button is held down.
pub const MouseButton_LeftDown: Flags = 0b0000_0000_0000_0000_0000_0000_0000_0001;

/// The middle mouse button is held down.
pub const MouseButton_MiddleDown: Flags = 0b0000_0000_0000_0000_0000_0000_0000_0010;

/// The right mouse button is held down.
pub const MouseButton_RightDown: Flags = 0b0000_0000_0000_0000_0000_0000_0000_0100;

/// What happened.
#[derive(Clone, Copy, Debug)]
pub enum EventType {
    Error(&'static str),
    Warning(&'static str),
    Character(char),
    Escape,
    Backspace,
    Return,
    Left,
    Right,
    Up,
    Down,
    Pause,
    Insert,
    Delete,
    Home,
    End,
    PageUp,
    PageDown,
    Function(u8),
    Alt(char),
    Ctrl(char),
    MouseOver,
    MouseLeftButtonPressed,
    MouseMiddleButtonPressed,
    MouseRightButtonPressed,
    MouseLeftButtonReleased,
    MouseMiddleButtonReleased,
    MouseRightButtonReleased,
    MouseWheelUp,
    MouseWheelDown,
    MouseMoveWithLeftButton,
    MouseMoveWithMiddleButton,
    MouseMoveWithRightButton,
    CursorPosition,
}

/// An event together with where it happened: the display, the frame it is
/// routed to, the cell under the pointer or cursor, and the mouse buttons
/// held down at that moment.
#[derive(Clone, Copy, Debug)]
pub struct Event {
    pub event: EventType,
    pub display: DisplayID,
    pub frame: FrameID,
    pub cursorX: usize,
    pub cursorY: usize,
    pub mouse: Flags,
}

impl Event {
    /// An event with the given parts.
    pub fn new(
        event: EventType,
        display: DisplayID,
        frame: FrameID,
        cursorX: usize,
        cursorY: usize,
        mouse: Flags,
    ) -> (created: Self)
        ensures
            created == (Event {
                event: event,
                display: display,
                frame: frame,
                cursorX: cursorX,
                cursorY: cursorY,
                mouse: mouse,
            }),
    {
        Self {
            event: event,
            display: display,
            frame: frame,
            cursorX: cursorX,
            cursorY: cursorY,
            mouse: mouse,
        }
    }

    /// Opens a channel for events: `channel` of the standard library, which
    /// makes the two ends of a new queue without bound. Nothing is claimed
    /// of them.
    #[verifier::external_body]
    pub fn openChannel() -> (ends: (EventSender, EventReceiver)) {
        std::sync::mpsc::channel()
    }
}

/// Sends an event on a channel: `send` of the standard library's `Sender`,
/// which puts the event into the queue or, where nobody receives from the
/// channel any more, hands it back. `None` says that the event was sent; an
/// event that comes back is the event that was handed in.
#[verifier::external_body]
pub(crate) fn sendEvent(events: &EventSender, event: Event) -> (back: Option<Event>)
    ensures
        back is Some ==> back == Some(event),
{
    match events.send(event) {
        Ok(()) => None,
        Err(std::sync::mpsc::SendError(unsent)) => Some(unsent),
    }
}

} // verus!
