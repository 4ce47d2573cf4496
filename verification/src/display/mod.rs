//! Displays: the character grids that frames are composed onto.
pub mod compose;
pub mod encode;
pub mod laws;
pub mod layout;
pub mod protocol;
pub mod render;
pub mod sgr;
pub mod tty;

use vstd::prelude::*;

use crate::Flags;
use crate::display::tty::{off_sequence, off_steps, on_sequence, on_steps, title_sequence};
use crate::display::tty::{TTYAction, TTYDisplay};
use crate::frame::FrameID;

verus! {

/// Identifier of a display: its one-based position in the display table.
/// Zero stands for "no display".
pub type DisplayID = usize;

/// No option is set.
pub const Display_None: Flags = 0b0000_0000_0000_0000_0000_0000_0000_0000;

/// The display is refreshed whenever its interval has passed.
pub const Display_RealTime: Flags = 0b0000_0000_0000_0000_0000_0000_0000_0001;

/// What the display shows is out of date.
pub const Display_NeedRefresh: Flags = 0b0100_0000_0000_0000_0000_0000_0000_0000;

/// The hit-test map is out of date.
pub const Display_NeedRemap: Flags = 0b1000_0000_0000_0000_0000_0000_0000_0000;

/// Something of the display is out of date.
pub const Display_MaskRefresh: Flags = Display_NeedRefresh | Display_NeedRemap;

/// The backend that a display renders to.
pub enum DisplayType {
    TTY(TTYDisplay),
}

/// A viewport of `sizeX` by `sizeY` cells onto a tree of frames.
pub struct Display {
    pub flags: Flags,
    pub this: DisplayID,
    pub offsX: isize,
    pub offsY: isize,
    pub sizeX: usize,
    pub sizeY: usize,
    pub cursorX: usize,
    pub cursorY: usize,
    /// The hit-test map: for every cell, row by row, the frame that owns it.
    pub mapOfFrames: Option<Vec<FrameID>>,
    pub mainFrame: FrameID,
    pub focusedFrame: FrameID,
    /// When the display was last refreshed, in nanoseconds on the caller's clock.
    pub lastRefresh: u64,
    /// The least time between two refreshes, in nanoseconds.
    pub nextRefresh: u64,
    pub display: DisplayType,
}

/// A display with its hit-test map, its output and its queue as sequences.
pub struct DisplayView {
    pub flags: Flags,
    pub this: DisplayID,
    pub offsX: isize,
    pub offsY: isize,
    pub sizeX: usize,
    pub sizeY: usize,
    pub cursorX: usize,
    pub cursorY: usize,
    pub cells: Option<Seq<FrameID>>,
    pub mainFrame: FrameID,
    pub focusedFrame: FrameID,
    pub lastRefresh: u64,
    pub nextRefresh: u64,
    pub output: Seq<char>,
    pub pending: Seq<TTYAction>,
    pub listening: bool,
}

impl View for Display {
    type V = DisplayView;

    open spec fn view(&self) -> DisplayView {
        DisplayView {
            flags: self.flags,
            this: self.this,
            offsX: self.offsX,
            offsY: self.offsY,
            sizeX: self.sizeX,
            sizeY: self.sizeY,
            cursorX: self.cursorX,
            cursorY: self.cursorY,
            cells: self.cells(),
            mainFrame: self.mainFrame,
            focusedFrame: self.focusedFrame,
            lastRefresh: self.lastRefresh,
            nextRefresh: self.nextRefresh,
            output: self.output(),
            pending: self.pending(),
            listening: self.listening(),
        }
    }
}

impl DisplayView {
    /// Whether the display's hit-test map can be held in memory at all.
    pub open spec fn fits(self) -> bool {
        self.sizeX * self.sizeY <= usize::MAX
    }
}

impl Display {
    /// What the display has rendered and not yet sent.
    pub open spec fn output(&self) -> Seq<char> {
        match self.display {
            DisplayType::TTY(tty) => tty.output@,
        }
    }

    /// The hit-test map, row by row, if the display has one.
    pub open spec fn cells(&self) -> Option<Seq<FrameID>> {
        match self.mapOfFrames {
            Some(map) => Some(map@),
            None => None,
        }
    }

    /// The steps that are queued for the owner of the backend's streams.
    pub open spec fn pending(&self) -> Seq<TTYAction> {
        match self.display {
            DisplayType::TTY(tty) => tty.pending@,
        }
    }

    /// Whether the display is on.
    pub open spec fn listening(&self) -> bool {
        match self.display {
            DisplayType::TTY(tty) => tty.listening,
        }
    }

    /// Queues a new title for the display.
    pub fn changeTitle(&mut self, title: String)
        ensures
            final(self)@ == (DisplayView {
                output: old(self)@.output + title_sequence(title@),
                pending: old(self)@.pending + seq![TTYAction::Write, TTYAction::Flush],
                ..old(self)@
            }),
    {
        match &mut self.display {
            DisplayType::TTY(tty) => {
                tty.changeTitle(title);
            },
        }
    }

    /// Switches the display on.
    pub fn turnOn(&mut self, title: String)
        ensures
            final(self)@ == (DisplayView {
                output: old(self)@.output + on_sequence(title@),
                pending: old(self)@.pending + on_steps(old(self)@.listening),
                listening: true,
                ..old(self)@
            }),
    {
        match &mut self.display {
            DisplayType::TTY(tty) => {
                tty.turnOn(title);
            },
        }
    }

    /// Switches the display off.
    pub fn turnOff(&mut self)
        ensures
            final(self)@ == (DisplayView {
                output: old(self)@.output + off_sequence(),
                pending: old(self)@.pending + off_steps(old(self)@.listening),
                listening: false,
                ..old(self)@
            }),
    {
        match &mut self.display {
            DisplayType::TTY(tty) => {
                tty.turnOff();
            },
        }
    }
}

} // verus!
