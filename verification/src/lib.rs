//! A compositing engine for terminal user interfaces.
//!
//! A tree of rectangular frames is laid out, clipped and rendered onto a
//! character grid, and the raw bytes a terminal sends back are decoded into
//! typed events that are routed to the frame under the pointer or to the
//! focused frame.
//!
//! The library touches no terminal itself. A display collects what is to be
//! written and queues the steps that are to be taken; the application owns
//! the streams, takes the steps, and feeds the bytes it reads to the decoder.
#![allow(non_snake_case)]
#![allow(non_upper_case_globals)]
#![allow(non_camel_case_types)]

pub mod display;
pub mod event;
pub mod frame;

use vstd::prelude::*;

use crate::display::compose::{refresh_spec, table_view};
use crate::display::tty::{on_sequence, on_steps, off_sequence, off_steps, title_sequence};
use crate::display::tty::{TTYAction, TTYDisplay};
use crate::display::{Display, DisplayID, DisplayView, Display_MaskRefresh};
use crate::event::{Event, EventReceiver, EventSender};
use crate::frame::style::{Colour, StyledToken};
use crate::frame::{Frame, FrameID, FrameView, Instance, PixelEncoding, Tiling};

verus! {

/// A set of boolean options packed into the bits of one word.
pub type Flags = u32;

/// The frames and displays of an application, and the channel on which its
/// displays report events.
pub struct Ferrocene {
    pub listOfDisplays: Vec<Option<Display>>,
    pub listOfFrames: Vec<Option<Frame>>,
    pub recvChannel: EventReceiver,
    pub sendChannel: EventSender,
}

/// Why a frame identifier names no frame of a table; `None` if it names one.
/// Zero, an identifier beyond the table, and the identifier of an emptied
/// slot are told apart.
pub open spec fn frame_error(id: FrameID, frames: Seq<Option<Frame>>) -> Option<&'static str> {
    if id == 0 {
        Some("UID of frame cannot be zero")
    } else if id > frames.len() {
        Some("UID of frame too high")
    } else if frames[id - 1] is None {
        Some("UID of frame invalidated.")
    } else {
        None
    }
}

/// Why a display identifier names no display of a table; `None` if it names one.
pub open spec fn display_error(id: DisplayID, displays: Seq<Option<Display>>) -> Option<
    &'static str,
> {
    if id == 0 {
        Some("UID of display cannot be zero")
    } else if id > displays.len() {
        Some("UID of display too high")
    } else if displays[id - 1] is None {
        Some("UID of display invalidated.")
    } else {
        None
    }
}

/// A slot of the display table, with its display as a view.
pub open spec fn display_slot_view(slot: Option<Display>) -> Option<DisplayView> {
    match slot {
        Some(display) => Some(display@),
        None => None,
    }
}

/// The display table, slot by slot, with its displays as views.
pub open spec fn displays_view(displays: Seq<Option<Display>>) -> Seq<Option<DisplayView>> {
    displays.map_values(|slot: Option<Display>| display_slot_view(slot))
}

/// A display after it has been switched on with `frame` as its main frame:
/// the frame has the focus, the display needs a refresh and a new hit-test
/// map, and its backend has been switched on.
pub open spec fn turned_on(display: DisplayView, frame: FrameID, title: Seq<char>) -> DisplayView {
    DisplayView {
        flags: display.flags | Display_MaskRefresh,
        mainFrame: frame,
        focusedFrame: frame,
        output: display.output + on_sequence(title),
        pending: display.pending + on_steps(display.listening),
        listening: true,
        ..display
    }
}

/// A display after it has been switched off.
pub open spec fn turned_off(display: DisplayView) -> DisplayView {
    DisplayView {
        output: display.output + off_sequence(),
        pending: display.pending + off_steps(display.listening),
        listening: false,
        ..display
    }
}

/// A display after it has been given a new title.
pub open spec fn retitled(display: DisplayView, title: Seq<char>) -> DisplayView {
    DisplayView {
        output: display.output + title_sequence(title),
        pending: display.pending + seq![TTYAction::Write, TTYAction::Flush],
        ..display
    }
}

/// The tables after every display from the `k`-th on has been refreshed at
/// time `now`, one after the other.
pub open spec fn render_spec(
    displays: Seq<Option<DisplayView>>,
    frames: Seq<Option<FrameView>>,
    k: nat,
    now: u64,
) -> (Seq<Option<DisplayView>>, Seq<Option<FrameView>>)
    decreases displays.len() - k,
{
    if k >= displays.len() {
        (displays, frames)
    } else {
        match displays[k as int] {
            Some(display) => {
                let (refreshed, table) = refresh_spec(display, frames, now);
                render_spec(displays.update(k as int, Some(refreshed)), table, k + 1, now)
            },
            None => render_spec(displays, frames, k + 1, now),
        }
    }
}

/// Switching a display off when it is off already is harmless: the display
/// stays off, the resetting sequence is sent once more, and nothing else is
/// asked of the terminal, no listener stopped and no mode restored.
pub proof fn lemma_off_twice(display: DisplayView)
    ensures
        turned_off(turned_off(display)) == (DisplayView {
            output: turned_off(display).output + off_sequence(),
            pending: turned_off(display).pending + seq![TTYAction::Write, TTYAction::Flush],
            ..turned_off(display)
        }),
{
}

/// The steps of a display that goes from off to on and back to off start
/// one listener and stop that one listener, and restore the two modes that
/// they changed.
pub proof fn lemma_on_then_off(display: DisplayView, frame: FrameID, title: Seq<char>)
    requires
        !display.listening,
    ensures
        turned_off(turned_on(display, frame, title)).pending == display.pending + seq![
            TTYAction::EnterRawMode,
            TTYAction::SetNonBlocking,
            TTYAction::Write,
            TTYAction::Flush,
            TTYAction::StartListener,
            TTYAction::Write,
            TTYAction::Flush,
            TTYAction::StopListener,
            TTYAction::JoinListener,
            TTYAction::SetBlocking,
            TTYAction::EnterCookedMode,
        ],
        !turned_off(turned_on(display, frame, title)).listening,
{
    assert(turned_off(turned_on(display, frame, title)).pending =~= display.pending + seq![
        TTYAction::EnterRawMode,
        TTYAction::SetNonBlocking,
        TTYAction::Write,
        TTYAction::Flush,
        TTYAction::StartListener,
        TTYAction::Write,
        TTYAction::Flush,
        TTYAction::StopListener,
        TTYAction::JoinListener,
        TTYAction::SetBlocking,
        TTYAction::EnterCookedMode,
    ]);
}

/// The three reasons for which an identifier names nothing are reported
/// with three different messages, for frames and for displays.
pub proof fn lemma_errors_differ()
    ensures
        "UID of frame cannot be zero"@ != "UID of frame too high"@,
        "UID of frame cannot be zero"@ != "UID of frame invalidated."@,
        "UID of frame too high"@ != "UID of frame invalidated."@,
        "UID of display cannot be zero"@ != "UID of display too high"@,
        "UID of display cannot be zero"@ != "UID of display invalidated."@,
        "UID of display too high"@ != "UID of display invalidated."@,
{
    reveal_strlit("UID of frame cannot be zero");
    reveal_strlit("UID of frame too high");
    reveal_strlit("UID of frame invalidated.");
    reveal_strlit("UID of display cannot be zero");
    reveal_strlit("UID of display too high");
    reveal_strlit("UID of display invalidated.");
    assert("UID of frame cannot be zero"@.len() == 27);
    assert("UID of frame too high"@.len() == 21);
    assert("UID of frame invalidated."@.len() == 25);
    assert("UID of display cannot be zero"@.len() == 29);
    assert("UID of display too high"@.len() == 23);
    assert("UID of display invalidated."@.len() == 27);
}

impl Ferrocene {
    /// Whether two applications report events on the same channel.
    pub open spec fn same_channel(&self, other: &Ferrocene) -> bool {
        self.recvChannel == other.recvChannel && self.sendChannel == other.sendChannel
    }

    /// The frame table as composition sees it.
    pub open spec fn frames(&self) -> Seq<Option<FrameView>> {
        table_view(self.listOfFrames@)
    }

    /// The display table, with its displays as views.
    pub open spec fn displays(&self) -> Seq<Option<DisplayView>> {
        displays_view(self.listOfDisplays@)
    }

    /// Empty tables and a new event channel.
    pub fn new() -> (made: Self)
        ensures
            made.listOfDisplays@.len() == 0,
            made.listOfFrames@.len() == 0,
    {
        let (sendChannel, recvChannel) = Event::openChannel();
        Self {
            listOfDisplays: Vec::new(),
            listOfFrames: Vec::new(),
            recvChannel: recvChannel,
            sendChannel: sendChannel,
        }
    }

    /// Puts a frame into the table and returns its identifier.
    pub fn addFrame(&mut self, frame: Frame) -> (id: FrameID)
        ensures
            final(self).listOfFrames@ == old(self).listOfFrames@.push(Some(frame)),
            final(self).listOfDisplays == old(self).listOfDisplays,
            final(self).same_channel(old(self)),
            id == old(self).listOfFrames@.len() + 1,
    {
        self.listOfFrames.push(Some(frame));
        self.listOfFrames.len()
    }

    /// Looks a frame up for reading and writing.
    pub fn accessFrame(&mut self, frame: FrameID) -> (found: Result<&mut Frame, &'static str>)
        ensures
            found is Ok <==> frame_error(frame, old(self).listOfFrames@) is None,
            found is Err ==> frame_error(frame, old(self).listOfFrames@) == Some(found->Err_0),
            found is Err ==> final(self).listOfFrames@ == old(self).listOfFrames@,
            found is Ok ==> Some(*found->Ok_0) == old(self).listOfFrames@[frame - 1],
            found is Ok ==> final(self).listOfFrames@ == old(self).listOfFrames@.update(
                frame - 1,
                Some(*final(found->Ok_0)),
            ),
            final(self).listOfDisplays == old(self).listOfDisplays,
            final(self).same_channel(old(self)),
    {
        if frame == 0 {
            Err("UID of frame cannot be zero")
        } else if frame > self.listOfFrames.len() {
            Err("UID of frame too high")
        } else if self.listOfFrames[frame - 1].is_none() {
            Err("UID of frame invalidated.")
        } else {
            match self.listOfFrames[frame - 1].as_mut() {
                Some(access) => Ok(access),
                None => Err("UID of frame invalidated."),
            }
        }
    }

    /// Looks a frame up for reading.
    pub fn enquireFrame(listOfFrames: &Vec<Option<Frame>>, frame: FrameID) -> (found: Result<
        &Frame,
        &'static str,
    >)
        ensures
            match found {
                Ok(access) => frame_error(frame, listOfFrames@) is None && Some(*access)
                    == listOfFrames@[frame - 1],
                Err(message) => frame_error(frame, listOfFrames@) == Some(message),
            },
    {
        if frame == 0 {
            Err("UID of frame cannot be zero")
        } else if frame > listOfFrames.len() {
            Err("UID of frame too high")
        } else {
            match &listOfFrames[frame - 1] {
                Some(access) => Ok(access),
                None => Err("UID of frame invalidated."),
            }
        }
    }

    /// Looks a display up for reading.
    pub fn enquireDisplay(listOfDisplays: &Vec<Option<Display>>, display: DisplayID) -> (found:
        Result<&Display, &'static str>)
        ensures
            match found {
                Ok(access) => display_error(display, listOfDisplays@) is None && Some(*access)
                    == listOfDisplays@[display - 1],
                Err(message) => display_error(display, listOfDisplays@) == Some(message),
            },
    {
        if display == 0 {
            Err("UID of display cannot be zero")
        } else if display > listOfDisplays.len() {
            Err("UID of display too high")
        } else {
            match &listOfDisplays[display - 1] {
                Some(access) => Ok(access),
                None => Err("UID of display invalidated."),
            }
        }
    }

    /// Puts `newFrame` into the slot of frame `uidFrame` and returns what
    /// the slot held. Putting `None` there invalidates the identifier; the
    /// slot itself stays, so that no other identifier changes its meaning.
    pub fn swapFrame(
        listOfFrames: &mut Vec<Option<Frame>>,
        uidFrame: FrameID,
        newFrame: Option<Frame>,
    ) -> (swapped: Result<Option<Frame>, &'static str>)
        ensures
            uidFrame == 0 ==> swapped == Err::<Option<Frame>, &'static str>(
                "UID of frame cannot be zero",
            ),
            uidFrame > old(listOfFrames)@.len() ==> swapped == Err::<Option<Frame>, &'static str>(
                "UID of frame too high",
            ),
            swapped is Err ==> final(listOfFrames)@ == old(listOfFrames)@,
            0 < uidFrame <= old(listOfFrames)@.len() ==> swapped == Ok::<
                Option<Frame>,
                &'static str,
            >(old(listOfFrames)@[uidFrame - 1]) && final(listOfFrames)@ == old(
                listOfFrames,
            )@.update(uidFrame - 1, newFrame),
    {
        if uidFrame == 0 {
            Err("UID of frame cannot be zero")
        } else if uidFrame > listOfFrames.len() {
            Err("UID of frame too high")
        } else {
            let held: Option<Frame> = listOfFrames[uidFrame - 1].take();
            listOfFrames[uidFrame - 1] = newFrame;
            proof {
                assert(listOfFrames@ =~= old(listOfFrames)@.update(uidFrame - 1, newFrame));
            }
            Ok(held)
        }
    }

    /// Looks a display up for reading and writing.
    pub fn accessDisplay(&mut self, display: DisplayID) -> (found: Result<
        &mut Display,
        &'static str,
    >)
        ensures
            found is Ok <==> display_error(display, old(self).listOfDisplays@) is None,
            found is Err ==> display_error(display, old(self).listOfDisplays@) == Some(
                found->Err_0,
            ),
            found is Err ==> final(self).listOfDisplays@ == old(self).listOfDisplays@,
            found is Ok ==> Some(*found->Ok_0) == old(self).listOfDisplays@[display - 1],
            found is Ok ==> final(self).listOfDisplays@ == old(self).listOfDisplays@.update(
                display - 1,
                Some(*final(found->Ok_0)),
            ),
            final(self).listOfFrames == old(self).listOfFrames,
            final(self).same_channel(old(self)),
    {
        if display == 0 {
            Err("UID of display cannot be zero")
        } else if display > self.listOfDisplays.len() {
            Err("UID of display too high")
        } else if self.listOfDisplays[display - 1].is_none() {
            Err("UID of display invalidated.")
        } else {
            match self.listOfDisplays[display - 1].as_mut() {
                Some(access) => Ok(access),
                None => Err("UID of display invalidated."),
            }
        }
    }

    /// Puts a display into the table, tells it its identifier, and returns
    /// the identifier.
    pub fn addDisplay(&mut self, display: Display) -> (id: DisplayID)
        ensures
            id == old(self).listOfDisplays@.len() + 1,
            final(self).displays() == old(self).displays().push(
                Some(DisplayView { this: id, ..display@ }),
            ),
            final(self).listOfFrames == old(self).listOfFrames,
            final(self).same_channel(old(self)),
    {
        self.listOfDisplays.push(Some(display));
        let id: DisplayID = self.listOfDisplays.len();
        match self.listOfDisplays[id - 1].as_mut() {
            Some(added) => {
                added.this = id;
            },
            None => {},
        }
        proof {
            assert(self.displays() =~= old(self).displays().push(
                Some(DisplayView { this: id, ..display@ }),
            ));
        }
        id
    }

    /// Makes a display of a terminal and puts it into the table; see
    /// `TTYDisplay::new` for the arguments. Returns the width and the height
    /// of the terminal and the identifier of the display. A terminal of
    /// which no display can be made leaves the table as it is.
    pub fn addTTYDisplay(
        &mut self,
        flags: Flags,
        offsX: isize,
        offsY: isize,
        cursorX: usize,
        cursorY: usize,
        termios: bool,
        size: Result<(u16, u16, u16, u16), &'static str>,
        refreshRate: u64,
        now: u64,
    ) -> (added: Result<(usize, usize, DisplayID), &'static str>)
        ensures
            final(self).listOfFrames == old(self).listOfFrames,
            final(self).same_channel(old(self)),
            !termios ==> added == Err::<(usize, usize, DisplayID), &'static str>(
                "cannot get termios structure",
            ),
            termios && size is Err ==> added == Err::<(usize, usize, DisplayID), &'static str>(
                size->Err_0,
            ),
            added is Err ==> final(self).displays() == old(self).displays(),
            termios && size is Ok ==> {
                &&& added == Ok::<(usize, usize, DisplayID), &'static str>(
                    (
                        (size->Ok_0).0 as usize,
                        (size->Ok_0).1 as usize,
                        (old(self).listOfDisplays@.len() + 1) as usize,
                    ),
                )
                &&& final(self).displays().len() == old(self).displays().len() + 1
                &&& final(self).displays().drop_last() == old(self).displays()
                &&& final(self).displays().last() is Some
                &&& final(self).displays().last()->0 == (DisplayView {
                    flags: flags | crate::display::Display_NeedRefresh
                        | crate::display::Display_NeedRemap,
                    this: (old(self).listOfDisplays@.len() + 1) as usize,
                    offsX: offsX,
                    offsY: offsY,
                    sizeX: (size->Ok_0).0 as usize,
                    sizeY: (size->Ok_0).1 as usize,
                    cursorX: cursorX,
                    cursorY: cursorY,
                    cells: None,
                    mainFrame: 0,
                    focusedFrame: 0,
                    lastRefresh: now,
                    nextRefresh: refreshRate,
                    output: Seq::empty(),
                    pending: Seq::empty(),
                    listening: false,
                })
            },
    {
        match TTYDisplay::new(
            flags,
            offsX,
            offsY,
            cursorX,
            cursorY,
            termios,
            size,
            refreshRate,
            now,
        ) {
            Ok(display) => {
                let sizeX: usize = display.sizeX;
                let sizeY: usize = display.sizeY;
                let id: DisplayID = self.addDisplay(display);
                proof {
                    assert(self.displays().drop_last() =~= old(self).displays());
                }
                Ok((sizeX, sizeY, id))
            },
            Err(message) => Err(message),
        }
    }

    /// Adds a status frame.
    pub fn addStatusFrame(&mut self, flags: Flags, offs: isize, text: String, bgChar: char) -> (id:
        FrameID)
        ensures
            final(self).listOfFrames@ == old(self).listOfFrames@.push(
                Some(
                    Frame::Status(
                        crate::frame::StatusFrame {
                            flags: flags,
                            offs: offs,
                            text: text,
                            bgChar: bgChar,
                        },
                    ),
                ),
            ),
            final(self).listOfDisplays == old(self).listOfDisplays,
            final(self).same_channel(old(self)),
            id == old(self).listOfFrames@.len() + 1,
    {
        self.addFrame(Frame::newStatusFrame(flags, offs, text, bgChar))
    }

    /// Adds a text frame.
    pub fn addTextFrame(
        &mut self,
        flags: Flags,
        offsX: isize,
        offsY: isize,
        lines: Vec<String>,
        bgChar: char,
    ) -> (id: FrameID)
        ensures
            final(self).listOfFrames@ == old(self).listOfFrames@.push(
                Some(
                    Frame::Text(
                        crate::frame::TextFrame {
                            flags: flags,
                            offsX: offsX,
                            offsY: offsY,
                            lines: lines,
                            bgChar: bgChar,
                        },
                    ),
                ),
            ),
            final(self).listOfDisplays == old(self).listOfDisplays,
            final(self).same_channel(old(self)),
            id == old(self).listOfFrames@.len() + 1,
    {
        self.addFrame(Frame::newTextFrame(flags, offsX, offsY, lines, bgChar))
    }

    /// Adds an editor frame.
    pub fn addEditorFrame(
        &mut self,
        flags: Flags,
        offsX: isize,
        offsY: isize,
        lines: Vec<Vec<StyledToken>>,
        bgChar: char,
    ) -> (id: FrameID)
        ensures
            final(self).listOfFrames@ == old(self).listOfFrames@.push(
                Some(
                    Frame::Editor(
                        crate::frame::EditorFrame {
                            flags: flags,
                            offsX: offsX,
                            offsY: offsY,
                            lines: lines,
                            bgChar: bgChar,
                        },
                    ),
                ),
            ),
            final(self).listOfDisplays == old(self).listOfDisplays,
            final(self).same_channel(old(self)),
            id == old(self).listOfFrames@.len() + 1,
    {
        self.addFrame(Frame::newEditorFrame(flags, offsX, offsY, lines, bgChar))
    }

    /// Adds a pixel frame; the scaling factor is given as the bit pattern of
    /// a 64-bit floating-point number.
    pub fn addPixelFrame(
        &mut self,
        offsX: isize,
        offsY: isize,
        sizeX: usize,
        sizeY: usize,
        scale: u64,
        ground: Colour,
        input: PixelEncoding,
        output: PixelEncoding,
    ) -> (id: FrameID)
        ensures
            final(self).listOfFrames@ == old(self).listOfFrames@.push(
                Some(
                    Frame::Pixel(
                        crate::frame::PixelFrame {
                            offsX: offsX,
                            offsY: offsY,
                            sizeX: sizeX,
                            sizeY: sizeY,
                            scale: scale,
                            ground: ground,
                            changed: true,
                            input: input,
                            output: output,
                        },
                    ),
                ),
            ),
            final(self).listOfDisplays == old(self).listOfDisplays,
            final(self).same_channel(old(self)),
            id == old(self).listOfFrames@.len() + 1,
    {
        self.addFrame(
            Frame::newPixelFrame(offsX, offsY, sizeX, sizeY, scale, ground, input, output),
        )
    }

    /// Adds a parent frame; see `Frame::newParentFrame`.
    pub fn addParentFrame(
        &mut self,
        tiling: Tiling,
        listOfInstances: Vec<Instance>,
        gridBordersX: Vec<isize>,
        gridBordersY: Vec<isize>,
        gridMinimumX: Vec<usize>,
        gridMinimumY: Vec<usize>,
        pivotFrame: FrameID,
    ) -> (id: FrameID)
        ensures
            final(self).listOfFrames@.len() == old(self).listOfFrames@.len() + 1,
            final(self).listOfFrames@.drop_last() == old(self).listOfFrames@,
            final(self).listOfDisplays == old(self).listOfDisplays,
            final(self).same_channel(old(self)),
            id == old(self).listOfFrames@.len() + 1,
            final(self).listOfFrames@.last() is Some,
            crate::frame::parent_made(
                final(self).listOfFrames@.last()->0,
                tiling,
                listOfInstances,
                gridBordersX@,
                gridBordersY@,
                gridMinimumX@,
                gridMinimumY@,
                pivotFrame,
            ),
    {
        let id: FrameID = self.addFrame(
            Frame::newParentFrame(
                tiling,
                listOfInstances,
                gridBordersX,
                gridBordersY,
                gridMinimumX,
                gridMinimumY,
                pivotFrame,
            ),
        );
        proof {
            assert(self.listOfFrames@.drop_last() =~= old(self).listOfFrames@);
        }
        id
    }

    /// Gives a display a new title.
    pub fn setDisplayTitle(&mut self, display: DisplayID, title: String) -> (done: Result<
        (),
        &'static str,
    >)
        ensures
            final(self).listOfFrames == old(self).listOfFrames,
            final(self).same_channel(old(self)),
            match done {
                Ok(_) => {
                    &&& display_error(display, old(self).listOfDisplays@) is None
                    &&& final(self).displays() == old(self).displays().update(
                        display - 1,
                        Some(retitled(old(self).displays()[display - 1]->0, title@)),
                    )
                },
                Err(message) => {
                    &&& display_error(display, old(self).listOfDisplays@) == Some(message)
                    &&& final(self).displays() == old(self).displays()
                },
            },
    {
        match self.accessDisplay(display) {
            Ok(access) => {
                access.changeTitle(title);
            },
            Err(message) => {
                return Err(message);
            },
        }
        proof {
            assert(self.displays() =~= old(self).displays().update(
                display - 1,
                Some(retitled(old(self).displays()[display - 1]->0, title@)),
            ));
        }
        Ok(())
    }

    /// Switches a display on, with `frame` as its main frame, and returns the frame.
    pub fn turnOnDisplay(&mut self, display: DisplayID, frame: FrameID, title: String) -> (root:
        Result<FrameID, &'static str>)
        ensures
            final(self).listOfFrames == old(self).listOfFrames,
            final(self).same_channel(old(self)),
            match root {
                Ok(id) => {
                    &&& id == frame
                    &&& display_error(display, old(self).listOfDisplays@) is None
                    &&& final(self).displays() == old(self).displays().update(
                        display - 1,
                        Some(turned_on(old(self).displays()[display - 1]->0, frame, title@)),
                    )
                },
                Err(message) => {
                    &&& display_error(display, old(self).listOfDisplays@) == Some(message)
                    &&& final(self).displays() == old(self).displays()
                },
            },
    {
        match self.accessDisplay(display) {
            Ok(access) => {
                access.flags = access.flags | Display_MaskRefresh;
                access.mainFrame = frame;
                access.focusedFrame = frame;
                access.turnOn(title);
            },
            Err(message) => {
                return Err(message);
            },
        }
        proof {
            assert(self.displays() =~= old(self).displays().update(
                display - 1,
                Some(turned_on(old(self).displays()[display - 1]->0, frame, title@)),
            ));
        }
        Ok(frame)
    }

    /// Switches a display off and returns its main frame.
    pub fn turnOffDisplay(&mut self, display: DisplayID) -> (root: Result<FrameID, &'static str>)
        ensures
            final(self).listOfFrames == old(self).listOfFrames,
            final(self).same_channel(old(self)),
            match root {
                Ok(id) => {
                    &&& display_error(display, old(self).listOfDisplays@) is None
                    &&& id == old(self).displays()[display - 1]->0.mainFrame
                    &&& final(self).displays() == old(self).displays().update(
                        display - 1,
                        Some(turned_off(old(self).displays()[display - 1]->0)),
                    )
                },
                Err(message) => {
                    &&& display_error(display, old(self).listOfDisplays@) == Some(message)
                    &&& final(self).displays() == old(self).displays()
                },
            },
    {
        let frame: FrameID;
        match self.accessDisplay(display) {
            Ok(access) => {
                frame = access.mainFrame;
                access.turnOff();
            },
            Err(message) => {
                return Err(message);
            },
        }
        proof {
            assert(self.displays() =~= old(self).displays().update(
                display - 1,
                Some(turned_off(old(self).displays()[display - 1]->0)),
            ));
        }
        Ok(frame)
    }

    /// Refreshes every display that is due at time `now`, in the order of
    /// the table: see `render_spec`.
    pub fn render(&mut self, now: u64)
        requires
            forall|i: int|
                0 <= i < old(self).displays().len() && old(self).displays()[i] is Some ==> (
                #[trigger] old(self).displays()[i])->0.fits(),
        ensures
            final(self).same_channel(old(self)),
            (final(self).displays(), final(self).frames()) == render_spec(
                old(self).displays(),
                old(self).frames(),
                0,
                now,
            ),
    {
        let count: usize = self.listOfDisplays.len();
        let mut k: usize = 0;
        while k < count
            invariant
                k <= count,
                count == self.listOfDisplays.len(),
                self.same_channel(old(self)),
                forall|i: int|
                    0 <= i < self.displays().len() && self.displays()[i] is Some ==> (
                    #[trigger] self.displays()[i])->0.fits(),
                render_spec(self.displays(), self.frames(), k as nat, now) == render_spec(
                    old(self).displays(),
                    old(self).frames(),
                    0,
                    now,
                ),
            decreases count - k,
        {
            let ghost before = self.displays();
            match self.listOfDisplays[k].take() {
                Some(display) => {
                    let mut display = display;
                    proof {
                        assert(before[k as int] == Some(display@));
                    }
                    display.refresh(&mut self.listOfFrames, now);
                    self.listOfDisplays[k] = Some(display);
                    proof {
                        assert(self.displays() =~= before.update(k as int, Some(display@)));
                    }
                },
                None => {
                    proof {
                        assert(self.displays() =~= before);
                    }
                },
            }
            k = k + 1;
        }
    }
}

} // verus!
