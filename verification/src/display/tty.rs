//! The character terminal as a display's backend: what switches it on and
//! off, and how its size is found.
pub use crate::display::protocol::{TTYPrefix, TTYState};

use vstd::prelude::*;

use crate::Flags;
use crate::display::encode::pushText;
use crate::display::protocol::{
    cursor_bytes, first_event, firstEvent, fresh_decoder, lemma_cursor_report, lemma_first_event,
    no_routing,
};
use crate::display::{Display, DisplayID, DisplayType, Display_NeedRefresh, Display_NeedRemap};
use crate::event::{Event, EventType, MouseButton_None};

verus! {

/// A step that the owner of the terminal's streams takes for the display.
#[derive(Clone, Copy, PartialEq, Eq, Structural, Debug)]
pub enum TTYAction {
    /// Switch the terminal to raw mode.
    EnterRawMode,
    /// Remember the blocking mode of the input, then make it non-blocking.
    SetNonBlocking,
    /// Write the display's output to the terminal and empty it.
    Write,
    /// Flush what has been written.
    Flush,
    /// Start the listener that decodes the terminal's input.
    StartListener,
    /// Tell the listener to stop.
    StopListener,
    /// Wait until the listener has stopped.
    JoinListener,
    /// Give the input its remembered blocking mode back.
    SetBlocking,
    /// Give the terminal the mode back that it had when the display was made.
    EnterCookedMode,
}

/// A character terminal as a display's backend.
///
/// The display itself touches no stream. What it renders is collected in
/// `output`, in the order in which it was rendered, and what has to be done
/// to the terminal is queued in `pending`; whoever owns the streams takes
/// the steps in order and empties the queue.
pub struct TTYDisplay {
    /// The characters that are to be written to the terminal.
    pub output: Vec<char>,
    /// The steps that are to be taken, in order.
    pub pending: Vec<TTYAction>,
    /// Whether a listener is reading the terminal's input: the display is on.
    pub listening: bool,
}

/// The message of the error that a failed step is reported with; `None`
/// for a step whose failure is not reported.
pub open spec fn failure_message(action: TTYAction) -> Option<&'static str> {
    match action {
        TTYAction::EnterRawMode => Some("cannot enter raw mode"),
        TTYAction::SetNonBlocking => Some("cannot make input non-blocking"),
        TTYAction::Write => Some("cannot send to tty"),
        TTYAction::Flush => Some("cannot flush to tty"),
        TTYAction::SetBlocking => Some("cannot reset input to blocking"),
        TTYAction::EnterCookedMode => Some("cannot enter cooked mode"),
        _ => None,
    }
}

/// The event that reports the failure of a step on a display.
pub open spec fn failure_event(action: TTYAction, display: DisplayID) -> Option<Event> {
    match failure_message(action) {
        Some(message) => Some(
            Event {
                event: EventType::Error(message),
                display: display,
                frame: 0,
                cursorX: 0,
                cursorY: 0,
                mouse: MouseButton_None,
            },
        ),
        None => None,
    }
}

/// The sequence that sets the terminal's title.
pub open spec fn title_sequence(title: Seq<char>) -> Seq<char> {
    "\x1b]0;"@ + title + "\x07"@
}

/// What switches a terminal on: the title, then clearing the screen, moving
/// the cursor home, hiding it, and asking for reports of every mouse
/// movement in the extended format.
pub open spec fn on_sequence(title: Seq<char>) -> Seq<char> {
    title_sequence(title) + "\x1b[2J\x1b[1;1H\x1b[?25l\x1b[?1003h\x1b[?1006h"@
}

/// What switches a terminal off: the sequence that resets it.
pub open spec fn off_sequence() -> Seq<char> {
    "\x1bc"@
}

/// What asks a terminal for its size: the cursor is sent as far down and
/// right as it goes and its position is asked for.
pub open spec fn probe_sequence() -> Seq<char> {
    "\x1b[999;999H\x1b[6n\n"@
}

/// The steps that switch a terminal on. One that is on already is only sent
/// the sequence again.
pub open spec fn on_steps(listening: bool) -> Seq<TTYAction> {
    if listening {
        seq![TTYAction::Write, TTYAction::Flush]
    } else {
        seq![
            TTYAction::EnterRawMode,
            TTYAction::SetNonBlocking,
            TTYAction::Write,
            TTYAction::Flush,
            TTYAction::StartListener,
        ]
    }
}

/// The steps that switch a terminal off. One that is off already is only
/// sent the sequence again.
pub open spec fn off_steps(listening: bool) -> Seq<TTYAction> {
    if listening {
        seq![
            TTYAction::Write,
            TTYAction::Flush,
            TTYAction::StopListener,
            TTYAction::JoinListener,
            TTYAction::SetBlocking,
            TTYAction::EnterCookedMode,
        ]
    } else {
        seq![TTYAction::Write, TTYAction::Flush]
    }
}

impl TTYAction {
    /// The message of the error that the failure of this step is reported with.
    pub fn failure(&self) -> (message: Option<&'static str>)
        ensures
            message == failure_message(*self),
    {
        match self {
            TTYAction::EnterRawMode => Some("cannot enter raw mode"),
            TTYAction::SetNonBlocking => Some("cannot make input non-blocking"),
            TTYAction::Write => Some("cannot send to tty"),
            TTYAction::Flush => Some("cannot flush to tty"),
            TTYAction::SetBlocking => Some("cannot reset input to blocking"),
            TTYAction::EnterCookedMode => Some("cannot enter cooked mode"),
            _ => None,
        }
    }

    /// The event that reports the failure of this step on a display.
    pub fn failed(&self, display: DisplayID) -> (event: Option<Event>)
        ensures
            event == failure_event(*self, display),
    {
        match self.failure() {
            Some(message) => Some(
                Event::new(EventType::Error(message), display, 0, 0, 0, MouseButton_None),
            ),
            None => None,
        }
    }
}

/// Appends the sequence that sets the terminal's title.
fn pushTitle(out: &mut Vec<char>, title: &str)
    ensures
        final(out)@ == old(out)@ + title_sequence(title@),
{
    pushText(out, "\x1b]0;");
    pushText(out, title);
    pushText(out, "\x07");
    proof {
        assert(out@ =~= old(out)@ + title_sequence(title@));
    }
}

impl TTYDisplay {
    /// Queues a new title for the terminal.
    pub fn changeTitle(&mut self, title: String)
        ensures
            final(self).output@ == old(self).output@ + title_sequence(title@),
            final(self).pending@ == old(self).pending@ + seq![TTYAction::Write, TTYAction::Flush],
            final(self).listening == old(self).listening,
    {
        pushTitle(&mut self.output, title.as_str());
        self.pending.push(TTYAction::Write);
        self.pending.push(TTYAction::Flush);
        proof {
            assert(self.pending@ =~= old(self).pending@ + seq![TTYAction::Write, TTYAction::Flush]);
        }
    }

    /// Switches the terminal on: queues the sequence that prepares it and
    /// the steps that put it into raw mode and start the listener.
    pub fn turnOn(&mut self, title: String)
        ensures
            final(self).output@ == old(self).output@ + on_sequence(title@),
            final(self).pending@ == old(self).pending@ + on_steps(old(self).listening),
            final(self).listening,
    {
        if self.listening {
            self.pending.push(TTYAction::Write);
            self.pending.push(TTYAction::Flush);
        } else {
            self.pending.push(TTYAction::EnterRawMode);
            self.pending.push(TTYAction::SetNonBlocking);
            self.pending.push(TTYAction::Write);
            self.pending.push(TTYAction::Flush);
            self.pending.push(TTYAction::StartListener);
            self.listening = true;
        }
        pushTitle(&mut self.output, title.as_str());
        pushText(&mut self.output, "\x1b[2J\x1b[1;1H\x1b[?25l\x1b[?1003h\x1b[?1006h");
        proof {
            assert(self.output@ =~= old(self).output@ + on_sequence(title@));
            assert(self.pending@ =~= old(self).pending@ + on_steps(old(self).listening));
        }
    }

    /// Switches the terminal off: queues the sequence that resets it and the
    /// steps that stop the listener and restore the terminal's modes.
    pub fn turnOff(&mut self)
        ensures
            final(self).output@ == old(self).output@ + off_sequence(),
            final(self).pending@ == old(self).pending@ + off_steps(old(self).listening),
            !final(self).listening,
    {
        pushText(&mut self.output, "\x1bc");
        self.pending.push(TTYAction::Write);
        self.pending.push(TTYAction::Flush);
        if self.listening {
            self.pending.push(TTYAction::StopListener);
            self.pending.push(TTYAction::JoinListener);
            self.pending.push(TTYAction::SetBlocking);
            self.pending.push(TTYAction::EnterCookedMode);
            self.listening = false;
        }
        proof {
            assert(self.pending@ =~= old(self).pending@ + off_steps(old(self).listening));
        }
    }

    /// Queues what sends the output that has been rendered to the terminal.
    pub fn flush(&mut self)
        ensures
            final(self).output@ == old(self).output@,
            final(self).pending@ == old(self).pending@ + seq![TTYAction::Write, TTYAction::Flush],
            final(self).listening == old(self).listening,
    {
        self.pending.push(TTYAction::Write);
        self.pending.push(TTYAction::Flush);
        proof {
            assert(self.pending@ =~= old(self).pending@ + seq![TTYAction::Write, TTYAction::Flush]);
        }
    }
}

/// The size of a terminal, in columns, rows, and pixels across and down.
///
/// A terminal that tells its size when asked has that size. For one that
/// does not, the size is the cursor position that it reports after the
/// cursor was sent as far down and right as it goes: the first event of
/// `reply` decides. For that the terminal has to switch to raw mode and
/// back. A position beyond 65535 columns or rows is no size.
pub open spec fn terminal_size(
    winsize: Option<(u16, u16, u16, u16)>,
    raw: bool,
    reply: Seq<u8>,
    cooked: bool,
) -> Result<(u16, u16, u16, u16), &'static str> {
    if winsize is Some {
        Ok(winsize->0)
    } else if !raw {
        Err("cannot enter raw mode")
    } else if !cooked {
        Err("cannot enter cooked mode")
    } else {
        match first_event(fresh_decoder(), reply, no_routing()) {
            Some(event) => match event.event {
                EventType::CursorPosition => if event.cursorX <= 0xffff && event.cursorY <= 0xffff {
                    Ok((event.cursorX as u16, event.cursorY as u16, 0u16, 0u16))
                } else {
                    Err("cannot determine terminal dimensions")
                },
                _ => Err("cannot determine terminal dimensions"),
            },
            None => Err("cannot determine terminal dimensions"),
        }
    }
}

/// The display that `TTYDisplay::new` makes of a terminal of the given size.
pub open spec fn new_display(
    flags: Flags,
    offsX: isize,
    offsY: isize,
    cursorX: usize,
    cursorY: usize,
    size: (u16, u16, u16, u16),
    refreshRate: u64,
    now: u64,
    made: Display,
) -> bool {
    &&& made.flags == flags | Display_NeedRefresh | Display_NeedRemap
    &&& made.this == 0
    &&& made.offsX == offsX
    &&& made.offsY == offsY
    &&& made.sizeX == size.0
    &&& made.sizeY == size.1
    &&& made.cursorX == cursorX
    &&& made.cursorY == cursorY
    &&& made.mapOfFrames is None
    &&& made.mainFrame == 0
    &&& made.focusedFrame == 0
    &&& made.lastRefresh == now
    &&& made.nextRefresh == refreshRate
    &&& match made.display {
        DisplayType::TTY(tty) => tty.output@ == Seq::<char>::empty() && tty.pending@ == Seq::<
            TTYAction,
        >::empty() && !tty.listening,
    }
}

impl TTYDisplay {
    /// Makes a display of a terminal.
    ///
    /// `termios` says whether the terminal's mode could be read, `size` is
    /// what `getTerminalSize` found, `now` is the time on the caller's clock,
    /// in nanoseconds, and `refreshRate` the least time between two
    /// refreshes. The display is off, belongs to no table yet, and needs
    /// both a refresh and a new hit-test map.
    pub fn new(
        flags: Flags,
        offsX: isize,
        offsY: isize,
        cursorX: usize,
        cursorY: usize,
        termios: bool,
        size: Result<(u16, u16, u16, u16), &'static str>,
        refreshRate: u64,
        now: u64,
    ) -> (made: Result<Display, &'static str>)
        ensures
            !termios ==> made == Err::<Display, &'static str>("cannot get termios structure"),
            termios && size is Err ==> made == Err::<Display, &'static str>(size->Err_0),
            termios && size is Ok ==> made is Ok && new_display(
                flags,
                offsX,
                offsY,
                cursorX,
                cursorY,
                size->Ok_0,
                refreshRate,
                now,
                made->Ok_0,
            ),
            made is Ok ==> made->Ok_0@.fits(),
    {
        if !termios {
            return Err("cannot get termios structure");
        }
        match size {
            Err(message) => Err(message),
            Ok(found) => {
                proof {
                    assert(found.0 * found.1 <= usize::MAX) by (nonlinear_arith)
                        requires
                            found.0 <= 0xffff,
                            found.1 <= 0xffff,
                            usize::MAX >= 0xffff_ffff,
                    ;
                }
                Ok(
                    Display {
                        flags: flags | Display_NeedRefresh | Display_NeedRemap,
                        this: 0,
                        offsX: offsX,
                        offsY: offsY,
                        sizeX: found.0 as usize,
                        sizeY: found.1 as usize,
                        cursorX: cursorX,
                        cursorY: cursorY,
                        mapOfFrames: None,
                        mainFrame: 0,
                        focusedFrame: 0,
                        lastRefresh: now,
                        nextRefresh: refreshRate,
                        display: DisplayType::TTY(
                            TTYDisplay { output: Vec::new(), pending: Vec::new(), listening: false },
                        ),
                    },
                )
            },
        }
    }

    /// What asks a terminal for its size.
    pub fn sizeProbe() -> (probe: Vec<char>)
        ensures
            probe@ == probe_sequence(),
    {
        let mut probe: Vec<char> = Vec::new();
        pushText(&mut probe, "\x1b[999;999H\x1b[6n\n");
        proof {
            assert(probe@ =~= probe_sequence());
        }
        probe
    }

    /// Works the size of a terminal out from what was found out about it:
    /// `winsize` is the size it told when asked, if it did; `raw` and
    /// `cooked` say whether it could be switched to raw mode and back; `reply`
    /// is what it sent in reply to `sizeProbe`.
    pub fn getTerminalSize(
        winsize: Option<(u16, u16, u16, u16)>,
        raw: bool,
        reply: &Vec<u8>,
        cooked: bool,
    ) -> (size: Result<(u16, u16, u16, u16), &'static str>)
        ensures
            size == terminal_size(winsize, raw, reply@, cooked),
    {
        match winsize {
            Some(told) => Ok(told),
            None => {
                if !raw {
                    Err("cannot enter raw mode")
                } else if !cooked {
                    Err("cannot enter cooked mode")
                } else {
                    match firstEvent(reply) {
                        Some(event) => match event.event {
                            EventType::CursorPosition => {
                                if event.cursorX <= 0xffff && event.cursorY <= 0xffff {
                                    Ok((event.cursorX as u16, event.cursorY as u16, 0, 0))
                                } else {
                                    Err("cannot determine terminal dimensions")
                                }
                            },
                            _ => Err("cannot determine terminal dimensions"),
                        },
                        None => Err("cannot determine terminal dimensions"),
                    }
                }
            },
        }
    }
}

/// A terminal that does not tell its size but answers the probe with its
/// cursor position has the size that the position gives, so many columns
/// and rows; where the position is beyond 65535 its size is not known.
pub proof fn lemma_probe_answered(row: usize, column: usize)
    ensures
        terminal_size(None, true, cursor_bytes(row as nat, column as nat), true) == if column
            <= 0xffff && row <= 0xffff {
            Ok::<(u16, u16, u16, u16), &'static str>((column as u16, row as u16, 0u16, 0u16))
        } else {
            Err::<(u16, u16, u16, u16), &'static str>("cannot determine terminal dimensions")
        },
{
    lemma_cursor_report(fresh_decoder(), no_routing(), row, column);
    lemma_first_event(fresh_decoder(), cursor_bytes(row as nat, column as nat), no_routing());
}

} // verus!
