//! The terminal protocol: decoding the bytes that a terminal sends into events.
use vstd::prelude::*;

use crate::Flags;
use crate::display::DisplayID;
use crate::event::{
    sendEvent, Event, EventSender, EventType, MouseButton_LeftDown, MouseButton_MiddleDown,
    MouseButton_None, MouseButton_RightDown,
};
use crate::frame::FrameID;

verus! {

/// Which grammar the numbers of an escape sequence belong to.
#[derive(Clone, Copy, PartialEq, Eq, Structural, Debug)]
pub enum TTYPrefix {
    /// No sequence has been started.
    Unset,
    /// The numbers follow a bare escape.
    Escape,
    /// The numbers follow a control sequence introducer.
    CSI,
    /// The numbers are those of an extended mouse report.
    Mouse,
}

/// Where the decoder stands in the byte stream.
#[derive(Clone, Copy, PartialEq, Eq, Structural, Debug)]
pub enum TTYState {
    ExpectByte,
    Escape,
    CSI,
    ParseArgument,
}

/// The whole state of a decoder between two bytes.
pub struct Decoder {
    pub state: TTYState,
    /// The mouse buttons that are held down.
    pub mouse: Flags,
    /// The numbers of the current sequence that are complete.
    pub params: Seq<usize>,
    /// The number that is being read.
    pub current: usize,
    pub prefix: TTYPrefix,
}

/// What a decoder needs to know of its display to route an event.
pub struct Routing {
    /// The frame that has the keyboard focus, if it is known.
    pub focus: Option<FrameID>,
    pub display: DisplayID,
    /// The display's hit-test map, row by row, if it has one.
    pub map: Option<Seq<FrameID>>,
    pub width: usize,
    pub height: usize,
}

/// Whether a byte is a decimal digit.
pub open spec fn is_digit(byte: u8) -> bool {
    0x30 <= byte <= 0x39
}

/// The frame that owns the cell in column `x` of row `y`; zero where the
/// cell lies outside the display or the map does not reach it.
pub open spec fn frame_at(map: Option<Seq<FrameID>>, width: usize, height: usize, x: int, y: int)
    -> FrameID {
    if map is Some && 0 <= x < width && 0 <= y < height && y * width + x < map->0.len() {
        (map->0)[y * width + x]
    } else {
        0
    }
}

/// An event of the keyboard: it goes to the focused frame and carries no position.
pub open spec fn keyboard_event(event: EventType, d: Decoder, r: Routing) -> Event {
    Event {
        event: event,
        display: r.display,
        frame: if r.focus is Some { r.focus->0 } else { 0 },
        cursorX: 0,
        cursorY: 0,
        mouse: d.mouse,
    }
}

/// The decoder at the first digit of a sequence's numbers.
pub open spec fn start_number(d: Decoder, prefix: TTYPrefix, first: usize) -> Decoder {
    Decoder {
        state: TTYState::ParseArgument,
        mouse: d.mouse,
        params: Seq::empty(),
        current: first,
        prefix: prefix,
    }
}

/// The decoder back between two sequences.
pub open spec fn abandon(d: Decoder) -> Decoder {
    Decoder { state: TTYState::ExpectByte, ..d }
}

/// What the code of a mouse report means: the event, and the buttons held
/// down after it. `None` for a code that is not understood.
pub open spec fn mouse_action(code: usize, pressed: bool, mouse: Flags) -> Option<(EventType, Flags)> {
    if pressed {
        if code == 0 {
            Some((EventType::MouseLeftButtonPressed, mouse | MouseButton_LeftDown))
        } else if code == 1 {
            Some((EventType::MouseMiddleButtonPressed, mouse | MouseButton_MiddleDown))
        } else if code == 2 {
            Some((EventType::MouseRightButtonPressed, mouse | MouseButton_RightDown))
        } else if code == 32 {
            Some((EventType::MouseMoveWithLeftButton, mouse))
        } else if code == 33 {
            Some((EventType::MouseMoveWithMiddleButton, mouse))
        } else if code == 34 {
            Some((EventType::MouseMoveWithRightButton, mouse))
        } else if code == 35 {
            Some((EventType::MouseOver, mouse))
        } else if code == 64 {
            Some((EventType::MouseWheelUp, mouse))
        } else if code == 65 {
            Some((EventType::MouseWheelDown, mouse))
        } else {
            None
        }
    } else {
        if code == 0 {
            Some((EventType::MouseLeftButtonReleased, mouse & !MouseButton_LeftDown))
        } else if code == 1 {
            Some((EventType::MouseMiddleButtonReleased, mouse & !MouseButton_MiddleDown))
        } else if code == 2 {
            Some((EventType::MouseRightButtonReleased, mouse & !MouseButton_RightDown))
        } else {
            None
        }
    }
}

/// The end of an extended mouse report, `M` for a press and `m` for a
/// release, after the code and the column: the row is complete, the report
/// is decoded. Column and row count from one; a report with a zero in either
/// is dropped, as is one with a code that is not understood.
pub open spec fn mouse_report(d: Decoder, pressed: bool, r: Routing) -> (Decoder, Option<Event>)
    recommends
        d.params.len() == 2,
{
    let params = d.params.push(d.current);
    let done = Decoder { state: TTYState::ExpectByte, params: params, ..d };
    match mouse_action(params[0], pressed, d.mouse) {
        Some((kind, buttons)) => {
            if params[1] == 0 || params[2] == 0 {
                (done, None)
            } else {
                (
                    Decoder { mouse: buttons, ..done },
                    Some(
                        Event {
                            event: kind,
                            display: r.display,
                            frame: frame_at(r.map, r.width, r.height, params[1] - 1, params[2] - 1),
                            cursorX: (params[1] - 1) as usize,
                            cursorY: (params[2] - 1) as usize,
                            mouse: buttons,
                        },
                    ),
                )
            }
        },
        None => (done, None),
    }
}

/// The end of a cursor position report, `R`, after the row: the column is
/// complete. The event carries column and row as the terminal sent them.
pub open spec fn cursor_report(d: Decoder, r: Routing) -> (Decoder, Option<Event>)
    recommends
        d.params.len() == 1,
{
    let params = d.params.push(d.current);
    (
        Decoder { state: TTYState::ExpectByte, params: params, ..d },
        Some(
            Event {
                event: EventType::CursorPosition,
                display: r.display,
                frame: 0,
                cursorX: params[1],
                cursorY: params[0],
                mouse: d.mouse,
            },
        ),
    )
}

/// One step of the decoder: the state after `byte`, and the event that the
/// byte completes, if it completes one.
pub open spec fn advance(d: Decoder, byte: u8, r: Routing) -> (Decoder, Option<Event>) {
    match d.state {
        TTYState::ExpectByte => {
            if byte == 0x1b {
                (Decoder { state: TTYState::Escape, ..d }, None)
            } else if 0x20 <= byte <= 0x7e {
                (d, Some(keyboard_event(EventType::Character(byte as char), d, r)))
            } else {
                (d, None)
            }
        },
        TTYState::Escape => {
            if is_digit(byte) {
                (start_number(d, TTYPrefix::Escape, (byte - 0x30) as usize), None)
            } else if byte == 0x5b {
                (Decoder { state: TTYState::CSI, ..d }, None)
            } else if byte == 0x1b {
                (d, Some(keyboard_event(EventType::Escape, d, r)))
            } else {
                (abandon(d), Some(keyboard_event(EventType::Escape, d, r)))
            }
        },
        TTYState::CSI => {
            if is_digit(byte) {
                (start_number(d, TTYPrefix::CSI, (byte - 0x30) as usize), None)
            } else if byte == 0x3c {
                (start_number(d, TTYPrefix::Mouse, 0), None)
            } else {
                (abandon(d), None)
            }
        },
        TTYState::ParseArgument => {
            if is_digit(byte) {
                if d.current * 10 + (byte - 0x30) <= usize::MAX {
                    (Decoder { current: (d.current * 10 + (byte - 0x30)) as usize, ..d }, None)
                } else {
                    (abandon(d), None)
                }
            } else if byte == 0x3b {
                (Decoder { params: d.params.push(d.current), current: 0, ..d }, None)
            } else if byte == 0x4d && d.params.len() == 2 && d.prefix == TTYPrefix::Mouse {
                mouse_report(d, true, r)
            } else if byte == 0x6d && d.params.len() == 2 && d.prefix == TTYPrefix::Mouse {
                mouse_report(d, false, r)
            } else if byte == 0x52 && d.params.len() == 1 && d.prefix == TTYPrefix::CSI {
                cursor_report(d, r)
            } else {
                (abandon(d), None)
            }
        },
    }
}

/// The decoder that the five parts of its state make up.
pub open spec fn decoder_of(
    state: TTYState,
    mouse: Flags,
    params: Seq<usize>,
    current: usize,
    prefix: TTYPrefix,
) -> Decoder {
    Decoder { state: state, mouse: mouse, params: params, current: current, prefix: prefix }
}

/// The routing that the arguments of `nextState` and of `decode` describe.
pub open spec fn routing_of(
    focus: Option<FrameID>,
    display: DisplayID,
    mapOfFrames: Option<&Vec<FrameID>>,
    width: usize,
    height: usize,
) -> Routing {
    Routing {
        focus: focus,
        display: display,
        map: if mapOfFrames is Some { Some(mapOfFrames->0@) } else { None },
        width: width,
        height: height,
    }
}

/// Looks a cell up in a hit-test map.
pub fn frameAt(mapOfFrames: Option<&Vec<FrameID>>, width: usize, height: usize, x: usize, y: usize)
    -> (frame: FrameID)
    ensures
        frame == frame_at(
            if mapOfFrames is Some { Some(mapOfFrames->0@) } else { None },
            width,
            height,
            x as int,
            y as int,
        ),
{
    match mapOfFrames {
        Some(map) => {
            let cells: usize = map.len();
            if x < width && y < height {
                match y.checked_mul(width) {
                    Some(row) => match row.checked_add(x) {
                        Some(index) => {
                            if index < cells {
                                map[index]
                            } else {
                                0
                            }
                        },
                        None => 0,
                    },
                    None => 0,
                }
            } else {
                0
            }
        },
        None => 0,
    }
}

impl TTYState {
    /// Feeds one byte to the decoder and reports the event that it
    /// completes: on the channel `events`, if there is one and it takes the
    /// event, else to the caller.
    ///
    /// The decoder moves one step, as `advance` says, whatever becomes of the
    /// event. Without a channel the event is returned. With a channel
    /// nothing is returned where the event has been sent; an event that the
    /// channel does not take, because nobody receives from it any more, is
    /// returned as well, so that no event is lost.
    pub fn nextState(
        &mut self,
        byte: u8,
        focus: Option<FrameID>,
        display: DisplayID,
        events: Option<&EventSender>,
        mapOfFrames: Option<&Vec<FrameID>>,
        width: usize,
        height: usize,
        mouseState: &mut Flags,
        listOfParameters: &mut Vec<usize>,
        currentParameter: &mut usize,
        parameterPrefix: &mut TTYPrefix,
    ) -> (event: Option<Event>)
        ensures
            decoder_of(
                *final(self),
                *final(mouseState),
                final(listOfParameters)@,
                *final(currentParameter),
                *final(parameterPrefix),
            ) == advance(
                decoder_of(
                    *old(self),
                    *old(mouseState),
                    old(listOfParameters)@,
                    *old(currentParameter),
                    *old(parameterPrefix),
                ),
                byte,
                routing_of(focus, display, mapOfFrames, width, height),
            ).0,
            events is None ==> event == advance(
                decoder_of(
                    *old(self),
                    *old(mouseState),
                    old(listOfParameters)@,
                    *old(currentParameter),
                    *old(parameterPrefix),
                ),
                byte,
                routing_of(focus, display, mapOfFrames, width, height),
            ).1,
            event is Some ==> event == advance(
                decoder_of(
                    *old(self),
                    *old(mouseState),
                    old(listOfParameters)@,
                    *old(currentParameter),
                    *old(parameterPrefix),
                ),
                byte,
                routing_of(focus, display, mapOfFrames, width, height),
            ).1,
    {
        let decoded: Option<Event> = self.decode(
            byte,
            focus,
            display,
            mapOfFrames,
            width,
            height,
            mouseState,
            listOfParameters,
            currentParameter,
            parameterPrefix,
        );
        match events {
            Some(channel) => match decoded {
                Some(event) => sendEvent(channel, event),
                None => None,
            },
            None => decoded,
        }
    }

    /// Decodes one byte.
    ///
    /// The decoder's state is spread over `self` and the four `&mut`
    /// arguments; the call moves all of them one step, as `advance` says, and
    /// returns the event that the byte completes.
    pub fn decode(
        &mut self,
        byte: u8,
        focus: Option<FrameID>,
        display: DisplayID,
        mapOfFrames: Option<&Vec<FrameID>>,
        width: usize,
        height: usize,
        mouseState: &mut Flags,
        listOfParameters: &mut Vec<usize>,
        currentParameter: &mut usize,
        parameterPrefix: &mut TTYPrefix,
    ) -> (event: Option<Event>)
        ensures
            (
                Decoder {
                    state: *final(self),
                    mouse: *final(mouseState),
                    params: final(listOfParameters)@,
                    current: *final(currentParameter),
                    prefix: *final(parameterPrefix),
                },
                event,
            ) == advance(
                Decoder {
                    state: *old(self),
                    mouse: *old(mouseState),
                    params: old(listOfParameters)@,
                    current: *old(currentParameter),
                    prefix: *old(parameterPrefix),
                },
                byte,
                routing_of(focus, display, mapOfFrames, width, height),
            ),
    {
        let frame: FrameID = match focus {
            Some(focused) => focused,
            None => 0,
        };
        match *self {
            TTYState::ExpectByte => {
                if byte == 0x1b {
                    *self = TTYState::Escape;
                    None
                } else if 0x20 <= byte && byte <= 0x7e {
                    Some(
                        Event::new(
                            EventType::Character(byte as char),
                            display,
                            frame,
                            0,
                            0,
                            *mouseState,
                        ),
                    )
                } else {
                    None
                }
            },
            TTYState::Escape => {
                if 0x30 <= byte && byte <= 0x39 {
                    *parameterPrefix = TTYPrefix::Escape;
                    listOfParameters.clear();
                    *currentParameter = (byte - 0x30) as usize;
                    *self = TTYState::ParseArgument;
                    None
                } else if byte == 0x5b {
                    *self = TTYState::CSI;
                    None
                } else {
                    if byte != 0x1b {
                        *self = TTYState::ExpectByte;
                    }
                    Some(Event::new(EventType::Escape, display, frame, 0, 0, *mouseState))
                }
            },
            TTYState::CSI => {
                if 0x30 <= byte && byte <= 0x39 {
                    *parameterPrefix = TTYPrefix::CSI;
                    listOfParameters.clear();
                    *currentParameter = (byte - 0x30) as usize;
                    *self = TTYState::ParseArgument;
                } else if byte == 0x3c {
                    *parameterPrefix = TTYPrefix::Mouse;
                    listOfParameters.clear();
                    *currentParameter = 0;
                    *self = TTYState::ParseArgument;
                } else {
                    *self = TTYState::ExpectByte;
                }
                None
            },
            TTYState::ParseArgument => {
                let mouse: bool = match *parameterPrefix {
                    TTYPrefix::Mouse => true,
                    _ => false,
                };
                let csi: bool = match *parameterPrefix {
                    TTYPrefix::CSI => true,
                    _ => false,
                };
                if 0x30 <= byte && byte <= 0x39 {
                    let digit: usize = (byte - 0x30) as usize;
                    let grown: Option<usize> = match currentParameter.checked_mul(10) {
                        Some(shifted) => shifted.checked_add(digit),
                        None => None,
                    };
                    match grown {
                        Some(value) => {
                            *currentParameter = value;
                        },
                        None => {
                            *self = TTYState::ExpectByte;
                        },
                    }
                    None
                } else if byte == 0x3b {
                    listOfParameters.push(*currentParameter);
                    *currentParameter = 0;
                    None
                } else if (byte == 0x4d || byte == 0x6d) && listOfParameters.len() == 2 && mouse {
                    listOfParameters.push(*currentParameter);
                    *self = TTYState::ExpectByte;
                    let code: usize = listOfParameters[0];
                    let column: usize = listOfParameters[1];
                    let row: usize = listOfParameters[2];
                    if column == 0 || row == 0 {
                        None
                    } else {
                        match mouseAction(code, byte == 0x4d, *mouseState) {
                            Some((kind, buttons)) => {
                                *mouseState = buttons;
                                let target: FrameID = frameAt(
                                    mapOfFrames,
                                    width,
                                    height,
                                    column - 1,
                                    row - 1,
                                );
                                Some(
                                    Event::new(kind, display, target, column - 1, row - 1, buttons),
                                )
                            },
                            None => None,
                        }
                    }
                } else if byte == 0x52 && listOfParameters.len() == 1 && csi {
                    listOfParameters.push(*currentParameter);
                    *self = TTYState::ExpectByte;
                    Some(
                        Event::new(
                            EventType::CursorPosition,
                            display,
                            0,
                            listOfParameters[1],
                            listOfParameters[0],
                            *mouseState,
                        ),
                    )
                } else {
                    *self = TTYState::ExpectByte;
                    None
                }
            },
        }
    }
}

/// Decodes the code of a mouse report.
pub fn mouseAction(code: usize, pressed: bool, mouse: Flags) -> (action: Option<(EventType, Flags)>)
    ensures
        action == mouse_action(code, pressed, mouse),
{
    if pressed {
        if code == 0 {
            Some((EventType::MouseLeftButtonPressed, mouse | MouseButton_LeftDown))
        } else if code == 1 {
            Some((EventType::MouseMiddleButtonPressed, mouse | MouseButton_MiddleDown))
        } else if code == 2 {
            Some((EventType::MouseRightButtonPressed, mouse | MouseButton_RightDown))
        } else if code == 32 {
            Some((EventType::MouseMoveWithLeftButton, mouse))
        } else if code == 33 {
            Some((EventType::MouseMoveWithMiddleButton, mouse))
        } else if code == 34 {
            Some((EventType::MouseMoveWithRightButton, mouse))
        } else if code == 35 {
            Some((EventType::MouseOver, mouse))
        } else if code == 64 {
            Some((EventType::MouseWheelUp, mouse))
        } else if code == 65 {
            Some((EventType::MouseWheelDown, mouse))
        } else {
            None
        }
    } else {
        if code == 0 {
            Some((EventType::MouseLeftButtonReleased, mouse & !MouseButton_LeftDown))
        } else if code == 1 {
            Some((EventType::MouseMiddleButtonReleased, mouse & !MouseButton_MiddleDown))
        } else if code == 2 {
            Some((EventType::MouseRightButtonReleased, mouse & !MouseButton_RightDown))
        } else {
            None
        }
    }
}

/// A decoder that has seen nothing yet.
pub open spec fn fresh_decoder() -> Decoder {
    Decoder {
        state: TTYState::ExpectByte,
        mouse: MouseButton_None,
        params: Seq::empty(),
        current: 0,
        prefix: TTYPrefix::Unset,
    }
}

/// The routing of a decoder that belongs to no display.
pub open spec fn no_routing() -> Routing {
    Routing { focus: None, display: 0, map: None, width: 0, height: 0 }
}

/// The decoder after a sequence of bytes, and the events that they complete, in order.
pub open spec fn run(d: Decoder, bytes: Seq<u8>, r: Routing) -> (Decoder, Seq<Event>)
    decreases bytes.len(),
{
    if bytes.len() == 0 {
        (d, Seq::empty())
    } else {
        let (before, events) = run(d, bytes.drop_last(), r);
        let (after, event) = advance(before, bytes.last(), r);
        (
            after,
            if event is Some {
                events.push(event->0)
            } else {
                events
            },
        )
    }
}

/// The first event that a sequence of bytes completes.
pub open spec fn first_event(d: Decoder, bytes: Seq<u8>, r: Routing) -> Option<Event>
    decreases bytes.len(),
{
    if bytes.len() == 0 {
        None
    } else {
        let (next, event) = advance(d, bytes[0], r);
        if event is Some {
            event
        } else {
            first_event(next, bytes.drop_first(), r)
        }
    }
}

impl TTYState {
    /// Feeds a sequence of bytes to the decoder and collects the events that
    /// they complete.
    pub fn feed(
        &mut self,
        bytes: &Vec<u8>,
        focus: Option<FrameID>,
        display: DisplayID,
        mapOfFrames: Option<&Vec<FrameID>>,
        width: usize,
        height: usize,
        mouseState: &mut Flags,
        listOfParameters: &mut Vec<usize>,
        currentParameter: &mut usize,
        parameterPrefix: &mut TTYPrefix,
    ) -> (events: Vec<Event>)
        ensures
            (
                Decoder {
                    state: *final(self),
                    mouse: *final(mouseState),
                    params: final(listOfParameters)@,
                    current: *final(currentParameter),
                    prefix: *final(parameterPrefix),
                },
                events@,
            ) == run(
                Decoder {
                    state: *old(self),
                    mouse: *old(mouseState),
                    params: old(listOfParameters)@,
                    current: *old(currentParameter),
                    prefix: *old(parameterPrefix),
                },
                bytes@,
                routing_of(focus, display, mapOfFrames, width, height),
            ),
    {
        let ghost start = Decoder {
            state: *self,
            mouse: *mouseState,
            params: listOfParameters@,
            current: *currentParameter,
            prefix: *parameterPrefix,
        };
        let ghost r = routing_of(focus, display, mapOfFrames, width, height);
        let mut events: Vec<Event> = Vec::new();
        let mut k: usize = 0;
        while k < bytes.len()
            invariant
                k <= bytes.len(),
                r == routing_of(focus, display, mapOfFrames, width, height),
                (
                    Decoder {
                        state: *self,
                        mouse: *mouseState,
                        params: listOfParameters@,
                        current: *currentParameter,
                        prefix: *parameterPrefix,
                    },
                    events@,
                ) == run(start, bytes@.take(k as int), r),
            decreases bytes.len() - k,
        {
            let event: Option<Event> = self.decode(
                bytes[k],
                focus,
                display,
                mapOfFrames,
                width,
                height,
                mouseState,
                listOfParameters,
                currentParameter,
                parameterPrefix,
            );
            match event {
                Some(e) => {
                    events.push(e);
                },
                None => {},
            }
            k = k + 1;
            proof {
                assert(bytes@.take(k as int).drop_last() =~= bytes@.take(k - 1));
            }
        }
        proof {
            assert(bytes@.take(k as int) =~= bytes@);
        }
        events
    }
}

/// The first event that a sequence of bytes completes for a decoder that
/// has seen nothing yet and belongs to no display.
pub fn firstEvent(bytes: &Vec<u8>) -> (event: Option<Event>)
    ensures
        event == first_event(fresh_decoder(), bytes@, no_routing()),
{
    let mut state: TTYState = TTYState::ExpectByte;
    let mut mouseState: Flags = MouseButton_None;
    let mut listOfParameters: Vec<usize> = Vec::new();
    let mut currentParameter: usize = 0;
    let mut parameterPrefix: TTYPrefix = TTYPrefix::Unset;
    let mut k: usize = 0;
    proof {
        assert(bytes@.skip(0) =~= bytes@);
        assert(listOfParameters@ =~= Seq::<usize>::empty());
    }
    while k < bytes.len()
        invariant
            k <= bytes.len(),
            first_event(fresh_decoder(), bytes@, no_routing()) == first_event(
                Decoder {
                    state: state,
                    mouse: mouseState,
                    params: listOfParameters@,
                    current: currentParameter,
                    prefix: parameterPrefix,
                },
                bytes@.skip(k as int),
                no_routing(),
            ),
        decreases bytes.len() - k,
    {
        let event: Option<Event> = state.decode(
            bytes[k],
            None,
            0,
            None,
            0,
            0,
            &mut mouseState,
            &mut listOfParameters,
            &mut currentParameter,
            &mut parameterPrefix,
        );
        proof {
            assert(bytes@.skip(k as int)[0] == bytes@[k as int]);
            assert(bytes@.skip(k as int).drop_first() =~= bytes@.skip(k + 1));
        }
        if event.is_some() {
            return event;
        }
        k = k + 1;
    }
    proof {
        assert(bytes@.skip(k as int).len() == 0);
    }
    None
}

/// `n` escape bytes.
pub open spec fn escapes(n: nat) -> Seq<u8> {
    Seq::new(n, |i: int| 0x1bu8)
}

/// After an escape byte, every further escape byte is reported as one
/// `Escape` event of its own, and the decoder keeps waiting for what the
/// last of them introduces: `n` escape bytes give `n` events and leave the
/// decoder as it was, so that a `[` still starts a control sequence.
pub proof fn lemma_escape_repeats(d: Decoder, r: Routing, n: nat)
    requires
        d.state == TTYState::Escape,
    ensures
        run(d, escapes(n), r) == (
            d,
            Seq::new(n, |i: int| keyboard_event(EventType::Escape, d, r)),
        ),
        advance(d, 0x5b, r) == (Decoder { state: TTYState::CSI, ..d }, None::<Event>),
    decreases n,
{
    if n > 0 {
        lemma_escape_repeats(d, r, (n - 1) as nat);
        assert(escapes(n).drop_last() =~= escapes((n - 1) as nat));
        assert(Seq::new((n - 1) as nat, |i: int| keyboard_event(EventType::Escape, d, r)).push(
            keyboard_event(EventType::Escape, d, r),
        ) =~= Seq::new(n, |i: int| keyboard_event(EventType::Escape, d, r)));
    } else {
        assert(Seq::new(0, |i: int| keyboard_event(EventType::Escape, d, r)) =~= Seq::<
            Event,
        >::empty());
    }
}

/// Decoding is indifferent to how the bytes arrive: what is decoded from
/// two reads, one after the other, is what is decoded from both at once.
pub proof fn lemma_run_in_parts(d: Decoder, first: Seq<u8>, second: Seq<u8>, r: Routing)
    ensures
        run(d, first + second, r) == (
            run(run(d, first, r).0, second, r).0,
            run(d, first, r).1 + run(run(d, first, r).0, second, r).1,
        ),
    decreases second.len(),
{
    if second.len() == 0 {
        assert(first + second =~= first);
        assert(run(d, first, r).1 + Seq::<Event>::empty() =~= run(d, first, r).1);
    } else {
        lemma_run_in_parts(d, first, second.drop_last(), r);
        assert((first + second).drop_last() =~= first + second.drop_last());
        assert((first + second).last() == second.last());
        let middle = run(d, first, r);
        let before = run(middle.0, second.drop_last(), r);
        let step = advance(before.0, second.last(), r);
        if step.1 is Some {
            assert((middle.1 + before.1).push(step.1->0) =~= middle.1 + before.1.push(step.1->0));
        }
    }
}

/// The bit of the button that a mouse report of the given code is about.
pub open spec fn button_bit(code: usize) -> Flags
    recommends
        code < 3,
{
    if code == 0 {
        MouseButton_LeftDown
    } else if code == 1 {
        MouseButton_MiddleDown
    } else {
        MouseButton_RightDown
    }
}

/// The buttons that are held down after a mouse report.
pub open spec fn buttons_after(code: usize, pressed: bool, mouse: Flags) -> Flags {
    match mouse_action(code, pressed, mouse) {
        Some((_, buttons)) => buttons,
        None => mouse,
    }
}

/// A press puts the bit of its button into the mouse state and a release
/// takes it out; neither touches the bits of the other buttons.
pub proof fn lemma_buttons(code: usize, mouse: Flags)
    requires
        code < 3,
    ensures
        mouse_action(code, true, mouse) is Some,
        mouse_action(code, false, mouse) is Some,
        buttons_after(code, true, mouse) & button_bit(code) == button_bit(code),
        buttons_after(code, false, mouse) & button_bit(code) == 0,
        buttons_after(code, true, mouse) & !button_bit(code) == mouse & !button_bit(code),
        buttons_after(code, false, mouse) & !button_bit(code) == mouse & !button_bit(code),
{
    let bit = button_bit(code);
    assert((mouse | bit) & bit == bit) by (bit_vector);
    assert((mouse & !bit) & bit == 0) by (bit_vector);
    assert((mouse | bit) & !bit == mouse & !bit) by (bit_vector);
    assert((mouse & !bit) & !bit == mouse & !bit) by (bit_vector);
}

/// The decimal notation of a number, as the bytes that a terminal sends.
pub open spec fn digits(n: nat) -> Seq<u8>
    decreases n,
{
    if n < 10 {
        seq![(0x30 + n) as u8]
    } else {
        digits(n / 10).push((0x30 + n % 10) as u8)
    }
}

/// The events that a step adds: the one that it completes, if any.
pub open spec fn completed(event: Option<Event>) -> Seq<Event> {
    match event {
        Some(e) => seq![e],
        None => Seq::empty(),
    }
}

/// Decoding a single byte is one step of the decoder.
pub proof fn lemma_run_one(d: Decoder, byte: u8, r: Routing)
    ensures
        run(d, seq![byte], r) == (advance(d, byte, r).0, completed(advance(d, byte, r).1)),
{
    assert(seq![byte].drop_last() =~= Seq::<u8>::empty());
    assert(run(d, Seq::<u8>::empty(), r) == (d, Seq::<Event>::empty()));
    assert(Seq::<Event>::empty().push(advance(d, byte, r).1->0) =~= seq![advance(d, byte, r).1->0]);
}

/// Decoding bytes and then one more byte is decoding the bytes and taking
/// one more step.
pub proof fn lemma_run_then_one(d: Decoder, bytes: Seq<u8>, byte: u8, r: Routing)
    ensures
        run(d, bytes + seq![byte], r) == (
            advance(run(d, bytes, r).0, byte, r).0,
            run(d, bytes, r).1 + completed(advance(run(d, bytes, r).0, byte, r).1),
        ),
{
    lemma_run_in_parts(d, bytes, seq![byte], r);
    lemma_run_one(run(d, bytes, r).0, byte, r);
}

/// A decoder that is reading a number and has read nothing of it yet reads
/// the digits of `n` as `n`, without an event.
pub proof fn lemma_number(d: Decoder, r: Routing, n: nat)
    requires
        d.state == TTYState::ParseArgument,
        d.current == 0,
        n <= usize::MAX,
    ensures
        run(d, digits(n), r) == (Decoder { current: n as usize, ..d }, Seq::<Event>::empty()),
    decreases n,
{
    if n < 10 {
        lemma_run_one(d, (0x30 + n) as u8, r);
    } else {
        lemma_number(d, r, n / 10);
        assert(digits(n).drop_last() =~= digits(n / 10));
        assert((n / 10) * 10 + n % 10 == n);
    }
}

/// A decoder that has seen the introducer of a control sequence reads the
/// digits of `n` as the first number of the sequence, without an event.
pub proof fn lemma_first_number(d: Decoder, r: Routing, n: nat)
    requires
        d.state == TTYState::CSI,
        n <= usize::MAX,
    ensures
        run(d, digits(n), r) == (
            start_number(d, TTYPrefix::CSI, n as usize),
            Seq::<Event>::empty(),
        ),
    decreases n,
{
    if n < 10 {
        lemma_run_one(d, (0x30 + n) as u8, r);
    } else {
        lemma_first_number(d, r, n / 10);
        assert(digits(n).drop_last() =~= digits(n / 10));
        assert((n / 10) * 10 + n % 10 == n);
    }
}

/// The bytes of an extended mouse report.
pub open spec fn mouse_bytes(code: nat, column: nat, row: nat, pressed: bool) -> Seq<u8> {
    seq![0x1bu8, 0x5bu8, 0x3cu8] + digits(code) + seq![0x3bu8] + digits(column) + seq![0x3bu8]
        + digits(row) + seq![if pressed { 0x4du8 } else { 0x6du8 }]
}

/// A decoder between two sequences decodes every extended mouse report, of
/// whatever code, column and row, as `mouse_report` says: the numbers
/// arrive as they were sent, and the report gives at most one event.
pub proof fn lemma_mouse_report(
    d: Decoder,
    r: Routing,
    code: usize,
    column: usize,
    row: usize,
    pressed: bool,
)
    requires
        d.state == TTYState::ExpectByte,
    ensures
        run(d, mouse_bytes(code as nat, column as nat, row as nat, pressed), r) == ({
            let (after, event) = mouse_report(
                Decoder {
                    state: TTYState::ParseArgument,
                    mouse: d.mouse,
                    params: seq![code, column],
                    current: row,
                    prefix: TTYPrefix::Mouse,
                },
                pressed,
                r,
            );
            (after, completed(event))
        }),
{
    let nothing = Seq::<Event>::empty();
    let b0 = seq![0x1bu8];
    let b1 = b0 + seq![0x5bu8];
    let b2 = b1 + seq![0x3cu8];
    lemma_run_one(d, 0x1b, r);
    lemma_run_then_one(d, b0, 0x5b, r);
    lemma_run_then_one(d, b1, 0x3c, r);
    assert(b2 =~= seq![0x1bu8, 0x5bu8, 0x3cu8]);
    let d2 = start_number(d, TTYPrefix::Mouse, 0);
    assert(run(d, b2, r) == (d2, nothing)) by {
        assert(nothing + nothing =~= nothing);
    }
    let b3 = b2 + digits(code as nat);
    lemma_run_in_parts(d, b2, digits(code as nat), r);
    lemma_number(d2, r, code as nat);
    let d3 = Decoder { current: code, ..d2 };
    assert(run(d, b3, r) == (d3, nothing)) by {
        assert(nothing + nothing =~= nothing);
    }
    let b4 = b3 + seq![0x3bu8];
    lemma_run_then_one(d, b3, 0x3b, r);
    let d4 = Decoder { params: seq![code], current: 0, ..d2 };
    assert(Seq::<usize>::empty().push(code) =~= seq![code]);
    assert(run(d, b4, r) == (d4, nothing)) by {
        assert(nothing + nothing =~= nothing);
    }
    let b5 = b4 + digits(column as nat);
    lemma_run_in_parts(d, b4, digits(column as nat), r);
    lemma_number(d4, r, column as nat);
    let d5 = Decoder { current: column, ..d4 };
    assert(run(d, b5, r) == (d5, nothing)) by {
        assert(nothing + nothing =~= nothing);
    }
    let b6 = b5 + seq![0x3bu8];
    lemma_run_then_one(d, b5, 0x3b, r);
    let d6 = Decoder { params: seq![code, column], current: 0, ..d2 };
    assert(seq![code].push(column) =~= seq![code, column]);
    assert(run(d, b6, r) == (d6, nothing)) by {
        assert(nothing + nothing =~= nothing);
    }
    let b7 = b6 + digits(row as nat);
    lemma_run_in_parts(d, b6, digits(row as nat), r);
    lemma_number(d6, r, row as nat);
    let d7 = Decoder { current: row, ..d6 };
    assert(run(d, b7, r) == (d7, nothing)) by {
        assert(nothing + nothing =~= nothing);
    }
    let last = if pressed {
        0x4du8
    } else {
        0x6du8
    };
    lemma_run_then_one(d, b7, last, r);
    assert(b7 + seq![last] =~= mouse_bytes(code as nat, column as nat, row as nat, pressed));
    assert(nothing + completed(advance(d7, last, r).1) =~= completed(advance(d7, last, r).1));
}

/// The bytes of a cursor position report.
pub open spec fn cursor_bytes(row: nat, column: nat) -> Seq<u8> {
    seq![0x1bu8, 0x5bu8] + digits(row) + seq![0x3bu8] + digits(column) + seq![0x52u8]
}

/// A decoder between two sequences decodes every cursor position report as
/// one `CursorPosition` event that carries the column and the row as they
/// were sent.
pub proof fn lemma_cursor_report(d: Decoder, r: Routing, row: usize, column: usize)
    requires
        d.state == TTYState::ExpectByte,
    ensures
        run(d, cursor_bytes(row as nat, column as nat), r) == (
            Decoder {
                state: TTYState::ExpectByte,
                mouse: d.mouse,
                params: seq![row, column],
                current: column,
                prefix: TTYPrefix::CSI,
            },
            seq![
                Event {
                    event: EventType::CursorPosition,
                    display: r.display,
                    frame: 0,
                    cursorX: column,
                    cursorY: row,
                    mouse: d.mouse,
                },
            ],
        ),
{
    let nothing = Seq::<Event>::empty();
    let b0 = seq![0x1bu8];
    let b1 = b0 + seq![0x5bu8];
    lemma_run_one(d, 0x1b, r);
    lemma_run_then_one(d, b0, 0x5b, r);
    assert(b1 =~= seq![0x1bu8, 0x5bu8]);
    let d1 = Decoder { state: TTYState::CSI, ..d };
    assert(run(d, b1, r) == (d1, nothing)) by {
        assert(nothing + nothing =~= nothing);
    }
    let b2 = b1 + digits(row as nat);
    lemma_run_in_parts(d, b1, digits(row as nat), r);
    lemma_first_number(d1, r, row as nat);
    let d2 = start_number(d1, TTYPrefix::CSI, row);
    assert(run(d, b2, r) == (d2, nothing)) by {
        assert(nothing + nothing =~= nothing);
    }
    let b3 = b2 + seq![0x3bu8];
    lemma_run_then_one(d, b2, 0x3b, r);
    let d3 = Decoder { params: seq![row], current: 0, ..d2 };
    assert(Seq::<usize>::empty().push(row) =~= seq![row]);
    assert(run(d, b3, r) == (d3, nothing)) by {
        assert(nothing + nothing =~= nothing);
    }
    let b4 = b3 + digits(column as nat);
    lemma_run_in_parts(d, b3, digits(column as nat), r);
    lemma_number(d3, r, column as nat);
    let d4 = Decoder { current: column, ..d3 };
    assert(run(d, b4, r) == (d4, nothing)) by {
        assert(nothing + nothing =~= nothing);
    }
    lemma_run_then_one(d, b4, 0x52, r);
    assert(b4 + seq![0x52u8] =~= cursor_bytes(row as nat, column as nat));
    assert(seq![row].push(column) =~= seq![row, column]);
    assert(nothing + completed(advance(d4, 0x52, r).1) =~= completed(advance(d4, 0x52, r).1));
}

/// The first event that bytes complete is the first of all the events that
/// they complete.
pub proof fn lemma_first_event(d: Decoder, bytes: Seq<u8>, r: Routing)
    ensures
        first_event(d, bytes, r) == if run(d, bytes, r).1.len() > 0 {
            Some(run(d, bytes, r).1[0])
        } else {
            None
        },
    decreases bytes.len(),
{
    if bytes.len() > 0 {
        let rest = bytes.drop_first();
        let step = advance(d, bytes[0], r);
        assert(bytes =~= seq![bytes[0]] + rest);
        lemma_run_one(d, bytes[0], r);
        lemma_run_in_parts(d, seq![bytes[0]], rest, r);
        lemma_first_event(step.0, rest, r);
    }
}

} // verus!
