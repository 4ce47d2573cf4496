use ferrocene::display::protocol::{firstEvent, frameAt, mouseAction, TTYPrefix, TTYState};
use ferrocene::display::tty::TTYDisplay;
use ferrocene::display::{Display_NeedRemap, Display_None};
use ferrocene::frame::{Frame, Frame_None};
use ferrocene::event::{
    Event, EventType, MouseButton_LeftDown, MouseButton_MiddleDown, MouseButton_None,
    MouseButton_RightDown,
};

struct Parser {
    state: TTYState,
    mouse: u32,
    params: Vec<usize>,
    current: usize,
    prefix: TTYPrefix,
}

impl Parser {
    fn new() -> Parser {
        Parser {
            state: TTYState::ExpectByte,
            mouse: MouseButton_None,
            params: vec![],
            current: 0,
            prefix: TTYPrefix::Unset,
        }
    }

    fn step(&mut self, byte: u8, focus: Option<usize>, map: Option<&Vec<usize>>) -> Option<Event> {
        self.state.nextState(
            byte,
            focus,
            3,
            None,
            map,
            80,
            24,
            &mut self.mouse,
            &mut self.params,
            &mut self.current,
            &mut self.prefix,
        )
    }

    fn feed(&mut self, bytes: &[u8], focus: Option<usize>, map: Option<&Vec<usize>>) -> Vec<Event> {
        self.state.feed(
            &bytes.to_vec(),
            focus,
            3,
            map,
            80,
            24,
            &mut self.mouse,
            &mut self.params,
            &mut self.current,
            &mut self.prefix,
        )
    }
}

fn bottom_row_map() -> Vec<usize> {
    let mut screen =
        TTYDisplay::new(Display_None, 0, 0, 0, 0, true, Ok((80, 24, 0, 0)), 0, 0).unwrap();
    assert_eq!(screen.flags & Display_NeedRemap, Display_NeedRemap);
    let mut frames = vec![None, None, None, None, None, None];
    frames.push(Some(Frame::newStatusFrame(Frame_None, 0, "?!".to_string(), '_')));
    screen.draw(&mut frames, 7, 0, 23, 80, 1);
    let map = screen.mapOfFrames.unwrap();
    assert_eq!(map.len(), 80 * 24);
    assert_eq!(map.iter().filter(|owner| **owner == 7).count(), 80);
    assert_eq!(map.iter().filter(|owner| **owner == 0).count(), 80 * 23);
    map
}

#[test]
fn mouse_press_is_routed_to_the_frame_under_the_pointer() {
    let map = bottom_row_map();
    let mut parser = Parser::new();
    let events = parser.feed(b"\x1b[<0;6;24M", Some(2), Some(&map));
    assert_eq!(events.len(), 1);
    let event = events[0];
    assert!(matches!(event.event, EventType::MouseLeftButtonPressed));
    assert_eq!(event.cursorX, 5);
    assert_eq!(event.cursorY, 23);
    assert_eq!(event.frame, 7);
    assert_eq!(event.display, 3);
    assert_eq!(event.mouse & MouseButton_LeftDown, MouseButton_LeftDown);
    assert_eq!(parser.mouse, MouseButton_LeftDown);
    assert_eq!(parser.state, TTYState::ExpectByte);
}

#[test]
fn mouse_report_outside_the_map_goes_to_no_frame() {
    let map = bottom_row_map();
    let mut parser = Parser::new();
    let events = parser.feed(b"\x1b[<0;81;24M", None, Some(&map));
    assert_eq!(events.len(), 1);
    assert_eq!(events[0].frame, 0);
    assert_eq!((events[0].cursorX, events[0].cursorY), (80, 23));
    let events = parser.feed(b"\x1b[<35;1;1M", None, Some(&map));
    assert_eq!(events.len(), 1);
    assert!(matches!(events[0].event, EventType::MouseOver));
    assert_eq!(events[0].frame, 0);
    let events = parser.feed(b"\x1b[<35;6;24M", None, None);
    assert_eq!(events[0].frame, 0);
}

#[test]
fn mouse_release_clears_the_button() {
    let mut parser = Parser::new();
    let pressed = parser.feed(b"\x1b[<0;1;1M\x1b[<2;1;1M", None, None);
    assert_eq!(pressed.len(), 2);
    assert!(matches!(pressed[1].event, EventType::MouseRightButtonPressed));
    assert_eq!(parser.mouse, MouseButton_LeftDown | MouseButton_RightDown);
    let released = parser.feed(b"\x1b[<0;1;1m", None, None);
    assert_eq!(released.len(), 1);
    assert!(matches!(released[0].event, EventType::MouseLeftButtonReleased));
    assert_eq!(released[0].mouse, MouseButton_RightDown);
    assert_eq!(parser.mouse, MouseButton_RightDown);
}

#[test]
fn every_mouse_code_has_its_event() {
    let left = MouseButton_LeftDown;
    assert!(matches!(mouseAction(0, true, 0), Some((EventType::MouseLeftButtonPressed, 1))));
    assert!(matches!(mouseAction(1, true, 0), Some((EventType::MouseMiddleButtonPressed, 2))));
    assert!(matches!(mouseAction(2, true, 0), Some((EventType::MouseRightButtonPressed, 4))));
    assert!(matches!(mouseAction(32, true, left), Some((EventType::MouseMoveWithLeftButton, 1))));
    assert!(matches!(mouseAction(33, true, left), Some((EventType::MouseMoveWithMiddleButton, 1))));
    assert!(matches!(mouseAction(34, true, left), Some((EventType::MouseMoveWithRightButton, 1))));
    assert!(matches!(mouseAction(35, true, left), Some((EventType::MouseOver, 1))));
    assert!(matches!(mouseAction(64, true, left), Some((EventType::MouseWheelUp, 1))));
    assert!(matches!(mouseAction(65, true, left), Some((EventType::MouseWheelDown, 1))));
    assert!(mouseAction(3, true, left).is_none());
    assert!(mouseAction(66, true, left).is_none());
    assert!(matches!(mouseAction(0, false, 7), Some((EventType::MouseLeftButtonReleased, 6))));
    assert!(matches!(mouseAction(1, false, 7), Some((EventType::MouseMiddleButtonReleased, 5))));
    assert!(matches!(mouseAction(2, false, 7), Some((EventType::MouseRightButtonReleased, 3))));
    assert!(mouseAction(32, false, 7).is_none());
    assert!(mouseAction(64, false, 7).is_none());
    assert_eq!(MouseButton_MiddleDown, 2);
}

#[test]
fn mouse_report_with_unknown_code_is_dropped() {
    let mut parser = Parser::new();
    let events = parser.feed(b"\x1b[<99;1;1M", None, None);
    assert!(events.is_empty());
    assert_eq!(parser.state, TTYState::ExpectByte);
    assert_eq!(parser.mouse, MouseButton_None);
    let events = parser.feed(b"\x1b[<35;1;1m", None, None);
    assert!(events.is_empty());
}

#[test]
fn mouse_report_with_position_zero_is_dropped() {
    let mut parser = Parser::new();
    let events = parser.feed(b"\x1b[<0;0;5M", None, None);
    assert!(events.is_empty());
    assert_eq!(parser.mouse, MouseButton_None);
    let events = parser.feed(b"\x1b[<0;5;0M", None, None);
    assert!(events.is_empty());
    assert_eq!(parser.state, TTYState::ExpectByte);
}

#[test]
fn mouse_report_needs_exactly_three_numbers() {
    let mut parser = Parser::new();
    assert!(parser.feed(b"\x1b[<0;6M", None, None).is_empty());
    assert_eq!(parser.state, TTYState::ExpectByte);
    assert!(parser.feed(b"\x1b[<0;6;24;1M", None, None).is_empty());
    assert_eq!(parser.state, TTYState::ExpectByte);
    assert!(parser.feed(b"\x1b[0;6;24M", None, None).is_empty());
    assert_eq!(parser.state, TTYState::ExpectByte);
}

#[test]
fn escape_after_escape_is_an_event_each_time() {
    let mut parser = Parser::new();
    assert!(parser.step(0x1b, Some(4), None).is_none());
    assert_eq!(parser.state, TTYState::Escape);
    let events = parser.feed(&[0x1b, 0x1b, 0x1b], Some(4), None);
    assert_eq!(events.len(), 3);
    for event in &events {
        assert!(matches!(event.event, EventType::Escape));
        assert_eq!(event.frame, 4);
        assert_eq!(event.display, 3);
    }
    assert_eq!(parser.state, TTYState::Escape);
    assert!(parser.step(b'[', Some(4), None).is_none());
    assert_eq!(parser.state, TTYState::CSI);
}

#[test]
fn three_escapes_from_the_start_give_two_events() {
    let mut parser = Parser::new();
    let events = parser.feed(&[0x1b, 0x1b, 0x1b], None, None);
    assert_eq!(events.len(), 2);
    assert_eq!(parser.state, TTYState::Escape);
}

#[test]
fn escape_before_another_byte_is_an_event_and_ends_the_sequence() {
    let mut parser = Parser::new();
    let events = parser.feed(b"\x1bx", Some(9), None);
    assert_eq!(events.len(), 1);
    assert!(matches!(events[0].event, EventType::Escape));
    assert_eq!(events[0].frame, 9);
    assert_eq!(parser.state, TTYState::ExpectByte);
}

#[test]
fn printable_bytes_are_characters_for_the_focused_frame() {
    let mut parser = Parser::new();
    let events = parser.feed(b" q~", Some(5), None);
    assert_eq!(events.len(), 3);
    assert!(matches!(events[0].event, EventType::Character(' ')));
    assert!(matches!(events[1].event, EventType::Character('q')));
    assert!(matches!(events[2].event, EventType::Character('~')));
    assert_eq!(events[1].frame, 5);
    assert_eq!((events[1].cursorX, events[1].cursorY), (0, 0));
    let unfocused = parser.feed(b"a", None, None);
    assert_eq!(unfocused[0].frame, 0);
}

#[test]
fn other_bytes_are_ignored() {
    let mut parser = Parser::new();
    let events = parser.feed(&[0x00, 0x07, 0x1f, 0x7f, 0x80, 0xff], Some(5), None);
    assert!(events.is_empty());
    assert_eq!(parser.state, TTYState::ExpectByte);
}

#[test]
fn digit_after_escape_starts_a_number() {
    let mut parser = Parser::new();
    assert!(parser.feed(b"\x1b7", None, None).is_empty());
    assert_eq!(parser.state, TTYState::ParseArgument);
    assert_eq!(parser.prefix, TTYPrefix::Escape);
    assert_eq!(parser.current, 7);
    assert!(parser.params.is_empty());
}

#[test]
fn numbers_are_read_digit_by_digit() {
    let mut parser = Parser::new();
    assert!(parser.feed(b"\x1b[12;345;", None, None).is_empty());
    assert_eq!(parser.state, TTYState::ParseArgument);
    assert_eq!(parser.prefix, TTYPrefix::CSI);
    assert_eq!(parser.params, vec![12, 345]);
    assert_eq!(parser.current, 0);
}

#[test]
fn control_sequence_that_is_not_understood_is_abandoned() {
    let mut parser = Parser::new();
    assert!(parser.feed(b"\x1b[A", None, None).is_empty());
    assert_eq!(parser.state, TTYState::ExpectByte);
    assert!(parser.feed(b"\x1b[12~", None, None).is_empty());
    assert_eq!(parser.state, TTYState::ExpectByte);
    let events = parser.feed(b"a", None, None);
    assert!(matches!(events[0].event, EventType::Character('a')));
}

#[test]
fn number_that_does_not_fit_abandons_the_sequence() {
    let mut parser = Parser::new();
    let events = parser.feed(b"\x1b[<18446744073709551615", None, None);
    assert!(events.is_empty());
    assert_eq!(parser.state, TTYState::ParseArgument);
    assert_eq!(parser.current, usize::MAX);
    let mut parser = Parser::new();
    let events = parser.feed(b"\x1b[<18446744073709551616", None, None);
    assert!(events.is_empty());
    assert_eq!(parser.state, TTYState::ExpectByte);
    let events = parser.feed(b"9", None, None);
    assert!(matches!(events[0].event, EventType::Character('9')));
}

#[test]
fn cursor_position_report_carries_column_and_row() {
    let mut parser = Parser::new();
    let events = parser.feed(b"\x1b[24;80R", Some(6), None);
    assert_eq!(events.len(), 1);
    assert!(matches!(events[0].event, EventType::CursorPosition));
    assert_eq!(events[0].cursorX, 80);
    assert_eq!(events[0].cursorY, 24);
    assert_eq!(events[0].frame, 0);
    assert_eq!(parser.state, TTYState::ExpectByte);
}

#[test]
fn cursor_position_report_needs_two_numbers() {
    let mut parser = Parser::new();
    assert!(parser.feed(b"\x1b[24R", None, None).is_empty());
    assert_eq!(parser.state, TTYState::ExpectByte);
    assert!(parser.feed(b"\x1b[<24;80R", None, None).is_empty());
    assert_eq!(parser.state, TTYState::ExpectByte);
}

#[test]
fn bytes_in_two_reads_decode_as_in_one() {
    let map = bottom_row_map();
    let whole: &[u8] = b"a\x1b[<0;6;24Mb\x1b\x1b[<0;6;24m";
    let mut at_once = Parser::new();
    let expected = at_once.feed(whole, Some(1), Some(&map));
    for cut in 0..whole.len() {
        let mut parser = Parser::new();
        let mut events = parser.feed(&whole[..cut], Some(1), Some(&map));
        events.extend(parser.feed(&whole[cut..], Some(1), Some(&map)));
        assert_eq!(events.len(), expected.len());
        for (got, want) in events.iter().zip(expected.iter()) {
            assert_eq!(format!("{:?}", got), format!("{:?}", want));
        }
        assert_eq!(parser.state, at_once.state);
        assert_eq!(parser.mouse, at_once.mouse);
    }
    assert_eq!(expected.len(), 5);
}

#[test]
fn first_event_of_a_reply_is_found() {
    let event = firstEvent(&b"\x1b[24;80Rq".to_vec());
    assert!(matches!(event, Some(Event { event: EventType::CursorPosition, .. })));
    assert!(firstEvent(&b"\x1b[24;80".to_vec()).is_none());
    assert!(firstEvent(&vec![]).is_none());
    let typed = firstEvent(&b"q\x1b[24;80R".to_vec());
    assert!(matches!(typed, Some(Event { event: EventType::Character('q'), .. })));
}

#[test]
fn cell_lookup_knows_the_edges_of_the_map() {
    let map = bottom_row_map();
    assert_eq!(frameAt(Some(&map), 80, 24, 0, 23), 7);
    assert_eq!(frameAt(Some(&map), 80, 24, 79, 23), 7);
    assert_eq!(frameAt(Some(&map), 80, 24, 79, 22), 0);
    assert_eq!(frameAt(Some(&map), 80, 24, 80, 23), 0);
    assert_eq!(frameAt(Some(&map), 80, 24, 0, 24), 0);
    assert_eq!(frameAt(None, 80, 24, 0, 23), 0);
    let short = vec![7usize; 10];
    assert_eq!(frameAt(Some(&short), 80, 24, 9, 0), 7);
    assert_eq!(frameAt(Some(&short), 80, 24, 10, 0), 0);
    assert_eq!(frameAt(Some(&short), usize::MAX, usize::MAX, 3, usize::MAX - 1), 0);
}

#[test]
fn new_event_holds_what_it_is_given() {
    let event = Event::new(EventType::Function(3), 1, 2, 3, 4, MouseButton_RightDown);
    assert!(matches!(event.event, EventType::Function(3)));
    assert_eq!((event.display, event.frame), (1, 2));
    assert_eq!((event.cursorX, event.cursorY), (3, 4));
    assert_eq!(event.mouse, 4);
}

#[test]
fn channel_carries_events_to_the_receiver() {
    let (sender, receiver) = Event::openChannel();
    let second = sender.clone();
    sender.send(Event::new(EventType::Return, 1, 2, 0, 0, 0)).unwrap();
    second.send(Event::new(EventType::Character('x'), 1, 2, 0, 0, 0)).unwrap();
    assert!(matches!(receiver.try_recv().unwrap().event, EventType::Return));
    assert!(matches!(receiver.try_recv().unwrap().event, EventType::Character('x')));
    assert!(receiver.try_recv().is_err());
}

#[test]
fn mouse_report_of_any_numbers_arrives_as_sent() {
    for (code, column, row) in [(64usize, 123usize, 45usize), (0, 1, 1), (35, 65535, 70000), (2, 10, 100)] {
        let mut parser = Parser::new();
        let bytes = format!("\x1b[<{};{};{}M", code, column, row);
        let events = parser.feed(bytes.as_bytes(), Some(1), None);
        assert_eq!(events.len(), 1);
        assert_eq!((events[0].cursorX, events[0].cursorY), (column - 1, row - 1));
        assert_eq!(parser.params, vec![code, column, row]);
        assert_eq!(parser.prefix, TTYPrefix::Mouse);
    }
}

#[test]
fn cursor_report_of_any_numbers_arrives_as_sent() {
    for (row, column) in [(1usize, 1usize), (24, 80), (0, 0), (65536, 7), (999, 999)] {
        let mut parser = Parser::new();
        let bytes = format!("\x1b[{};{}R", row, column);
        let events = parser.feed(bytes.as_bytes(), Some(1), None);
        assert_eq!(events.len(), 1);
        assert!(matches!(events[0].event, EventType::CursorPosition));
        assert_eq!((events[0].cursorX, events[0].cursorY), (column, row));
        assert_eq!(parser.params, vec![row, column]);
    }
}

#[test]
fn decoded_event_is_sent_on_a_live_channel() {
    let (sender, receiver) = Event::openChannel();
    let mut state = TTYState::ExpectByte;
    let (mut mouse, mut params, mut current, mut prefix) = (0, vec![], 0, TTYPrefix::Unset);
    for byte in b"a\x1b[<0;6;24Mb" {
        let returned = state.nextState(
            *byte,
            Some(4),
            3,
            Some(&sender),
            None,
            80,
            24,
            &mut mouse,
            &mut params,
            &mut current,
            &mut prefix,
        );
        assert!(returned.is_none());
    }
    let first = receiver.try_recv().unwrap();
    assert!(matches!(first.event, EventType::Character('a')));
    assert_eq!(first.frame, 4);
    let second = receiver.try_recv().unwrap();
    assert!(matches!(second.event, EventType::MouseLeftButtonPressed));
    assert_eq!((second.cursorX, second.cursorY), (5, 23));
    let third = receiver.try_recv().unwrap();
    assert!(matches!(third.event, EventType::Character('b')));
    assert_eq!(third.mouse, MouseButton_LeftDown);
    assert!(receiver.try_recv().is_err());
    assert_eq!(state, TTYState::ExpectByte);
    assert_eq!(mouse, MouseButton_LeftDown);
}

#[test]
fn decoded_event_comes_back_from_a_channel_without_receiver() {
    let (sender, receiver) = Event::openChannel();
    drop(receiver);
    let mut state = TTYState::ExpectByte;
    let (mut mouse, mut params, mut current, mut prefix) = (0, vec![], 0, TTYPrefix::Unset);
    let returned = state.nextState(
        b'a',
        Some(4),
        3,
        Some(&sender),
        None,
        80,
        24,
        &mut mouse,
        &mut params,
        &mut current,
        &mut prefix,
    );
    assert!(matches!(returned, Some(Event { event: EventType::Character('a'), frame: 4, .. })));
    let nothing = state.nextState(
        0x1b,
        Some(4),
        3,
        Some(&sender),
        None,
        80,
        24,
        &mut mouse,
        &mut params,
        &mut current,
        &mut prefix,
    );
    assert!(nothing.is_none());
    assert_eq!(state, TTYState::Escape);
}

#[test]
fn decoding_alone_never_sends() {
    let mut state = TTYState::ExpectByte;
    let (mut mouse, mut params, mut current, mut prefix) = (0, vec![], 0, TTYPrefix::Unset);
    let decoded = state.decode(
        b'a',
        None,
        3,
        None,
        80,
        24,
        &mut mouse,
        &mut params,
        &mut current,
        &mut prefix,
    );
    assert!(matches!(decoded, Some(Event { event: EventType::Character('a'), frame: 0, .. })));
}
