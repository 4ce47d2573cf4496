use ferrocene::display::tty::{TTYAction, TTYDisplay};
use ferrocene::display::{
    Display, DisplayType, Display_MaskRefresh, Display_NeedRefresh, Display_NeedRemap,
    Display_None, Display_RealTime,
};
use ferrocene::event::{EventType, MouseButton_None};

fn terminal() -> Display {
    TTYDisplay::new(Display_None, 0, 0, 0, 0, true, Ok((80, 24, 0, 0)), 1000, 0).unwrap()
}

fn output(display: &Display) -> String {
    match &display.display {
        DisplayType::TTY(tty) => tty.output.iter().collect(),
    }
}

fn pending(display: &Display) -> Vec<TTYAction> {
    match &display.display {
        DisplayType::TTY(tty) => tty.pending.clone(),
    }
}

fn listening(display: &Display) -> bool {
    match &display.display {
        DisplayType::TTY(tty) => tty.listening,
    }
}

fn drain(display: &mut Display) {
    match &mut display.display {
        DisplayType::TTY(tty) => {
            tty.output.clear();
            tty.pending.clear();
        },
    }
}

const ON: &str = "\x1b]0;Title\x07\x1b[2J\x1b[1;1H\x1b[?25l\x1b[?1003h\x1b[?1006h";

#[test]
fn new_display_is_off_and_needs_everything() {
    let made = TTYDisplay::new(Display_RealTime, -1, 2, 3, 4, true, Ok((80, 24, 640, 480)), 77, 99)
        .unwrap();
    assert_eq!(made.flags, Display_RealTime | Display_NeedRefresh | Display_NeedRemap);
    assert_eq!(made.this, 0);
    assert_eq!((made.offsX, made.offsY), (-1, 2));
    assert_eq!((made.sizeX, made.sizeY), (80, 24));
    assert_eq!((made.cursorX, made.cursorY), (3, 4));
    assert_eq!(made.mapOfFrames, None);
    assert_eq!((made.mainFrame, made.focusedFrame), (0, 0));
    assert_eq!((made.lastRefresh, made.nextRefresh), (99, 77));
    assert_eq!(output(&made), "");
    assert!(pending(&made).is_empty());
    assert!(!listening(&made));
    assert_eq!(Display_MaskRefresh, 0xc000_0000);
}

#[test]
fn display_is_not_made_of_a_terminal_without_mode_or_size() {
    let no_mode = TTYDisplay::new(Display_None, 0, 0, 0, 0, false, Ok((80, 24, 0, 0)), 1, 0);
    assert_eq!(no_mode.err(), Some("cannot get termios structure"));
    let no_size = TTYDisplay::new(
        Display_None,
        0,
        0,
        0,
        0,
        true,
        Err("cannot determine terminal dimensions"),
        1,
        0,
    );
    assert_eq!(no_size.err(), Some("cannot determine terminal dimensions"));
    let neither = TTYDisplay::new(Display_None, 0, 0, 0, 0, false, Err("cannot enter raw mode"), 1, 0);
    assert_eq!(neither.err(), Some("cannot get termios structure"));
}

#[test]
fn terminal_that_tells_its_size_is_believed() {
    let size = TTYDisplay::getTerminalSize(Some((80, 24, 640, 480)), false, &vec![], false);
    assert_eq!(size, Ok((80, 24, 640, 480)));
}

#[test]
fn size_is_read_from_the_cursor_position() {
    let reply = b"\x1b[24;80R".to_vec();
    assert_eq!(TTYDisplay::getTerminalSize(None, true, &reply, true), Ok((80, 24, 0, 0)));
    let largest = b"\x1b[65535;65535R".to_vec();
    assert_eq!(TTYDisplay::getTerminalSize(None, true, &largest, true), Ok((65535, 65535, 0, 0)));
}

#[test]
fn cursor_position_beyond_sixteen_bits_is_no_size() {
    for reply in ["\x1b[24;65536R", "\x1b[65536;80R", "\x1b[65537;65536R", "\x1b[1;18446744073709551615R"] {
        assert_eq!(
            TTYDisplay::getTerminalSize(None, true, &reply.as_bytes().to_vec(), true),
            Err("cannot determine terminal dimensions")
        );
    }
}

#[test]
fn size_cannot_be_found_without_raw_mode_or_reply() {
    let reply = b"\x1b[24;80R".to_vec();
    assert_eq!(
        TTYDisplay::getTerminalSize(None, false, &reply, true),
        Err("cannot enter raw mode")
    );
    assert_eq!(
        TTYDisplay::getTerminalSize(None, true, &reply, false),
        Err("cannot enter cooked mode")
    );
    assert_eq!(
        TTYDisplay::getTerminalSize(None, false, &reply, false),
        Err("cannot enter raw mode")
    );
    assert_eq!(
        TTYDisplay::getTerminalSize(None, true, &b"\x1b[24;80".to_vec(), true),
        Err("cannot determine terminal dimensions")
    );
    assert_eq!(
        TTYDisplay::getTerminalSize(None, true, &b"q\x1b[24;80R".to_vec(), true),
        Err("cannot determine terminal dimensions")
    );
    assert_eq!(
        TTYDisplay::getTerminalSize(None, true, &vec![], true),
        Err("cannot determine terminal dimensions")
    );
}

#[test]
fn probe_sends_the_cursor_away_and_asks_where_it_is() {
    let probe: String = TTYDisplay::sizeProbe().iter().collect();
    assert_eq!(probe, "\x1b[999;999H\x1b[6n\n");
}

#[test]
fn switching_on_prepares_the_terminal_and_starts_the_listener() {
    let mut display = terminal();
    display.turnOn("Title".to_string());
    assert_eq!(output(&display), ON);
    assert_eq!(
        pending(&display),
        vec![
            TTYAction::EnterRawMode,
            TTYAction::SetNonBlocking,
            TTYAction::Write,
            TTYAction::Flush,
            TTYAction::StartListener,
        ]
    );
    assert!(listening(&display));
}

#[test]
fn switching_on_twice_starts_one_listener() {
    let mut display = terminal();
    display.turnOn("Title".to_string());
    drain(&mut display);
    display.turnOn("Title".to_string());
    assert_eq!(output(&display), ON);
    assert_eq!(pending(&display), vec![TTYAction::Write, TTYAction::Flush]);
    assert!(listening(&display));
}

#[test]
fn switching_off_resets_the_terminal_and_stops_the_listener() {
    let mut display = terminal();
    display.turnOn("Title".to_string());
    drain(&mut display);
    display.turnOff();
    assert_eq!(output(&display), "\x1bc");
    assert_eq!(
        pending(&display),
        vec![
            TTYAction::Write,
            TTYAction::Flush,
            TTYAction::StopListener,
            TTYAction::JoinListener,
            TTYAction::SetBlocking,
            TTYAction::EnterCookedMode,
        ]
    );
    assert!(!listening(&display));
}

#[test]
fn switching_off_twice_only_resets_again() {
    let mut display = terminal();
    display.turnOn("Title".to_string());
    display.turnOff();
    drain(&mut display);
    let flags = display.flags;
    display.turnOff();
    assert_eq!(output(&display), "\x1bc");
    assert_eq!(pending(&display), vec![TTYAction::Write, TTYAction::Flush]);
    assert!(!listening(&display));
    assert_eq!(display.flags, flags);
    display.turnOff();
    assert_eq!(output(&display), "\x1bc\x1bc");
    assert_eq!(
        pending(&display),
        vec![TTYAction::Write, TTYAction::Flush, TTYAction::Write, TTYAction::Flush]
    );
}

#[test]
fn display_that_was_never_on_can_be_switched_off() {
    let mut display = terminal();
    display.turnOff();
    assert_eq!(output(&display), "\x1bc");
    assert_eq!(pending(&display), vec![TTYAction::Write, TTYAction::Flush]);
    assert!(!listening(&display));
}

#[test]
fn display_can_be_switched_on_again() {
    let mut display = terminal();
    display.turnOn("Title".to_string());
    display.turnOff();
    drain(&mut display);
    display.turnOn("Title".to_string());
    assert_eq!(pending(&display).last(), Some(&TTYAction::StartListener));
    assert_eq!(pending(&display).len(), 5);
    assert!(listening(&display));
}

#[test]
fn title_is_sent_as_one_sequence() {
    let mut display = terminal();
    display.changeTitle("Grüße".to_string());
    assert_eq!(output(&display), "\x1b]0;Grüße\x07");
    assert_eq!(pending(&display), vec![TTYAction::Write, TTYAction::Flush]);
    assert!(!listening(&display));
}

#[test]
fn flushing_queues_the_output() {
    let mut backend = TTYDisplay { output: vec!['a'], pending: vec![], listening: true };
    backend.flush();
    assert_eq!(backend.output, vec!['a']);
    assert_eq!(backend.pending, vec![TTYAction::Write, TTYAction::Flush]);
    assert!(backend.listening);
}

#[test]
fn failed_steps_are_reported_as_errors() {
    let messages = [
        (TTYAction::EnterRawMode, Some("cannot enter raw mode")),
        (TTYAction::SetNonBlocking, Some("cannot make input non-blocking")),
        (TTYAction::Write, Some("cannot send to tty")),
        (TTYAction::Flush, Some("cannot flush to tty")),
        (TTYAction::StartListener, None),
        (TTYAction::StopListener, None),
        (TTYAction::JoinListener, None),
        (TTYAction::SetBlocking, Some("cannot reset input to blocking")),
        (TTYAction::EnterCookedMode, Some("cannot enter cooked mode")),
    ];
    for (action, message) in messages {
        assert_eq!(action.failure(), message);
        match (action.failed(4), message) {
            (Some(event), Some(text)) => {
                assert!(matches!(event.event, EventType::Error(reported) if reported == text));
                assert_eq!(event.display, 4);
                assert_eq!(event.frame, 0);
                assert_eq!((event.cursorX, event.cursorY), (0, 0));
                assert_eq!(event.mouse, MouseButton_None);
            },
            (None, None) => {},
            _ => panic!("a step and its report disagree"),
        }
    }
}
