use ferrocene::display::protocol::{TTYPrefix, TTYState};
use ferrocene::display::tty::TTYAction;
use ferrocene::display::{DisplayType, Display_MaskRefresh, Display_None};
use ferrocene::event::{EventType, MouseButton_None};
use ferrocene::frame::style::{
    Colour, Style_Conceal, Style_DoubleUnderline, Style_Encircled, Style_Fraktur, Style_Framed,
    Style_Inverse, Style_Italic, Style_None, Style_Overlined, Style_RapidBlink, Style_SlowBlink,
    Style_Underline, StyledToken,
};
use ferrocene::frame::{Frame, Frame_None, PixelEncoding, Tiling};
use ferrocene::Ferrocene;

fn token(word: &str, flags: u32, font: u8, fg: Colour, bg: Colour) -> StyledToken {
    StyledToken::new(word.to_string(), flags, font, fg, bg)
}

/// Takes what a display has queued, as the owner of its terminal would:
/// returns what was written.
fn perform(tui: &mut Ferrocene, display: usize) -> (Vec<TTYAction>, String) {
    let DisplayType::TTY(backend) = &mut tui.listOfDisplays[display - 1].as_mut().unwrap().display;
    let steps: Vec<TTYAction> = backend.pending.drain(..).collect();
    let written: String = backend.output.drain(..).collect();
    (steps, written)
}

/// Decodes what was typed, as the listener of a display would, and sends
/// the events on the channel.
fn typed(tui: &Ferrocene, display: usize, bytes: &[u8]) {
    let shown = tui.listOfDisplays[display - 1].as_ref().unwrap();
    let mut state = TTYState::ExpectByte;
    let mut mouse = MouseButton_None;
    let mut parameters = vec![];
    let mut current = 0;
    let mut prefix = TTYPrefix::Unset;
    for byte in bytes {
        let unsent = state.nextState(
            *byte,
            Some(shown.focusedFrame),
            display,
            Some(&tui.sendChannel),
            shown.mapOfFrames.as_ref(),
            shown.sizeX,
            shown.sizeY,
            &mut mouse,
            &mut parameters,
            &mut current,
            &mut prefix,
        );
        assert!(unsent.is_none());
    }
}

fn screen(tui: &mut Ferrocene, editor: usize, bar: usize, width: usize, height: usize) -> usize {
    tui.addParentFrame(
        Tiling::Grid,
        vec![
            Frame::newInstance(
                editor,
                0,
                0,
                width - 0,
                height - 1,
                width - 0,
                height - 1,
                width - 0,
                height - 1,
                0,
                0,
                1,
                1,
            ),
            Frame::newInstance(
                bar,
                0,
                height as isize - 1,
                width,
                1,
                width,
                1,
                width,
                1,
                0,
                1,
                1,
                1,
            ),
        ],
        vec![0, width as isize - 20],
        vec![0, height as isize - 1, height as isize],
        vec![1],
        vec![1, 1],
        0,
    )
}

fn lines(with_fonts: bool) -> Vec<Vec<StyledToken>> {
    let mut lines = vec![vec![
        token("1", Style_None, 0, Colour::Green, Colour::Black),
        token("2", Style_None, 0, Colour::Blue, Colour::Red),
    ]];
    if with_fonts {
        lines.push(
            (0..20u8).map(|font| token("A", Style_None, font, Colour::Green, Colour::Black)).collect(),
        );
    }
    lines.push(vec![
        token("3", Style_None, 0, Colour::Default, Colour::Default),
        token("4", Style_None, 0, Colour::Default, Colour::Default),
    ]);
    lines.push(vec![
        token("5", Style_None, 0, Colour::Green, Colour::Black),
        token("6", Style_Italic, 0, Colour::Green, Colour::Black),
        token("7", Style_Underline, 0, Colour::Green, Colour::Black),
        token("8", Style_SlowBlink, 0, Colour::Green, Colour::Black),
        token("9", Style_RapidBlink, 0, Colour::Green, Colour::Black),
        token("0", Style_Inverse, 0, Colour::Green, Colour::Black),
        token("a", Style_Conceal, 0, Colour::Green, Colour::Black),
        token("b", Style_Fraktur, 0, Colour::Green, Colour::Black),
        token("c", Style_DoubleUnderline, 0, Colour::Green, Colour::Black),
        token("d", Style_Framed, 0, Colour::Green, Colour::Black),
        token("e", Style_Encircled, 0, Colour::Green, Colour::Black),
        token("f", Style_Overlined, 0, Colour::Green, Colour::Black),
    ]);
    lines.push(vec![
        token("g", Style_None, 0, Colour::FaintGreen, Colour::FaintBlue),
        token("h", Style_None, 0, Colour::Green, Colour::Blue),
    ]);
    lines.push(vec![
        token("i", Style_None, 0, Colour::LightGreen, Colour::Yellow),
        token("j", Style_None, 0, Colour::RGB(255, 127, 0), Colour::Black),
        token("k", Style_None, 0, Colour::Grey(12), Colour::Grey(23)),
    ]);
    lines.push(vec![
        token("l", Style_None, 0, Colour::Standard(4), Colour::Cube(1, 2, 3)),
        token("m", Style_None, 0, Colour::Bright(5), Colour::Bright(2)),
    ]);
    lines
}

const ON_STEPS: [TTYAction; 5] = [
    TTYAction::EnterRawMode,
    TTYAction::SetNonBlocking,
    TTYAction::Write,
    TTYAction::Flush,
    TTYAction::StartListener,
];

const OFF_STEPS: [TTYAction; 6] = [
    TTYAction::Write,
    TTYAction::Flush,
    TTYAction::StopListener,
    TTYAction::JoinListener,
    TTYAction::SetBlocking,
    TTYAction::EnterCookedMode,
];

/// One session with the display: on, keys until `q`, off. Returns all that
/// was written while it was on, and the characters that were typed before `q`.
fn session(
    tui: &mut Ferrocene,
    terminal: usize,
    root: usize,
    title: &str,
    keys: &[u8],
    now: &mut u64,
) -> (String, Vec<char>) {
    assert_eq!(tui.turnOnDisplay(terminal, root, title.to_string()), Ok(root));
    let (steps, mut written) = perform(tui, terminal);
    assert_eq!(steps, ON_STEPS);
    typed(tui, terminal, keys);
    let mut characters = vec![];
    'mainLoop: loop {
        for event in &tui.recvChannel.try_recv() {
            match event.event {
                EventType::Error(message) => {
                    panic!("FAIL: {}", message);
                },
                EventType::Character(character) => match character {
                    'q' => {
                        break 'mainLoop;
                    },
                    'a' => {
                        tui.setDisplayTitle(terminal, "trolololololo".to_string()).unwrap();
                        characters.push(character);
                    },
                    _ => {
                        characters.push(character);
                    },
                },
                _ => {},
            }
        }
        *now += 10_000_001;
        tui.render(*now);
        written.push_str(&perform(tui, terminal).1);
    }
    assert_eq!(tui.turnOffDisplay(terminal), Ok(root));
    let (steps, reset) = perform(tui, terminal);
    assert_eq!(steps, OFF_STEPS);
    assert_eq!(reset, "\x1bc");
    (written, characters)
}

#[test]
fn main_main() {
    let mut tui = Ferrocene::new();
    let (width, height, terminal) = tui
        .addTTYDisplay(Display_None, 0, 0, 0, 0, true, Ok((80, 24, 0, 0)), 10_000_000, 0)
        .unwrap();
    let bar = tui.addStatusFrame(Frame_None, 0, "?!".to_string(), '_');
    let _image = tui.addPixelFrame(
        0,
        0,
        0,
        0,
        1.0f64.to_bits(),
        Colour::Black,
        PixelEncoding::Empty,
        PixelEncoding::Empty,
    );
    let editor = tui.addEditorFrame(Frame_None, 0, 0, lines(false), '.');
    let root = screen(&mut tui, editor, bar, width, height);
    let mut now = 0;

    let (first, characters) = session(&mut tui, terminal, root, "Hello World", b"xyq", &mut now);
    assert_eq!(characters, vec!['x', 'y']);
    assert!(first.starts_with("\x1b]0;Hello World\x07\x1b[2J\x1b[1;1H\x1b[?25l\x1b[?1003h\x1b[?1006h"));
    assert!(first.contains("\x1b[4;1H\x1b[2;32;2;44mg\x1b[0m\x1b[32;44mh\x1b[0m"));
    assert!(first.ends_with("\x1b[24;1H?!"));
    assert_eq!(first.matches("\x1b[24;1H?!").count(), 1);
    let shown = tui.listOfDisplays[terminal - 1].as_ref().unwrap();
    assert_eq!(shown.flags & Display_MaskRefresh, 0);
    assert_eq!(shown.mapOfFrames.as_ref().unwrap()[23 * 80], bar);

    let (second, characters) = session(&mut tui, terminal, root, "Hello World", b"zq", &mut now);
    assert_eq!(characters, vec!['z']);
    assert_eq!(second, first);

    let (third, characters) = session(&mut tui, terminal, root, "Hello World", b"q", &mut now);
    assert!(characters.is_empty());
    assert_eq!(third, "\x1b]0;Hello World\x07\x1b[2J\x1b[1;1H\x1b[?25l\x1b[?1003h\x1b[?1006h");
}

#[test]
fn tty_editor_main() {
    let mut tui = Ferrocene::new();
    let (width, height, terminal) = tui
        .addTTYDisplay(Display_None, 0, 0, 0, 0, true, Ok((80, 24, 0, 0)), 10_000_000, 0)
        .unwrap();
    let bar = tui.addStatusFrame(Frame_None, 0, "?!".to_string(), '_');
    let _image = tui.addPixelFrame(
        0,
        0,
        0,
        0,
        1.0f64.to_bits(),
        Colour::Black,
        PixelEncoding::Empty,
        PixelEncoding::Empty,
    );
    let editor = tui.addEditorFrame(Frame_None, 0, 0, lines(true), '.');
    let root = screen(&mut tui, editor, bar, width, height);
    let mut now = 0;

    let (first, characters) = session(&mut tui, terminal, root, "Hello Foobar", b"aq", &mut now);
    assert_eq!(characters, vec!['a']);
    assert!(first.starts_with("\x1b]0;Hello Foobar\x07\x1b[2J"));
    assert!(first.contains("\x1b]0;trolololololo\x07"));
    assert!(first.contains("\x1b[2;1H\x1b[32;40mA\x1b[0m\x1b[11;32;40mA\x1b[0m\x1b[12;32;40mA\x1b[0m"));
    assert!(first.contains("\x1b[19;32;40mA\x1b[0m\x1b[32;40mA\x1b[0m"));
    assert!(first.ends_with("\x1b[24;1H?!"));

    let (second, characters) = session(&mut tui, terminal, root, "Hello World", b"zq", &mut now);
    assert_eq!(characters, vec!['z']);
    assert!(second.starts_with("\x1b]0;Hello World\x07\x1b[2J"));
    assert!(second.ends_with("\x1b[24;1H?!"));
}
