use ferrocene::display::tty::{TTYAction, TTYDisplay};
use ferrocene::display::{
    DisplayType, Display_MaskRefresh, Display_NeedRefresh, Display_NeedRemap, Display_None,
};
use ferrocene::frame::style::Colour;
use ferrocene::frame::{Frame, Frame_None, PixelEncoding, Tiling};
use ferrocene::Ferrocene;

fn with_one_display() -> (Ferrocene, usize) {
    let mut tui = Ferrocene::new();
    let (_, _, id) =
        tui.addTTYDisplay(Display_None, 0, 0, 0, 0, true, Ok((80, 24, 0, 0)), 1000, 0).unwrap();
    (tui, id)
}

fn output(tui: &Ferrocene, display: usize) -> String {
    match &tui.listOfDisplays[display - 1].as_ref().unwrap().display {
        DisplayType::TTY(tty) => tty.output.iter().collect(),
    }
}

fn pending(tui: &Ferrocene, display: usize) -> Vec<TTYAction> {
    match &tui.listOfDisplays[display - 1].as_ref().unwrap().display {
        DisplayType::TTY(tty) => tty.pending.clone(),
    }
}

#[test]
fn new_tables_are_empty() {
    let tui = Ferrocene::new();
    assert!(tui.listOfDisplays.is_empty());
    assert!(tui.listOfFrames.is_empty());
    assert!(tui.recvChannel.try_recv().is_err());
}

#[test]
fn frames_are_numbered_from_one() {
    let mut tui = Ferrocene::new();
    let bar = tui.addStatusFrame(Frame_None, 2, "bar".to_string(), '_');
    let text = tui.addTextFrame(Frame_None, 1, 2, vec!["a".to_string()], '.');
    let editor = tui.addEditorFrame(Frame_None, 3, 4, vec![vec![]], ' ');
    let pixel = tui.addPixelFrame(
        1,
        2,
        3,
        4,
        5,
        Colour::Red,
        PixelEncoding::RGB(1, 2, 3),
        PixelEncoding::Sixel("q".to_string()),
    );
    let parent = tui.addParentFrame(Tiling::Off, vec![], vec![3, 1], vec![], vec![], vec![], bar);
    let plain = tui.addFrame(Frame::newStatusFrame(Frame_None, 0, "x".to_string(), ' '));
    assert_eq!((bar, text, editor, pixel, parent, plain), (1, 2, 3, 4, 5, 6));
    assert_eq!(tui.listOfFrames.len(), 6);
    assert!(matches!(&tui.listOfFrames[0], Some(Frame::Status(f)) if f.text == "bar" && f.offs == 2));
    assert!(matches!(&tui.listOfFrames[1], Some(Frame::Text(f)) if f.lines == vec!["a"] && f.offsY == 2));
    assert!(matches!(&tui.listOfFrames[2], Some(Frame::Editor(f)) if f.lines.len() == 1 && f.offsX == 3));
    assert!(matches!(&tui.listOfFrames[3], Some(Frame::Pixel(f)) if f.changed && f.scale == 5 && f.sizeY == 4));
    assert!(matches!(&tui.listOfFrames[4], Some(Frame::Parent(f)) if f.gridBordersX == vec![1, 3] && f.pivotFrame == 1));
}

#[test]
fn displays_are_numbered_from_one_and_know_their_number() {
    let (mut tui, first) = with_one_display();
    let second = tui.addDisplay(
        TTYDisplay::new(Display_None, 0, 0, 0, 0, true, Ok((10, 5, 0, 0)), 1, 0).unwrap(),
    );
    assert_eq!((first, second), (1, 2));
    assert_eq!(tui.listOfDisplays[0].as_ref().unwrap().this, 1);
    assert_eq!(tui.listOfDisplays[1].as_ref().unwrap().this, 2);
    assert_eq!(tui.listOfDisplays[1].as_ref().unwrap().sizeX, 10);
}

#[test]
fn terminal_that_cannot_be_used_adds_no_display() {
    let mut tui = Ferrocene::new();
    let no_mode = tui.addTTYDisplay(Display_None, 0, 0, 0, 0, false, Ok((80, 24, 0, 0)), 1, 0);
    assert_eq!(no_mode, Err("cannot get termios structure"));
    let no_size = tui.addTTYDisplay(
        Display_None,
        0,
        0,
        0,
        0,
        true,
        Err("cannot determine terminal dimensions"),
        1,
        0,
    );
    assert_eq!(no_size, Err("cannot determine terminal dimensions"));
    assert!(tui.listOfDisplays.is_empty());
}

#[test]
fn frame_lookup_tells_why_it_fails() {
    let mut tui = Ferrocene::new();
    let bar = tui.addStatusFrame(Frame_None, 0, "bar".to_string(), '_');
    let gone = tui.addStatusFrame(Frame_None, 0, "gone".to_string(), '_');
    let held = Ferrocene::swapFrame(&mut tui.listOfFrames, gone, None);
    assert!(matches!(held, Ok(Some(Frame::Status(f))) if f.text == "gone"));
    assert_eq!(tui.accessFrame(0).err(), Some("UID of frame cannot be zero"));
    assert_eq!(tui.accessFrame(3).err(), Some("UID of frame too high"));
    assert_eq!(tui.accessFrame(gone).err(), Some("UID of frame invalidated."));
    assert_eq!(
        Ferrocene::enquireFrame(&tui.listOfFrames, 0).err(),
        Some("UID of frame cannot be zero")
    );
    assert_eq!(
        Ferrocene::enquireFrame(&tui.listOfFrames, usize::MAX).err(),
        Some("UID of frame too high")
    );
    assert_eq!(
        Ferrocene::enquireFrame(&tui.listOfFrames, gone).err(),
        Some("UID of frame invalidated.")
    );
    assert!(matches!(Ferrocene::enquireFrame(&tui.listOfFrames, bar), Ok(Frame::Status(f)) if f.text == "bar"));
    match tui.accessFrame(bar) {
        Ok(Frame::Status(frame)) => frame.offs = 9,
        _ => panic!("the status bar is not where it was put"),
    }
    assert!(matches!(&tui.listOfFrames[0], Some(Frame::Status(f)) if f.offs == 9));
    assert_eq!(tui.listOfFrames.len(), 2);
}

#[test]
fn swapping_replaces_what_a_slot_holds() {
    let mut frames = vec![Some(Frame::newStatusFrame(Frame_None, 0, "a".to_string(), '_')), None];
    let replaced = Ferrocene::swapFrame(
        &mut frames,
        1,
        Some(Frame::newStatusFrame(Frame_None, 0, "b".to_string(), '_')),
    );
    assert!(matches!(replaced, Ok(Some(Frame::Status(f))) if f.text == "a"));
    assert!(matches!(&frames[0], Some(Frame::Status(f)) if f.text == "b"));
    let filled = Ferrocene::swapFrame(
        &mut frames,
        2,
        Some(Frame::newStatusFrame(Frame_None, 0, "c".to_string(), '_')),
    );
    assert!(matches!(filled, Ok(None)));
    assert!(matches!(&frames[1], Some(Frame::Status(f)) if f.text == "c"));
    assert_eq!(
        Ferrocene::swapFrame(&mut frames, 0, None).err(),
        Some("UID of frame cannot be zero")
    );
    assert_eq!(
        Ferrocene::swapFrame(&mut frames, 3, None).err(),
        Some("UID of frame too high")
    );
    assert_eq!(frames.len(), 2);
    assert!(frames[0].is_some() && frames[1].is_some());
}

#[test]
fn display_lookup_tells_why_it_fails() {
    let (mut tui, id) = with_one_display();
    tui.listOfDisplays.push(None);
    assert_eq!(tui.accessDisplay(0).err(), Some("UID of display cannot be zero"));
    assert_eq!(tui.accessDisplay(3).err(), Some("UID of display too high"));
    assert_eq!(tui.accessDisplay(2).err(), Some("UID of display invalidated."));
    assert_eq!(tui.accessDisplay(id).map(|display| display.sizeX), Ok(80));
    assert_eq!(
        Ferrocene::enquireDisplay(&tui.listOfDisplays, 0).err(),
        Some("UID of display cannot be zero")
    );
    assert_eq!(
        Ferrocene::enquireDisplay(&tui.listOfDisplays, 3).err(),
        Some("UID of display too high")
    );
    assert_eq!(
        Ferrocene::enquireDisplay(&tui.listOfDisplays, 2).err(),
        Some("UID of display invalidated.")
    );
    assert_eq!(Ferrocene::enquireDisplay(&tui.listOfDisplays, id).map(|d| d.sizeY), Ok(24));
}

#[test]
fn switching_a_display_on_gives_it_root_and_focus() {
    let (mut tui, id) = with_one_display();
    tui.listOfDisplays[0].as_mut().unwrap().flags = Display_None;
    assert_eq!(tui.turnOnDisplay(id, 7, "T".to_string()), Ok(7));
    let display = tui.listOfDisplays[0].as_ref().unwrap();
    assert_eq!(display.mainFrame, 7);
    assert_eq!(display.focusedFrame, 7);
    assert_eq!(display.flags, Display_NeedRefresh | Display_NeedRemap);
    assert_eq!(display.flags, Display_MaskRefresh);
    assert_eq!(
        output(&tui, id),
        "\x1b]0;T\x07\x1b[2J\x1b[1;1H\x1b[?25l\x1b[?1003h\x1b[?1006h"
    );
    assert_eq!(pending(&tui, id).len(), 5);
}

#[test]
fn switching_a_display_off_returns_its_root() {
    let (mut tui, id) = with_one_display();
    assert_eq!(tui.turnOnDisplay(id, 7, "T".to_string()), Ok(7));
    assert_eq!(tui.turnOffDisplay(id), Ok(7));
    assert_eq!(tui.turnOffDisplay(id), Ok(7));
    assert!(output(&tui, id).ends_with("\x1b[?1006h\x1bc\x1bc"));
    let steps = pending(&tui, id);
    assert_eq!(steps.len(), 5 + 6 + 2);
    assert_eq!(&steps[11..], &[TTYAction::Write, TTYAction::Flush]);
}

#[test]
fn display_that_is_not_there_cannot_be_switched() {
    let (mut tui, _) = with_one_display();
    tui.listOfDisplays.push(None);
    assert_eq!(tui.turnOnDisplay(0, 1, "T".to_string()), Err("UID of display cannot be zero"));
    assert_eq!(tui.turnOnDisplay(3, 1, "T".to_string()), Err("UID of display too high"));
    assert_eq!(tui.turnOnDisplay(2, 1, "T".to_string()), Err("UID of display invalidated."));
    assert_eq!(tui.turnOffDisplay(0), Err("UID of display cannot be zero"));
    assert_eq!(tui.turnOffDisplay(3), Err("UID of display too high"));
    assert_eq!(tui.turnOffDisplay(2), Err("UID of display invalidated."));
    assert_eq!(tui.setDisplayTitle(0, "T".to_string()), Err("UID of display cannot be zero"));
    assert_eq!(tui.setDisplayTitle(3, "T".to_string()), Err("UID of display too high"));
    assert_eq!(tui.setDisplayTitle(2, "T".to_string()), Err("UID of display invalidated."));
    assert_eq!(output(&tui, 1), "");
    assert!(pending(&tui, 1).is_empty());
}

#[test]
fn title_of_a_display_can_be_set() {
    let (mut tui, id) = with_one_display();
    assert_eq!(tui.setDisplayTitle(id, "New".to_string()), Ok(()));
    assert_eq!(output(&tui, id), "\x1b]0;New\x07");
    assert_eq!(pending(&tui, id), vec![TTYAction::Write, TTYAction::Flush]);
}

#[test]
fn render_skips_emptied_slots() {
    let (mut tui, id) = with_one_display();
    tui.listOfDisplays.insert(0, None);
    tui.listOfDisplays.push(None);
    let bar = tui.addStatusFrame(Frame_None, 0, "ab".to_string(), '_');
    assert_eq!(tui.turnOnDisplay(id + 1, bar, "T".to_string()), Ok(bar));
    tui.render(2000);
    assert!(output(&tui, id + 1).ends_with("\x1b[1;1Hab"));
    assert!(tui.listOfDisplays[0].is_none());
    assert!(tui.listOfDisplays[2].is_none());
}
