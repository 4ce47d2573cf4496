//! Colours and styled tokens of editor frames.
use vstd::prelude::*;

use crate::Flags;

verus! {

/// No style.
pub const Style_None: Flags = 0b0000_0000_0000_0000_0000_0000_0000_0000;

/// Italic.
pub const Style_Italic: Flags = 0b0000_0000_0000_0000_0000_0000_0000_0001;

/// Underlined.
pub const Style_Underline: Flags = 0b0000_0000_0000_0000_0000_0000_0000_0010;

/// Blinking slowly.
pub const Style_SlowBlink: Flags = 0b0000_0000_0000_0000_0000_0000_0000_0100;

/// Blinking rapidly.
pub const Style_RapidBlink: Flags = 0b0000_0000_0000_0000_0000_0000_0000_1000;

/// Foreground and background swapped.
pub const Style_Inverse: Flags = 0b0000_0000_0000_0000_0000_0000_0001_0000;

/// Hidden.
pub const Style_Conceal: Flags = 0b0000_0000_0000_0000_0000_0000_0010_0000;

/// Crossed out.
pub const Style_CrossedOut: Flags = 0b0000_0000_0000_0000_0000_0000_0100_0000;

/// In Fraktur.
pub const Style_Fraktur: Flags = 0b0000_0000_0000_0000_0000_0000_1000_0000;

/// Underlined twice.
pub const Style_DoubleUnderline: Flags = 0b0000_0000_0000_0000_0000_0001_0000_0000;

/// Framed.
pub const Style_Framed: Flags = 0b0000_0000_0000_0000_0000_0010_0000_0000;

/// Encircled.
pub const Style_Encircled: Flags = 0b0000_0000_0000_0000_0000_0100_0000_0000;

/// Overlined.
pub const Style_Overlined: Flags = 0b0000_0000_0000_0000_0000_1000_0000_0000;

/// A foreground or background colour of a styled token.
#[derive(Clone, Copy, PartialEq, Eq, Structural, Debug)]
pub enum Colour {
    /// The terminal's own default colour.
    Default,
    /// Red, green and blue, each 0 to 255.
    RGB(u8, u8, u8),
    /// One of the eight standard console colours, 0 to 7.
    Standard(u8),
    /// One of the eight bright console colours, 0 to 7.
    Bright(u8),
    /// A cell of the 6 x 6 x 6 colour cube: red, green and blue, each 0 to 5.
    Cube(u8, u8, u8),
    /// A step of the grey ramp, 0 to 23.
    Grey(u8),
    Black,
    Red,
    Green,
    Brown,
    Blue,
    Purple,
    Cyan,
    LightGrey,
    DarkGrey,
    LightRed,
    LightGreen,
    Yellow,
    LightBlue,
    LightPurple,
    LightCyan,
    White,
    BrightBlack,
    BrightRed,
    BrightGreen,
    BrightYellow,
    BrightBlue,
    BrightPurple,
    BrightCyan,
    BrightWhite,
    FaintBlack,
    FaintRed,
    FaintGreen,
    FaintYellow,
    FaintBlue,
    FaintPurple,
    FaintCyan,
    FaintWhite,
}

/// A run of text in an editor frame, with the style it is shown in.
pub struct StyledToken {
    pub word: String,
    pub flags: Flags,
    pub font: u8,
    pub fgColour: Colour,
    pub bgColour: Colour,
}

/// What a styled token holds, with its text as a sequence of characters.
pub struct StyledTokenView {
    pub word: Seq<char>,
    pub flags: Flags,
    pub font: u8,
    pub fgColour: Colour,
    pub bgColour: Colour,
}

impl View for StyledToken {
    type V = StyledTokenView;

    open spec fn view(&self) -> StyledTokenView {
        StyledTokenView {
            word: self.word@,
            flags: self.flags,
            font: self.font,
            fgColour: self.fgColour,
            bgColour: self.bgColour,
        }
    }
}

impl StyledToken {
    /// A token with the given parts.
    pub fn new(word: String, flags: Flags, font: u8, fgColour: Colour, bgColour: Colour) -> (token:
        Self)
        ensures
            token.word == word,
            token.flags == flags,
            token.font == font,
            token.fgColour == fgColour,
            token.bgColour == bgColour,
    {
        Self { word: word, flags: flags, font: font, fgColour: fgColour, bgColour: bgColour }
    }
}

} // verus!
