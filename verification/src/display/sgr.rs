//! Styles and colours as the terminal is sent them: the parameters of a
//! "select graphic rendition" sequence.
use vstd::prelude::*;

use crate::Flags;
use crate::display::encode::{decimal, pushDecimal};
use crate::frame::style::Colour;

verus! {

/// The number of style bits in a token's flags.
pub const STYLE_BITS: u32 = 12;

/// The parameter that switches on the style of bit `k`.
pub open spec fn style_parameter(k: nat) -> nat {
    if k == 0 {
        3
    } else if k == 1 {
        4
    } else if k == 2 {
        5
    } else if k == 3 {
        6
    } else if k == 4 {
        7
    } else if k == 5 {
        8
    } else if k == 6 {
        9
    } else if k == 7 {
        20
    } else if k == 8 {
        21
    } else if k == 9 {
        51
    } else if k == 10 {
        52
    } else {
        53
    }
}

/// Whether bit `k` is set in `flags`.
pub open spec fn has_style(flags: Flags, k: nat) -> bool
    recommends
        k < 32,
{
    flags & (1u32 << (k as u32)) != 0
}

/// The parameters of the lowest `n` style bits that are set in `flags`, in
/// the order of the bits, each followed by a semicolon.
pub open spec fn flag_parameters(flags: Flags, n: nat) -> Seq<char>
    decreases n,
{
    if n == 0 {
        Seq::empty()
    } else {
        flag_parameters(flags, (n - 1) as nat) + if has_style(flags, (n - 1) as nat) {
            decimal(style_parameter((n - 1) as nat)) + seq![';']
        } else {
            Seq::empty()
        }
    }
}

/// The parameter that selects an alternative font; none for the primary
/// font, 0, and for a font beyond the ninth.
pub open spec fn font_parameter(font: u8) -> Seq<char> {
    if 0 < font < 10 {
        decimal((font + 10) as nat) + seq![';']
    } else {
        Seq::empty()
    }
}

/// The parameters for a token's font and style flags.
pub open spec fn style_parameters(font: u8, flags: Flags) -> Seq<char> {
    font_parameter(font) + flag_parameters(flags, STYLE_BITS as nat)
}

/// How a named colour is written.
#[derive(Clone, Copy, PartialEq, Eq, Structural, Debug)]
pub enum Shade {
    /// The number of the colour alone.
    Plain,
    /// The parameter for bold, then the number of the colour.
    Light,
    /// The parameter for faint, then the number of the colour.
    Faint,
    /// The number of the colour among the bright colours.
    Bright,
}

/// The place of a named colour in the terminal's palette: how it is
/// written, and its number from 0 to 7. `None` for a colour without a name.
pub open spec fn palette(colour: Colour) -> Option<(Shade, u8)> {
    match colour {
        Colour::Black => Some((Shade::Plain, 0u8)),
        Colour::Red => Some((Shade::Plain, 1u8)),
        Colour::Green => Some((Shade::Plain, 2u8)),
        Colour::Brown => Some((Shade::Plain, 3u8)),
        Colour::Blue => Some((Shade::Plain, 4u8)),
        Colour::Purple => Some((Shade::Plain, 5u8)),
        Colour::Cyan => Some((Shade::Plain, 6u8)),
        Colour::LightGrey => Some((Shade::Plain, 7u8)),
        Colour::DarkGrey => Some((Shade::Light, 0u8)),
        Colour::LightRed => Some((Shade::Light, 1u8)),
        Colour::LightGreen => Some((Shade::Light, 2u8)),
        Colour::Yellow => Some((Shade::Light, 3u8)),
        Colour::LightBlue => Some((Shade::Light, 4u8)),
        Colour::LightPurple => Some((Shade::Light, 5u8)),
        Colour::LightCyan => Some((Shade::Light, 6u8)),
        Colour::White => Some((Shade::Light, 7u8)),
        Colour::FaintBlack => Some((Shade::Faint, 0u8)),
        Colour::FaintRed => Some((Shade::Faint, 1u8)),
        Colour::FaintGreen => Some((Shade::Faint, 2u8)),
        Colour::FaintYellow => Some((Shade::Faint, 3u8)),
        Colour::FaintBlue => Some((Shade::Faint, 4u8)),
        Colour::FaintPurple => Some((Shade::Faint, 5u8)),
        Colour::FaintCyan => Some((Shade::Faint, 6u8)),
        Colour::FaintWhite => Some((Shade::Faint, 7u8)),
        Colour::BrightBlack => Some((Shade::Bright, 0u8)),
        Colour::BrightRed => Some((Shade::Bright, 1u8)),
        Colour::BrightGreen => Some((Shade::Bright, 2u8)),
        Colour::BrightYellow => Some((Shade::Bright, 3u8)),
        Colour::BrightBlue => Some((Shade::Bright, 4u8)),
        Colour::BrightPurple => Some((Shade::Bright, 5u8)),
        Colour::BrightCyan => Some((Shade::Bright, 6u8)),
        Colour::BrightWhite => Some((Shade::Bright, 7u8)),
        _ => None,
    }
}

/// The parameters of a named colour. `base` is 30 for the foreground and 40
/// for the background.
pub open spec fn named_parameters(shade: Shade, number: u8, base: nat) -> Seq<char> {
    match shade {
        Shade::Plain => decimal(base + number as nat),
        Shade::Light => seq!['1', ';'] + decimal(base + number as nat),
        Shade::Faint => seq!['2', ';'] + decimal(base + number as nat),
        Shade::Bright => decimal(base + 60 + number as nat),
    }
}

/// The parameters that select an entry of the 256-colour table.
pub open spec fn indexed_parameters(index: nat, base: nat) -> Seq<char> {
    decimal(base + 8) + seq![';', '5', ';'] + decimal(index)
}

/// The parameters that select a colour. `base` is 30 for the foreground and
/// 40 for the background. A colour whose components are out of range has no
/// parameters.
pub open spec fn colour_parameters(colour: Colour, base: nat) -> Seq<char> {
    match colour {
        Colour::Default => decimal(base + 9),
        Colour::RGB(red, green, blue) => decimal(base + 8) + seq![';', '2', ';'] + decimal(
            red as nat,
        ) + seq![';'] + decimal(green as nat) + seq![';'] + decimal(blue as nat),
        Colour::Standard(number) => if number < 8 {
            indexed_parameters(number as nat, base)
        } else {
            Seq::empty()
        },
        Colour::Bright(number) => if number < 8 {
            indexed_parameters((number + 8) as nat, base)
        } else {
            Seq::empty()
        },
        Colour::Cube(red, green, blue) => if red < 6 && green < 6 && blue < 6 {
            indexed_parameters((16 + 36 * red + 6 * green + blue) as nat, base)
        } else {
            Seq::empty()
        },
        Colour::Grey(step) => if step < 24 {
            indexed_parameters((step + 232) as nat, base)
        } else {
            Seq::empty()
        },
        _ => match palette(colour) {
            Some((shade, number)) => named_parameters(shade, number, base),
            None => Seq::empty(),
        },
    }
}

/// The sequence that switches to the style and colours of a token.
pub open spec fn rendition(font: u8, flags: Flags, foreground: Colour, background: Colour) -> Seq<
    char,
> {
    seq!['\x1b', '['] + style_parameters(font, flags) + colour_parameters(foreground, 30) + seq![
        ';',
    ] + colour_parameters(background, 40) + seq!['m']
}

/// The sequence that switches back to the terminal's default rendition.
pub open spec fn reset() -> Seq<char> {
    seq!['\x1b', '[', '0', 'm']
}

/// The parameter that switches on the style of bit `k`.
fn styleParameter(k: u32) -> (parameter: u128)
    ensures
        parameter == style_parameter(k as nat),
{
    if k == 0 {
        3
    } else if k == 1 {
        4
    } else if k == 2 {
        5
    } else if k == 3 {
        6
    } else if k == 4 {
        7
    } else if k == 5 {
        8
    } else if k == 6 {
        9
    } else if k == 7 {
        20
    } else if k == 8 {
        21
    } else if k == 9 {
        51
    } else if k == 10 {
        52
    } else {
        53
    }
}

/// Appends the parameters for a token's font and style flags.
pub fn pushStyle(out: &mut Vec<char>, font: u8, flags: Flags)
    ensures
        final(out)@ == old(out)@ + style_parameters(font, flags),
{
    if 0 < font && font < 10 {
        pushDecimal(out, (font + 10) as u128);
        out.push(';');
    }
    assert(out@ =~= old(out)@ + font_parameter(font));
    let ghost start = out@;
    let mut k: u32 = 0;
    while k < STYLE_BITS
        invariant
            k <= STYLE_BITS,
            out@ == start + flag_parameters(flags, k as nat),
        decreases STYLE_BITS - k,
    {
        if flags & (1u32 << k) != 0 {
            pushDecimal(out, styleParameter(k));
            out.push(';');
        }
        k = k + 1;
        proof {
            assert(out@ =~= start + flag_parameters(flags, k as nat));
        }
    }
    proof {
        assert(out@ =~= old(out)@ + style_parameters(font, flags));
    }
}

/// The place of a named colour in the terminal's palette.
fn paletteOf(colour: Colour) -> (place: Option<(Shade, u8)>)
    ensures
        place == palette(colour),
{
    match colour {
        Colour::Black => Some((Shade::Plain, 0u8)),
        Colour::Red => Some((Shade::Plain, 1u8)),
        Colour::Green => Some((Shade::Plain, 2u8)),
        Colour::Brown => Some((Shade::Plain, 3u8)),
        Colour::Blue => Some((Shade::Plain, 4u8)),
        Colour::Purple => Some((Shade::Plain, 5u8)),
        Colour::Cyan => Some((Shade::Plain, 6u8)),
        Colour::LightGrey => Some((Shade::Plain, 7u8)),
        Colour::DarkGrey => Some((Shade::Light, 0u8)),
        Colour::LightRed => Some((Shade::Light, 1u8)),
        Colour::LightGreen => Some((Shade::Light, 2u8)),
        Colour::Yellow => Some((Shade::Light, 3u8)),
        Colour::LightBlue => Some((Shade::Light, 4u8)),
        Colour::LightPurple => Some((Shade::Light, 5u8)),
        Colour::LightCyan => Some((Shade::Light, 6u8)),
        Colour::White => Some((Shade::Light, 7u8)),
        Colour::FaintBlack => Some((Shade::Faint, 0u8)),
        Colour::FaintRed => Some((Shade::Faint, 1u8)),
        Colour::FaintGreen => Some((Shade::Faint, 2u8)),
        Colour::FaintYellow => Some((Shade::Faint, 3u8)),
        Colour::FaintBlue => Some((Shade::Faint, 4u8)),
        Colour::FaintPurple => Some((Shade::Faint, 5u8)),
        Colour::FaintCyan => Some((Shade::Faint, 6u8)),
        Colour::FaintWhite => Some((Shade::Faint, 7u8)),
        Colour::BrightBlack => Some((Shade::Bright, 0u8)),
        Colour::BrightRed => Some((Shade::Bright, 1u8)),
        Colour::BrightGreen => Some((Shade::Bright, 2u8)),
        Colour::BrightYellow => Some((Shade::Bright, 3u8)),
        Colour::BrightBlue => Some((Shade::Bright, 4u8)),
        Colour::BrightPurple => Some((Shade::Bright, 5u8)),
        Colour::BrightCyan => Some((Shade::Bright, 6u8)),
        Colour::BrightWhite => Some((Shade::Bright, 7u8)),
        _ => None,
    }
}

/// Appends the parameters that select an entry of the 256-colour table.
fn pushIndexed(out: &mut Vec<char>, index: u8, base: u8)
    requires
        base <= 40,
    ensures
        final(out)@ == old(out)@ + indexed_parameters(index as nat, base as nat),
{
    pushDecimal(out, (base + 8) as u128);
    out.push(';');
    out.push('5');
    out.push(';');
    pushDecimal(out, index as u128);
    proof {
        assert(out@ =~= old(out)@ + indexed_parameters(index as nat, base as nat));
    }
}

/// The number that the parameters of a colour start from: 30 in the
/// foreground, 40 in the background.
pub open spec fn colour_base(background: bool) -> nat {
    if background {
        40
    } else {
        30
    }
}

/// Appends the parameters that select a colour, for the background or for
/// the foreground.
pub fn pushColour(out: &mut Vec<char>, colour: Colour, background: bool)
    ensures
        final(out)@ == old(out)@ + colour_parameters(colour, colour_base(background)),
{
    let base: u8 = if background {
        40
    } else {
        30
    };
    match colour {
        Colour::Default => {
            pushDecimal(out, (base + 9) as u128);
        },
        Colour::RGB(red, green, blue) => {
            pushDecimal(out, (base + 8) as u128);
            out.push(';');
            out.push('2');
            out.push(';');
            pushDecimal(out, red as u128);
            out.push(';');
            pushDecimal(out, green as u128);
            out.push(';');
            pushDecimal(out, blue as u128);
        },
        Colour::Standard(number) => {
            if number < 8 {
                pushIndexed(out, number, base);
            }
        },
        Colour::Bright(number) => {
            if number < 8 {
                pushIndexed(out, number + 8, base);
            }
        },
        Colour::Cube(red, green, blue) => {
            if red < 6 && green < 6 && blue < 6 {
                pushIndexed(out, 16 + 36 * red + 6 * green + blue, base);
            }
        },
        Colour::Grey(step) => {
            if step < 24 {
                pushIndexed(out, step + 232, base);
            }
        },
        _ => {
            match paletteOf(colour) {
                Some((shade, number)) => {
                    assert(number < 8);
                    match shade {
                        Shade::Plain => {
                            pushDecimal(out, (base + number) as u128);
                        },
                        Shade::Light => {
                            out.push('1');
                            out.push(';');
                            pushDecimal(out, (base + number) as u128);
                        },
                        Shade::Faint => {
                            out.push('2');
                            out.push(';');
                            pushDecimal(out, (base + number) as u128);
                        },
                        Shade::Bright => {
                            pushDecimal(out, (base + 60 + number) as u128);
                        },
                    }
                },
                None => {},
            }
        },
    }
    proof {
        assert(out@ =~= old(out)@ + colour_parameters(colour, colour_base(background)));
    }
}

/// Appends the sequence that switches to the style and colours of a token.
pub fn pushRendition(out: &mut Vec<char>, font: u8, flags: Flags, foreground: Colour, background: Colour)
    ensures
        final(out)@ == old(out)@ + rendition(font, flags, foreground, background),
{
    out.push('\x1b');
    out.push('[');
    pushStyle(out, font, flags);
    pushColour(out, foreground, false);
    out.push(';');
    pushColour(out, background, true);
    out.push('m');
    proof {
        assert(out@ =~= old(out)@ + rendition(font, flags, foreground, background));
    }
}

/// Appends the sequence that switches back to the default rendition.
pub fn pushReset(out: &mut Vec<char>)
    ensures
        final(out)@ == old(out)@ + reset(),
{
    out.push('\x1b');
    out.push('[');
    out.push('0');
    out.push('m');
    proof {
        assert(out@ =~= old(out)@ + reset());
    }
}

} // verus!
