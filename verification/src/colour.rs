//! Colours, the two grounds they can be applied to, and the escape text
//! that sets a colour on a ground.

use crate::codec;
use crate::numeral::decimal;
use vstd::prelude::*;

verus! {

/// Whether a colour applies to the text of a cell or to its fill.
#[derive(Copy, Clone, Debug, PartialEq, Eq, Structural)]
pub enum Ground {
    Foreground,
    Background,
}

/// A colour of a character cell: a 24-bit colour, one of the named palette
/// entries, the terminal's default, or transparent (no colour of its own).
///
/// Two colours are equal exactly when they are the same variant with the
/// same components, so the default is a colour of its own and not black.
#[derive(Copy, Clone, Debug, Hash, PartialEq, Eq, Structural)]
pub enum Colour {
    Rgb { r: u8, g: u8, b: u8 },
    Black,
    Blue,
    Cyan,
    Green,
    LightBlack,
    LightBlue,
    LightGreen,
    LightMagenta,
    LightRed,
    LightWhite,
    LightYellow,
    Magenta,
    Red,
    White,
    Yellow,
    Default,
    Transparent,
}

/// The escape character.
pub open spec fn esc() -> char {
    '\u{1b}'
}

/// The two characters that open every escape sequence: the escape
/// character and `[`.
pub open spec fn introducer() -> Seq<char> {
    seq![esc(), '[']
}

/// The first field of a sequence that sets a colour: `38` for the
/// foreground, `48` for the background.
pub open spec fn selector(ground: Ground) -> Seq<char> {
    match ground {
        Ground::Foreground => seq!['3', '8'],
        Ground::Background => seq!['4', '8'],
    }
}

/// The escape sequence with the given body: the introducer, the body and
/// a closing `m`.
pub open spec fn sequence(body: Seq<char>) -> Seq<char> {
    introducer() + body + seq!['m']
}

/// The body of the sequence that sets a 24-bit colour: `38;2;r;g;b`
/// (`48` for the background), the components in decimal.
pub open spec fn truecolour_body(ground: Ground, r: u8, g: u8, b: u8) -> Seq<char> {
    selector(ground) + seq![';', '2', ';'] + decimal(r as nat) + seq![';'] + decimal(g as nat)
        + seq![';'] + decimal(b as nat)
}

/// The sequence that sets a 24-bit colour: `ESC [ 38 ; 2 ; r ; g ; b m`
/// (`48` for the background).
pub open spec fn truecolour_text(ground: Ground, r: u8, g: u8, b: u8) -> Seq<char> {
    sequence(truecolour_body(ground, r, g, b))
}

/// The sequence that selects a palette entry: `ESC [ 38 ; 5 ; n m`
/// (`48` for the background).
pub open spec fn palette_text(ground: Ground, index: nat) -> Seq<char> {
    sequence(selector(ground) + seq![';', '5', ';'] + decimal(index))
}

/// The body of the sequence that returns a ground to the terminal's
/// default: `39` for the foreground, `49` for the background.
pub open spec fn reset_body(ground: Ground) -> Seq<char> {
    match ground {
        Ground::Foreground => seq!['3', '9'],
        Ground::Background => seq!['4', '9'],
    }
}

/// The sequence that returns a ground to the terminal's default:
/// `ESC [ 39 m` for the foreground, `ESC [ 49 m` for the background.
pub open spec fn reset_text(ground: Ground) -> Seq<char> {
    sequence(reset_body(ground))
}

/// The palette entry of a named colour; `None` for the other colours.
pub open spec fn palette_index(c: Colour) -> Option<nat> {
    match c {
        Colour::Black => Some(0),
        Colour::Blue => Some(4),
        Colour::Cyan => Some(6),
        Colour::Green => Some(2),
        Colour::LightBlack => Some(8),
        Colour::LightBlue => Some(12),
        Colour::LightGreen => Some(10),
        Colour::LightMagenta => Some(13),
        Colour::LightRed => Some(9),
        Colour::LightWhite => Some(15),
        Colour::LightYellow => Some(11),
        Colour::Magenta => Some(5),
        Colour::Red => Some(1),
        Colour::White => Some(7),
        Colour::Yellow => Some(3),
        Colour::Rgb { .. } => None,
        Colour::Default => None,
        Colour::Transparent => None,
    }
}

/// The text that sets colour `c` on `ground`: nothing for the transparent
/// colour, the reset sequence of that ground for the default, and the
/// palette or 24-bit sequence for the others.
pub open spec fn escape_text(c: Colour, ground: Ground) -> Seq<char> {
    match c {
        Colour::Rgb { r, g, b } => truecolour_text(ground, r, g, b),
        Colour::Default => reset_text(ground),
        Colour::Transparent => Seq::empty(),
        _ => palette_text(ground, palette_index(c).unwrap()),
    }
}

impl Colour {
    /// The 24-bit colour with the given components.
    pub fn from_rgb(r: u8, g: u8, b: u8) -> (c: Self)
        ensures
            c == (Colour::Rgb { r, g, b }),
    {
        Self::Rgb { r, g, b }
    }

    /// The terminal's default colour.
    pub fn default() -> (c: Self)
        ensures
            c == Colour::Default,
    {
        Self::Default
    }

    /// The escape text that sets this colour on `ground`.
    pub fn to_string(&self, ground: Ground) -> (text: String)
        ensures
            text@ == escape_text(*self, ground),
    {
        proof {
            reveal_with_fuel(decimal, 2);
        }
        let text = match *self {
            Colour::Rgb { r, g, b } => match ground {
                Ground::Foreground => codec::rgb_fg(r, g, b),
                Ground::Background => codec::rgb_bg(r, g, b),
            },
            Colour::Black => match ground {
                Ground::Foreground => {
                    proof {
                        reveal_strlit("\x1b[38;5;0m");
                    }
                    codec::black_fg()
                },
                Ground::Background => {
                    proof {
                        reveal_strlit("\x1b[48;5;0m");
                    }
                    codec::black_bg()
                },
            },
            Colour::Blue => match ground {
                Ground::Foreground => {
                    proof {
                        reveal_strlit("\x1b[38;5;4m");
                    }
                    codec::blue_fg()
                },
                Ground::Background => {
                    proof {
                        reveal_strlit("\x1b[48;5;4m");
                    }
                    codec::blue_bg()
                },
            },
            Colour::Cyan => match ground {
                Ground::Foreground => {
                    proof {
                        reveal_strlit("\x1b[38;5;6m");
                    }
                    codec::cyan_fg()
                },
                Ground::Background => {
                    proof {
                        reveal_strlit("\x1b[48;5;6m");
                    }
                    codec::cyan_bg()
                },
            },
            Colour::Green => match ground {
                Ground::Foreground => {
                    proof {
                        reveal_strlit("\x1b[38;5;2m");
                    }
                    codec::green_fg()
                },
                Ground::Background => {
                    proof {
                        reveal_strlit("\x1b[48;5;2m");
                    }
                    codec::green_bg()
                },
            },
            Colour::LightBlack => match ground {
                Ground::Foreground => {
                    proof {
                        reveal_strlit("\x1b[38;5;8m");
                    }
                    codec::light_black_fg()
                },
                Ground::Background => {
                    proof {
                        reveal_strlit("\x1b[48;5;8m");
                    }
                    codec::light_black_bg()
                },
            },
            Colour::LightBlue => match ground {
                Ground::Foreground => {
                    proof {
                        reveal_strlit("\x1b[38;5;12m");
                    }
                    codec::light_blue_fg()
                },
                Ground::Background => {
                    proof {
                        reveal_strlit("\x1b[48;5;12m");
                    }
                    codec::light_blue_bg()
                },
            },
            Colour::LightGreen => match ground {
                Ground::Foreground => {
                    proof {
                        reveal_strlit("\x1b[38;5;10m");
                    }
                    codec::light_green_fg()
                },
                Ground::Background => {
                    proof {
                        reveal_strlit("\x1b[48;5;10m");
                    }
                    codec::light_green_bg()
                },
            },
            Colour::LightMagenta => match ground {
                Ground::Foreground => {
                    proof {
                        reveal_strlit("\x1b[38;5;13m");
                    }
                    codec::light_magenta_fg()
                },
                Ground::Background => {
                    proof {
                        reveal_strlit("\x1b[48;5;13m");
                    }
                    codec::light_magenta_bg()
                },
            },
            Colour::LightRed => match ground {
                Ground::Foreground => {
                    proof {
                        reveal_strlit("\x1b[38;5;9m");
                    }
                    codec::light_red_fg()
                },
                Ground::Background => {
                    proof {
                        reveal_strlit("\x1b[48;5;9m");
                    }
                    codec::light_red_bg()
                },
            },
            Colour::LightWhite => match ground {
                Ground::Foreground => {
                    proof {
                        reveal_strlit("\x1b[38;5;15m");
                    }
                    codec::light_white_fg()
                },
                Ground::Background => {
                    proof {
                        reveal_strlit("\x1b[48;5;15m");
                    }
                    codec::light_white_bg()
                },
            },
            Colour::LightYellow => match ground {
                Ground::Foreground => {
                    proof {
                        reveal_strlit("\x1b[38;5;11m");
                    }
                    codec::light_yellow_fg()
                },
                Ground::Background => {
                    proof {
                        reveal_strlit("\x1b[48;5;11m");
                    }
                    codec::light_yellow_bg()
                },
            },
            Colour::Magenta => match ground {
                Ground::Foreground => {
                    proof {
                        reveal_strlit("\x1b[38;5;5m");
                    }
                    codec::magenta_fg()
                },
                Ground::Background => {
                    proof {
                        reveal_strlit("\x1b[48;5;5m");
                    }
                    codec::magenta_bg()
                },
            },
            Colour::Red => match ground {
                Ground::Foreground => {
                    proof {
                        reveal_strlit("\x1b[38;5;1m");
                    }
                    codec::red_fg()
                },
                Ground::Background => {
                    proof {
                        reveal_strlit("\x1b[48;5;1m");
                    }
                    codec::red_bg()
                },
            },
            Colour::White => match ground {
                Ground::Foreground => {
                    proof {
                        reveal_strlit("\x1b[38;5;7m");
                    }
                    codec::white_fg()
                },
                Ground::Background => {
                    proof {
                        reveal_strlit("\x1b[48;5;7m");
                    }
                    codec::white_bg()
                },
            },
            Colour::Yellow => match ground {
                Ground::Foreground => {
                    proof {
                        reveal_strlit("\x1b[38;5;3m");
                    }
                    codec::yellow_fg()
                },
                Ground::Background => {
                    proof {
                        reveal_strlit("\x1b[48;5;3m");
                    }
                    codec::yellow_bg()
                },
            },
            Colour::Default => match ground {
                Ground::Foreground => {
                    proof {
                        reveal_strlit("\x1b[39m");
                    }
                    codec::reset_fg()
                },
                Ground::Background => {
                    proof {
                        reveal_strlit("\x1b[49m");
                    }
                    codec::reset_bg()
                },
            },
            Colour::Transparent => String::new(),
        };
        assert(text@ =~= escape_text(*self, ground));
        text
    }
}

} // verus!
