//! A single display character with its two colours.

use crate::colour::{escape_text, Colour, Ground};
use vstd::prelude::*;
use vstd::string::StringExecFns;

verus! {

/// One character of a formatted string, with its foreground and background.
#[derive(Copy, Clone, Debug)]
pub struct FmtChar {
    pub ch: char,
    pub fg: Colour,
    pub bg: Colour,
}

impl FmtChar {
    /// The cell that shows `ch` with the foreground `fg` on the background `bg`.
    pub fn new(ch: char, fg: Colour, bg: Colour) -> (cell: Self)
        ensures
            cell == (FmtChar { ch, fg, bg }),
    {
        FmtChar { ch, fg, bg }
    }

    /// The number of columns that the cell takes up, which is always 1.
    pub fn width(&self) -> (w: u16)
        ensures
            w == 1,
    {
        1
    }

    /// The cell written on its own: the escape text of its foreground,
    /// that of its background, then the character. Both colours are
    /// always written, whatever came before.
    pub fn to_string(&self) -> (text: String)
        ensures
            text@ == escape_text(self.fg, Ground::Foreground) + escape_text(
                self.bg,
                Ground::Background,
            ) + seq![self.ch],
    {
        let mut text = self.fg.to_string(Ground::Foreground);
        let bg = self.bg.to_string(Ground::Background);
        text.append(bg.as_str());
        text.push(self.ch);
        text
    }
}

} // verus!
