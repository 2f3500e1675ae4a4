//! What a sequence of cells is written as: each colour is set only where
//! it differs from the colour of the cell before.

use crate::cell::FmtChar;
use crate::colour::{escape_text, Colour, Ground};
use crate::strings::lemma_char_range;
use vstd::prelude::*;

verus! {

/// What is written to bring a ground from colour `last` to `colour`:
/// the escape text of `colour` where the two differ, nothing where they
/// are equal.
pub open spec fn change_text(colour: Colour, last: Colour, ground: Ground) -> Seq<char> {
    if colour != last {
        escape_text(colour, ground)
    } else {
        Seq::empty()
    }
}

/// What is written for one cell that follows a cell with the colours
/// `last_fg` and `last_bg`: the change of foreground, the change of
/// background, then the character.
pub open spec fn cell_text(cell: FmtChar, last_fg: Colour, last_bg: Colour) -> Seq<char> {
    change_text(cell.fg, last_fg, Ground::Foreground) + change_text(
        cell.bg,
        last_bg,
        Ground::Background,
    ) + seq![cell.ch]
}

/// What is written for `cells` where `last_fg` and `last_bg` are the
/// colours in force before the first of them.
pub open spec fn optimised_from(cells: Seq<FmtChar>, last_fg: Colour, last_bg: Colour) -> Seq<
    char,
>
    decreases cells.len(),
{
    if cells.len() == 0 {
        Seq::empty()
    } else {
        cell_text(cells[0], last_fg, last_bg) + optimised_from(
            cells.drop_first(),
            cells[0].fg,
            cells[0].bg,
        )
    }
}

/// What is written for `cells` at the start of a text, where both grounds
/// have the terminal's default colour.
pub open spec fn optimised(cells: Seq<FmtChar>) -> Seq<char> {
    optimised_from(cells, Colour::Default, Colour::Default)
}

/// The characters of `cells`, without their colours.
pub open spec fn chars_of_cells(cells: Seq<FmtChar>) -> Seq<char> {
    Seq::new(cells.len(), |i: int| cells[i].ch)
}

/// The cells that give each character of `text` the colours `fg` and `bg`.
pub open spec fn uniform_cells(text: Seq<char>, fg: Colour, bg: Colour) -> Seq<FmtChar>
    decreases text.len(),
{
    if text.len() == 0 {
        Seq::empty()
    } else {
        uniform_cells(text.drop_last(), fg, bg).push(FmtChar { ch: text.last(), fg, bg })
    }
}

/// `uniform_cells` has one cell for each character, with that character
/// and the two colours.
pub proof fn lemma_uniform_cells(text: Seq<char>, fg: Colour, bg: Colour)
    ensures
        uniform_cells(text, fg, bg).len() == text.len(),
        forall|i: int|
            0 <= i < text.len() ==> #[trigger] uniform_cells(text, fg, bg)[i] == (FmtChar {
                ch: text[i],
                fg,
                bg,
            }),
    decreases text.len(),
{
    if text.len() > 0 {
        lemma_uniform_cells(text.drop_last(), fg, bg);
        lemma_char_range(text.last());
    }
}

/// What is written from cell `i` on is what is written for that cell,
/// then what is written from the next cell on with its colours in force.
pub proof fn lemma_optimised_step(cells: Seq<FmtChar>, i: int, last_fg: Colour, last_bg: Colour)
    requires
        0 <= i < cells.len(),
    ensures
        optimised_from(cells.skip(i), last_fg, last_bg) == cell_text(cells[i], last_fg, last_bg)
            + optimised_from(cells.skip(i + 1), cells[i].fg, cells[i].bg),
{
    assert(cells.skip(i).drop_first() =~= cells.skip(i + 1));
}

} // verus!
