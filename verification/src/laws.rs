//! What holds of reading and writing together.

use crate::ansi::{
    after_escape, cells_from, cells_of, fields, lemma_first_index, starts_escape, truecolour,
};
use crate::cell::FmtChar;
use crate::colour::{
    esc, escape_text, reset_body, selector, sequence, truecolour_body, Colour, Ground,
};
use crate::numeral::{decimal, is_digit, lemma_decimal_reads_back, lemma_numeral_of_decimal};
use crate::serial::{
    cell_text, change_text, chars_of_cells, lemma_uniform_cells, optimised, optimised_from,
    uniform_cells,
};
use crate::strings::lemma_char_range;
use vstd::prelude::*;

verus! {

/// Whether no character of `s` is `c`.
pub open spec fn free_of(s: Seq<char>, c: char) -> bool {
    forall|i: int| 0 <= i < s.len() ==> s[i] != c
}

/// Whether the text `s` holds no escape introducer: nowhere in it does `[`
/// follow the escape character.
pub open spec fn no_introducer(s: Seq<char>) -> bool {
    forall|i: int| 0 <= i < s.len() - 1 ==> !(s[i] == esc() && #[trigger] s[i + 1] == '[')
}

/// Whether every cell of `cells` has the foreground `fg` and the background `bg`.
pub open spec fn all_coloured(cells: Seq<FmtChar>, fg: Colour, bg: Colour) -> bool {
    forall|i: int| 0 <= i < cells.len() ==> (#[trigger] cells[i]).fg == fg && cells[i].bg == bg
}

/// Whether `c` is a colour that the grammar can set: a 24-bit colour or
/// the terminal's default.
pub open spec fn settable(c: Colour) -> bool {
    c is Rgb || c is Default
}

/// Whether the cell `next`, standing right after the cell `cell`, makes
/// what is written for the two hold an escape introducer that is not
/// there to set a colour: `cell` shows the escape character, `next` shows
/// `[`, and no colour changes between them.
pub open spec fn joins_to_introducer(cell: FmtChar, next: FmtChar) -> bool {
    cell.ch == esc() && next.ch == '[' && next.fg == cell.fg && next.bg == cell.bg
}

/// Whether `cells` can be read back from what they are written as: every
/// colour is one that the grammar can set, and no two neighbours join to
/// an escape introducer.
pub open spec fn readable(cells: Seq<FmtChar>) -> bool {
    &&& forall|i: int|
        0 <= i < cells.len() ==> settable((#[trigger] cells[i]).fg) && settable(cells[i].bg)
    &&& forall|i: int|
        0 <= i < cells.len() - 1 ==> !joins_to_introducer(cells[i], #[trigger] cells[i + 1])
}

/// The body of the sequence that sets the colour `c`, where `c` can be set.
pub open spec fn body_of(c: Colour, ground: Ground) -> Seq<char> {
    match c {
        Colour::Rgb { r, g, b } => truecolour_body(ground, r, g, b),
        _ => reset_body(ground),
    }
}

/// The colours in force once `c` is set on `ground`.
pub open spec fn set_on(ground: Ground, c: Colour, fg: Colour, bg: Colour) -> (Colour, Colour) {
    match ground {
        Ground::Foreground => (c, bg),
        Ground::Background => (fg, c),
    }
}

/// A text without `;` is one field.
proof fn lemma_fields_single(a: Seq<char>)
    requires
        free_of(a, ';'),
    ensures
        fields(a) == seq![a],
{
    lemma_first_index(a, ';', a.len() as int);
}

/// The fields of a text that begins with a field and a `;` are that
/// field and the fields of the rest.
proof fn lemma_fields_cons(a: Seq<char>, rest: Seq<char>)
    requires
        free_of(a, ';'),
    ensures
        fields(a + seq![';'] + rest) == seq![a] + fields(rest),
{
    let s = a + seq![';'] + rest;
    assert forall|i: int| 0 <= i < a.len() implies s[i] != ';' by {
        assert(s[i] == a[i]);
    }
    assert(s[a.len() as int] == ';');
    lemma_first_index(s, ';', a.len() as int);
    assert(s.take(a.len() as int) =~= a);
    assert(s.skip(a.len() as int + 1) =~= rest);
}

/// A number in decimal holds neither `;` nor `m`.
proof fn lemma_decimal_plain(n: nat)
    ensures
        free_of(decimal(n), ';'),
        free_of(decimal(n), 'm'),
{
    lemma_decimal_reads_back(n);
    let d = decimal(n);
    assert forall|i: int| 0 <= i < d.len() implies d[i] != ';' && d[i] != 'm' by {
        assert(is_digit(d[i]));
    }
}

/// The body that sets a 24-bit colour has the five fields that it was
/// put together from, and no `m`.
proof fn lemma_truecolour_body(ground: Ground, r: u8, g: u8, b: u8)
    ensures
        fields(truecolour_body(ground, r, g, b)) == seq![
            selector(ground),
            seq!['2'],
            decimal(r as nat),
            decimal(g as nat),
            decimal(b as nat),
        ],
        free_of(truecolour_body(ground, r, g, b), 'm'),
        truecolour_body(ground, r, g, b).len() >= 9,
{
    let sel = selector(ground);
    let two = seq!['2'];
    let dr = decimal(r as nat);
    let dg = decimal(g as nat);
    let db = decimal(b as nat);
    let body = truecolour_body(ground, r, g, b);
    lemma_decimal_plain(r as nat);
    lemma_decimal_plain(g as nat);
    lemma_decimal_plain(b as nat);
    lemma_decimal_reads_back(r as nat);
    lemma_decimal_reads_back(g as nat);
    lemma_decimal_reads_back(b as nat);
    let t4 = db;
    let t3 = dg + seq![';'] + t4;
    let t2 = dr + seq![';'] + t3;
    let t1 = two + seq![';'] + t2;
    let t0 = sel + seq![';'] + t1;
    assert(body =~= t0);
    assert(free_of(sel, ';'));
    assert(free_of(two, ';'));
    lemma_fields_single(t4);
    lemma_fields_cons(dg, t4);
    lemma_fields_cons(dr, t3);
    lemma_fields_cons(two, t2);
    lemma_fields_cons(sel, t1);
    assert(fields(t0) =~= seq![sel, two, dr, dg, db]);
    assert forall|i: int| 0 <= i < body.len() implies body[i] != 'm' by {
        let n0 = sel.len() + 3;
        let n1 = n0 + dr.len();
        let n2 = n1 + 1 + dg.len();
        if i < sel.len() {
            assert(body[i] == sel[i]);
        } else if i < n0 {
            assert(body[i] == seq![';', '2', ';'][i - sel.len()]);
        } else if i < n1 {
            assert(body[i] == dr[i - n0]);
        } else if i < n1 + 1 {
        } else if i < n2 {
            assert(body[i] == dg[i - n1 - 1]);
        } else if i < n2 + 1 {
        } else {
            assert(body[i] == db[i - n2 - 1]);
        }
    }
}

/// The sequence that sets a colour brings that colour into force on its
/// ground, and its body holds no `m`.
proof fn lemma_body_sets(c: Colour, ground: Ground, fg: Colour, bg: Colour)
    requires
        settable(c),
    ensures
        escape_text(c, ground) == sequence(body_of(c, ground)),
        free_of(body_of(c, ground), 'm'),
        after_escape(body_of(c, ground), fg, bg) == Some(set_on(ground, c, fg, bg)),
{
    let body = body_of(c, ground);
    match c {
        Colour::Rgb { r, g, b } => {
            lemma_truecolour_body(ground, r, g, b);
            lemma_numeral_of_decimal(r);
            lemma_numeral_of_decimal(g);
            lemma_numeral_of_decimal(b);
            let f = fields(body);
            assert(f[0] == selector(ground));
            assert(f[2] == decimal(r as nat));
            assert(f[3] == decimal(g as nat));
            assert(f[4] == decimal(b as nat));
            assert(truecolour(f) == Some(c));
            assert(selector(Ground::Background)[0] != selector(Ground::Foreground)[0]);
        },
        _ => {
            assert(body.len() == 2);
            assert(body[0] == '3' || body[0] == '4');
            assert(seq!['3', '9'][0] == '3');
            assert(seq!['4', '9'][0] == '4');
        },
    }
}

/// A sequence at the start of a text does what its body says, and what
/// follows it is read with the colours then in force.
proof fn lemma_read_sequence(body: Seq<char>, rest: Seq<char>, fg: Colour, bg: Colour)
    requires
        free_of(body, 'm'),
    ensures
        cells_from(sequence(body) + rest, fg, bg) == match after_escape(body, fg, bg) {
            Some((f, b)) => cells_from(rest, f, b),
            None => None,
        },
{
    let s = sequence(body) + rest;
    assert(s[0] == esc() && s[1] == '[');
    assert(starts_escape(s));
    let inner = s.skip(2);
    assert(inner =~= body + seq!['m'] + rest);
    assert forall|i: int| 0 <= i < body.len() implies inner[i] != 'm' by {
        assert(inner[i] == body[i]);
    }
    assert(inner[body.len() as int] == 'm');
    lemma_first_index(inner, 'm', body.len() as int);
    assert(inner.take(body.len() as int) =~= body);
    assert(inner.skip(body.len() as int + 1) =~= rest);
}

/// A character at the start of a text that does not open an escape
/// sequence there is a cell with the colours in force.
proof fn lemma_read_char(c: char, rest: Seq<char>, fg: Colour, bg: Colour)
    requires
        !(c == esc() && rest.len() > 0 && rest[0] == '['),
    ensures
        cells_from(seq![c] + rest, fg, bg) == match cells_from(rest, fg, bg) {
            Some(cells) => Some(seq![FmtChar { ch: c, fg, bg }] + cells),
            None => None,
        },
{
    let s = seq![c] + rest;
    assert(s[0] == c);
    if rest.len() > 0 {
        assert(s[1] == rest[0]);
    }
    assert(s.drop_first() =~= rest);
}

/// What is written for cells does not begin with `[` where the first of
/// them does not show `[`, or has a colour that is not in force yet.
proof fn lemma_written_head(cells: Seq<FmtChar>, last_fg: Colour, last_bg: Colour)
    requires
        cells.len() > 0,
        settable(cells[0].fg),
        settable(cells[0].bg),
        cells[0].ch != '[' || cells[0].fg != last_fg || cells[0].bg != last_bg,
    ensures
        optimised_from(cells, last_fg, last_bg).len() > 0,
        optimised_from(cells, last_fg, last_bg)[0] != '[',
{
    let c = cells[0];
    let text = optimised_from(cells, last_fg, last_bg);
    let fg_text = change_text(c.fg, last_fg, Ground::Foreground);
    let bg_text = change_text(c.bg, last_bg, Ground::Background);
    lemma_body_sets(c.fg, Ground::Foreground, last_fg, last_bg);
    lemma_body_sets(c.bg, Ground::Background, last_fg, last_bg);
    if c.fg != last_fg {
        assert(fg_text[0] == esc());
        assert(text[0] == fg_text[0]);
    } else if c.bg != last_bg {
        assert(bg_text[0] == esc());
        assert(text[0] == bg_text[0]);
    } else {
        assert(text[0] == c.ch);
    }
}

/// What is written to change a ground is read as that change.
proof fn lemma_read_change(
    c: Colour,
    last: Colour,
    ground: Ground,
    rest: Seq<char>,
    fg: Colour,
    bg: Colour,
)
    requires
        settable(c),
        last == match ground {
            Ground::Foreground => fg,
            Ground::Background => bg,
        },
    ensures
        cells_from(change_text(c, last, ground) + rest, fg, bg) == cells_from(
            rest,
            set_on(ground, c, fg, bg).0,
            set_on(ground, c, fg, bg).1,
        ),
{
    if c != last {
        lemma_body_sets(c, ground, fg, bg);
        lemma_read_sequence(body_of(c, ground), rest, fg, bg);
    } else {
        assert(change_text(c, last, ground) + rest =~= rest);
    }
}

/// Cells that can be read back are read back from what they are written
/// as, whatever colours are in force before them.
proof fn lemma_read_written(cells: Seq<FmtChar>, last_fg: Colour, last_bg: Colour)
    requires
        readable(cells),
    ensures
        cells_from(optimised_from(cells, last_fg, last_bg), last_fg, last_bg) == Some(cells),
    decreases cells.len(),
{
    if cells.len() > 0 {
        let c = cells[0];
        let rest = cells.drop_first();
        assert forall|i: int| 0 <= i < rest.len() implies settable((#[trigger] rest[i]).fg)
            && settable(rest[i].bg) by {
            assert(rest[i] == cells[i + 1]);
        }
        assert forall|i: int| 0 <= i < rest.len() - 1 implies !joins_to_introducer(
            rest[i],
            #[trigger] rest[i + 1],
        ) by {
            assert(rest[i] == cells[i + 1]);
            assert(rest[i + 1] == cells[(i + 1) + 1]);
        }
        lemma_read_written(rest, c.fg, c.bg);
        let tail = optimised_from(rest, c.fg, c.bg);
        if c.ch == esc() && rest.len() > 0 {
            assert(rest[0] == cells[0int + 1]);
            assert(!joins_to_introducer(c, rest[0]));
            lemma_written_head(rest, c.fg, c.bg);
        }
        let from_char = seq![c.ch] + tail;
        let from_bg = change_text(c.bg, last_bg, Ground::Background) + from_char;
        let text = change_text(c.fg, last_fg, Ground::Foreground) + from_bg;
        assert(optimised_from(cells, last_fg, last_bg) =~= text);
        lemma_read_change(c.fg, last_fg, Ground::Foreground, from_bg, last_fg, last_bg);
        lemma_read_change(c.bg, last_bg, Ground::Background, from_char, c.fg, last_bg);
        lemma_read_char(c.ch, tail, c.fg, c.bg);
        assert(seq![c] + rest =~= cells);
    }
}

/// Cells that all have the colours in force are written as their
/// characters alone.
proof fn lemma_written_plain(cells: Seq<FmtChar>, fg: Colour, bg: Colour)
    requires
        all_coloured(cells, fg, bg),
    ensures
        optimised_from(cells, fg, bg) == chars_of_cells(cells),
    decreases cells.len(),
{
    if cells.len() > 0 {
        let rest = cells.drop_first();
        assert forall|i: int| 0 <= i < rest.len() implies (#[trigger] rest[i]).fg == fg
            && rest[i].bg == bg by {
            assert(rest[i] == cells[i + 1]);
        }
        lemma_written_plain(rest, fg, bg);
        assert(cell_text(cells[0], fg, bg) =~= seq![cells[0].ch]);
        assert(seq![cells[0].ch] + chars_of_cells(rest) =~= chars_of_cells(cells));
    } else {
        assert(chars_of_cells(cells) =~= Seq::<char>::empty());
    }
}

/// A text without an escape introducer is read as its characters, each
/// with the colours in force.
proof fn lemma_read_plain(s: Seq<char>, fg: Colour, bg: Colour)
    requires
        no_introducer(s),
    ensures
        cells_from(s, fg, bg) == Some(uniform_cells(s, fg, bg)),
    decreases s.len(),
{
    lemma_uniform_cells(s, fg, bg);
    if s.len() > 0 {
        let rest = s.drop_first();
        if s.len() >= 2 {
            assert(!(s[0int] == esc() && s[0int + 1] == '['));
        }
        assert(!starts_escape(s));
        assert forall|i: int| 0 <= i < rest.len() - 1 implies !(rest[i] == esc() && #[trigger] rest[i
            + 1] == '[') by {
            assert(rest[i] == s[i + 1]);
            assert(rest[i + 1] == s[(i + 1) + 1]);
        }
        lemma_read_plain(rest, fg, bg);
        lemma_uniform_cells(rest, fg, bg);
        lemma_char_range(s[0]);
        let first = FmtChar { ch: s[0], fg, bg };
        assert(seq![first] + uniform_cells(rest, fg, bg) =~= uniform_cells(s, fg, bg)) by {
            assert forall|i: int| 0 <= i < s.len() implies (seq![first] + uniform_cells(
                rest,
                fg,
                bg,
            ))[i] == uniform_cells(s, fg, bg)[i] by {
                if i > 0 {
                    assert(uniform_cells(rest, fg, bg)[i - 1] == (FmtChar { ch: rest[i - 1], fg, bg }));
                    assert(rest[i - 1] == s[i]);
                }
            }
        }
    } else {
        assert(uniform_cells(s, fg, bg) =~= Seq::<FmtChar>::empty());
    }
}

/// Reading a text that holds no escape introducer and writing the result
/// gives the text back: it is read as its characters in the terminal's
/// default colours, and they are written without any escape.
pub proof fn lemma_plain_text_round_trip(s: Seq<char>)
    requires
        no_introducer(s),
    ensures
        cells_of(s) == Some(uniform_cells(s, Colour::Default, Colour::Default)),
        optimised(cells_of(s).unwrap()) == s,
{
    let cells = uniform_cells(s, Colour::Default, Colour::Default);
    lemma_read_plain(s, Colour::Default, Colour::Default);
    lemma_uniform_cells(s, Colour::Default, Colour::Default);
    lemma_written_plain(cells, Colour::Default, Colour::Default);
    assert(chars_of_cells(cells) =~= s);
}

/// Writing is a fixed point of reading and writing again: where every
/// colour of `cells` is a 24-bit colour or the default, and no cell that
/// shows `[` follows with the same colours a cell that shows the escape
/// character, what `cells` are written as is read back as `cells`, and so
/// is written as the same text once more.
pub proof fn lemma_reoptimise_is_identity(cells: Seq<FmtChar>)
    requires
        readable(cells),
    ensures
        cells_of(optimised(cells)) == Some(cells),
        optimised(cells_of(optimised(cells)).unwrap()) == optimised(cells),
{
    lemma_read_written(cells, Colour::Default, Colour::Default);
}

/// No colour is set twice: where all cells share one foreground and one
/// background, they are written as at most one escape for the foreground
/// and one for the background, each only where the colour is not the
/// terminal's default, followed by the characters alone, however many
/// cells there are.
pub proof fn lemma_no_redundant_escapes(cells: Seq<FmtChar>, fg: Colour, bg: Colour)
    requires
        all_coloured(cells, fg, bg),
    ensures
        optimised(cells) == if cells.len() == 0 {
            Seq::<char>::empty()
        } else {
            change_text(fg, Colour::Default, Ground::Foreground) + change_text(
                bg,
                Colour::Default,
                Ground::Background,
            ) + chars_of_cells(cells)
        },
{
    if cells.len() > 0 {
        let rest = cells.drop_first();
        assert forall|i: int| 0 <= i < rest.len() implies (#[trigger] rest[i]).fg == fg
            && rest[i].bg == bg by {
            assert(rest[i] == cells[i + 1]);
        }
        lemma_written_plain(rest, fg, bg);
        assert(seq![cells[0].ch] + chars_of_cells(rest) =~= chars_of_cells(cells));
        let lead = change_text(fg, Colour::Default, Ground::Foreground) + change_text(
            bg,
            Colour::Default,
            Ground::Background,
        );
        assert(optimised(cells) =~= lead + chars_of_cells(cells));
    }
}

} // verus!
