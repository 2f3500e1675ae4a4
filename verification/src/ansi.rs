//! The escape grammar that is read: which sequences are recognised, what
//! each does to the colours in force, and what cells a text denotes.
//!
//! An escape sequence opens with the escape character and `[` and runs up
//! to the next `m`. Between the two stands its body:
//!
//! - `0` returns both grounds to the terminal's default;
//! - `39` returns the foreground to the default, `49` the background;
//! - `38;x;r;g;b` sets the foreground to the 24-bit colour `(r, g, b)`,
//!   `48;x;r;g;b` the background; the field `x` is not looked at;
//! - a body whose first field is neither `38` nor `48` is skipped.
//!
//! A text is rejected where a sequence has no closing `m`, and where a
//! body that begins with `38` or `48` does not have five fields of which
//! the last three are numbers from 0 to 255. An escape character that is
//! not followed by `[` is a character like any other.
//!
//! Fields are read by `read_until`, which never looks past the end of the
//! text: with fewer than two characters left it reads an empty field and
//! stays where it is. The reader of cells takes that for a sequence cut
//! short unless the closing `m` stands right there.

use crate::cell::FmtChar;
use crate::colour::{esc, selector, Colour, Ground};
use crate::error::FmtError;
use crate::numeral::{numeral_u8, read_u8};
use vstd::prelude::*;

verus! {

/// The index of the first `c` in `s`; the length of `s` if there is none.
pub open spec fn first_index(s: Seq<char>, c: char) -> nat
    decreases s.len(),
{
    if s.len() == 0 {
        0
    } else if s[0] == c {
        0
    } else {
        1 + first_index(s.drop_first(), c)
    }
}

/// The pieces of `s` between its `;`, in order. A text without `;` is one
/// field, and so is the empty text.
pub open spec fn fields(s: Seq<char>) -> Seq<Seq<char>>
    decreases s.len(),
{
    let n = first_index(s, ';');
    if n >= s.len() {
        seq![s]
    } else {
        seq![s.take(n as int)] + fields(s.skip(n as int + 1))
    }
}

/// The 24-bit colour that the fields of a colour-setting body denote:
/// there are five of them, and the last three are numbers from 0 to 255.
pub open spec fn truecolour(f: Seq<Seq<char>>) -> Option<Colour> {
    if f.len() == 5 && numeral_u8(f[2]) is Some && numeral_u8(f[3]) is Some && numeral_u8(
        f[4],
    ) is Some {
        Some(
            Colour::Rgb {
                r: numeral_u8(f[2]).unwrap(),
                g: numeral_u8(f[3]).unwrap(),
                b: numeral_u8(f[4]).unwrap(),
            },
        )
    } else {
        None
    }
}

/// The colours in force after the escape sequence with the given body,
/// where `fg` and `bg` were in force before it; `None` where the body is
/// malformed.
pub open spec fn after_escape(body: Seq<char>, fg: Colour, bg: Colour) -> Option<(Colour, Colour)> {
    if body == seq!['0'] {
        Some((Colour::Default, Colour::Default))
    } else if body == seq!['3', '9'] {
        Some((Colour::Default, bg))
    } else if body == seq!['4', '9'] {
        Some((fg, Colour::Default))
    } else if fields(body)[0] == selector(Ground::Foreground) {
        match truecolour(fields(body)) {
            Some(c) => Some((c, bg)),
            None => None,
        }
    } else if fields(body)[0] == selector(Ground::Background) {
        match truecolour(fields(body)) {
            Some(c) => Some((fg, c)),
            None => None,
        }
    } else {
        Some((fg, bg))
    }
}

/// Whether `s` begins with the escape character and `[`.
pub open spec fn starts_escape(s: Seq<char>) -> bool {
    s.len() >= 2 && s[0] == esc() && s[1] == '['
}

/// The cells that the text `s` denotes where `fg` and `bg` are the colours
/// in force at its start; `None` where `s` is rejected.
pub open spec fn cells_from(s: Seq<char>, fg: Colour, bg: Colour) -> Option<Seq<FmtChar>>
    decreases s.len(),
{
    if s.len() == 0 {
        Some(Seq::empty())
    } else if starts_escape(s) {
        let rest = s.skip(2);
        let n = first_index(rest, 'm');
        if n >= rest.len() {
            None
        } else {
            match after_escape(rest.take(n as int), fg, bg) {
                Some((f, b)) => cells_from(rest.skip(n as int + 1), f, b),
                None => None,
            }
        }
    } else {
        match cells_from(s.drop_first(), fg, bg) {
            Some(cells) => Some(seq![FmtChar { ch: s[0], fg, bg }] + cells),
            None => None,
        }
    }
}

/// The cells that the text `s` denotes; `None` where `s` is rejected.
/// Both grounds have the terminal's default colour at the start.
pub open spec fn cells_of(s: Seq<char>) -> Option<Seq<FmtChar>> {
    cells_from(s, Colour::Default, Colour::Default)
}

/// Where the field that is read from position `pos` of `s` up to the next
/// `c` stops. With fewer than two characters left from `pos` on, nothing is
/// read: the field is empty and stops at `pos`, also where `pos` lies
/// beyond the end. Otherwise it stops at the first `c` from `pos` on, or
/// at the end of `s` if there is none.
pub open spec fn field_stop(s: Seq<char>, pos: int, c: char) -> int {
    if pos + 1 >= s.len() {
        pos
    } else {
        pos + first_index(s.skip(pos), c)
    }
}

/// `n` is the index of the first `c` in `s` where no `c` stands before it
/// and either `s` ends there or a `c` stands there.
pub proof fn lemma_first_index(s: Seq<char>, c: char, n: int)
    requires
        0 <= n <= s.len(),
        forall|i: int| 0 <= i < n ==> s[i] != c,
        n == s.len() || s[n] == c,
    ensures
        first_index(s, c) == n,
    decreases s.len(),
{
    if n > 0 {
        let t = s.drop_first();
        assert forall|i: int| 0 <= i < n - 1 implies t[i] != c by {
            assert(t[i] == s[i + 1]);
        }
        lemma_first_index(t, c, n - 1);
    }
}

/// The first `c` of `s` stands where `first_index` says, and none before it.
pub proof fn lemma_first_index_is_first(s: Seq<char>, c: char)
    ensures
        first_index(s, c) <= s.len(),
        first_index(s, c) < s.len() ==> s[first_index(s, c) as int] == c,
        forall|i: int| 0 <= i < first_index(s, c) ==> s[i] != c,
    decreases s.len(),
{
    if s.len() > 0 && s[0] != c {
        let t = s.drop_first();
        lemma_first_index_is_first(t, c);
        assert forall|i: int| 0 <= i < first_index(s, c) implies s[i] != c by {
            if i > 0 {
                assert(s[i] == t[i - 1]);
            }
        }
    }
}

/// Putting a cell at the end of what came before it is the same as
/// putting it at the front of what follows.
proof fn lemma_push_then_rest(before: Seq<FmtChar>, cell: FmtChar, rest: Seq<FmtChar>)
    ensures
        before.push(cell) + rest == before + (seq![cell] + rest),
{
    assert(before.push(cell) + rest =~= before + (seq![cell] + rest));
}

/// Reads the field that starts at `pos` and runs up to the next `ch`, and
/// gives the position where it stops: the field is `data[pos..stop]`.
///
/// With fewer than two characters of `data` left from `pos` on, and so
/// for every `pos` at or beyond the end, nothing is read: the field is
/// empty and `stop` is `pos`. Otherwise `stop` is the position of the
/// first `ch` from `pos` on, or the length of `data` if there is none.
pub fn read_until(ch: char, data: &Vec<char>, pos: usize) -> (stop: usize)
    ensures
        stop == field_stop(data@, pos as int, ch),
{
    let len = data.len();
    if len == 0 || pos >= len - 1 {
        return pos;
    }
    let mut i: usize = pos;
    while i < len && data[i] != ch
        invariant
            pos <= i <= len == data.len(),
            forall|j: int| pos <= j < i ==> data@[j] != ch,
        decreases len - i,
    {
        i = i + 1;
    }
    proof {
        let s = data@.skip(pos as int);
        assert forall|j: int| 0 <= j < i - pos implies s[j] != ch by {
            assert(s[j] == data@[pos + j]);
        }
        if i < len {
            assert(s[i - pos] == data@[i as int]);
        }
        lemma_first_index(s, ch, i - pos);
    }
    i
}

/// Where each field of `data[start..end]` begins and ends.
pub fn split_fields(data: &Vec<char>, start: usize, end: usize) -> (ranges: Vec<(usize, usize)>)
    requires
        start <= end <= data.len(),
    ensures
        ranges@.len() == fields(data@.subrange(start as int, end as int)).len(),
        forall|k: int|
            0 <= k < ranges@.len() ==> {
                &&& start <= (#[trigger] ranges@[k]).0 <= ranges@[k].1 <= end
                &&& data@.subrange(ranges@[k].0 as int, ranges@[k].1 as int) == fields(
                    data@.subrange(start as int, end as int),
                )[k]
            },
{
    let ghost body = data@.subrange(start as int, end as int);
    let mut ranges: Vec<(usize, usize)> = Vec::new();
    let mut from: usize = start;
    let mut done = false;
    while !done
        invariant
            start <= from <= end <= data.len(),
            body == data@.subrange(start as int, end as int),
            forall|k: int|
                0 <= k < ranges@.len() ==> {
                    &&& start <= (#[trigger] ranges@[k]).0 <= ranges@[k].1 <= end
                    &&& data@.subrange(ranges@[k].0 as int, ranges@[k].1 as int) == fields(body)[k]
                },
            done ==> ranges@.len() == fields(body).len(),
            !done ==> ranges@.len() + fields(data@.subrange(from as int, end as int)).len()
                == fields(body).len(),
            !done ==> forall|k: int|
                0 <= k < fields(data@.subrange(from as int, end as int)).len() ==> fields(
                    body,
                )[ranges@.len() + k] == #[trigger] fields(data@.subrange(from as int, end as int))[k],
        decreases
                if done {
                    0
                } else {
                    end - from + 1
                },
    {
        let stop = read_until(';', data, from);
        let cut = if stop < end {
            stop
        } else {
            end
        };
        let ghost tail = data@.subrange(from as int, end as int);
        proof {
            let rest = data@.skip(from as int);
            lemma_first_index_is_first(rest, ';');
            assert forall|j: int| 0 <= j < cut - from implies tail[j] != ';' by {
                assert(tail[j] == data@[from + j]);
                assert(rest[j] == data@[from + j]);
            }
            if stop < data.len() && from + 1 < data.len() {
                assert(rest[stop - from] == data@[stop as int]);
            }
        }
        if cut < end && data[cut] == ';' {
            proof {
                assert(tail[cut - from] == data@[cut as int]);
                lemma_first_index(tail, ';', cut - from);
                let next = data@.subrange(cut as int + 1, end as int);
                assert(tail.take((cut - from) as int) =~= data@.subrange(from as int, cut as int));
                assert(tail.skip((cut - from) as int + 1) =~= next);
                assert(fields(tail) == seq![tail.take((cut - from) as int)] + fields(next));
                assert(fields(tail)[0] == data@.subrange(from as int, cut as int));
                assert forall|k: int| 0 <= k < fields(next).len() implies fields(body)[ranges@.len()
                    + 1 + k] == #[trigger] fields(next)[k] by {
                    assert(fields(tail)[k + 1] == fields(next)[k]);
                }
            }
            ranges.push((from, cut));
            from = cut + 1;
        } else {
            proof {
                assert forall|j: int| 0 <= j < tail.len() implies tail[j] != ';' by {
                    assert(tail[j] == data@[from + j]);
                }
                lemma_first_index(tail, ';', tail.len() as int);
                assert(fields(tail) == seq![tail]);
                assert(fields(tail)[0] == data@.subrange(from as int, end as int));
            }
            ranges.push((from, end));
            done = true;
        }
    }
    ranges
}

/// Whether `data[start..end]` is the two characters `a` and `b`.
fn is_pair(data: &Vec<char>, start: usize, end: usize, a: char, b: char) -> (yes: bool)
    requires
        start <= end <= data.len(),
    ensures
        yes == (data@.subrange(start as int, end as int) == seq![a, b]),
{
    let ghost s = data@.subrange(start as int, end as int);
    if end - start == 2 {
        let yes = data[start] == a && data[start + 1] == b;
        proof {
            assert(s[0] == data@[start as int]);
            assert(s[1] == data@[start + 1]);
            if yes {
                assert(s =~= seq![a, b]);
            } else {
                assert(seq![a, b][0] == a && seq![a, b][1] == b);
            }
        }
        yes
    } else {
        assert(seq![a, b].len() == 2);
        false
    }
}

/// The 24-bit colour that the fields at `ranges` denote.
fn read_truecolour(data: &Vec<char>, ranges: &Vec<(usize, usize)>) -> (colour: Option<Colour>)
    requires
        forall|k: int|
            0 <= k < ranges@.len() ==> (#[trigger] ranges@[k]).0 <= ranges@[k].1 <= data.len(),
    ensures
        colour == truecolour(
            Seq::new(
                ranges@.len(),
                |k: int| data@.subrange(ranges@[k].0 as int, ranges@[k].1 as int),
            ),
        ),
{
    if ranges.len() != 5 {
        return None;
    }
    let r = read_u8(data, ranges[2].0, ranges[2].1);
    let g = read_u8(data, ranges[3].0, ranges[3].1);
    let b = read_u8(data, ranges[4].0, ranges[4].1);
    match (r, g, b) {
        (Some(r), Some(g), Some(b)) => Some(Colour::Rgb { r, g, b }),
        _ => None,
    }
}

/// The colours in force after the escape sequence whose body is
/// `data[start..end]`, where `fg` and `bg` were in force before it.
pub fn apply_escape(data: &Vec<char>, start: usize, end: usize, fg: Colour, bg: Colour) -> (after:
    Option<(Colour, Colour)>)
    requires
        start <= end <= data.len(),
    ensures
        after == after_escape(data@.subrange(start as int, end as int), fg, bg),
{
    let ghost body = data@.subrange(start as int, end as int);
    if end - start == 1 && data[start] == '0' {
        assert(body =~= seq!['0']);
        return Some((Colour::Default, Colour::Default));
    }
    proof {
        if body == seq!['0'] {
            assert(body.len() == 1);
            assert(body[0] == data@[start as int]);
        }
    }
    if is_pair(data, start, end, '3', '9') {
        return Some((Colour::Default, bg));
    }
    if is_pair(data, start, end, '4', '9') {
        return Some((fg, Colour::Default));
    }
    let ranges = split_fields(data, start, end);
    proof {
        assert(fields(body).len() >= 1);
        assert(Seq::new(
            ranges@.len(),
            |k: int| data@.subrange(ranges@[k].0 as int, ranges@[k].1 as int),
        ) =~= fields(body));
    }
    let first = ranges[0];
    if is_pair(data, first.0, first.1, '3', '8') {
        match read_truecolour(data, &ranges) {
            Some(c) => Some((c, bg)),
            None => None,
        }
    } else if is_pair(data, first.0, first.1, '4', '8') {
        match read_truecolour(data, &ranges) {
            Some(c) => Some((fg, c)),
            None => None,
        }
    } else {
        Some((fg, bg))
    }
}

/// The cells that `data` denotes.
///
/// Fails with `MalformedColorField` exactly on the texts that the grammar
/// rejects, and on no other.
pub fn read_cells(data: &Vec<char>) -> (cells: Result<Vec<FmtChar>, FmtError>)
    ensures
        match cells {
            Ok(v) => cells_of(data@) == Some(v@),
            Err(e) => e == FmtError::MalformedColorField && cells_of(data@) is None,
        },
{
    let len = data.len();
    let mut out: Vec<FmtChar> = Vec::new();
    let mut pos: usize = 0;
    let mut fg = Colour::Default;
    let mut bg = Colour::Default;
    proof {
        assert(data@.skip(0) =~= data@);
        match cells_of(data@) {
            Some(rest) => {
                assert(out@ + rest =~= rest);
            },
            None => {},
        }
    }
    while pos < len
        invariant
            pos <= len == data.len(),
            cells_of(data@) == match cells_from(data@.skip(pos as int), fg, bg) {
                Some(rest) => Some(out@ + rest),
                None => None,
            },
        decreases len - pos,
    {
        let ghost s = data@.skip(pos as int);
        let ghost before = out@;
        if data[pos] == '\u{1b}' && pos + 1 < len && data[pos + 1] == '[' {
            assert(starts_escape(s));
            let start = pos + 2;
            let end = read_until('m', data, start);
            proof {
                let rest = data@.skip(start as int);
                assert(s.skip(2) =~= rest);
                lemma_first_index_is_first(rest, 'm');
                if end < len {
                    assert(rest[end - start] == data@[end as int]);
                }
                if start + 1 == len {
                    assert(rest[0] == data@[start as int]);
                    assert(rest.drop_first().len() == 0);
                }
            }
            if end >= len || data[end] != 'm' {
                return Err(FmtError::MalformedColorField);
            }
            proof {
                assert(first_index(s.skip(2), 'm') == end - start);
                assert(s.skip(2).take((end - start) as int) =~= data@.subrange(
                    start as int,
                    end as int,
                ));
                assert(s.skip(2).skip((end - start) as int + 1) =~= data@.skip(end as int + 1));
            }
            match apply_escape(data, start, end, fg, bg) {
                Some((f, b)) => {
                    fg = f;
                    bg = b;
                    pos = end + 1;
                },
                None => {
                    return Err(FmtError::MalformedColorField);
                },
            }
        } else {
            proof {
                assert(s[0] == data@[pos as int]);
                if pos + 1 < len {
                    assert(s[1] == data@[pos + 1]);
                }
                assert(!starts_escape(s));
                assert(s.drop_first() =~= data@.skip(pos as int + 1));
                let cell = FmtChar { ch: s[0], fg, bg };
                match cells_from(s.drop_first(), fg, bg) {
                    Some(rest) => {
                        lemma_push_then_rest(before, cell, rest);
                    },
                    None => {},
                }
            }
            out.push(FmtChar { ch: data[pos], fg, bg });
            pos = pos + 1;
        }
    }
    proof {
        assert(data@.skip(pos as int).len() == 0);
        assert(out@ + Seq::<FmtChar>::empty() =~= out@);
    }
    Ok(out)
}

} // verus!
