//! The formatted string: a sequence of cells, and a cache of what they
//! are written as.

use crate::ansi::{cells_of, read_cells};
use crate::cell::FmtChar;
use crate::colour::{Colour, Ground};
use crate::error::FmtError;
use crate::serial::{
    cell_text, lemma_optimised_step, lemma_uniform_cells, optimised, optimised_from, uniform_cells,
};
use crate::strings::chars_of;
use vstd::prelude::*;
use vstd::slice::{slice_subrange, slice_to_vec};
use vstd::std_specs::convert::FromSpecImpl;
use vstd::string::StringExecFns;

verus! {

broadcast use vstd::string::group_string_axioms;

/// A string of cells, each with its own colours.
///
/// Beside the cells it keeps the text that they were last written as, and
/// a flag that says whether that text may be out of date. Whenever the
/// flag is down, the kept text is what the cells are written as now.
#[derive(Debug)]
pub struct FmtString {
    container: Vec<FmtChar>,
    dirty: bool,
    cache: String,
}

impl View for FmtString {
    type V = Seq<FmtChar>;

    closed spec fn view(&self) -> Seq<FmtChar> {
        self.container@
    }
}

impl Clone for FmtString {
    /// A string with the same cells, the same kept text and the same flag.
    fn clone(&self) -> (s: Self)
        ensures
            s@ == self@,
            s.is_dirty() == self.is_dirty(),
    {
        proof {
            use_type_invariant(self);
        }
        let container = self.container.clone();
        assert(container@ =~= self.container@);
        FmtString { container, dirty: self.dirty, cache: self.cache.clone() }
    }
}

impl FmtString {
    /// The kept text is up to date wherever the flag is down.
    #[verifier::type_invariant]
    spec fn coherent(&self) -> bool {
        self.dirty || self.cache@ == optimised(self.container@)
    }

    /// Whether the kept text may be out of date.
    pub closed spec fn is_dirty(&self) -> bool {
        self.dirty
    }

    /// The string of the characters of `data`, all in the terminal's
    /// default colours.
    pub fn from_str(data: &str) -> (s: Self)
        ensures
            s@ == uniform_cells(data@, Colour::Default, Colour::Default),
            s.is_dirty(),
    {
        Self::from_str_colour(data, Colour::default(), Colour::default())
    }

    /// The empty string.
    pub fn new() -> (s: Self)
        ensures
            s@ == Seq::<FmtChar>::empty(),
            s.is_dirty(),
    {
        Self { container: Vec::new(), dirty: true, cache: String::new() }
    }

    /// The empty string, with room for `capacity` cells where the
    /// allocator grants it.
    pub fn with_capacity(capacity: usize) -> (s: Self)
        ensures
            s@ == Seq::<FmtChar>::empty(),
            s.is_dirty(),
    {
        let mut container: Vec<FmtChar> = Vec::new();
        let _ = container.try_reserve(capacity);
        Self { container, dirty: true, cache: String::new() }
    }

    /// Puts `c` at the end of the string.
    pub fn push(&mut self, c: FmtChar)
        ensures
            final(self)@ == old(self)@.push(c),
            final(self).is_dirty(),
    {
        self.dirty = true;
        let mut cells: Vec<FmtChar> = Vec::new();
        core::mem::swap(&mut self.container, &mut cells);
        cells.push(c);
        core::mem::swap(&mut self.container, &mut cells);
    }

    /// The string of the characters of `data`, all with the foreground
    /// `fg` and the background `bg`.
    pub fn from_str_colour(data: &str, fg: Colour, bg: Colour) -> (s: Self)
        ensures
            s@ == uniform_cells(data@, fg, bg),
            s.is_dirty(),
    {
        let mut buf: Vec<FmtChar> = Vec::new();
        let _ = buf.try_reserve(data.len());
        for ch in it: data.chars()
            invariant
                it.seq() == data@,
                buf@.len() == it.index(),
                forall|i: int|
                    0 <= i < buf@.len() ==> #[trigger] buf@[i] == (FmtChar { ch: data@[i], fg, bg }),
        {
            buf.push(FmtChar::new(ch, fg, bg));
        }
        assert(buf@.len() == data@.len());
        proof {
            lemma_uniform_cells(data@, fg, bg);
        }
        assert(buf@ =~= uniform_cells(data@, fg, bg));
        Self { container: buf, dirty: true, cache: String::new() }
    }

    /// What the cells are written as, from the kept text, which is
    /// brought up to date first where it may be out of date.
    pub fn to_str<'a>(&'a mut self) -> (text: &'a str)
        ensures
            text@ == optimised(old(self)@),
            final(self)@ == old(self)@,
            !final(self).is_dirty(),
    {
        if self.dirty {
            self.rebuild_cache();
        }
        proof {
            use_type_invariant(&*self);
        }
        self.cache.as_str()
    }

    /// The string that the ANSI-coded text `data` denotes.
    ///
    /// Fails with `MalformedColorField` exactly where the grammar rejects
    /// `data`.
    pub fn from_ansi_string(data: String) -> (r: Result<FmtString, FmtError>)
        ensures
            match r {
                Ok(s) => cells_of(data@) == Some(s@) && s.is_dirty(),
                Err(e) => e == FmtError::MalformedColorField && cells_of(data@) is None,
            },
    {
        let chars = chars_of(data.as_str());
        match read_cells(&chars) {
            Ok(out) => Ok(FmtString { container: out, dirty: true, cache: String::new() }),
            Err(e) => Err(e),
        }
    }

    /// What the cells are written as: each colour is set only where it
    /// differs from that of the cell before, the terminal's default
    /// counting as the colour before the first cell.
    pub fn to_optimised_string(&self) -> (out: String)
        ensures
            out@ == optimised(self@),
    {
        let n = self.container.len();
        let mut out = String::new();
        match n.checked_mul(8) {
            Some(guess) => {
                let _ = out.try_reserve(guess);
            },
            None => {},
        }
        let mut last_fg = Colour::default();
        let mut last_bg = Colour::default();
        let mut i: usize = 0;
        assert(self.container@.skip(0) =~= self.container@);
        assert(out@ + optimised(self.container@) =~= optimised(self.container@));
        while i < n
            invariant
                i <= n == self.container.len(),
                optimised(self.container@) == out@ + optimised_from(
                    self.container@.skip(i as int),
                    last_fg,
                    last_bg,
                ),
            decreases n - i,
        {
            let ch = self.container[i];
            let ghost before = out@;
            let ghost prev_fg = last_fg;
            let ghost prev_bg = last_bg;
            let ghost rest = optimised_from(self.container@.skip(i + 1), ch.fg, ch.bg);
            proof {
                lemma_optimised_step(self.container@, i as int, last_fg, last_bg);
                assert(before + (cell_text(ch, last_fg, last_bg) + rest) =~= (before + cell_text(
                    ch,
                    last_fg,
                    last_bg,
                )) + rest);
            }
            if ch.fg != last_fg {
                let text = ch.fg.to_string(Ground::Foreground);
                out.append(text.as_str());
                last_fg = ch.fg;
            }
            if ch.bg != last_bg {
                let text = ch.bg.to_string(Ground::Background);
                out.append(text.as_str());
                last_bg = ch.bg;
            }
            out.push(ch.ch);
            assert(out@ =~= before + cell_text(ch, prev_fg, prev_bg));
            i = i + 1;
        }
        assert(out@ + Seq::<char>::empty() =~= out@);
        out
    }

    /// Brings the kept text up to date.
    fn rebuild_cache(&mut self)
        ensures
            final(self)@ == old(self)@,
            !final(self).is_dirty(),
    {
        if self.dirty {
            self.cache = self.to_optimised_string();
            self.dirty = false;
        }
    }

    /// The cells of `a` followed by those of `b`, each with the colours
    /// that it had.
    pub fn concat(a: FmtString, b: FmtString) -> (s: FmtString)
        ensures
            s@ == a@ + b@,
            s.is_dirty(),
    {
        let mut cells = a.container;
        let mut more = b.container;
        cells.append(&mut more);
        FmtString { container: cells, dirty: true, cache: a.cache }
    }

    /// The number of cells.
    pub fn len(&self) -> (n: usize)
        ensures
            n == self@.len(),
    {
        self.container.len()
    }

    /// The cell at position `idx`.
    ///
    /// Fails with `OutOfRange` exactly where `idx` is not less than the
    /// number of cells.
    pub fn get(&self, idx: usize) -> (r: Result<&FmtChar, FmtError>)
        ensures
            idx < self@.len() ==> r == Ok::<&FmtChar, FmtError>(&self@[idx as int]),
            idx >= self@.len() ==> r == Err::<&FmtChar, FmtError>(FmtError::OutOfRange),
    {
        if idx < self.container.len() {
            Ok(&self.container[idx])
        } else {
            Err(FmtError::OutOfRange)
        }
    }

    /// The cell at position `idx`, to be changed in place. The kept text
    /// counts as out of date from this call on, whether or not the cell
    /// is then changed.
    ///
    /// Fails with `OutOfRange` exactly where `idx` is not less than the
    /// number of cells, and then leaves the string as it was.
    pub fn get_mut(&mut self, idx: usize) -> (r: Result<&mut FmtChar, FmtError>)
        ensures
            match r {
                Ok(cell) => {
                    &&& idx < old(self)@.len()
                    &&& *cell == old(self)@[idx as int]
                    &&& final(self)@ == old(self)@.update(idx as int, *final(cell))
                    &&& final(self).is_dirty()
                },
                Err(e) => {
                    &&& idx >= old(self)@.len()
                    &&& e == FmtError::OutOfRange
                    &&& *final(self) == *old(self)
                },
            },
    {
        if idx < self.container.len() {
            self.dirty = true;
            Ok(&mut self.container[idx])
        } else {
            Err(FmtError::OutOfRange)
        }
    }

    /// The cells from position `start` up to, not including, position
    /// `end`. The kept text and its flag stay as they are.
    ///
    /// Fails with `OutOfRange` exactly where the range does not lie within
    /// the string: where `start` is more than `end`, or `end` more than
    /// the number of cells.
    pub fn slice(&self, start: usize, end: usize) -> (r: Result<&[FmtChar], FmtError>)
        ensures
            match r {
                Ok(cells) => start <= end <= self@.len() && cells@ == self@.subrange(
                    start as int,
                    end as int,
                ),
                Err(e) => !(start <= end <= self@.len()) && e == FmtError::OutOfRange,
            },
    {
        if start <= end && end <= self.container.len() {
            Ok(slice_subrange(self.container.as_slice(), start, end))
        } else {
            Err(FmtError::OutOfRange)
        }
    }
}

/// `s[idx]` is the cell at position `idx`, which has to be a position of
/// the string; `get` is the form that reports a position out of range.
impl core::ops::Index<usize> for FmtString {
    type Output = FmtChar;

    fn index(&self, idx: usize) -> (cell: &FmtChar)
        ensures
            *cell == self@[idx as int],
    {
        &self.container[idx]
    }
}

impl vstd::std_specs::core::IndexSpecImpl<usize> for FmtString {
    open spec fn index_req(&self, index: &usize) -> bool {
        *index < self@.len()
    }
}

/// `s[start..end]` is the cells of that range, which has to lie within
/// the string; `slice` is the form that reports a range out of it.
impl core::ops::Index<core::ops::Range<usize>> for FmtString {
    type Output = [FmtChar];

    fn index(&self, range: core::ops::Range<usize>) -> (cells: &[FmtChar])
        ensures
            cells@ == self@.subrange(range.start as int, range.end as int),
    {
        slice_subrange(self.container.as_slice(), range.start, range.end)
    }
}

impl vstd::std_specs::core::IndexSpecImpl<core::ops::Range<usize>> for FmtString {
    open spec fn index_req(&self, index: &core::ops::Range<usize>) -> bool {
        index.start <= index.end <= self@.len()
    }
}

/// `s[idx]` on the left of an assignment is the cell at position `idx`,
/// to be changed in place; `idx` has to be a position of the string, and
/// `get_mut` is the form that reports a position out of range. The kept
/// text counts as out of date from the call on.
impl core::ops::IndexMut<usize> for FmtString {
    fn index_mut(&mut self, idx: usize) -> (cell: &mut FmtChar)
        requires
            idx < old(self)@.len(),
        ensures
            *cell == old(self)@[idx as int],
            final(self)@ == old(self)@.update(idx as int, *final(cell)),
            final(self).is_dirty(),
    {
        self.dirty = true;
        &mut self.container[idx]
    }
}

impl From<String> for FmtString {
    /// The string of the characters of `item`, all in the terminal's
    /// default colours.
    fn from(item: String) -> (s: Self)
        ensures
            s@ == uniform_cells(item@, Colour::Default, Colour::Default),
            s.is_dirty(),
    {
        FmtString::from_str(item.as_str())
    }
}

/// `from` states what it returns in its own `ensures`, over the view: the
/// fields of the result are private, so no public spec function names it.
impl FromSpecImpl<String> for FmtString {
    open spec fn obeys_from_spec() -> bool {
        false
    }

    open spec fn from_spec(item: String) -> Self {
        arbitrary()
    }
}

impl From<Vec<FmtChar>> for FmtString {
    /// The string of the cells of `item`.
    fn from(item: Vec<FmtChar>) -> (s: Self)
        ensures
            s@ == item@,
            s.is_dirty(),
    {
        Self { container: item, dirty: true, cache: String::new() }
    }
}

/// `from` states what it returns in its own `ensures`, over the view: the
/// fields of the result are private, so no public spec function names it.
impl FromSpecImpl<Vec<FmtChar>> for FmtString {
    open spec fn obeys_from_spec() -> bool {
        false
    }

    open spec fn from_spec(item: Vec<FmtChar>) -> Self {
        arbitrary()
    }
}

impl From<&[FmtChar]> for FmtString {
    /// The string of the cells of `item`.
    fn from(item: &[FmtChar]) -> (s: Self)
        ensures
            s@ == item@,
            s.is_dirty(),
    {
        Self { container: slice_to_vec(item), dirty: true, cache: String::new() }
    }
}

/// `from` states what it returns in its own `ensures`, over the view: the
/// fields of the result are private, so no public spec function names it.
impl FromSpecImpl<&[FmtChar]> for FmtString {
    open spec fn obeys_from_spec() -> bool {
        false
    }

    open spec fn from_spec(item: &[FmtChar]) -> Self {
        arbitrary()
    }
}

impl From<FmtString> for String {
    /// What the cells of `item` are written as, from its kept text, which
    /// is brought up to date first where it may be out of date.
    fn from(item: FmtString) -> (text: String)
        ensures
            text@ == optimised(item@),
    {
        let mut item = item;
        if item.dirty {
            item.rebuild_cache();
        }
        proof {
            use_type_invariant(&item);
        }
        item.cache
    }
}

/// `from` states what it returns in its own `ensures`, over the view: a
/// `String` is known by its view alone.
impl FromSpecImpl<FmtString> for String {
    open spec fn obeys_from_spec() -> bool {
        false
    }

    open spec fn from_spec(item: FmtString) -> Self {
        arbitrary()
    }
}

} // verus!
