//! What this crate needs of `String` and `str` beyond what vstd specifies.

use std::collections::TryReserveError;
use vstd::prelude::*;

verus! {

broadcast use vstd::string::group_string_axioms;

/// `String::push` appends the character to the end of the string.
pub assume_specification[ String::push ](s: &mut String, ch: char)
    ensures
        final(s)@ == old(s)@.push(ch),
;

/// `String::try_reserve` makes room for more bytes, or fails to; either
/// way the string holds what it held before.
pub assume_specification[ String::try_reserve ](s: &mut String, additional: usize) -> (result:
    Result<(), TryReserveError>)
    ensures
        final(s)@ == old(s)@,
;

/// A `char` is a Unicode scalar value: at most 0x10FFFF, and no surrogate.
/// Called on an element of a `Seq<char>`, this tells the solver that the
/// element is one too.
pub proof fn lemma_char_range(c: char)
    ensures
        0 <= c as int <= 0x10ffff,
        !(0xd800 <= c as int <= 0xdfff),
{
}

/// The characters of `text`, in order.
pub fn chars_of(text: &str) -> (chars: Vec<char>)
    ensures
        chars@ == text@,
{
    let mut chars: Vec<char> = Vec::new();
    for ch in it: text.chars()
        invariant
            it.seq() == text@,
            chars@ == it.seq().take(it.index()),
    {
        chars.push(ch);
        assert(it.seq().take(it.index()).push(ch) =~= it.seq().take(it.index() + 1));
    }
    assert(chars@ =~= text@);
    chars
}

} // verus!
