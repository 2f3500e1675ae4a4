//! Decimal numerals: how a number is written, and how a field of digits is read.

use vstd::prelude::*;

verus! {

/// The character that stands for the digit `d`.
pub open spec fn digit_char(d: nat) -> char
    recommends
        d < 10,
{
    (('0' as nat) + d) as char
}

/// Whether `c` is one of `0` to `9`.
pub open spec fn is_digit(c: char) -> bool {
    '0' <= c && c <= '9'
}

/// The digit that `c` stands for; 0 where `c` is no digit.
pub open spec fn digit_value(c: char) -> nat {
    if is_digit(c) {
        (c as nat - '0' as nat) as nat
    } else {
        0
    }
}

/// `n` written in base ten, without leading zeros.
pub open spec fn decimal(n: nat) -> Seq<char>
    decreases n,
{
    if n < 10 {
        seq![digit_char(n)]
    } else {
        decimal(n / 10).push(digit_char(n % 10))
    }
}

/// Whether every character of `s` is a digit.
pub open spec fn all_digits(s: Seq<char>) -> bool {
    forall|i: int| 0 <= i < s.len() ==> is_digit(#[trigger] s[i])
}

/// The number that a run of digits denotes in base ten; 0 for the empty run.
pub open spec fn digits_value(s: Seq<char>) -> nat
    decreases s.len(),
{
    if s.len() == 0 {
        0
    } else {
        digits_value(s.drop_last()) * 10 + digit_value(s.last())
    }
}

/// What is left of a field once one leading `+`, if there is one, is taken off.
pub open spec fn unsigned_part(s: Seq<char>) -> Seq<char> {
    if s.len() > 0 && s[0] == '+' {
        s.skip(1)
    } else {
        s
    }
}

/// The 8-bit number that the field `s` denotes, if it denotes one: an
/// optional `+`, then one or more digits whose value is at most 255.
/// Leading zeros are allowed; an empty field, a lone `+`, any other
/// character and a value above 255 are not.
pub open spec fn numeral_u8(s: Seq<char>) -> Option<u8> {
    let d = unsigned_part(s);
    if d.len() > 0 && all_digits(d) && digits_value(d) <= 255 {
        Some(digits_value(d) as u8)
    } else {
        None
    }
}

/// A run of digits denotes at least what any of its prefixes denotes.
pub proof fn lemma_prefix_value(s: Seq<char>, k: int)
    requires
        0 <= k <= s.len(),
    ensures
        digits_value(s.take(k)) <= digits_value(s),
    decreases s.len(),
{
    if k == s.len() {
        assert(s.take(k) =~= s);
    } else {
        assert(s.drop_last().take(k) =~= s.take(k));
        lemma_prefix_value(s.drop_last(), k);
    }
}

/// The decimal writing of a number consists of digits only, is not empty,
/// and denotes that number.
pub proof fn lemma_decimal_reads_back(n: nat)
    ensures
        decimal(n).len() > 0,
        all_digits(decimal(n)),
        digits_value(decimal(n)) == n,
    decreases n,
{
    if n < 10 {
        assert(decimal(n).drop_last() =~= Seq::<char>::empty());
        assert(digits_value(decimal(n).drop_last()) == 0);
    } else {
        lemma_decimal_reads_back(n / 10);
        let d = decimal(n / 10);
        let c = digit_char(n % 10);
        assert(d.push(c).drop_last() =~= d);
        assert(d.push(c).last() == c);
        assert(is_digit(c));
        assert forall|i: int| 0 <= i < d.push(c).len() implies is_digit(#[trigger] d.push(c)[i]) by {
            if i < d.len() {
                assert(d.push(c)[i] == d[i]);
            }
        }
    }
}

/// Reading back the decimal writing of an 8-bit number gives that number.
pub proof fn lemma_numeral_of_decimal(n: u8)
    ensures
        numeral_u8(decimal(n as nat)) == Some(n),
{
    lemma_decimal_reads_back(n as nat);
    let d = decimal(n as nat);
    assert(is_digit(d[0]));
    assert(unsigned_part(d) == d);
}

/// Reads the field `data[start..end]` as an 8-bit number.
pub fn read_u8(data: &Vec<char>, start: usize, end: usize) -> (r: Option<u8>)
    requires
        start <= end <= data.len(),
    ensures
        r == numeral_u8(data@.subrange(start as int, end as int)),
{
    let ghost field = data@.subrange(start as int, end as int);
    let mut i: usize = start;
    if i < end && data[i] == '+' {
        i = i + 1;
    }
    let first: usize = i;
    let ghost digits = data@.subrange(first as int, end as int);
    assert(digits =~= unsigned_part(field));
    if i >= end {
        return None;
    }
    let mut acc: u32 = 0;
    while i < end
        invariant
            start <= first <= i <= end <= data.len(),
            digits == data@.subrange(first as int, end as int),
            digits == unsigned_part(data@.subrange(start as int, end as int)),
            acc <= 255,
            acc == digits_value(digits.take(i - first)),
            all_digits(digits.take(i - first)),
        decreases end - i,
    {
        let c = data[i];
        assert(c == digits[i - first]);
        if !('0' <= c && c <= '9') {
            assert(!is_digit(digits[i - first]));
            return None;
        }
        let v: u32 = c as u32 - '0' as u32;
        let next: u32 = acc * 10 + v;
        let ghost longer = digits.take(i - first + 1);
        assert(longer.drop_last() =~= digits.take(i - first));
        assert(longer.last() == c);
        assert(next == digits_value(longer));
        if next > 255 {
            proof {
                lemma_prefix_value(digits, i - first + 1);
            }
            return None;
        }
        assert forall|j: int| 0 <= j < longer.len() implies is_digit(#[trigger] longer[j]) by {
            if j < i - first {
                assert(longer[j] == digits.take(i - first)[j]);
            }
        }
        acc = next;
        i = i + 1;
    }
    assert(digits.take(i - first) =~= digits);
    Some(acc as u8)
}

} // verus!
