//! Building text: characters from code points, and decimal numerals.

use vstd::prelude::*;

verus! {

/// `String::push`: appends one character to the end of the string.
pub assume_specification[ String::push ](s: &mut String, ch: char)
    ensures
        final(s)@ == old(s)@.push(ch),
;

/// `char::from_u32`: the character with the given code point, or `None`
/// where the number is no Unicode scalar value (a surrogate, or above
/// U+10FFFF).
pub assume_specification[ char::from_u32 ](i: u32) -> (r: Option<char>)
    ensures
        r == (if is_scalar_value(i as nat) {
            Some(i as char)
        } else {
            None
        }),
;

/// Whether `n` is the code point of a character.
pub open spec fn is_scalar_value(n: nat) -> bool {
    n <= 0xD7FF || 0xE000 <= n <= 0x10FFFF
}

/// The character that stands for a code point that is none.
pub const REPLACEMENT: char = '\u{FFFD}';

/// The character that `print_char` writes for the numeral `n`.
pub open spec fn code_point_char(n: u64) -> char {
    if is_scalar_value(n as nat) {
        n as char
    } else {
        REPLACEMENT
    }
}

/// The decimal digit with value `d`.
pub open spec fn digit(d: nat) -> char {
    (48 + d) as char
}

/// The decimal numeral for `n`, without leading zeros.
pub open spec fn decimal(n: nat) -> Seq<char>
    decreases n,
{
    if n < 10 {
        seq![digit(n)]
    } else {
        decimal(n / 10).push(digit(n % 10))
    }
}

/// Appends the character for the code point `n`.
pub fn push_code_point(out: &mut String, n: u64)
    ensures
        final(out)@ == old(out)@.push(code_point_char(n)),
{
    let c = if n <= 0x10FFFF {
        match char::from_u32(n as u32) {
            Some(c) => c,
            None => REPLACEMENT,
        }
    } else {
        REPLACEMENT
    };
    out.push(c);
}

/// Appends the decimal numeral for `n`.
pub fn push_decimal(out: &mut String, n: u64)
    ensures
        final(out)@ == old(out)@ + decimal(n as nat),
    decreases n,
{
    if n >= 10 {
        push_decimal(out, n / 10);
    }
    let c = (48 + (n % 10) as u8) as char;
    out.push(c);
}

} // verus!
