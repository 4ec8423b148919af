//! The byte classes that the scanners tell apart.

use vstd::prelude::*;

verus! {

pub const LINE_FEED: u8 = 10;

pub const SPACE: u8 = 32;

pub const DOUBLE_QUOTE: u8 = 34;

pub const SINGLE_QUOTE: u8 = 39;

pub const STAR: u8 = 42;

pub const SLASH: u8 = 47;

pub const BACKSLASH: u8 = 92;

pub const UNDERSCORE: u8 = 95;

/// `0` to `9`.
pub open spec fn is_digit(b: u8) -> bool {
    48 <= b <= 57
}

/// `a` to `z` and `A` to `Z`.
pub open spec fn is_letter(b: u8) -> bool {
    (65 <= b <= 90) || (97 <= b <= 122)
}

/// A byte that may start an identifier: a letter or `_`.
pub open spec fn is_ident_start(b: u8) -> bool {
    is_letter(b) || b == UNDERSCORE
}

/// A byte that may continue an identifier: a letter, a digit or `_`.
pub open spec fn is_ident_continue(b: u8) -> bool {
    is_ident_start(b) || is_digit(b)
}

/// ASCII punctuation: `!` to `/`, `:` to `@`, `[` to `` ` `` and `{` to `~`.
pub open spec fn is_punctuation(b: u8) -> bool {
    (33 <= b <= 47) || (58 <= b <= 64) || (91 <= b <= 96) || (123 <= b <= 126)
}

/// A byte that ends a run of digits and letters: space, tab, line feed,
/// form feed, carriage return, or any ASCII punctuation (`;` and `,` among
/// them).
pub open spec fn is_terminator(b: u8) -> bool {
    b == SPACE || b == 9 || b == LINE_FEED || b == 12 || b == 13 || is_punctuation(b)
}

/// A byte outside the ASCII range.
pub open spec fn is_non_ascii(b: u8) -> bool {
    b >= 128
}

/// A byte at which no scanner starts: a control character other than line
/// feed, DEL, or a byte outside the ASCII range.
pub open spec fn is_unrecognized(b: u8) -> bool {
    !(b == LINE_FEED || b == SPACE || is_ident_continue(b) || is_punctuation(b))
}

pub fn digit(b: u8) -> (r: bool)
    ensures
        r == is_digit(b),
{
    48 <= b && b <= 57
}

pub fn ident_start(b: u8) -> (r: bool)
    ensures
        r == is_ident_start(b),
{
    (65 <= b && b <= 90) || (97 <= b && b <= 122) || b == UNDERSCORE
}

pub fn ident_continue(b: u8) -> (r: bool)
    ensures
        r == is_ident_continue(b),
{
    ident_start(b) || digit(b)
}

pub fn punctuation(b: u8) -> (r: bool)
    ensures
        r == is_punctuation(b),
{
    (33 <= b && b <= 47) || (58 <= b && b <= 64) || (91 <= b && b <= 96) || (123 <= b && b
        <= 126)
}

pub fn terminator(b: u8) -> (r: bool)
    ensures
        r == is_terminator(b),
{
    b == SPACE || b == 9 || b == LINE_FEED || b == 12 || b == 13 || punctuation(b)
}

} // verus!
