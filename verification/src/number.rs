//! The classification of a numeric literal, byte by byte.

use crate::bytes::{is_digit, is_terminator};
use crate::error::LexErrorKind;
use vstd::prelude::*;

verus! {

/// The base that a numeric literal has been found to be in.
#[derive(Debug, Clone, Copy, PartialEq, Eq, Structural)]
pub enum NumberBase {
    Binary,
    Octal,
    Hexadecimal,
    Decimal,
}

/// What is known of a numeric literal after some of its bytes.
#[derive(Debug, Clone, Copy, PartialEq, Eq, Structural)]
pub struct NumberState {
    /// The base, as far as the bytes so far decide it.
    pub base: NumberBase,
    /// Whether a float suffix was seen.
    pub float: bool,
    /// Whether the run is no number. This is reported only when the run
    /// ends.
    pub malformed: bool,
}

/// What one more byte does to a numeric literal.
#[derive(Debug, Clone, Copy, PartialEq, Eq, Structural)]
pub enum NumberStep {
    /// The scan goes on in this state.
    Continue(NumberState),
    /// The byte is out of range for the base: the scan fails at once.
    Fail(LexErrorKind),
}

/// The state after the first digit: a leading `0` makes the literal octal
/// until a prefix says otherwise, any other digit makes it decimal.
pub open spec fn number_start(first: u8) -> NumberState {
    NumberState {
        base: if first == 48 {
            NumberBase::Octal
        } else {
            NumberBase::Decimal
        },
        float: false,
        malformed: false,
    }
}

/// The state with the deferred error set.
pub open spec fn spoiled(st: NumberState) -> NumberState {
    NumberState { malformed: true, ..st }
}

/// The failure for a byte that the base cannot hold; a hexadecimal literal
/// holds every digit and letter that reaches this, so it goes on.
pub open spec fn out_of_range(st: NumberState) -> NumberStep {
    match st.base {
        NumberBase::Binary => NumberStep::Fail(LexErrorKind::BinaryOverflow),
        NumberBase::Octal => NumberStep::Fail(LexErrorKind::OctalOverflow),
        NumberBase::Decimal => NumberStep::Fail(LexErrorKind::DecimalOverflow),
        NumberBase::Hexadecimal => NumberStep::Continue(st),
    }
}

/// `a`, `c`, `d`, `e` in either case: hexadecimal digits that have no other
/// meaning in a literal.
pub open spec fn is_plain_hex_letter(b: u8) -> bool {
    b == 97 || b == 65 || (99 <= b <= 101) || (67 <= b <= 69)
}

/// The effect of byte `b`, which is no terminator, on a literal in state
/// `st`. `second` says that `b` is the literal's second byte, `after_digit`
/// that the byte before `b` is a digit.
///
/// Once the deferred error is set, nothing changes any more. Otherwise:
/// - a digit after a float suffix sets the deferred error;
/// - `2` to `9` fail in a binary literal, `8` and `9` in an octal one;
/// - `a`, `c`, `d`, `e` set the deferred error after a float suffix and
///   otherwise fail unless the literal is hexadecimal;
/// - `x` as the second byte after `0` makes the literal hexadecimal, and
///   sets the deferred error anywhere else;
/// - `b` as the second byte after `0` makes the literal binary; elsewhere it
///   fails unless the literal is hexadecimal;
/// - `f` is a digit in a hexadecimal literal; elsewhere, after a digit, it
///   is the float suffix (the deferred error, if there was one already),
///   and after anything else it fails;
/// - any other byte sets the deferred error.
pub open spec fn number_step(st: NumberState, b: u8, second: bool, after_digit: bool) -> NumberStep {
    if st.malformed {
        NumberStep::Continue(st)
    } else if b == 48 || b == 49 {
        NumberStep::Continue(if st.float { spoiled(st) } else { st })
    } else if 50 <= b <= 55 {
        if st.float {
            NumberStep::Continue(spoiled(st))
        } else if st.base == NumberBase::Binary {
            NumberStep::Fail(LexErrorKind::BinaryOverflow)
        } else {
            NumberStep::Continue(st)
        }
    } else if b == 56 || b == 57 {
        if st.float {
            NumberStep::Continue(spoiled(st))
        } else if st.base == NumberBase::Binary {
            NumberStep::Fail(LexErrorKind::BinaryOverflow)
        } else if st.base == NumberBase::Octal {
            NumberStep::Fail(LexErrorKind::OctalOverflow)
        } else {
            NumberStep::Continue(st)
        }
    } else if is_plain_hex_letter(b) {
        if st.float {
            NumberStep::Continue(spoiled(st))
        } else {
            out_of_range(st)
        }
    } else if b == 120 || b == 88 {
        if st.base == NumberBase::Octal && second {
            NumberStep::Continue(NumberState { base: NumberBase::Hexadecimal, ..st })
        } else {
            NumberStep::Continue(spoiled(st))
        }
    } else if b == 98 || b == 66 {
        if st.base == NumberBase::Octal && second {
            NumberStep::Continue(NumberState { base: NumberBase::Binary, ..st })
        } else {
            out_of_range(st)
        }
    } else if b == 102 || b == 70 {
        if st.base == NumberBase::Hexadecimal {
            NumberStep::Continue(st)
        } else if after_digit {
            if st.float {
                NumberStep::Continue(spoiled(st))
            } else {
                NumberStep::Continue(NumberState { float: true, ..st })
            }
        } else {
            out_of_range(st)
        }
    } else {
        NumberStep::Continue(spoiled(st))
    }
}

/// How a run of digits and letters ends.
pub enum NumberEnd {
    /// The run is a numeric literal that ends before index `end`.
    Accept { end: int },
    /// The run is no literal: the failure, and the index it is reported at.
    Reject { kind: LexErrorKind, at: int },
}

/// The fate of the run that starts at `start`, scanned up to `i` with
/// state `st`: it ends at the first terminator or at the end of the input,
/// as a literal unless the deferred error is set; a byte out of range for
/// its base ends it at once.
pub open spec fn number_run(bytes: Seq<u8>, start: int, i: int, st: NumberState) -> NumberEnd
    decreases bytes.len() - i,
{
    if i >= bytes.len() || is_terminator(bytes[i]) {
        if st.malformed {
            NumberEnd::Reject { kind: LexErrorKind::DigitStartsIdentifier, at: start }
        } else {
            NumberEnd::Accept { end: i }
        }
    } else {
        match number_step(st, bytes[i], i == start + 1, is_digit(bytes[i - 1])) {
            NumberStep::Continue(next) => number_run(bytes, start, i + 1, next),
            NumberStep::Fail(kind) => NumberEnd::Reject { kind, at: i },
        }
    }
}

/// The fate of the run whose first digit is at `start`.
pub open spec fn number_end(bytes: Seq<u8>, start: int) -> NumberEnd {
    number_run(bytes, start, start + 1, number_start(bytes[start]))
}

impl NumberState {
    /// The state after the first digit.
    pub fn start(first: u8) -> (st: NumberState)
        ensures
            st == number_start(first),
    {
        NumberState {
            base: if first == 48 {
                NumberBase::Octal
            } else {
                NumberBase::Decimal
            },
            float: false,
            malformed: false,
        }
    }

    fn spoil(self) -> (r: NumberStep)
        ensures
            r == NumberStep::Continue(spoiled(self)),
    {
        NumberStep::Continue(NumberState { base: self.base, float: self.float, malformed: true })
    }

    fn overflow(self) -> (r: NumberStep)
        ensures
            r == out_of_range(self),
    {
        match self.base {
            NumberBase::Binary => NumberStep::Fail(LexErrorKind::BinaryOverflow),
            NumberBase::Octal => NumberStep::Fail(LexErrorKind::OctalOverflow),
            NumberBase::Decimal => NumberStep::Fail(LexErrorKind::DecimalOverflow),
            NumberBase::Hexadecimal => NumberStep::Continue(self),
        }
    }

    /// The effect of one more byte, which is no terminator.
    pub fn step(self, b: u8, second: bool, after_digit: bool) -> (r: NumberStep)
        ensures
            r == number_step(self, b, second, after_digit),
    {
        if self.malformed {
            return NumberStep::Continue(self);
        }
        match b {
            48 | 49 => if self.float {
                self.spoil()
            } else {
                NumberStep::Continue(self)
            },
            50..=57 => {
                if self.float {
                    self.spoil()
                } else {
                    match self.base {
                        NumberBase::Binary => NumberStep::Fail(LexErrorKind::BinaryOverflow),
                        NumberBase::Octal if b >= 56 => NumberStep::Fail(
                            LexErrorKind::OctalOverflow,
                        ),
                        _ => NumberStep::Continue(self),
                    }
                }
            },
            97 | 65 | 99..=101 | 67..=69 => if self.float {
                self.spoil()
            } else {
                self.overflow()
            },
            120 | 88 => match self.base {
                NumberBase::Octal if second => NumberStep::Continue(
                    NumberState {
                        base: NumberBase::Hexadecimal,
                        float: self.float,
                        malformed: false,
                    },
                ),
                _ => self.spoil(),
            },
            98 | 66 => match self.base {
                NumberBase::Octal if second => NumberStep::Continue(
                    NumberState { base: NumberBase::Binary, float: self.float, malformed: false },
                ),
                _ => self.overflow(),
            },
            102 | 70 => match self.base {
                NumberBase::Hexadecimal => NumberStep::Continue(self),
                _ => if !after_digit {
                    self.overflow()
                } else if self.float {
                    self.spoil()
                } else {
                    NumberStep::Continue(
                        NumberState { base: self.base, float: true, malformed: false },
                    )
                },
            },
            _ => self.spoil(),
        }
    }
}

} // verus!
