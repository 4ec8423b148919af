//! The numeric literals, as a grammar, and the proof that the scanner
//! accepts exactly these.

use crate::bytes::{is_digit, is_terminator};
use crate::number::{
    number_end, number_run, number_start, number_step, NumberBase, NumberEnd, NumberState,
    NumberStep,
};
use vstd::prelude::*;

verus! {

/// `0` to `9`, `a` to `f` and `A` to `F`.
pub open spec fn is_hex_digit(b: u8) -> bool {
    is_digit(b) || (97 <= b <= 102) || (65 <= b <= 70)
}

/// `f` or `F`.
pub open spec fn is_float_suffix(b: u8) -> bool {
    b == 102 || b == 70
}

/// Whether `b` is a digit of the base.
pub open spec fn is_digit_of(base: NumberBase, b: u8) -> bool {
    match base {
        NumberBase::Binary => b == 48 || b == 49,
        NumberBase::Octal => 48 <= b <= 55,
        NumberBase::Decimal => is_digit(b),
        NumberBase::Hexadecimal => is_hex_digit(b),
    }
}

/// The base that the first `n` bytes of the run `s` decide: `0x` makes it
/// hexadecimal, `0b` binary, another leading `0` octal; any other run is
/// decimal.
pub open spec fn base_of(s: Seq<u8>, n: int) -> NumberBase {
    if s[0] != 48 {
        NumberBase::Decimal
    } else if n >= 2 && (s[1] == 120 || s[1] == 88) {
        NumberBase::Hexadecimal
    } else if n >= 2 && (s[1] == 98 || s[1] == 66) {
        NumberBase::Binary
    } else {
        NumberBase::Octal
    }
}

/// Where the digits of a literal of this base begin: after the prefix
/// `0x` or `0b`, or after the first digit.
pub open spec fn digits_from(base: NumberBase) -> int {
    match base {
        NumberBase::Binary | NumberBase::Hexadecimal => 2,
        _ => 1,
    }
}

/// Whether byte `k` of the run `s` may stand where it does in a literal of
/// this base: it is a digit of the base, or it is the last byte, a float
/// suffix that follows a digit, and the base is not hexadecimal.
pub open spec fn fits(s: Seq<u8>, base: NumberBase, k: int) -> bool {
    is_digit_of(base, s[k]) || (base != NumberBase::Hexadecimal && k == s.len() - 1
        && is_float_suffix(s[k]) && is_digit(s[k - 1]))
}

/// The numeric literals:
/// - `0x` or `0X` and any number of hexadecimal digits;
/// - `0b` or `0B` and any number of binary digits;
/// - `0` and any number of octal digits;
/// - a digit other than `0` and any number of decimal digits;
/// where all but the hexadecimal ones may end in `f` or `F` after a digit.
pub open spec fn is_literal(s: Seq<u8>) -> bool {
    let base = base_of(s, s.len() as int);
    &&& s.len() >= 1
    &&& is_digit(s[0])
    &&& forall|k: int| digits_from(base) <= k < s.len() ==> #[trigger] fits(s, base, k)
}

/// The index of the first terminator at or after `j`, or the length of the
/// input if there is none.
pub open spec fn run_end(bytes: Seq<u8>, j: int) -> int
    decreases bytes.len() - j,
{
    if j < 0 || j >= bytes.len() || is_terminator(bytes[j]) {
        j
    } else {
        run_end(bytes, j + 1)
    }
}

/// Where a run ends: at or after where the search began, at a terminator
/// or at the end of the input, with no terminator before it.
pub proof fn lemma_run_end(bytes: Seq<u8>, j: int)
    requires
        0 <= j <= bytes.len(),
    ensures
        j <= run_end(bytes, j) <= bytes.len(),
        run_end(bytes, j) == bytes.len() || is_terminator(bytes[run_end(bytes, j)]),
        forall|k: int| j <= k < run_end(bytes, j) ==> !is_terminator(#[trigger] bytes[k]),
    decreases bytes.len() - j,
{
    if j < bytes.len() && !is_terminator(bytes[j]) {
        lemma_run_end(bytes, j + 1);
    }
}

/// What the state after `n` bytes of the run `s` says of the run: with the
/// deferred error set, that the run is no literal; without it, the base
/// that the bytes so far decide, that each of them fits so far, and whether
/// the last of them is a float suffix.
pub open spec fn describes(st: NumberState, s: Seq<u8>, n: int) -> bool {
    if st.malformed {
        !is_literal(s)
    } else {
        let from = digits_from(st.base);
        &&& st.base == base_of(s, n)
        &&& from <= n
        &&& forall|k: int|
            from <= k < n && (k < n - 1 || !st.float) ==> is_digit_of(st.base, #[trigger] s[k])
        &&& st.float ==> n >= 2 && st.base != NumberBase::Hexadecimal && is_float_suffix(s[n - 1])
            && is_digit(s[n - 2])
    }
}

/// A byte that does not fit makes the run no literal.
proof fn lemma_misfit(s: Seq<u8>, k: int)
    requires
        digits_from(base_of(s, s.len() as int)) <= k < s.len(),
        !fits(s, base_of(s, s.len() as int), k),
    ensures
        !is_literal(s),
{
}

/// The scan of a run from byte `i` on, in a state that describes the
/// bytes before it, accepts the run if and only if it is a literal.
proof fn lemma_run_accepts_literals(bytes: Seq<u8>, start: int, i: int, st: NumberState)
    requires
        0 <= start < i <= run_end(bytes, start + 1),
        start < bytes.len(),
        is_digit(bytes[start]),
        describes(st, bytes.subrange(start, run_end(bytes, start + 1)), i - start),
    ensures
        match number_run(bytes, start, i, st) {
            NumberEnd::Accept { end } => end == run_end(bytes, start + 1) && is_literal(
                bytes.subrange(start, end),
            ),
            NumberEnd::Reject { .. } => !is_literal(
                bytes.subrange(start, run_end(bytes, start + 1)),
            ),
        },
    decreases bytes.len() - i,
{
    let end = run_end(bytes, start + 1);
    let s = bytes.subrange(start, end);
    let n = i - start;
    lemma_run_end(bytes, start + 1);
    if i >= bytes.len() || is_terminator(bytes[i]) {
        assert(i == end);
        if !st.malformed {
            assert forall|k: int| digits_from(st.base) <= k < s.len() implies #[trigger] fits(
                s,
                st.base,
                k,
            ) by {
                assert(k < n - 1 || !st.float ==> is_digit_of(st.base, s[k]));
            }
        }
    } else {
        assert(i < end);
        assert(s[n] == bytes[i]);
        assert(s[n - 1] == bytes[i - 1]);
        let b = bytes[i];
        let full = base_of(s, s.len() as int);
        match number_step(st, b, i == start + 1, is_digit(bytes[i - 1])) {
            NumberStep::Continue(next) => {
                if next.malformed && !st.malformed {
                    if st.float {
                        lemma_misfit(s, n - 1);
                    } else {
                        lemma_misfit(s, n);
                    }
                }
                assert(describes(next, s, n + 1)) by {
                    if !next.malformed {
                        assert forall|k: int|
                            digits_from(next.base) <= k < n + 1 && (k < n || !next.float)
                                implies is_digit_of(next.base, #[trigger] s[k]) by {
                            if k < n {
                                assert(is_digit_of(st.base, s[k]));
                            }
                        }
                    }
                }
                lemma_run_accepts_literals(bytes, start, i + 1, next);
            },
            NumberStep::Fail(_) => {
                assert(full == st.base);
                lemma_misfit(s, n);
            },
        }
    }
}

/// The numeric literal scanner accepts a run of bytes, from a digit up to
/// the next terminator or the end of the input, if and only if the run is
/// a literal of the grammar; and it always takes the whole run.
pub proof fn lemma_scanner_accepts_literals(bytes: Seq<u8>, start: int)
    requires
        0 <= start < bytes.len(),
        is_digit(bytes[start]),
    ensures
        number_end(bytes, start) is Accept <==> is_literal(
            bytes.subrange(start, run_end(bytes, start + 1)),
        ),
        number_end(bytes, start) matches NumberEnd::Accept { end } ==> end == run_end(
            bytes,
            start + 1,
        ),
{
    lemma_run_end(bytes, start + 1);
    let s = bytes.subrange(start, run_end(bytes, start + 1));
    assert(s[0] == bytes[start]);
    lemma_run_accepts_literals(bytes, start, start + 1, number_start(bytes[start]));
}

} // verus!
