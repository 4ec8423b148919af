//! Lines and columns as a function of the bytes that were consumed.

use vstd::prelude::*;

verus! {

/// A line and a column, both counted from 1.
pub struct Position {
    pub line: int,
    pub column: int,
}

/// The position after one more byte: a line feed starts the next line at
/// column 1, any other byte moves one column to the right.
pub open spec fn step_position(p: Position, b: u8) -> Position {
    if b == 10u8 {
        Position { line: p.line + 1, column: 1 }
    } else {
        Position { line: p.line, column: p.column + 1 }
    }
}

/// The position reached from `p` after consuming all of `s`, byte by byte.
pub open spec fn advance(p: Position, s: Seq<u8>) -> Position
    decreases s.len(),
{
    if s.len() == 0 {
        p
    } else {
        step_position(advance(p, s.drop_last()), s.last())
    }
}

/// Consuming `s` and then one byte `b` is consuming `s.push(b)`.
pub proof fn lemma_advance_push(p: Position, s: Seq<u8>, b: u8)
    ensures
        advance(p, s.push(b)) == step_position(advance(p, s), b),
{
    assert(s.push(b).drop_last() =~= s);
}

/// Consuming one byte more of `bytes` is one step from where the bytes
/// before it lead.
pub proof fn lemma_advance_next(p: Position, bytes: Seq<u8>, start: int, idx: int)
    requires
        0 <= start <= idx < bytes.len(),
    ensures
        advance(p, bytes.subrange(start, idx + 1)) == step_position(
            advance(p, bytes.subrange(start, idx)),
            bytes[idx],
        ),
{
    assert(bytes.subrange(start, idx + 1) =~= bytes.subrange(start, idx).push(bytes[idx]));
    lemma_advance_push(p, bytes.subrange(start, idx), bytes[idx]);
}

/// Consuming `a` and then `b` is consuming their concatenation.
pub proof fn lemma_advance_concat(p: Position, a: Seq<u8>, b: Seq<u8>)
    ensures
        advance(p, a + b) == advance(advance(p, a), b),
    decreases b.len(),
{
    if b.len() == 0 {
        assert(a + b =~= a);
    } else {
        assert((a + b).drop_last() =~= a + b.drop_last());
        lemma_advance_concat(p, a, b.drop_last());
    }
}

/// The number of line feeds in `s`.
pub open spec fn line_feeds(s: Seq<u8>) -> nat
    decreases s.len(),
{
    if s.len() == 0 {
        0
    } else if s.last() == 10u8 {
        line_feeds(s.drop_last()) + 1
    } else {
        line_feeds(s.drop_last())
    }
}

/// The number of bytes of `s` after its last line feed; all of them if it
/// has none.
pub open spec fn last_line_width(s: Seq<u8>) -> nat
    decreases s.len(),
{
    if s.len() == 0 || s.last() == 10u8 {
        0
    } else {
        last_line_width(s.drop_last()) + 1
    }
}

/// Where consuming `s` leads, in closed form: the line grows by the number
/// of line feeds in `s`; the column grows by the length of `s` if `s` has no
/// line feed, and else is one more than the number of bytes after the last
/// one.
pub proof fn lemma_advance_counts(p: Position, s: Seq<u8>)
    ensures
        advance(p, s).line == p.line + line_feeds(s),
        line_feeds(s) == 0 ==> advance(p, s).column == p.column + s.len() && last_line_width(s)
            == s.len(),
        line_feeds(s) > 0 ==> advance(p, s).column == 1 + last_line_width(s),
    decreases s.len(),
{
    if s.len() > 0 {
        lemma_advance_counts(p, s.drop_last());
    }
}

/// A position never moves by more than the number of bytes consumed, and
/// stays at or after line 1, column 1 if it started there.
pub proof fn lemma_advance_bounds(p: Position, s: Seq<u8>)
    ensures
        p.line <= advance(p, s).line <= p.line + s.len(),
        p.column >= 1 ==> 1 <= advance(p, s).column <= p.column + s.len(),
    decreases s.len(),
{
    if s.len() > 0 {
        lemma_advance_bounds(p, s.drop_last());
    }
}

} // verus!
