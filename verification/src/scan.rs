//! What each scanner makes of the bytes at an index, as mathematics.
//!
//! A scanner is offered the input and an index. It declines, or it consumes
//! the bytes up to some end and yields one token, or it fails. The
//! functions here say which, for every input; the executable scanners are
//! proved against them.

use crate::bytes::{
    is_digit, is_ident_continue, is_ident_start, is_non_ascii, is_punctuation, is_terminator,
    BACKSLASH, DOUBLE_QUOTE, LINE_FEED, SINGLE_QUOTE, SLASH, SPACE, STAR,
};
use crate::error::{LexErrorKind, LexErrorView};
use crate::number::{number_end, number_run, number_step, NumberEnd, NumberState, NumberStep};
use crate::position::{advance, Position};
use crate::token::{LocationView, OperatorType, TokenType, TokenView};
use vstd::prelude::*;

verus! {

/// What a scanner makes of the input at an index.
#[allow(inconsistent_fields)]
pub enum Outcome {
    /// The scanner does not start here. Nothing is consumed.
    Declined,
    /// The bytes from the index up to `end` are one token of this kind.
    Token { kind: TokenType, end: int },
    /// The scan fails, and the failure is reported at byte `at`.
    Failed { kind: LexErrorKind, at: int },
}

/// The index of the `*` of the first `*/` that starts at or after `j`.
pub open spec fn block_close(bytes: Seq<u8>, j: int) -> Option<int>
    decreases bytes.len() - j,
{
    if j + 1 >= bytes.len() {
        None
    } else if bytes[j] == STAR && bytes[j + 1] == SLASH {
        Some(j)
    } else {
        block_close(bytes, j + 1)
    }
}

/// The index of the first line feed at or after `j`, or the length of the
/// input if there is none.
pub open spec fn line_end(bytes: Seq<u8>, j: int) -> int
    decreases bytes.len() - j,
{
    if j >= bytes.len() || bytes[j] == LINE_FEED {
        j
    } else {
        line_end(bytes, j + 1)
    }
}

/// Comments. `/*` opens a block comment, which runs up to and including
/// the first `*/` after the opener and fails without one. `//` opens a line
/// comment, which runs up to the next line feed or the end of the input; the
/// line feed is not part of it. A `/` that is the last byte, or that neither
/// `*` nor `/` follows, is declined.
pub open spec fn note_outcome(bytes: Seq<u8>, i: int) -> Outcome {
    if i + 1 >= bytes.len() || bytes[i] != SLASH {
        Outcome::Declined
    } else if bytes[i + 1] == STAR {
        match block_close(bytes, i + 2) {
            Some(j) => Outcome::Token { kind: TokenType::Note, end: j + 2 },
            None => Outcome::Failed { kind: LexErrorKind::UnterminatedComment, at: i },
        }
    } else if bytes[i + 1] == SLASH {
        Outcome::Token { kind: TokenType::Note, end: line_end(bytes, i + 2) }
    } else {
        Outcome::Declined
    }
}

/// One line feed.
pub open spec fn new_line_outcome(bytes: Seq<u8>, i: int) -> Outcome {
    if bytes[i] == LINE_FEED {
        Outcome::Token { kind: TokenType::NewLine, end: i + 1 }
    } else {
        Outcome::Declined
    }
}

/// One space. Tabs and other blank bytes are not recognized.
pub open spec fn space_outcome(bytes: Seq<u8>, i: int) -> Outcome {
    if bytes[i] == SPACE {
        Outcome::Token { kind: TokenType::Space, end: i + 1 }
    } else {
        Outcome::Declined
    }
}

/// The index of the first quote byte `q` at or after `j` that no backslash
/// stands directly before.
pub open spec fn quote_close(bytes: Seq<u8>, q: u8, j: int) -> Option<int>
    decreases bytes.len() - j,
{
    if j < 1 || j >= bytes.len() {
        None
    } else if bytes[j] == q && bytes[j - 1] != BACKSLASH {
        Some(j)
    } else {
        quote_close(bytes, q, j + 1)
    }
}

/// String literals. `"` opens one; it runs up to and including the first
/// `"` that no backslash stands directly before, over line feeds too, and
/// fails without one. Escapes are not interpreted.
pub open spec fn string_outcome(bytes: Seq<u8>, i: int) -> Outcome {
    if bytes[i] != DOUBLE_QUOTE {
        Outcome::Declined
    } else {
        match quote_close(bytes, DOUBLE_QUOTE, i + 1) {
            Some(j) => Outcome::Token { kind: TokenType::Str, end: j + 1 },
            None => Outcome::Failed { kind: LexErrorKind::UnterminatedString, at: i },
        }
    }
}

/// The fate of the char literal that opens at `start`, scanned up to `j`.
/// `budget` is the greatest distance from `start` at which a byte may
/// still be read: 2, or 3 once a backslash was read.
///
/// At each byte, in this order: the end of the input fails the literal as
/// unterminated; a byte beyond the budget fails it as too long; a `'` that
/// no backslash stands directly before ends it; a backslash raises the
/// budget to 3; a byte outside ASCII fails it.
pub open spec fn char_run(bytes: Seq<u8>, start: int, j: int, budget: int) -> Outcome
    decreases bytes.len() - j,
{
    if j < 1 || j >= bytes.len() {
        Outcome::Failed { kind: LexErrorKind::UnterminatedChar, at: start }
    } else if j - start > budget {
        Outcome::Failed { kind: LexErrorKind::CharTooLong, at: start }
    } else if bytes[j] == SINGLE_QUOTE && bytes[j - 1] != BACKSLASH {
        Outcome::Token { kind: TokenType::Char, end: j + 1 }
    } else if bytes[j] == BACKSLASH {
        char_run(bytes, start, j + 1, 3)
    } else if is_non_ascii(bytes[j]) {
        Outcome::Failed { kind: LexErrorKind::CharNotAscii(bytes[j]), at: j }
    } else {
        char_run(bytes, start, j + 1, budget)
    }
}

/// Char literals. `'` opens one; see [`char_run`].
pub open spec fn char_outcome(bytes: Seq<u8>, i: int) -> Outcome {
    if bytes[i] != SINGLE_QUOTE {
        Outcome::Declined
    } else {
        char_run(bytes, i, i + 1, 2)
    }
}

/// The index of the first byte at or after `j` that cannot continue an
/// identifier, or the length of the input if there is none.
pub open spec fn ident_end(bytes: Seq<u8>, j: int) -> int
    decreases bytes.len() - j,
{
    if j < 0 || j >= bytes.len() || !is_ident_continue(bytes[j]) {
        j
    } else {
        ident_end(bytes, j + 1)
    }
}

/// Identifiers. A letter or `_` starts one; it runs over letters, digits
/// and `_`. The byte after it must be a terminator, unless the input ends
/// there: any other byte fails the identifier.
pub open spec fn identifier_outcome(bytes: Seq<u8>, i: int) -> Outcome {
    if !is_ident_start(bytes[i]) {
        Outcome::Declined
    } else {
        let end = ident_end(bytes, i);
        if end >= bytes.len() || is_terminator(bytes[end]) {
            Outcome::Token { kind: TokenType::Identifier, end }
        } else {
            Outcome::Failed { kind: LexErrorKind::BadIdentifierByte(bytes[end]), at: i }
        }
    }
}

/// Operators. Every byte of ASCII punctuation is one operator token, and
/// every one is tagged `OpEq`.
pub open spec fn operator_outcome(bytes: Seq<u8>, i: int) -> Outcome {
    if is_punctuation(bytes[i]) {
        Outcome::Token { kind: TokenType::Operator(OperatorType::OpEq), end: i + 1 }
    } else {
        Outcome::Declined
    }
}

/// Numeric literals. A digit starts one; see
/// [`number_run`](crate::number::number_run).
pub open spec fn number_outcome(bytes: Seq<u8>, i: int) -> Outcome {
    if !is_digit(bytes[i]) {
        Outcome::Declined
    } else {
        match number_end(bytes, i) {
            NumberEnd::Accept { end } => Outcome::Token { kind: TokenType::Number, end },
            NumberEnd::Reject { kind, at } => Outcome::Failed { kind, at },
        }
    }
}

/// `first`, unless it declines; then `second`.
pub open spec fn or_else(first: Outcome, second: Outcome) -> Outcome {
    if first is Declined {
        second
    } else {
        first
    }
}

/// One step of the scan at index `i`, which is inside the input: the
/// scanners are tried in the order comment, line feed, space, string
/// literal, char literal, identifier, operator, numeric literal, and the
/// first that does not decline decides. `Declined` means that all of them
/// declined.
pub open spec fn dispatch(bytes: Seq<u8>, i: int) -> Outcome {
    or_else(
        note_outcome(bytes, i),
        or_else(
            new_line_outcome(bytes, i),
            or_else(
                space_outcome(bytes, i),
                or_else(
                    string_outcome(bytes, i),
                    or_else(
                        char_outcome(bytes, i),
                        or_else(
                            identifier_outcome(bytes, i),
                            or_else(operator_outcome(bytes, i), number_outcome(bytes, i)),
                        ),
                    ),
                ),
            ),
        ),
    )
}

/// A scanner's state as plain values: the file's name, the tokens so far,
/// and the cursor (the index of the next byte, with its line and column).
#[verifier::ext_equal]
pub struct LexView {
    pub file: Seq<char>,
    pub tokens: Seq<TokenView>,
    pub index: int,
    pub line: int,
    pub column: int,
}

impl LexView {
    /// The cursor is inside the file or at its end, lines and columns
    /// start at 1, and neither has grown by more than the number of bytes
    /// consumed.
    pub open spec fn wf(self) -> bool {
        0 <= self.index && 1 <= self.line <= self.index + 1 && 1 <= self.column <= self.index + 1
    }

    /// The line and column of the cursor.
    pub open spec fn position(self) -> Position {
        Position { line: self.line, column: self.column }
    }

    /// The location of the cursor.
    pub open spec fn location(self) -> LocationView {
        LocationView { file: self.file, line: self.line, column: self.column }
    }

    /// The line and column of byte `at`, which is at or after the cursor.
    pub open spec fn position_at(self, bytes: Seq<u8>, at: int) -> Position {
        advance(self.position(), bytes.subrange(self.index, at))
    }

    /// The location of byte `at`, which is at or after the cursor.
    pub open spec fn location_at(self, bytes: Seq<u8>, at: int) -> LocationView {
        let p = self.position_at(bytes, at);
        LocationView { file: self.file, line: p.line, column: p.column }
    }

    /// The state after the bytes from the cursor up to `end` became a token
    /// of kind `kind`: the token is located at the old cursor and holds
    /// exactly those bytes; the cursor stands at `end`, with the line and
    /// column that the consumed bytes lead to.
    pub open spec fn emit(self, bytes: Seq<u8>, kind: TokenType, end: int) -> LexView {
        let p = self.position_at(bytes, end);
        LexView {
            file: self.file,
            tokens: self.tokens.push(
                TokenView {
                    loc: self.location(),
                    kind,
                    lexeme: bytes.subrange(self.index, end),
                },
            ),
            index: end,
            line: p.line,
            column: p.column,
        }
    }

    /// The state after one byte was skipped without a token: one byte and
    /// one column further.
    pub open spec fn skip(self) -> LexView {
        LexView { index: self.index + 1, column: self.column + 1, ..self }
    }

    /// The failure of kind `kind` reported at byte `at`.
    pub open spec fn failure(self, bytes: Seq<u8>, kind: LexErrorKind, at: int) -> LexErrorView {
        LexErrorView { kind, loc: self.location_at(bytes, at) }
    }

    /// What an outcome does to the state `self`, and what the scanner
    /// returns. Declining and failing leave the state as it is.
    pub open spec fn apply(self, bytes: Seq<u8>, outcome: Outcome) -> (LexView, Result<
        bool,
        LexErrorView,
    >) {
        match outcome {
            Outcome::Declined => (self, Ok(false)),
            Outcome::Token { kind, end } => (self.emit(bytes, kind, end), Ok(true)),
            Outcome::Failed { kind, at } => (self, Err(self.failure(bytes, kind, at))),
        }
    }

    /// One step of the scan: what [`dispatch`] decides, except that a byte
    /// that every scanner declines is skipped.
    pub open spec fn step(self, bytes: Seq<u8>) -> (LexView, Option<LexErrorView>) {
        match dispatch(bytes, self.index) {
            Outcome::Declined => (self.skip(), None),
            Outcome::Token { kind, end } => (self.emit(bytes, kind, end), None),
            Outcome::Failed { kind, at } => (self, Some(self.failure(bytes, kind, at))),
        }
    }

    /// The whole scan from the cursor on: steps until the cursor reaches
    /// the end of the input or a step fails. The result is the state at
    /// that point and the failure, if there was one.
    pub open spec fn run(self, bytes: Seq<u8>) -> (LexView, Option<LexErrorView>)
        decreases bytes.len() - self.index,
        via Self::run_decreases
    {
        if self.index < 0 || self.index >= bytes.len() {
            (self, None)
        } else {
            let (next, error) = self.step(bytes);
            if error is Some {
                (next, error)
            } else {
                next.run(bytes)
            }
        }
    }

    /// Whether `after` and `error` are what a scan of `bytes` from this
    /// state ends in.
    pub open spec fn scanned(
        self,
        bytes: Seq<u8>,
        after: LexView,
        error: Option<LexErrorView>,
    ) -> bool {
        after == self.run(bytes).0 && error == self.run(bytes).1
    }

    #[via_fn]
    proof fn run_decreases(self, bytes: Seq<u8>) {
        if 0 <= self.index < bytes.len() {
            lemma_dispatch_bounds(bytes, self.index);
        }
    }
}


/// A block comment's closer lies at or after where the search began, with
/// its second byte inside the input.
pub proof fn lemma_block_close_bounds(bytes: Seq<u8>, j: int)
    ensures
        block_close(bytes, j) matches Some(k) ==> j <= k && k + 1 < bytes.len() && bytes[k] == STAR
            && bytes[k + 1] == SLASH,
    decreases bytes.len() - j,
{
    if j + 1 < bytes.len() && !(bytes[j] == STAR && bytes[j + 1] == SLASH) {
        lemma_block_close_bounds(bytes, j + 1);
    }
}

/// A line ends at or after where the search began, and inside the input or
/// at its end.
pub proof fn lemma_line_end_bounds(bytes: Seq<u8>, j: int)
    requires
        j <= bytes.len(),
    ensures
        j <= line_end(bytes, j) <= bytes.len(),
    decreases bytes.len() - j,
{
    if j < bytes.len() && bytes[j] != LINE_FEED {
        lemma_line_end_bounds(bytes, j + 1);
    }
}

/// A closing quote lies at or after where the search began, inside the
/// input.
pub proof fn lemma_quote_close_bounds(bytes: Seq<u8>, q: u8, j: int)
    ensures
        quote_close(bytes, q, j) matches Some(k) ==> j <= k < bytes.len() && bytes[k] == q,
    decreases bytes.len() - j,
{
    if 1 <= j < bytes.len() && !(bytes[j] == q && bytes[j - 1] != BACKSLASH) {
        lemma_quote_close_bounds(bytes, q, j + 1);
    }
}

/// A char literal never declines once opened, ends after where the scan
/// stands, and fails at a byte between its opener and the end of the input.
pub proof fn lemma_char_run_bounds(bytes: Seq<u8>, start: int, j: int, budget: int)
    requires
        0 <= start < j,
        start < bytes.len(),
    ensures
        !(char_run(bytes, start, j, budget) is Declined),
        char_run(bytes, start, j, budget) matches Outcome::Token { end, .. } ==> j < end
            <= bytes.len(),
        char_run(bytes, start, j, budget) matches Outcome::Failed { at, .. } ==> start <= at
            < bytes.len(),
    decreases bytes.len() - j,
{
    if j < bytes.len() && j - start <= budget && !(bytes[j] == SINGLE_QUOTE && bytes[j - 1]
        != BACKSLASH) {
        if bytes[j] == BACKSLASH {
            lemma_char_run_bounds(bytes, start, j + 1, 3);
        } else if !is_non_ascii(bytes[j]) {
            lemma_char_run_bounds(bytes, start, j + 1, budget);
        }
    }
}

/// An identifier ends at or after where the search began, and inside the
/// input or at its end.
pub proof fn lemma_ident_end_bounds(bytes: Seq<u8>, j: int)
    requires
        0 <= j <= bytes.len(),
    ensures
        j <= ident_end(bytes, j) <= bytes.len(),
        j < bytes.len() && is_ident_continue(bytes[j]) ==> j < ident_end(bytes, j),
    decreases bytes.len() - j,
{
    if j < bytes.len() && is_ident_continue(bytes[j]) {
        lemma_ident_end_bounds(bytes, j + 1);
    }
}

/// A numeric literal ends at or after where the scan stands, and fails at
/// its first byte or at a byte at or after where the scan stands, inside
/// the input.
pub proof fn lemma_number_run_bounds(bytes: Seq<u8>, start: int, i: int, st: NumberState)
    requires
        0 <= start < i <= bytes.len(),
    ensures
        number_run(bytes, start, i, st) matches NumberEnd::Accept { end } ==> i <= end
            <= bytes.len(),
        number_run(bytes, start, i, st) matches NumberEnd::Reject { at, .. } ==> start <= at
            < bytes.len(),
    decreases bytes.len() - i,
{
    if i < bytes.len() && !is_terminator(bytes[i]) {
        match number_step(st, bytes[i], i == start + 1, is_digit(bytes[i - 1])) {
            NumberStep::Continue(next) => lemma_number_run_bounds(bytes, start, i + 1, next),
            NumberStep::Fail(_) => {},
        }
    }
}

/// Every scanner's token ends after the index it was offered and inside
/// the input or at its end; every failure is reported at a byte from that
/// index on, inside the input.
pub proof fn lemma_dispatch_bounds(bytes: Seq<u8>, i: int)
    requires
        0 <= i < bytes.len(),
    ensures
        forall|o: Outcome| #[trigger]
            offered(bytes, i, o) ==> {
                &&& o matches Outcome::Token { end, .. } ==> i < end <= bytes.len()
                &&& o matches Outcome::Failed { at, .. } ==> i <= at < bytes.len()
            },
        offered(bytes, i, dispatch(bytes, i)),
{
    lemma_block_close_bounds(bytes, i + 2);
    if i + 2 <= bytes.len() {
        lemma_line_end_bounds(bytes, i + 2);
    }
    lemma_quote_close_bounds(bytes, DOUBLE_QUOTE, i + 1);
    lemma_char_run_bounds(bytes, i, i + 1, 2);
    lemma_ident_end_bounds(bytes, i);
    lemma_number_run_bounds(bytes, i, i + 1, crate::number::number_start(bytes[i]));
}

/// Whether `o` is what one of the scanners, or all of them in turn, make
/// of the input at `i`.
pub open spec fn offered(bytes: Seq<u8>, i: int, o: Outcome) -> bool {
    ||| o == note_outcome(bytes, i)
    ||| o == new_line_outcome(bytes, i)
    ||| o == space_outcome(bytes, i)
    ||| o == string_outcome(bytes, i)
    ||| o == char_outcome(bytes, i)
    ||| o == identifier_outcome(bytes, i)
    ||| o == operator_outcome(bytes, i)
    ||| o == number_outcome(bytes, i)
    ||| o == dispatch(bytes, i)
}

} // verus!
