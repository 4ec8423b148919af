//! The scanner: a cursor over the bytes of one source file, the scanners
//! that it is offered to, and the loop that drives them.

use crate::bytes::{
    digit, ident_continue, ident_start, punctuation, terminator, BACKSLASH, DOUBLE_QUOTE,
    LINE_FEED, SINGLE_QUOTE, SLASH, SPACE, STAR,
};
use crate::error::{LexError, LexErrorKind, LexErrorView};
use crate::number::{number_end, number_run, NumberState, NumberStep};
use crate::position::{lemma_advance_next, step_position, Position};
use crate::scan::{
    block_close, char_outcome, char_run, ident_end, identifier_outcome, lemma_dispatch_bounds,
    line_end, new_line_outcome, note_outcome, number_outcome, operator_outcome, quote_close,
    space_outcome, string_outcome, LexView,
};
use crate::token::{dump, dump_string, token_views, TokenView};
pub use crate::token::{KeyWordType, Location, OperatorType, Token, TokenType};
use vstd::prelude::*;
use vstd::slice::slice_subrange;
use vstd::utf8::encode_utf8;

verus! {

/// A scan position: the index of the next byte, with its line and column.
#[derive(Debug, Clone, Copy, PartialEq, Eq, Structural)]
pub struct Cursor {
    pub index: usize,
    pub line: usize,
    pub column: usize,
}

impl Cursor {
    /// The line and column of the cursor.
    pub open spec fn position(self) -> Position {
        Position { line: self.line as int, column: self.column as int }
    }

    /// Lines and columns start at 1, and neither has grown by more than
    /// the number of bytes consumed.
    pub open spec fn inv(self) -> bool {
        1 <= self.line <= self.index + 1 && 1 <= self.column <= self.index + 1
    }

    /// The cursor at the start of a file: index 0, line 1, column 1.
    pub fn start() -> (c: Cursor)
        ensures
            c == (Cursor { index: 0, line: 1, column: 1 }),
            c.inv(),
    {
        Cursor { index: 0, line: 1, column: 1 }
    }

    /// The cursor after consuming byte `b`.
    pub fn step(self, b: u8) -> (c: Cursor)
        requires
            self.inv(),
            self.index + 1 < usize::MAX,
        ensures
            c.inv(),
            c.index == self.index + 1,
            c.position() == step_position(self.position(), b),
    {
        if b == LINE_FEED {
            Cursor { index: self.index + 1, line: self.line + 1, column: 1 }
        } else {
            Cursor { index: self.index + 1, line: self.line, column: self.column + 1 }
        }
    }
}

/// Whether `cur` is where a scan that set out from `from` stands after
/// consuming the bytes between the two.
pub open spec fn tracks(from: LexView, bytes: Seq<u8>, cur: Cursor) -> bool {
    &&& 0 <= from.index <= cur.index <= bytes.len()
    &&& cur.inv()
    &&& cur.position() == from.position_at(bytes, cur.index as int)
}

/// Moves `cur` over the byte it stands on.
fn advance_cursor(bytes: &[u8], cur: Cursor, Ghost(from): Ghost<LexView>) -> (c: Cursor)
    requires
        tracks(from, bytes@, cur),
        cur.index < bytes@.len() < usize::MAX,
    ensures
        tracks(from, bytes@, c),
        c.index == cur.index + 1,
{
    proof {
        lemma_advance_next(from.position(), bytes@, from.index, cur.index as int);
    }
    cur.step(bytes[cur.index])
}

/// What a scanner returned, as plain values.
pub open spec fn result_view(res: Result<bool, LexError>) -> Result<bool, LexErrorView> {
    match res {
        Ok(b) => Ok(b),
        Err(e) => Err(e@),
    }
}

/// The failure that a scan returned, if any, as plain values.
pub open spec fn error_view(res: Result<(), LexError>) -> Option<LexErrorView> {
    match res {
        Ok(_) => None,
        Err(e) => Some(e@),
    }
}

/// The scanner of one source file.
#[derive(Debug)]
pub struct Lex {
    file: String,
    tokens: Vec<Token>,
    cursor: Cursor,
}

impl View for Lex {
    type V = LexView;

    closed spec fn view(&self) -> LexView {
        LexView {
            file: self.file@,
            tokens: token_views(self.tokens@),
            index: self.cursor.index as int,
            line: self.cursor.line as int,
            column: self.cursor.column as int,
        }
    }
}

impl Lex {
    /// A scanner for the file named `file`, with no tokens, at the start
    /// of the file.
    pub fn new(file: &str) -> (lex: Lex)
        ensures
            lex@ == (LexView { file: file@, tokens: Seq::empty(), index: 0, line: 1, column: 1 }),
            lex@.wf(),
    {
        let lex = Lex { file: String::from_str(file), tokens: Vec::new(), cursor: Cursor::start() };
        assert(lex@.tokens =~= Seq::empty());
        lex
    }

    /// Appends a token whose lexeme is the bytes of `source`. The cursor
    /// stays where it is.
    pub fn add_token(&mut self, loc: Location, token_type: TokenType, source: &str)
        ensures
            final(self)@ == (LexView {
                tokens: old(self)@.tokens.push(
                    TokenView { loc: loc@, kind: token_type, lexeme: encode_utf8(source@) },
                ),
                ..old(self)@
            }),
    {
        self.tokens.push(Token::new(loc, token_type, source));
        assert(final(self)@.tokens =~= old(self)@.tokens.push(
            TokenView { loc: loc@, kind: token_type, lexeme: encode_utf8(source@) },
        ));
    }

    /// The dump of the tokens: one line for each token that is not trivia.
    pub fn show(&self) -> (s: String)
        ensures
            s@ == dump(self@.tokens),
    {
        dump_string(&self.tokens)
    }

    /// The name of the file.
    pub fn file(&self) -> (s: &str)
        ensures
            s@ == self@.file,
    {
        self.file.as_str()
    }

    /// The tokens so far, in the order in which they were found.
    pub fn tokens(&self) -> (t: &Vec<Token>)
        ensures
            token_views(t@) == self@.tokens,
    {
        &self.tokens
    }

    /// Where the scan stands.
    pub fn cursor(&self) -> (c: Cursor)
        ensures
            c.index == self@.index,
            c.line == self@.line,
            c.column == self@.column,
    {
        self.cursor
    }

    /// Turns the bytes from the cursor up to `next` into a token.
    fn emit(&mut self, bytes: &[u8], kind: TokenType, next: Cursor)
        requires
            tracks(old(self)@, bytes@, next),
        ensures
            final(self)@ == old(self)@.emit(bytes@, kind, next.index as int),
            final(self)@.wf(),
    {
        let lexeme = slice_subrange(bytes, self.cursor.index, next.index);
        let loc = Location::new(self.file.as_str(), self.cursor.line, self.cursor.column);
        self.tokens.push(Token::from_bytes(loc, kind, lexeme));
        self.cursor = next;
        proof {
            let pre = old(self)@;
            assert(bytes@.subrange(pre.index, pre.index).len() == 0);
            assert(final(self)@.tokens =~= pre.emit(bytes@, kind, next.index as int).tokens);
        }
    }

    /// The failure of kind `kind`, reported at `at`.
    fn failure(&self, bytes: &[u8], kind: LexErrorKind, at: Cursor) -> (e: LexError)
        requires
            tracks(self@, bytes@, at),
        ensures
            e@ == self@.failure(bytes@, kind, at.index as int),
    {
        LexError::new(kind, Location::new(self.file.as_str(), at.line, at.column))
    }

    /// The comment scanner: a block comment `/* ... */` or a line comment
    /// `// ...`.
    #[verifier::loop_isolation(false)]
    pub fn parse_note(&mut self, bytes: &[u8]) -> (res: Result<bool, LexError>)
        requires
            old(self)@.wf(),
            old(self)@.index < bytes@.len() < usize::MAX,
        ensures
            final(self)@.wf(),
            final(self)@ == old(self)@.apply(bytes@, note_outcome(bytes@, old(self)@.index)).0,
            result_view(res) == old(self)@.apply(
                bytes@,
                note_outcome(bytes@, old(self)@.index),
            ).1,
    {
        let ghost from = self@;
        let start = self.cursor.index;
        proof {
            assert(bytes@.subrange(from.index, from.index).len() == 0);
        }
        if bytes.len() - start < 2 || bytes[start] != SLASH {
            return Ok(false);
        }
        let second = bytes[start + 1];
        if second == STAR {
            let mut cur = advance_cursor(bytes, self.cursor, Ghost(from));
            cur = advance_cursor(bytes, cur, Ghost(from));
            while cur.index + 1 < bytes.len()
                invariant
                    from == self@,
                    bytes@.len() < usize::MAX,
                    start == from.index,
                    start + 2 <= cur.index,
                    tracks(from, bytes@, cur),
                    block_close(bytes@, start + 2) == block_close(bytes@, cur.index as int),
                decreases bytes@.len() - cur.index,
            {
                let b = bytes[cur.index];
                let after = bytes[cur.index + 1];
                cur = advance_cursor(bytes, cur, Ghost(from));
                if b == STAR && after == SLASH {
                    cur = advance_cursor(bytes, cur, Ghost(from));
                    self.emit(bytes, TokenType::Note, cur);
                    return Ok(true);
                }
            }
            let e = self.failure(bytes, LexErrorKind::UnterminatedComment, self.cursor);
            Err(e)
        } else if second == SLASH {
            let mut cur = advance_cursor(bytes, self.cursor, Ghost(from));
            cur = advance_cursor(bytes, cur, Ghost(from));
            while cur.index < bytes.len() && bytes[cur.index] != LINE_FEED
                invariant
                    from == self@,
                    bytes@.len() < usize::MAX,
                    start == from.index,
                    start + 2 <= cur.index,
                    tracks(from, bytes@, cur),
                    line_end(bytes@, start + 2) == line_end(bytes@, cur.index as int),
                decreases bytes@.len() - cur.index,
            {
                cur = advance_cursor(bytes, cur, Ghost(from));
            }
            self.emit(bytes, TokenType::Note, cur);
            Ok(true)
        } else {
            Ok(false)
        }
    }

    /// The line feed scanner: one line feed is one token.
    pub fn parse_new_line(&mut self, bytes: &[u8]) -> (res: bool)
        requires
            old(self)@.wf(),
            old(self)@.index < bytes@.len() < usize::MAX,
        ensures
            final(self)@.wf(),
            final(self)@ == old(self)@.apply(
                bytes@,
                new_line_outcome(bytes@, old(self)@.index),
            ).0,
            Ok::<bool, LexErrorView>(res) == old(self)@.apply(
                bytes@,
                new_line_outcome(bytes@, old(self)@.index),
            ).1,
    {
        let ghost from = self@;
        proof {
            assert(bytes@.subrange(from.index, from.index).len() == 0);
        }
        if bytes[self.cursor.index] != LINE_FEED {
            return false;
        }
        let cur = advance_cursor(bytes, self.cursor, Ghost(from));
        self.emit(bytes, TokenType::NewLine, cur);
        true
    }

    /// The space scanner: one space is one token.
    pub fn parse_space(&mut self, bytes: &[u8]) -> (res: bool)
        requires
            old(self)@.wf(),
            old(self)@.index < bytes@.len() < usize::MAX,
        ensures
            final(self)@.wf(),
            final(self)@ == old(self)@.apply(bytes@, space_outcome(bytes@, old(self)@.index)).0,
            Ok::<bool, LexErrorView>(res) == old(self)@.apply(
                bytes@,
                space_outcome(bytes@, old(self)@.index),
            ).1,
    {
        let ghost from = self@;
        proof {
            assert(bytes@.subrange(from.index, from.index).len() == 0);
        }
        if bytes[self.cursor.index] != SPACE {
            return false;
        }
        let cur = advance_cursor(bytes, self.cursor, Ghost(from));
        self.emit(bytes, TokenType::Space, cur);
        true
    }

    /// The string literal scanner.
    #[verifier::loop_isolation(false)]
    pub fn parse_string(&mut self, bytes: &[u8]) -> (res: Result<bool, LexError>)
        requires
            old(self)@.wf(),
            old(self)@.index < bytes@.len() < usize::MAX,
        ensures
            final(self)@.wf(),
            final(self)@ == old(self)@.apply(bytes@, string_outcome(bytes@, old(self)@.index)).0,
            result_view(res) == old(self)@.apply(
                bytes@,
                string_outcome(bytes@, old(self)@.index),
            ).1,
    {
        let ghost from = self@;
        let start = self.cursor.index;
        proof {
            assert(bytes@.subrange(from.index, from.index).len() == 0);
        }
        if bytes[start] != DOUBLE_QUOTE {
            return Ok(false);
        }
        let mut cur = advance_cursor(bytes, self.cursor, Ghost(from));
        while cur.index < bytes.len()
            invariant
                from == self@,
                bytes@.len() < usize::MAX,
                start == from.index,
                start < cur.index,
                tracks(from, bytes@, cur),
                quote_close(bytes@, DOUBLE_QUOTE, start + 1) == quote_close(
                    bytes@,
                    DOUBLE_QUOTE,
                    cur.index as int,
                ),
            decreases bytes@.len() - cur.index,
        {
            let b = bytes[cur.index];
            let before = bytes[cur.index - 1];
            cur = advance_cursor(bytes, cur, Ghost(from));
            if b == DOUBLE_QUOTE && before != BACKSLASH {
                self.emit(bytes, TokenType::Str, cur);
                return Ok(true);
            }
        }
        let e = self.failure(bytes, LexErrorKind::UnterminatedString, self.cursor);
        Err(e)
    }

    /// The char literal scanner.
    #[verifier::loop_isolation(false)]
    pub fn parse_char(&mut self, bytes: &[u8]) -> (res: Result<bool, LexError>)
        requires
            old(self)@.wf(),
            old(self)@.index < bytes@.len() < usize::MAX,
        ensures
            final(self)@.wf(),
            final(self)@ == old(self)@.apply(bytes@, char_outcome(bytes@, old(self)@.index)).0,
            result_view(res) == old(self)@.apply(
                bytes@,
                char_outcome(bytes@, old(self)@.index),
            ).1,
    {
        let ghost from = self@;
        let start = self.cursor.index;
        proof {
            assert(bytes@.subrange(from.index, from.index).len() == 0);
        }
        if bytes[start] != SINGLE_QUOTE {
            return Ok(false);
        }
        let mut cur = advance_cursor(bytes, self.cursor, Ghost(from));
        let mut budget: usize = 2;
        loop
            invariant
                from == self@,
                bytes@.len() < usize::MAX,
                start == from.index,
                start < cur.index,
                tracks(from, bytes@, cur),
                char_outcome(bytes@, start as int) == char_run(
                    bytes@,
                    start as int,
                    cur.index as int,
                    budget as int,
                ),
            decreases bytes@.len() - cur.index,
        {
            if cur.index >= bytes.len() {
                let e = self.failure(bytes, LexErrorKind::UnterminatedChar, self.cursor);
                return Err(e);
            }
            if cur.index - start > budget {
                let e = self.failure(bytes, LexErrorKind::CharTooLong, self.cursor);
                return Err(e);
            }
            let b = bytes[cur.index];
            let before = bytes[cur.index - 1];
            if b == SINGLE_QUOTE && before != BACKSLASH {
                cur = advance_cursor(bytes, cur, Ghost(from));
                self.emit(bytes, TokenType::Char, cur);
                return Ok(true);
            }
            if b == BACKSLASH {
                budget = 3;
            } else if b >= 128 {
                let e = self.failure(bytes, LexErrorKind::CharNotAscii(b), cur);
                return Err(e);
            }
            cur = advance_cursor(bytes, cur, Ghost(from));
        }
    }

    /// The keyword scanner. Keywords are not recognized: it always
    /// declines, and a keyword is scanned as an identifier.
    pub fn parse_keyword(&mut self, bytes: &[u8]) -> (res: bool)
        ensures
            !res,
            *final(self) == *old(self),
    {
        false
    }

    /// The identifier scanner.
    #[verifier::loop_isolation(false)]
    pub fn parse_identifier(&mut self, bytes: &[u8]) -> (res: Result<bool, LexError>)
        requires
            old(self)@.wf(),
            old(self)@.index < bytes@.len() < usize::MAX,
        ensures
            final(self)@.wf(),
            final(self)@ == old(self)@.apply(
                bytes@,
                identifier_outcome(bytes@, old(self)@.index),
            ).0,
            result_view(res) == old(self)@.apply(
                bytes@,
                identifier_outcome(bytes@, old(self)@.index),
            ).1,
    {
        let ghost from = self@;
        let start = self.cursor.index;
        proof {
            assert(bytes@.subrange(from.index, from.index).len() == 0);
        }
        if !ident_start(bytes[start]) {
            return Ok(false);
        }
        let mut cur = self.cursor;
        while cur.index < bytes.len() && ident_continue(bytes[cur.index])
            invariant
                from == self@,
                bytes@.len() < usize::MAX,
                start == from.index,
                tracks(from, bytes@, cur),
                ident_end(bytes@, start as int) == ident_end(bytes@, cur.index as int),
            decreases bytes@.len() - cur.index,
        {
            cur = advance_cursor(bytes, cur, Ghost(from));
        }
        if cur.index >= bytes.len() || terminator(bytes[cur.index]) {
            self.emit(bytes, TokenType::Identifier, cur);
            Ok(true)
        } else {
            let kind = LexErrorKind::BadIdentifierByte(bytes[cur.index]);
            let e = self.failure(bytes, kind, self.cursor);
            Err(e)
        }
    }

    /// The operator scanner: one byte of ASCII punctuation is one token.
    pub fn parse_operator(&mut self, bytes: &[u8]) -> (res: bool)
        requires
            old(self)@.wf(),
            old(self)@.index < bytes@.len() < usize::MAX,
        ensures
            final(self)@.wf(),
            final(self)@ == old(self)@.apply(
                bytes@,
                operator_outcome(bytes@, old(self)@.index),
            ).0,
            Ok::<bool, LexErrorView>(res) == old(self)@.apply(
                bytes@,
                operator_outcome(bytes@, old(self)@.index),
            ).1,
    {
        let ghost from = self@;
        proof {
            assert(bytes@.subrange(from.index, from.index).len() == 0);
        }
        if !punctuation(bytes[self.cursor.index]) {
            return false;
        }
        let cur = advance_cursor(bytes, self.cursor, Ghost(from));
        self.emit(bytes, TokenType::Operator(OperatorType::OpEq), cur);
        true
    }

    /// The numeric literal scanner.
    #[verifier::loop_isolation(false)]
    pub fn parse_number(&mut self, bytes: &[u8]) -> (res: Result<bool, LexError>)
        requires
            old(self)@.wf(),
            old(self)@.index < bytes@.len() < usize::MAX,
        ensures
            final(self)@.wf(),
            final(self)@ == old(self)@.apply(bytes@, number_outcome(bytes@, old(self)@.index)).0,
            result_view(res) == old(self)@.apply(
                bytes@,
                number_outcome(bytes@, old(self)@.index),
            ).1,
    {
        let ghost from = self@;
        let start = self.cursor.index;
        proof {
            assert(bytes@.subrange(from.index, from.index).len() == 0);
        }
        if !digit(bytes[start]) {
            return Ok(false);
        }
        let mut state = NumberState::start(bytes[start]);
        let mut cur = advance_cursor(bytes, self.cursor, Ghost(from));
        loop
            invariant
                from == self@,
                bytes@.len() < usize::MAX,
                start == from.index,
                start < cur.index,
                tracks(from, bytes@, cur),
                number_end(bytes@, start as int) == number_run(
                    bytes@,
                    start as int,
                    cur.index as int,
                    state,
                ),
            decreases bytes@.len() - cur.index,
        {
            if cur.index >= bytes.len() || terminator(bytes[cur.index]) {
                if state.malformed {
                    let kind = LexErrorKind::DigitStartsIdentifier;
                    let e = self.failure(bytes, kind, self.cursor);
                    return Err(e);
                }
                self.emit(bytes, TokenType::Number, cur);
                return Ok(true);
            }
            let second = cur.index - start == 1;
            let after_digit = digit(bytes[cur.index - 1]);
            match state.step(bytes[cur.index], second, after_digit) {
                NumberStep::Continue(next) => {
                    state = next;
                    cur = advance_cursor(bytes, cur, Ghost(from));
                },
                NumberStep::Fail(kind) => {
                    let e = self.failure(bytes, kind, cur);
                    return Err(e);
                },
            }
        }
    }

    /// One step of the scan: the scanners are offered the cursor in their
    /// fixed order, and a byte that all of them decline is skipped.
    pub fn step(&mut self, bytes: &[u8]) -> (res: Result<(), LexError>)
        requires
            old(self)@.wf(),
            old(self)@.index < bytes@.len() < usize::MAX,
        ensures
            final(self)@.wf(),
            final(self)@ == old(self)@.step(bytes@).0,
            error_view(res) == old(self)@.step(bytes@).1,
    {
        match self.parse_note(bytes) {
            Err(e) => {
                return Err(e);
            },
            Ok(true) => {
                return Ok(());
            },
            Ok(false) => {},
        }
        if self.parse_new_line(bytes) {
            return Ok(());
        }
        if self.parse_space(bytes) {
            return Ok(());
        }
        match self.parse_string(bytes) {
            Err(e) => {
                return Err(e);
            },
            Ok(true) => {
                return Ok(());
            },
            Ok(false) => {},
        }
        match self.parse_char(bytes) {
            Err(e) => {
                return Err(e);
            },
            Ok(true) => {
                return Ok(());
            },
            Ok(false) => {},
        }
        match self.parse_identifier(bytes) {
            Err(e) => {
                return Err(e);
            },
            Ok(true) => {
                return Ok(());
            },
            Ok(false) => {},
        }
        if self.parse_operator(bytes) {
            return Ok(());
        }
        match self.parse_number(bytes) {
            Err(e) => {
                return Err(e);
            },
            Ok(true) => {
                return Ok(());
            },
            Ok(false) => {},
        }
        self.cursor = Cursor {
            index: self.cursor.index + 1,
            line: self.cursor.line,
            column: self.cursor.column + 1,
        };
        Ok(())
    }

    /// Scans `bytes` from the cursor to the end of the input, or to the
    /// first failure. After a failure the scanner holds the tokens found
    /// before it and stands where the failing step began.
    pub fn parse(&mut self, bytes: &[u8]) -> (res: Result<(), LexError>)
        requires
            old(self)@.wf(),
            bytes@.len() < usize::MAX,
        ensures
            final(self)@.wf(),
            old(self)@.scanned(bytes@, final(self)@, error_view(res)),
    {
        while self.cursor.index < bytes.len()
            invariant
                self@.wf(),
                bytes@.len() < usize::MAX,
                self@.run(bytes@) == old(self)@.run(bytes@),
            decreases bytes@.len() - self@.index,
        {
            proof {
                lemma_dispatch_bounds(bytes@, self@.index);
            }
            match self.step(bytes) {
                Err(e) => {
                    return Err(e);
                },
                Ok(_) => {},
            }
        }
        Ok(())
    }
}

} // verus!
