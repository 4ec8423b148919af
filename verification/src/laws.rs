//! What holds of every scan.

use crate::bytes::{
    is_non_ascii, is_unrecognized, BACKSLASH, LINE_FEED, SINGLE_QUOTE, SPACE,
};
use crate::error::LexErrorView;
use crate::position::{
    advance, last_line_width, lemma_advance_bounds, lemma_advance_concat, lemma_advance_counts,
    line_feeds, step_position, Position,
};
use crate::scan::{char_outcome, char_run, dispatch, lemma_dispatch_bounds, LexView, Outcome};
use crate::token::{dump, dump_lines, is_trivia, TokenType, TokenView};
use vstd::prelude::*;

verus! {

/// The lexemes of `tokens`, one after the other.
pub open spec fn lexemes(tokens: Seq<TokenView>) -> Seq<u8>
    decreases tokens.len(),
{
    if tokens.len() == 0 {
        Seq::empty()
    } else {
        lexemes(tokens.drop_last()) + tokens.last().lexeme
    }
}

/// The state in which the scan of a file begins: no tokens, index 0,
/// line 1, column 1.
pub open spec fn fresh(file: Seq<char>) -> LexView {
    LexView { file, tokens: Seq::empty(), index: 0, line: 1, column: 1 }
}

/// Whether `a` is the beginning of `b`.
pub open spec fn is_beginning_of<T>(a: Seq<T>, b: Seq<T>) -> bool {
    a.len() <= b.len() && b.take(a.len() as int) == a
}

/// Whether every token of `tokens` is trivia.
pub open spec fn all_trivia(tokens: Seq<TokenView>) -> bool {
    forall|i: int| 0 <= i < tokens.len() ==> is_trivia(#[trigger] tokens[i].kind)
}

/// Walking on from byte `j` to byte `k` is walking from the cursor to `k`.
proof fn lemma_position_at_chain(st: LexView, bytes: Seq<u8>, j: int, k: int)
    requires
        0 <= st.index <= j <= k <= bytes.len(),
    ensures
        advance(st.position_at(bytes, j), bytes.subrange(j, k)) == st.position_at(bytes, k),
{
    assert(bytes.subrange(st.index, j) + bytes.subrange(j, k) =~= bytes.subrange(st.index, k));
    lemma_advance_concat(st.position(), bytes.subrange(st.index, j), bytes.subrange(j, k));
}

/// One step of a scan keeps the file and the tokens found so far, moves
/// the cursor forward inside the input, and leaves it at the line and
/// column that the bytes it passed lead to. A step without a failure moves
/// the cursor by at least one byte.
pub proof fn lemma_step_keeps_track(st: LexView, bytes: Seq<u8>)
    requires
        st.wf(),
        st.index < bytes.len(),
    ensures
        st.step(bytes).0.wf(),
        st.step(bytes).0.file == st.file,
        is_beginning_of(st.tokens, st.step(bytes).0.tokens),
        st.index <= st.step(bytes).0.index <= bytes.len(),
        st.step(bytes).1 is None ==> st.index < st.step(bytes).0.index,
        st.step(bytes).0.position() == st.position_at(bytes, st.step(bytes).0.index),
{
    lemma_dispatch_bounds(bytes, st.index);
    let next = st.step(bytes).0;
    assert(bytes.subrange(st.index, st.index).len() == 0);
    assert(next.tokens.take(st.tokens.len() as int) =~= st.tokens);
    match dispatch(bytes, st.index) {
        Outcome::Declined => {
            let one = bytes.subrange(st.index, st.index + 1);
            assert(one.drop_last().len() == 0);
            assert(one.last() == bytes[st.index]);
            assert(advance(st.position(), one) == step_position(
                advance(st.position(), one.drop_last()),
                one.last(),
            ));
        },
        Outcome::Token { kind, end } => {
            lemma_advance_bounds(st.position(), bytes.subrange(st.index, end));
            assert(next.tokens.take(st.tokens.len() as int) =~= st.tokens);
        },
        Outcome::Failed { .. } => {
            assert(st.tokens.take(st.tokens.len() as int) =~= st.tokens);
        },
    }
}

/// A scan keeps the file and the tokens found before it, ends at the end
/// of the input unless it fails, and leaves the cursor at the line and
/// column that the bytes it passed lead to.
pub proof fn lemma_run_keeps_track(st: LexView, bytes: Seq<u8>)
    requires
        st.wf(),
        st.index <= bytes.len(),
    ensures
        st.run(bytes).0.wf(),
        st.run(bytes).0.file == st.file,
        is_beginning_of(st.tokens, st.run(bytes).0.tokens),
        st.index <= st.run(bytes).0.index <= bytes.len(),
        st.run(bytes).1 is None ==> st.run(bytes).0.index == bytes.len(),
        st.run(bytes).0.position() == st.position_at(bytes, st.run(bytes).0.index),
    decreases bytes.len() - st.index,
{
    if st.index < bytes.len() {
        lemma_step_keeps_track(st, bytes);
        let (next, error) = st.step(bytes);
        if error is None {
            lemma_run_keeps_track(next, bytes);
            let last = next.run(bytes).0;
            lemma_position_at_chain(st, bytes, next.index, last.index);
            assert(last.tokens.take(st.tokens.len() as int) =~= last.tokens.take(
                next.tokens.len() as int,
            ).take(st.tokens.len() as int));
        }
    } else {
        assert(bytes.subrange(st.index, st.index).len() == 0);
        assert(st.tokens.take(st.tokens.len() as int) =~= st.tokens);
    }
}

/// After a scan of a whole file that did not fail, the line is one more
/// than the number of line feeds in the file, and the column is one more
/// than the number of bytes after the last line feed.
pub proof fn lemma_scan_ends_at_last_position(file: Seq<char>, bytes: Seq<u8>)
    requires
        fresh(file).run(bytes).1 is None,
    ensures
        fresh(file).run(bytes).0.index == bytes.len(),
        fresh(file).run(bytes).0.line == 1 + line_feeds(bytes),
        fresh(file).run(bytes).0.column == 1 + last_line_width(bytes),
{
    lemma_run_keeps_track(fresh(file), bytes);
    assert(bytes.subrange(0, bytes.len() as int) =~= bytes);
    lemma_advance_counts(fresh(file).position(), bytes);
}

/// A dump of trivia is empty.
pub proof fn lemma_dump_of_trivia(tokens: Seq<TokenView>)
    requires
        all_trivia(tokens),
    ensures
        dump_lines(tokens).len() == 0,
        dump(tokens).len() == 0,
    decreases tokens.len(),
{
    if tokens.len() > 0 {
        assert(is_trivia(tokens[tokens.len() - 1].kind));
        lemma_dump_of_trivia(tokens.drop_last());
    }
}

/// A scan of spaces and line feeds does not fail and adds only trivia.
pub proof fn lemma_blank_run(st: LexView, bytes: Seq<u8>)
    requires
        st.wf(),
        st.index <= bytes.len(),
        all_trivia(st.tokens),
        forall|i: int| st.index <= i < bytes.len() ==> bytes[i] == SPACE || bytes[i] == LINE_FEED,
    ensures
        st.run(bytes).1 is None,
        all_trivia(st.run(bytes).0.tokens),
    decreases bytes.len() - st.index,
{
    if st.index < bytes.len() {
        lemma_step_keeps_track(st, bytes);
        let next = st.step(bytes).0;
        assert(bytes[st.index] == SPACE || bytes[st.index] == LINE_FEED);
        assert(next.index == st.index + 1);
        assert forall|i: int| 0 <= i < next.tokens.len() implies is_trivia(
            #[trigger] next.tokens[i].kind,
        ) by {
            if i < st.tokens.len() {
                assert(is_trivia(st.tokens[i].kind));
            }
        }
        lemma_blank_run(next, bytes);
    }
}

/// For a file of spaces and line feeds only: the scan does not fail, the
/// dump is empty, the line is one more than the number of line feeds, and
/// the column is one more than the number of bytes after the last line
/// feed.
pub proof fn lemma_blank_file(file: Seq<char>, bytes: Seq<u8>)
    requires
        forall|i: int| 0 <= i < bytes.len() ==> bytes[i] == SPACE || bytes[i] == LINE_FEED,
    ensures
        fresh(file).run(bytes).1 is None,
        dump(fresh(file).run(bytes).0.tokens) == Seq::<char>::empty(),
        fresh(file).run(bytes).0.line == 1 + line_feeds(bytes),
        fresh(file).run(bytes).0.column == 1 + last_line_width(bytes),
{
    lemma_blank_run(fresh(file), bytes);
    lemma_dump_of_trivia(fresh(file).run(bytes).0.tokens);
    lemma_scan_ends_at_last_position(file, bytes);
    assert(dump(fresh(file).run(bytes).0.tokens) =~= Seq::<char>::empty());
}

/// A scan that neither fails nor meets a byte that no scanner recognizes
/// adds tokens whose lexemes, one after the other, are the bytes it was
/// given.
pub proof fn lemma_run_lexemes(st: LexView, bytes: Seq<u8>)
    requires
        st.wf(),
        st.index <= bytes.len(),
        st.run(bytes).1 is None,
        forall|i: int| st.index <= i < bytes.len() ==> !is_unrecognized(bytes[i]),
    ensures
        lexemes(st.run(bytes).0.tokens) == lexemes(st.tokens) + bytes.subrange(
            st.index,
            bytes.len() as int,
        ),
    decreases bytes.len() - st.index,
{
    if st.index < bytes.len() {
        lemma_dispatch_bounds(bytes, st.index);
        let next = st.step(bytes).0;
        assert(!is_unrecognized(bytes[st.index]));
        match dispatch(bytes, st.index) {
            Outcome::Token { kind, end } => {
                lemma_step_keeps_track(st, bytes);
                assert(next.tokens.drop_last() =~= st.tokens);
                lemma_run_lexemes(next, bytes);
                assert(bytes.subrange(st.index, end) + bytes.subrange(end, bytes.len() as int)
                    =~= bytes.subrange(st.index, bytes.len() as int));
            },
            _ => {},
        }
    } else {
        assert(lexemes(st.tokens) + bytes.subrange(st.index, bytes.len() as int) =~= lexemes(
            st.tokens,
        ));
    }
}

/// For a file in which every byte is one that some scanner recognizes, and
/// whose scan does not fail: the lexemes of the tokens, one after the
/// other, are the file.
pub proof fn lemma_lexemes_rebuild_file(file: Seq<char>, bytes: Seq<u8>)
    requires
        fresh(file).run(bytes).1 is None,
        forall|i: int| 0 <= i < bytes.len() ==> !is_unrecognized(bytes[i]),
    ensures
        lexemes(fresh(file).run(bytes).0.tokens) == bytes,
{
    lemma_run_lexemes(fresh(file), bytes);
    assert(lexemes(fresh(file).tokens) + bytes.subrange(0, bytes.len() as int) =~= bytes);
}

/// Whether the token `t` stands at byte `a` of the file: its lexeme is
/// the bytes that begin there, and its location is the file with the line
/// and column of byte `a`, counted from the start of the file.
pub open spec fn stands_at(t: TokenView, file: Seq<char>, bytes: Seq<u8>, a: int) -> bool {
    &&& 0 <= a
    &&& t.lexeme.len() > 0
    &&& a + t.lexeme.len() <= bytes.len()
    &&& bytes.subrange(a, a + t.lexeme.len()) == t.lexeme
    &&& t.loc.file == file
    &&& t.loc.line == 1 + line_feeds(bytes.take(a))
    &&& t.loc.column == 1 + last_line_width(bytes.take(a))
}

/// Whether the tokens stand in the file at the bytes `starts`, one after
/// the other without overlap, and all before byte `upto`.
pub open spec fn laid_out(
    tokens: Seq<TokenView>,
    file: Seq<char>,
    bytes: Seq<u8>,
    starts: Seq<int>,
    upto: int,
) -> bool {
    &&& starts.len() == tokens.len()
    &&& forall|k: int| 0 <= k < tokens.len() ==> stands_at(#[trigger] tokens[k], file, bytes, starts[k])
    &&& forall|k: int|
        0 <= k < tokens.len() ==> (#[trigger] starts[k]) + tokens[k].lexeme.len() <= (if k + 1
            < tokens.len() {
            starts[k + 1]
        } else {
            upto
        })
}

/// Whether the cursor of `st` has the line and column of its byte,
/// counted from the start of the file.
pub open spec fn on_track(st: LexView, bytes: Seq<u8>) -> bool {
    st.position() == advance(Position { line: 1, column: 1 }, bytes.take(st.index))
}

/// A scan that sets out with its tokens laid out in the file, and its
/// cursor on track behind them, ends so. The result is where the tokens
/// stand.
pub proof fn lemma_run_lays_out(st: LexView, bytes: Seq<u8>, starts: Seq<int>) -> (all: Seq<int>)
    requires
        st.wf(),
        st.index <= bytes.len(),
        on_track(st, bytes),
        laid_out(st.tokens, st.file, bytes, starts, st.index),
    ensures
        laid_out(st.run(bytes).0.tokens, st.file, bytes, all, st.run(bytes).0.index),
        on_track(st.run(bytes).0, bytes),
    decreases bytes.len() - st.index,
{
    if st.index < bytes.len() {
        lemma_step_keeps_track(st, bytes);
        lemma_dispatch_bounds(bytes, st.index);
        let (next, error) = st.step(bytes);
        assert(on_track(next, bytes)) by {
            assert(bytes.take(st.index) + bytes.subrange(st.index, next.index) =~= bytes.take(
                next.index,
            ));
            lemma_advance_concat(
                Position { line: 1, column: 1 },
                bytes.take(st.index),
                bytes.subrange(st.index, next.index),
            );
        }
        if error is Some {
            starts
        } else {
            let grown = match dispatch(bytes, st.index) {
                Outcome::Token { kind, end } => {
                    lemma_advance_counts(Position { line: 1, column: 1 }, bytes.take(st.index));
                    let grown = starts.push(st.index);
                    assert(stands_at(next.tokens[next.tokens.len() - 1], st.file, bytes, st.index));
                    assert forall|k: int| 0 <= k < next.tokens.len() implies stands_at(
                        #[trigger] next.tokens[k],
                        st.file,
                        bytes,
                        grown[k],
                    ) by {
                        if k < st.tokens.len() {
                            assert(stands_at(st.tokens[k], st.file, bytes, starts[k]));
                        }
                    }
                    assert forall|k: int| 0 <= k < next.tokens.len() implies (#[trigger] grown[k])
                        + next.tokens[k].lexeme.len() <= (if k + 1 < next.tokens.len() {
                        grown[k + 1]
                    } else {
                        next.index
                    }) by {
                        if k < st.tokens.len() {
                            assert(starts[k] + st.tokens[k].lexeme.len() <= (if k + 1
                                < st.tokens.len() {
                                starts[k + 1]
                            } else {
                                st.index
                            }));
                        }
                    }
                    grown
                },
                _ => {
                    assert forall|k: int| 0 <= k < next.tokens.len() implies (#[trigger] starts[k])
                        + next.tokens[k].lexeme.len() <= (if k + 1 < next.tokens.len() {
                        starts[k + 1]
                    } else {
                        next.index
                    }) by {
                        assert(starts[k] + st.tokens[k].lexeme.len() <= (if k + 1
                            < st.tokens.len() {
                            starts[k + 1]
                        } else {
                            st.index
                        }));
                    }
                    starts
                },
            };
            lemma_run_lays_out(next, bytes, grown)
        }
    } else {
        starts
    }
}

/// The tokens of a scan of a whole file stand in the file one after the
/// other, in the order in which they were found and without overlap: each
/// holds the bytes at the place where its location says it is. The result
/// is where they stand.
pub proof fn lemma_tokens_stand_in_the_file(file: Seq<char>, bytes: Seq<u8>) -> (starts: Seq<int>)
    ensures
        laid_out(fresh(file).run(bytes).0.tokens, file, bytes, starts, bytes.len() as int),
{
    let st = fresh(file);
    assert(bytes.take(0).len() == 0);
    lemma_run_keeps_track(st, bytes);
    lemma_run_lays_out(st, bytes, Seq::empty())
}

/// A byte is skipped if and only if no scanner recognizes it.
pub proof fn lemma_skipped_bytes(bytes: Seq<u8>, i: int)
    requires
        0 <= i < bytes.len(),
    ensures
        dispatch(bytes, i) is Declined <==> is_unrecognized(bytes[i]),
{
    lemma_dispatch_bounds(bytes, i);
}

/// Whether `b` may stand alone between the quotes of a char literal: an
/// ASCII byte that is neither a quote nor a backslash.
pub open spec fn is_plain_char(b: u8) -> bool {
    !is_non_ascii(b) && b != SINGLE_QUOTE && b != BACKSLASH
}

/// The char literals: `''`, one plain byte between quotes, or a backslash
/// and one ASCII byte other than a backslash between quotes. Whatever
/// else follows an opening quote fails.
pub proof fn lemma_char_literal_shapes(bytes: Seq<u8>, i: int)
    requires
        0 <= i < bytes.len(),
        bytes[i] == SINGLE_QUOTE,
    ensures
        !(char_outcome(bytes, i) is Declined),
        char_outcome(bytes, i) is Token <==> {
            ||| (i + 1 < bytes.len() && bytes[i + 1] == SINGLE_QUOTE)
            ||| (i + 2 < bytes.len() && is_plain_char(bytes[i + 1]) && bytes[i + 2]
                == SINGLE_QUOTE)
            ||| (i + 3 < bytes.len() && bytes[i + 1] == BACKSLASH && !is_non_ascii(bytes[i + 2])
                && bytes[i + 2] != BACKSLASH && bytes[i + 3] == SINGLE_QUOTE)
        },
        char_outcome(bytes, i) matches Outcome::Token { kind, end } ==> kind == TokenType::Char
            && end == (if bytes[i + 1] == SINGLE_QUOTE {
            i + 2
        } else if bytes[i + 1] == BACKSLASH {
            i + 4
        } else {
            i + 3
        }),
{
    reveal_with_fuel(char_run, 5);
}

/// Scanning the same bytes twice, each time from the same state, ends in
/// the same state both times: the same tokens with the same lexemes, kinds
/// and locations, the same cursor, and the same failure or none.
pub proof fn lemma_rescan_is_identical(
    first: LexView,
    second: LexView,
    bytes: Seq<u8>,
    after_first: LexView,
    after_second: LexView,
    first_error: Option<LexErrorView>,
    second_error: Option<LexErrorView>,
)
    requires
        first == second,
        first.scanned(bytes, after_first, first_error),
        second.scanned(bytes, after_second, second_error),
    ensures
        after_first == after_second,
        after_first.tokens == after_second.tokens,
        first_error == second_error,
{
}

} // verus!
