use ncc::error::{LexError, LexErrorKind};
use ncc::lex::{Cursor, Lex};
use ncc::number::{NumberBase, NumberState, NumberStep};
use ncc::text::{bytes_agree, decimal_string, same_text, text_after_head};
use ncc::token::{dump_string, KeyWordType, Location, OperatorType, Token, TokenType};

#[test]
fn decimal_numbers() {
    assert_eq!(decimal_string(0), "0");
    assert_eq!(decimal_string(7), "7");
    assert_eq!(decimal_string(10), "10");
    assert_eq!(decimal_string(1234567890), "1234567890");
    assert_eq!(decimal_string(usize::MAX), usize::MAX.to_string());
}

#[test]
fn location_is_file_line_column() {
    let loc = Location::new("src/a.c", 12, 345);
    assert_eq!(loc.show(), "src/a.c:12:345");
    assert_eq!(loc.file(), "src/a.c");
    assert_eq!(loc.line(), 12);
    assert_eq!(loc.column(), 345);
    assert_eq!(loc.duplicate().show(), loc.show());
    assert_eq!(Location::new("", 0, 0).show(), ":0:0");
}

#[test]
fn token_line() {
    let t = Token::new(Location::new("a.c", 3, 9), TokenType::Identifier, "name");
    assert_eq!(t.show(), "'name' [Identifier] Loc:(a.c:3:9)");
    assert_eq!(t.lexeme(), "name");
    assert_eq!(t.bytes(), b"name");
    assert_eq!(t.kind(), TokenType::Identifier);
    assert_eq!(t.location().line(), 3);
    let t = Token::new(Location::new("a.c", 1, 1), TokenType::KeyWord(KeyWordType::KInt), "int");
    assert_eq!(t.show(), "'int' [KeyWord(KInt)] Loc:(a.c:1:1)");
    let t = Token::from_bytes(
        Location::new("a.c", 1, 1),
        TokenType::Operator(OperatorType::OpAssign),
        b"=",
    );
    assert_eq!(t.show(), "'=' [Operator(OpAssign)] Loc:(a.c:1:1)");
    let t = Token::new(Location::new("a.c", 2, 2), TokenType::Str, "\"\u{e9}\"");
    assert_eq!(t.lexeme(), "\"\u{e9}\"");
    assert_eq!(t.bytes(), "\"\u{e9}\"".as_bytes());
}

#[test]
fn added_tokens_are_dumped_in_order_without_trivia() {
    let mut lex = Lex::new("a.c");
    lex.add_token(Location::new("a.c", 1, 1), TokenType::Note, "/* c */");
    lex.add_token(Location::new("a.c", 1, 8), TokenType::FlotNumber, "1.5");
    lex.add_token(Location::new("a.c", 1, 11), TokenType::NewLine, "\n");
    lex.add_token(Location::new("a.c", 2, 1), TokenType::Space, " ");
    lex.add_token(Location::new("b.c", 2, 2), TokenType::Char, "'x'");
    assert_eq!(lex.tokens().len(), 5);
    assert_eq!(lex.cursor(), Cursor { index: 0, line: 1, column: 1 });
    assert_eq!(
        lex.show(),
        "'1.5' [FlotNumber] Loc:(a.c:1:8)\n''x'' [Char] Loc:(b.c:2:2)"
    );
    assert_eq!(dump_string(lex.tokens()), lex.show());
}

#[test]
fn a_dump_of_one_token_has_no_line_feed() {
    let mut lex = Lex::new("a.c");
    lex.add_token(Location::new("a.c", 1, 1), TokenType::Space, " ");
    assert_eq!(lex.show(), "");
    lex.add_token(Location::new("a.c", 1, 2), TokenType::Number, "1");
    assert_eq!(lex.show(), "'1' [Number] Loc:(a.c:1:2)");
    lex.add_token(Location::new("a.c", 1, 3), TokenType::Note, "//");
    assert_eq!(lex.show(), "'1' [Number] Loc:(a.c:1:2)");
}

#[test]
fn trivia_kinds() {
    assert!(TokenType::Note.trivia());
    assert!(TokenType::NewLine.trivia());
    assert!(TokenType::Space.trivia());
    assert!(!TokenType::Number.trivia());
    assert!(!TokenType::FlotNumber.trivia());
    assert!(!TokenType::Str.trivia());
    assert!(!TokenType::Char.trivia());
    assert!(!TokenType::Identifier.trivia());
    assert!(!TokenType::KeyWord(KeyWordType::KVoid).trivia());
    assert!(!TokenType::Operator(OperatorType::OpEq).trivia());
}

#[test]
fn error_values() {
    let e = LexError::new(LexErrorKind::CharTooLong, Location::new("x.c", 4, 2));
    assert_eq!(e.kind(), LexErrorKind::CharTooLong);
    assert_eq!(e.location().show(), "x.c:4:2");
    assert_eq!(e.show(), "Error: \"more than one character between quotes\" at (x.c:4:2)");
}

#[test]
fn cursor_steps() {
    let c = Cursor::start();
    assert_eq!(c, Cursor { index: 0, line: 1, column: 1 });
    let c = c.step(b'a');
    assert_eq!(c, Cursor { index: 1, line: 1, column: 2 });
    let c = c.step(b'\n');
    assert_eq!(c, Cursor { index: 2, line: 2, column: 1 });
    let c = c.step(b'\r');
    assert_eq!(c, Cursor { index: 3, line: 2, column: 2 });
}

#[test]
fn number_states() {
    let zero = NumberState::start(b'0');
    assert_eq!(zero, NumberState { base: NumberBase::Octal, float: false, malformed: false });
    let nine = NumberState::start(b'9');
    assert_eq!(nine.base, NumberBase::Decimal);
    assert_eq!(
        zero.step(b'x', true, true),
        NumberStep::Continue(NumberState {
            base: NumberBase::Hexadecimal,
            float: false,
            malformed: false
        })
    );
    assert_eq!(
        zero.step(b'x', false, true),
        NumberStep::Continue(NumberState { base: NumberBase::Octal, float: false, malformed: true })
    );
    assert_eq!(
        zero.step(b'B', true, true),
        NumberStep::Continue(NumberState { base: NumberBase::Binary, float: false, malformed: false })
    );
    assert_eq!(zero.step(b'b', false, true), NumberStep::Fail(LexErrorKind::OctalOverflow));
    assert_eq!(nine.step(b'f', false, false), NumberStep::Fail(LexErrorKind::DecimalOverflow));
    let float = NumberState { base: NumberBase::Decimal, float: true, malformed: false };
    assert_eq!(nine.step(b'f', false, true), NumberStep::Continue(float));
    let spoiled = NumberState { base: NumberBase::Decimal, float: true, malformed: true };
    assert_eq!(float.step(b'f', false, true), NumberStep::Continue(spoiled));
    assert_eq!(float.step(b'3', false, false), NumberStep::Continue(spoiled));
    assert_eq!(spoiled.step(b'a', false, false), NumberStep::Continue(spoiled));
    let hex = NumberState { base: NumberBase::Hexadecimal, float: false, malformed: false };
    for b in b"0123456789abcdefABCDEF" {
        assert_eq!(hex.step(*b, false, false), NumberStep::Continue(hex));
    }
}

#[test]
fn text_helpers() {
    assert!(bytes_agree(b"abc", b"abd", 2));
    assert!(!bytes_agree(b"abc", b"abd", 3));
    assert!(bytes_agree(b"", b"x", 0));
    assert!(same_text("-o", "-o"));
    assert!(!same_text("-o", "-O"));
    assert!(!same_text("-o", "-o1"));
    assert!(same_text("", ""));
    assert_eq!(text_after_head("-std=c99", "-std="), "c99");
    assert_eq!(text_after_head("-I\u{e9}t\u{e9}", "-I"), "\u{e9}t\u{e9}");
    assert_eq!(text_after_head("\u{e9}x", "\u{e9}"), "x");
    assert_eq!(text_after_head("abc", "abc"), "");
    assert_eq!(text_after_head("abc", ""), "abc");
}
