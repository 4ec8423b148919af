use ncc::error::LexErrorKind;
use ncc::lex::Lex;
use ncc::token::{KeyWordType, OperatorType, TokenType};

fn scan(src: &[u8]) -> Lex {
    let mut lex = Lex::new("main.c");
    assert!(src.len() < usize::MAX);
    let res = lex.parse(src);
    assert!(res.is_ok(), "unexpected failure: {:?}", res);
    lex
}

fn scan_err(src: &[u8]) -> (LexErrorKind, usize, usize) {
    let mut lex = Lex::new("main.c");
    assert!(src.len() < usize::MAX);
    match lex.parse(src) {
        Ok(()) => panic!("the scan should have failed"),
        Err(e) => (e.kind(), e.location().line(), e.location().column()),
    }
}

fn lexemes(lex: &Lex) -> Vec<(TokenType, String)> {
    lex.tokens().iter().map(|t| (t.kind(), t.lexeme())).collect()
}

fn op() -> TokenType {
    TokenType::Operator(OperatorType::OpEq)
}

#[test]
fn hex_literal_is_one_number() {
    let lex = scan(b"0x1A3f ");
    assert_eq!(
        lexemes(&lex),
        vec![(TokenType::Number, "0x1A3f".to_string()), (TokenType::Space, " ".to_string())]
    );
}

#[test]
fn binary_literal_is_one_number() {
    let lex = scan(b"0b101 ");
    assert_eq!(
        lexemes(&lex),
        vec![(TokenType::Number, "0b101".to_string()), (TokenType::Space, " ".to_string())]
    );
}

#[test]
fn octal_overflow_is_reported_at_the_digit() {
    assert_eq!(scan_err(b"089 "), (LexErrorKind::OctalOverflow, 1, 2));
}

#[test]
fn identifier_then_semicolon() {
    let lex = scan(b"foo_bar123;");
    assert_eq!(
        lexemes(&lex),
        vec![(TokenType::Identifier, "foo_bar123".to_string()), (op(), ";".to_string())]
    );
    assert_eq!(lex.tokens()[1].location().column(), 11);
}

#[test]
fn string_with_escaped_quote_is_kept_verbatim() {
    let src = b"\"a\\\"b\"";
    let lex = scan(src);
    assert_eq!(lexemes(&lex), vec![(TokenType::Str, "\"a\\\"b\"".to_string())]);
    assert_eq!(lex.tokens()[0].bytes(), &src[..]);
}

#[test]
fn unterminated_block_comment_fails() {
    assert_eq!(scan_err(b"/* unterminated"), (LexErrorKind::UnterminatedComment, 1, 1));
    let mut lex = Lex::new("main.c");
    assert!(lex.parse(b"/* unterminated").is_err());
    assert!(lex.tokens().is_empty());
}

#[test]
fn spaces_and_newlines_render_nothing() {
    let lex = scan(b"  \n \n\n   ");
    assert_eq!(lex.show(), "");
    assert_eq!(lex.cursor().line, 4);
    assert_eq!(lex.cursor().column, 4);
    assert_eq!(lex.tokens().len(), 9);
}

#[test]
fn lexemes_rebuild_the_source() {
    let src = b"int main() {\n  /* a\n b */ return 0x1f + 'a' - \"s\\n\"; // done\n}\n";
    let lex = scan(src);
    let mut all = Vec::new();
    for t in lex.tokens() {
        all.extend_from_slice(t.bytes());
    }
    assert_eq!(all, src.to_vec());
    assert_eq!(lex.cursor().index, src.len());
    assert_eq!(lex.cursor().line, 5);
    assert_eq!(lex.cursor().column, 1);
}

#[test]
fn scanning_twice_gives_the_same_tokens() {
    let src = b"a = b + 12; /* c */ \"x\"";
    let one = scan(src);
    let two = scan(src);
    assert_eq!(one.show(), two.show());
    assert_eq!(lexemes(&one), lexemes(&two));
    assert_eq!(one.cursor(), two.cursor());
}

#[test]
fn dump_format() {
    let lex = scan(b"x = 1;\ny");
    assert_eq!(
        lex.show(),
        "'x' [Identifier] Loc:(main.c:1:1)\n\
         '=' [Operator(OpEq)] Loc:(main.c:1:3)\n\
         '1' [Number] Loc:(main.c:1:5)\n\
         ';' [Operator(OpEq)] Loc:(main.c:1:6)\n\
         'y' [Identifier] Loc:(main.c:2:1)"
    );
}

#[test]
fn tags_are_the_debug_names() {
    let kinds = [
        TokenType::Note,
        TokenType::NewLine,
        TokenType::Space,
        TokenType::KeyWord(KeyWordType::KVoid),
        TokenType::KeyWord(KeyWordType::KChar),
        TokenType::KeyWord(KeyWordType::KInt),
        TokenType::KeyWord(KeyWordType::KFloat),
        TokenType::KeyWord(KeyWordType::Kdouble),
        TokenType::Number,
        TokenType::FlotNumber,
        TokenType::Str,
        TokenType::Char,
        TokenType::Identifier,
        TokenType::Operator(OperatorType::OpEq),
        TokenType::Operator(OperatorType::OpAssign),
    ];
    for k in kinds {
        assert_eq!(k.tag(), format!("{:?}", k));
    }
}

#[test]
fn every_failure_kind_has_an_input() {
    assert_eq!(scan_err(b"x /* y"), (LexErrorKind::UnterminatedComment, 1, 3));
    assert_eq!(scan_err(b"\n \"abc"), (LexErrorKind::UnterminatedString, 2, 2));
    assert_eq!(scan_err(b"'a"), (LexErrorKind::UnterminatedChar, 1, 1));
    assert_eq!(scan_err(b"  'ab'"), (LexErrorKind::CharTooLong, 1, 3));
    assert_eq!(scan_err(b" '\xC3\xA9'"), (LexErrorKind::CharNotAscii(0xC3), 1, 3));
    assert_eq!(scan_err(b" ab\xC3\xA9"), (LexErrorKind::BadIdentifierByte(0xC3), 1, 2));
    assert_eq!(scan_err(b"0b12"), (LexErrorKind::BinaryOverflow, 1, 4));
    assert_eq!(scan_err(b"\n\n 0779"), (LexErrorKind::OctalOverflow, 3, 5));
    assert_eq!(scan_err(b"12a"), (LexErrorKind::DecimalOverflow, 1, 3));
    assert_eq!(scan_err(b" 1x "), (LexErrorKind::DigitStartsIdentifier, 1, 2));
}

#[test]
fn a_failure_leaves_the_tokens_before_it() {
    let mut lex = Lex::new("main.c");
    let res = lex.parse(b"a b 09");
    assert!(res.is_err());
    assert_eq!(lex.tokens().len(), 4);
    assert_eq!(lex.cursor().index, 4);
    assert_eq!(lex.cursor().column, 5);
}

#[test]
fn failure_message() {
    let mut lex = Lex::new("dir/main.c");
    let err = lex.parse(b"\n\n   089").unwrap_err();
    assert_eq!(err.show(), "Error: \"octal digit overflow\" at (dir/main.c:3:5)");
    assert_eq!(err.kind().description(), "octal digit overflow");
    let err = Lex::new("m.c").parse(b"'\xFF'").unwrap_err();
    assert_eq!(err.show(), "Error: \"byte 255 is not an ASCII character\" at (m.c:1:2)");
    let err = Lex::new("m.c").parse(b"a\x01").unwrap_err();
    assert_eq!(err.show(), "Error: \"byte 1 cannot be part of an identifier\" at (m.c:1:1)");
    let messages = [
        (&b"/*"[..], "unterminated block comment"),
        (&b"\""[..], "unterminated string literal"),
        (&b"'"[..], "unterminated char literal"),
        (&b"'abc'"[..], "more than one character between quotes"),
        (&b"0b2"[..], "binary digit overflow"),
        (&b"1e"[..], "decimal digit overflow"),
        (&b"1z"[..], "identifier cannot start with a digit"),
    ];
    for (src, text) in messages {
        let err = Lex::new("m.c").parse(src).unwrap_err();
        assert_eq!(err.kind().description(), text);
    }
}

#[test]
fn char_literals() {
    for src in [&b"''"[..], b"'a'", b"'\\n'", b"'\\''", b"'\"'", b"'\n'"] {
        let lex = scan(src);
        assert_eq!(lex.tokens().len(), 1);
        assert_eq!(lex.tokens()[0].kind(), TokenType::Char);
        assert_eq!(lex.tokens()[0].bytes(), src);
    }
    assert_eq!(scan_err(b"'\\\\'").0, LexErrorKind::UnterminatedChar);
    assert_eq!(scan_err(b"'\\\\' ").0, LexErrorKind::CharTooLong);
    assert_eq!(scan_err(b"'ab").0, LexErrorKind::UnterminatedChar);
    assert_eq!(scan_err(b"'a\\''").0, LexErrorKind::CharTooLong);
    assert_eq!(scan_err(b"'\\ab'").0, LexErrorKind::CharTooLong);
}

#[test]
fn char_literal_budget_counts_from_the_opening_quote() {
    let lex = scan(b"x = 'a';");
    assert_eq!(
        lexemes(&lex)[4],
        (TokenType::Char, "'a'".to_string())
    );
    assert_eq!(lex.tokens()[5].location().column(), 8);
}

#[test]
fn a_raw_line_feed_in_a_char_literal_counts_as_a_line() {
    let lex = scan(b"'\n'x");
    assert_eq!(lex.tokens()[1].location().line(), 2);
    assert_eq!(lex.tokens()[1].location().column(), 2);
}

#[test]
fn string_literals() {
    let lex = scan(b"\"\" \"a b\" \"\\n\"");
    assert_eq!(
        lexemes(&lex),
        vec![
            (TokenType::Str, "\"\"".to_string()),
            (TokenType::Space, " ".to_string()),
            (TokenType::Str, "\"a b\"".to_string()),
            (TokenType::Space, " ".to_string()),
            (TokenType::Str, "\"\\n\"".to_string()),
        ]
    );
    assert_eq!(lex.tokens()[2].location().column(), 4);
    assert_eq!(lex.tokens()[4].location().column(), 10);
    assert_eq!(lex.cursor().column, 14);
}

#[test]
fn a_backslash_always_escapes_the_next_byte() {
    assert_eq!(scan_err(b"\"a\\\\\""), (LexErrorKind::UnterminatedString, 1, 1));
    let lex = scan(b"\"a\\\\\" \"");
    assert_eq!(lex.tokens().len(), 1);
    assert_eq!(lex.tokens()[0].bytes(), b"\"a\\\\\" \"");
}

#[test]
fn a_string_may_run_over_lines() {
    let lex = scan(b"\"a\nbc\\\nd\" x");
    assert_eq!(lex.tokens()[0].bytes(), b"\"a\nbc\\\nd\"");
    assert_eq!(lex.tokens()[0].location().line(), 1);
    assert_eq!(lex.tokens()[1].location().line(), 3);
    assert_eq!(lex.tokens()[1].location().column(), 3);
    assert_eq!(lex.tokens()[2].location().column(), 4);
}

#[test]
fn line_comment_stops_before_the_line_feed() {
    let lex = scan(b"a // b c\nd");
    assert_eq!(
        lexemes(&lex),
        vec![
            (TokenType::Identifier, "a".to_string()),
            (TokenType::Space, " ".to_string()),
            (TokenType::Note, "// b c".to_string()),
            (TokenType::NewLine, "\n".to_string()),
            (TokenType::Identifier, "d".to_string()),
        ]
    );
    assert_eq!(lex.tokens()[2].location().column(), 3);
    assert_eq!(lex.tokens()[3].location().line(), 1);
    assert_eq!(lex.tokens()[3].location().column(), 9);
    assert_eq!(lex.tokens()[4].location().line(), 2);
    assert_eq!(lex.tokens()[4].location().column(), 1);
}

#[test]
fn line_comment_may_end_the_file() {
    let lex = scan(b"x //");
    assert_eq!(lexemes(&lex)[2], (TokenType::Note, "//".to_string()));
    let lex = scan(b"// no line feed");
    assert_eq!(lexemes(&lex), vec![(TokenType::Note, "// no line feed".to_string())]);
    assert_eq!(lex.cursor().column, 16);
}

#[test]
fn block_comment() {
    let lex = scan(b"/**/ /* a\n * b */x");
    assert_eq!(
        lexemes(&lex),
        vec![
            (TokenType::Note, "/**/".to_string()),
            (TokenType::Space, " ".to_string()),
            (TokenType::Note, "/* a\n * b */".to_string()),
            (TokenType::Identifier, "x".to_string()),
        ]
    );
    assert_eq!(lex.tokens()[2].location().line(), 1);
    assert_eq!(lex.tokens()[2].location().column(), 6);
    assert_eq!(lex.tokens()[3].location().line(), 2);
    assert_eq!(lex.tokens()[3].location().column(), 8);
    assert_eq!(scan_err(b"/*/").0, LexErrorKind::UnterminatedComment);
    assert_eq!(scan_err(b"/* *").0, LexErrorKind::UnterminatedComment);
}

#[test]
fn a_slash_alone_is_an_operator() {
    assert_eq!(lexemes(&scan(b"/")), vec![(op(), "/".to_string())]);
    assert_eq!(
        lexemes(&scan(b"a/b")),
        vec![
            (TokenType::Identifier, "a".to_string()),
            (op(), "/".to_string()),
            (TokenType::Identifier, "b".to_string()),
        ]
    );
}

#[test]
fn every_punctuation_byte_is_one_operator() {
    for b in 0u8..=127 {
        if b.is_ascii_punctuation() && b != b'"' && b != b'\'' && b != b'_' {
            let lex = scan(&[b, b' ']);
            assert_eq!(lex.tokens()[0].kind(), op());
            assert_eq!(lex.tokens()[0].bytes(), &[b]);
        }
    }
    let lex = scan(b"==");
    assert_eq!(lexemes(&lex), vec![(op(), "=".to_string()), (op(), "=".to_string())]);
}

#[test]
fn unrecognized_bytes_are_skipped() {
    let lex = scan(b"a\t\r;\x7F\xC3\xA9 c");
    assert_eq!(
        lexemes(&lex),
        vec![
            (TokenType::Identifier, "a".to_string()),
            (op(), ";".to_string()),
            (TokenType::Space, " ".to_string()),
            (TokenType::Identifier, "c".to_string()),
        ]
    );
    assert_eq!(lex.tokens()[1].location().column(), 4);
    assert_eq!(lex.tokens()[2].location().column(), 8);
    assert_eq!(lex.tokens()[3].location().column(), 9);
    assert_eq!(lex.cursor().index, 9);
    assert_eq!(lex.cursor().column, 10);
    let lex = scan(b"\t");
    assert!(lex.tokens().is_empty());
    assert_eq!(lex.cursor().column, 2);
}

#[test]
fn identifiers() {
    assert_eq!(lexemes(&scan(b"_")), vec![(TokenType::Identifier, "_".to_string())]);
    assert_eq!(lexemes(&scan(b"int")), vec![(TokenType::Identifier, "int".to_string())]);
    assert_eq!(
        lexemes(&scan(b"a_1\tb")),
        vec![(TokenType::Identifier, "a_1".to_string()), (TokenType::Identifier, "b".to_string())]
    );
    assert_eq!(
        lexemes(&scan(b"Z9(")),
        vec![(TokenType::Identifier, "Z9".to_string()), (op(), "(".to_string())]
    );
    assert_eq!(scan_err(b"ab\x00").0, LexErrorKind::BadIdentifierByte(0));
    assert_eq!(scan_err(b"ab\x7F").0, LexErrorKind::BadIdentifierByte(0x7F));
}

fn number(src: &[u8]) -> String {
    let lex = scan(src);
    assert_eq!(lex.tokens()[0].kind(), TokenType::Number);
    lex.tokens()[0].lexeme()
}

fn number_err(src: &[u8]) -> (LexErrorKind, usize) {
    let (kind, _, column) = scan_err(src);
    (kind, column)
}

#[test]
fn numbers_that_are_accepted() {
    assert_eq!(number(b"0"), "0");
    assert_eq!(number(b"7"), "7");
    assert_eq!(number(b"1234567890;"), "1234567890");
    assert_eq!(number(b"01234567 "), "01234567");
    assert_eq!(number(b"0b10101\n"), "0b10101");
    assert_eq!(number(b"0B1"), "0B1");
    assert_eq!(number(b"0xaBcdef"), "0xaBcdef");
    assert_eq!(number(b"0X0123456789abcdefABCDEF"), "0X0123456789abcdefABCDEF");
    assert_eq!(number(b"0x"), "0x");
    assert_eq!(number(b"0b"), "0b");
    assert_eq!(number(b"12f"), "12f");
    assert_eq!(number(b"12F,"), "12F");
    assert_eq!(number(b"0f"), "0f");
    assert_eq!(number(b"0b1f"), "0b1f");
    assert_eq!(number(b"017f"), "017f");
    assert_eq!(number(b"0xff"), "0xff");
    assert_eq!(number(b"9\t"), "9");
    assert_eq!(number(b"9\r"), "9");
    assert_eq!(number(b"9\x0C"), "9");
}

#[test]
fn a_number_ends_at_an_underscore_or_a_dot() {
    assert_eq!(
        lexemes(&scan(b"123_456")),
        vec![(TokenType::Number, "123".to_string()), (TokenType::Identifier, "_456".to_string())]
    );
    assert_eq!(
        lexemes(&scan(b"1.2")),
        vec![
            (TokenType::Number, "1".to_string()),
            (op(), ".".to_string()),
            (TokenType::Number, "2".to_string()),
        ]
    );
}

#[test]
fn numbers_that_fail_at_once() {
    assert_eq!(number_err(b"0b102"), (LexErrorKind::BinaryOverflow, 5));
    assert_eq!(number_err(b"0b19"), (LexErrorKind::BinaryOverflow, 4));
    assert_eq!(number_err(b"0b1a"), (LexErrorKind::BinaryOverflow, 4));
    assert_eq!(number_err(b"0b1b"), (LexErrorKind::BinaryOverflow, 4));
    assert_eq!(number_err(b"0bf"), (LexErrorKind::BinaryOverflow, 3));
    assert_eq!(number_err(b"08"), (LexErrorKind::OctalOverflow, 2));
    assert_eq!(number_err(b"0129"), (LexErrorKind::OctalOverflow, 4));
    assert_eq!(number_err(b"01c"), (LexErrorKind::OctalOverflow, 3));
    assert_eq!(number_err(b"01b"), (LexErrorKind::OctalOverflow, 3));
    assert_eq!(number_err(b"0ff"), (LexErrorKind::OctalOverflow, 3));
    assert_eq!(number_err(b"1a"), (LexErrorKind::DecimalOverflow, 2));
    assert_eq!(number_err(b"12E3"), (LexErrorKind::DecimalOverflow, 3));
    assert_eq!(number_err(b"12b"), (LexErrorKind::DecimalOverflow, 3));
    assert_eq!(number_err(b"1ff"), (LexErrorKind::DecimalOverflow, 3));
    assert_eq!(number_err(b"1fb"), (LexErrorKind::DecimalOverflow, 3));
}

#[test]
fn numbers_that_fail_when_the_run_ends() {
    let spoiled = LexErrorKind::DigitStartsIdentifier;
    assert_eq!(number_err(b" 1x"), (spoiled, 2));
    assert_eq!(number_err(b"1x2 "), (spoiled, 1));
    assert_eq!(number_err(b"0xg"), (spoiled, 1));
    assert_eq!(number_err(b"0x1x"), (spoiled, 1));
    assert_eq!(number_err(b"00x1"), (spoiled, 1));
    assert_eq!(number_err(b"12g;"), (spoiled, 1));
    assert_eq!(number_err(b"1f1"), (spoiled, 1));
    assert_eq!(number_err(b"1f0"), (spoiled, 1));
    assert_eq!(number_err(b"1fa"), (spoiled, 1));
    assert_eq!(number_err(b"1fx"), (spoiled, 1));
    assert_eq!(number_err(b"1\x01"), (spoiled, 1));
    assert_eq!(number_err(b"1\xC3\xA9"), (spoiled, 1));
    // Once the run is spoiled, nothing in it fails at once any more.
    assert_eq!(number_err(b"0bz9"), (spoiled, 1));
    assert_eq!(number_err(b"1za"), (spoiled, 1));
}

#[test]
fn scanners_decline_without_a_change() {
    let mut lex = Lex::new("m.c");
    let src = b"\t";
    assert_eq!(lex.parse_note(src).unwrap(), false);
    assert_eq!(lex.parse_new_line(src), false);
    assert_eq!(lex.parse_space(src), false);
    assert_eq!(lex.parse_string(src).unwrap(), false);
    assert_eq!(lex.parse_char(src).unwrap(), false);
    assert_eq!(lex.parse_keyword(src), false);
    assert_eq!(lex.parse_identifier(src).unwrap(), false);
    assert_eq!(lex.parse_operator(src), false);
    assert_eq!(lex.parse_number(src).unwrap(), false);
    assert!(lex.tokens().is_empty());
    assert_eq!(lex.cursor().index, 0);
    assert!(lex.step(src).is_ok());
    assert!(lex.tokens().is_empty());
    assert_eq!(lex.cursor().index, 1);
    assert_eq!(lex.cursor().line, 1);
    assert_eq!(lex.cursor().column, 2);
}

#[test]
fn each_scanner_takes_its_token() {
    let src = b"//c\n \"s\"'c'id+42";
    let mut lex = Lex::new("m.c");
    assert!(lex.parse_note(src).unwrap());
    assert!(lex.parse_new_line(src));
    assert!(lex.parse_space(src));
    assert!(lex.parse_string(src).unwrap());
    assert!(lex.parse_char(src).unwrap());
    assert!(!lex.parse_keyword(src));
    assert!(lex.parse_identifier(src).unwrap());
    assert!(lex.parse_operator(src));
    assert!(lex.parse_number(src).unwrap());
    assert_eq!(lex.cursor().index, src.len());
    assert_eq!(
        lexemes(&lex),
        vec![
            (TokenType::Note, "//c".to_string()),
            (TokenType::NewLine, "\n".to_string()),
            (TokenType::Space, " ".to_string()),
            (TokenType::Str, "\"s\"".to_string()),
            (TokenType::Char, "'c'".to_string()),
            (TokenType::Identifier, "id".to_string()),
            (op(), "+".to_string()),
            (TokenType::Number, "42".to_string()),
        ]
    );
    let mut again = Lex::new("m.c");
    assert!(again.parse(src).is_ok());
    assert_eq!(lexemes(&again), lexemes(&lex));
}

#[test]
fn keywords_are_identifiers() {
    for word in ["void", "char", "int", "float", "double"] {
        let lex = scan(word.as_bytes());
        assert_eq!(lexemes(&lex), vec![(TokenType::Identifier, word.to_string())]);
    }
}

#[test]
fn a_lexeme_that_is_no_utf8_is_shown_with_replacements() {
    let src = b"\"a\xFFb\"";
    let lex = scan(src);
    assert_eq!(lex.tokens()[0].bytes(), src);
    assert_eq!(lex.tokens()[0].lexeme(), "\"a\u{FFFD}b\"");
    assert_eq!(lex.show(), "'\"a\u{FFFD}b\"' [Str] Loc:(main.c:1:1)");
    let lex = scan("\"\u{e9}t\u{e9}\" /* \u{4e2d} */".as_bytes());
    assert_eq!(lex.tokens()[0].lexeme(), "\"\u{e9}t\u{e9}\"");
    assert_eq!(lex.tokens()[2].lexeme(), "/* \u{4e2d} */");
}

#[test]
fn an_empty_file_has_no_tokens() {
    let lex = scan(b"");
    assert!(lex.tokens().is_empty());
    assert_eq!(lex.show(), "");
    assert_eq!((lex.cursor().index, lex.cursor().line, lex.cursor().column), (0, 1, 1));
    assert_eq!(lex.file(), "main.c");
}

#[test]
fn a_second_scan_goes_on_where_the_first_ended() {
    let mut lex = Lex::new("m.c");
    assert!(lex.parse(b"ab").is_ok());
    assert!(lex.parse(b"ab cd").is_ok());
    assert_eq!(
        lexemes(&lex),
        vec![
            (TokenType::Identifier, "ab".to_string()),
            (TokenType::Space, " ".to_string()),
            (TokenType::Identifier, "cd".to_string()),
        ]
    );
}

#[test]
fn tokens_stand_where_their_locations_say() {
    let src = b"int x = 0x1f;\t/* a\n\xC3\xA9 */\n\"s\n\" 'c' \x01 y // z\n";
    let lex = scan(src);
    let mut at = 0;
    for t in lex.tokens() {
        let lexeme = t.bytes();
        assert!(!lexeme.is_empty());
        while &src[at..at + lexeme.len()] != lexeme
            || t.location().line() != 1 + src[..at].iter().filter(|b| **b == b'\n').count()
        {
            at += 1;
        }
        let line_start = src[..at].iter().rposition(|b| *b == b'\n').map_or(0, |p| p + 1);
        assert_eq!(t.location().column(), 1 + at - line_start);
        assert_eq!(t.location().file(), "main.c");
        at += lexeme.len();
    }
    assert!(at <= src.len());
}
