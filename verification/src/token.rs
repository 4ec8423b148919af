//! Tokens, where they were found, and how they are printed.

use crate::text::{decimal, decimal_string, lossy_string, text_of};
use vstd::prelude::*;
use vstd::slice::slice_to_vec;
use vstd::utf8::*;

verus! {

/// The keywords of the language. No scanner produces them yet: a keyword is
/// scanned as an identifier.
#[derive(Debug, Clone, Copy, PartialEq, Eq, Structural)]
pub enum KeyWordType {
    KVoid,
    KChar,
    KInt,
    KFloat,
    Kdouble,
}

/// The operators of the language. The operator scanner tags every
/// punctuation byte `OpEq`, whichever byte it is.
#[derive(Debug, Clone, Copy, PartialEq, Eq, Structural)]
pub enum OperatorType {
    OpEq,
    OpAssign,
}

/// The kind of a token. `Note` is a comment, `NewLine` one line feed and
/// `Space` one space; these three are trivia. `Number` is every numeric
/// literal, with or without a float suffix.
#[derive(Debug, Clone, Copy, PartialEq, Eq, Structural)]
pub enum TokenType {
    Note,
    NewLine,
    Space,
    KeyWord(KeyWordType),
    Number,
    FlotNumber,
    Str,
    Char,
    Identifier,
    Operator(OperatorType),
}

/// The tag that a dump prints for a kind: the kind as it is written in code.
pub open spec fn kind_tag(kind: TokenType) -> Seq<char> {
    match kind {
        TokenType::Note => "Note"@,
        TokenType::NewLine => "NewLine"@,
        TokenType::Space => "Space"@,
        TokenType::KeyWord(KeyWordType::KVoid) => "KeyWord(KVoid)"@,
        TokenType::KeyWord(KeyWordType::KChar) => "KeyWord(KChar)"@,
        TokenType::KeyWord(KeyWordType::KInt) => "KeyWord(KInt)"@,
        TokenType::KeyWord(KeyWordType::KFloat) => "KeyWord(KFloat)"@,
        TokenType::KeyWord(KeyWordType::Kdouble) => "KeyWord(Kdouble)"@,
        TokenType::Number => "Number"@,
        TokenType::FlotNumber => "FlotNumber"@,
        TokenType::Str => "Str"@,
        TokenType::Char => "Char"@,
        TokenType::Identifier => "Identifier"@,
        TokenType::Operator(OperatorType::OpEq) => "Operator(OpEq)"@,
        TokenType::Operator(OperatorType::OpAssign) => "Operator(OpAssign)"@,
    }
}

/// Comments, line feeds and spaces: kept in the token sequence, left out of
/// a dump.
pub open spec fn is_trivia(kind: TokenType) -> bool {
    kind == TokenType::Note || kind == TokenType::NewLine || kind == TokenType::Space
}

impl TokenType {
    /// The tag that a dump prints for this kind.
    pub fn tag(&self) -> (s: &'static str)
        ensures
            s@ == kind_tag(*self),
    {
        match self {
            TokenType::Note => "Note",
            TokenType::NewLine => "NewLine",
            TokenType::Space => "Space",
            TokenType::KeyWord(KeyWordType::KVoid) => "KeyWord(KVoid)",
            TokenType::KeyWord(KeyWordType::KChar) => "KeyWord(KChar)",
            TokenType::KeyWord(KeyWordType::KInt) => "KeyWord(KInt)",
            TokenType::KeyWord(KeyWordType::KFloat) => "KeyWord(KFloat)",
            TokenType::KeyWord(KeyWordType::Kdouble) => "KeyWord(Kdouble)",
            TokenType::Number => "Number",
            TokenType::FlotNumber => "FlotNumber",
            TokenType::Str => "Str",
            TokenType::Char => "Char",
            TokenType::Identifier => "Identifier",
            TokenType::Operator(OperatorType::OpEq) => "Operator(OpEq)",
            TokenType::Operator(OperatorType::OpAssign) => "Operator(OpAssign)",
        }
    }

    /// Whether a dump leaves tokens of this kind out.
    pub fn trivia(&self) -> (r: bool)
        ensures
            r == is_trivia(*self),
    {
        match self {
            TokenType::Note | TokenType::NewLine | TokenType::Space => true,
            _ => false,
        }
    }
}

/// A place in a source file.
#[derive(Debug)]
pub struct Location {
    file: String,
    line: usize,
    column: usize,
}

/// A place in a source file, as plain values.
pub struct LocationView {
    pub file: Seq<char>,
    pub line: int,
    pub column: int,
}

/// A location as `file:line:column`.
pub open spec fn location_text(l: LocationView) -> Seq<char> {
    l.file + ":"@ + decimal(l.line as nat) + ":"@ + decimal(l.column as nat)
}

impl View for Location {
    type V = LocationView;

    closed spec fn view(&self) -> LocationView {
        LocationView { file: self.file@, line: self.line as int, column: self.column as int }
    }
}

impl Location {
    pub fn new(file: &str, line: usize, column: usize) -> (l: Location)
        ensures
            l@ == (LocationView { file: file@, line: line as int, column: column as int }),
    {
        Location { file: String::from_str(file), line, column }
    }

    pub fn file(&self) -> (s: &str)
        ensures
            s@ == self@.file,
    {
        self.file.as_str()
    }

    pub fn line(&self) -> (n: usize)
        ensures
            n == self@.line,
    {
        self.line
    }

    pub fn column(&self) -> (n: usize)
        ensures
            n == self@.column,
    {
        self.column
    }

    /// A copy of this location.
    pub fn duplicate(&self) -> (l: Location)
        ensures
            l@ == self@,
    {
        Location { file: self.file.clone(), line: self.line, column: self.column }
    }

    /// This location as `file:line:column`.
    pub fn show(&self) -> (s: String)
        ensures
            s@ == location_text(self@),
    {
        let mut s = self.file.clone();
        s.append(":");
        s.append(decimal_string(self.line).as_str());
        s.append(":");
        s.append(decimal_string(self.column).as_str());
        s
    }
}

/// One token: where it starts, its kind, and the bytes it was scanned from.
#[derive(Debug)]
pub struct Token {
    loc: Location,
    token_type: TokenType,
    source: Vec<u8>,
}

/// A token as plain values.
pub struct TokenView {
    pub loc: LocationView,
    pub kind: TokenType,
    pub lexeme: Seq<u8>,
}

/// The line that a dump prints for a token:
/// `'lexeme' [tag] Loc:(file:line:column)`.
pub open spec fn token_text(t: TokenView) -> Seq<char> {
    "'"@ + text_of(t.lexeme) + "' ["@ + kind_tag(t.kind) + "] Loc:("@ + location_text(t.loc) + ")"@
}

impl View for Token {
    type V = TokenView;

    closed spec fn view(&self) -> TokenView {
        TokenView { loc: self.loc@, kind: self.token_type, lexeme: self.source@ }
    }
}

impl Token {
    /// A token whose lexeme is the bytes of `source`.
    pub fn new(loc: Location, token_type: TokenType, source: &str) -> (t: Token)
        ensures
            t@ == (TokenView { loc: loc@, kind: token_type, lexeme: encode_utf8(source@) }),
    {
        Token { loc, token_type, source: source.as_bytes_vec() }
    }

    /// A token whose lexeme is `source`.
    pub fn from_bytes(loc: Location, token_type: TokenType, source: &[u8]) -> (t: Token)
        ensures
            t@ == (TokenView { loc: loc@, kind: token_type, lexeme: source@ }),
    {
        Token { loc, token_type, source: slice_to_vec(source) }
    }

    pub fn location(&self) -> (l: &Location)
        ensures
            l@ == self@.loc,
    {
        &self.loc
    }

    pub fn kind(&self) -> (k: TokenType)
        ensures
            k == self@.kind,
    {
        self.token_type
    }

    /// The bytes that the token was scanned from.
    pub fn bytes(&self) -> (b: &[u8])
        ensures
            b@ == self@.lexeme,
    {
        self.source.as_slice()
    }

    /// The lexeme as text.
    pub fn lexeme(&self) -> (s: String)
        ensures
            s@ == text_of(self@.lexeme),
    {
        lossy_string(self.source.as_slice())
    }

    /// The line that a dump prints for this token.
    pub fn show(&self) -> (s: String)
        ensures
            s@ == token_text(self@),
    {
        let mut s = String::from_str("'");
        s.append(self.lexeme().as_str());
        s.append("' [");
        s.append(self.token_type.tag());
        s.append("] Loc:(");
        s.append(self.loc.show().as_str());
        s.append(")");
        s
    }
}

/// The lines of a dump, each ended by a line feed: one line for each token
/// that is not trivia, in order.
pub open spec fn dump_lines(tokens: Seq<TokenView>) -> Seq<char>
    decreases tokens.len(),
{
    if tokens.len() == 0 {
        Seq::empty()
    } else if is_trivia(tokens.last().kind) {
        dump_lines(tokens.drop_last())
    } else {
        dump_lines(tokens.drop_last()) + token_text(tokens.last()) + "\n"@
    }
}

/// A dump: the lines joined by single line feeds, with no line feed at the
/// end; empty when every token is trivia.
pub open spec fn dump(tokens: Seq<TokenView>) -> Seq<char> {
    let lines = dump_lines(tokens);
    if lines.len() == 0 {
        lines
    } else {
        lines.drop_last()
    }
}

/// The views of a run of tokens.
pub open spec fn token_views(tokens: Seq<Token>) -> Seq<TokenView> {
    tokens.map_values(|t: Token| t@)
}

/// Renders the dump of `tokens`.
pub fn dump_string(tokens: &Vec<Token>) -> (s: String)
    ensures
        s@ == dump(token_views(tokens@)),
{
    let ghost views = token_views(tokens@);
    let mut out = String::new();
    let mut first = true;
    let mut i: usize = 0;
    proof {
        reveal_strlit("\n");
    }
    while i < tokens.len()
        invariant
            i <= tokens.len(),
            views == token_views(tokens@),
            "\n"@.len() == 1,
            first ==> out@.len() == 0 && dump_lines(views.take(i as int)).len() == 0,
            !first ==> out@ + "\n"@ == dump_lines(views.take(i as int)),
        decreases tokens.len() - i,
    {
        let ghost before = views.take(i as int);
        let ghost after = views.take(i + 1);
        assert(after.drop_last() =~= before);
        assert(after.last() == tokens@[i as int]@);
        if !tokens[i].kind().trivia() {
            let line = tokens[i].show();
            if first {
                first = false;
                assert(out@ + line@ =~= line@);
            } else {
                out.append("\n");
            }
            out.append(line.as_str());
            assert(out@ + "\n"@ =~= dump_lines(before) + token_text(after.last()) + "\n"@);
        }
        i += 1;
    }
    assert(views.take(i as int) =~= views);
    assert(!first ==> (out@ + "\n"@).drop_last() =~= out@);
    out
}

} // verus!
