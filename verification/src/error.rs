//! The errors that end a scan.

use crate::text::{decimal, decimal_string};
use crate::token::{location_text, Location, LocationView};
use vstd::prelude::*;

verus! {

/// Why a scan failed. Every failure is final: nothing is scanned after it.
#[derive(Debug, Clone, Copy, PartialEq, Eq, Structural)]
pub enum LexErrorKind {
    /// A `/*` without a `*/` after it. Reported where the comment opens.
    UnterminatedComment,
    /// A `"` without a closing `"`. Reported where the literal opens.
    UnterminatedString,
    /// A `'` without a closing `'`. Reported where the literal opens.
    UnterminatedChar,
    /// More than one character between `'` and `'`. Reported where the
    /// literal opens.
    CharTooLong,
    /// A byte outside ASCII between `'` and `'`. Holds the byte and is
    /// reported at it.
    CharNotAscii(u8),
    /// A byte that can neither continue nor end an identifier. Holds the
    /// byte and is reported where the identifier starts.
    BadIdentifierByte(u8),
    /// A digit or letter that a binary literal cannot hold. Reported at it.
    BinaryOverflow,
    /// A digit or letter that an octal literal cannot hold. Reported at it.
    OctalOverflow,
    /// A letter that a decimal literal cannot hold. Reported at it.
    DecimalOverflow,
    /// A run that starts with a digit and is no number. Reported where the
    /// run starts, once it has ended.
    DigitStartsIdentifier,
}

/// What a message says of each kind of failure.
pub open spec fn describe(kind: LexErrorKind) -> Seq<char> {
    match kind {
        LexErrorKind::UnterminatedComment => "unterminated block comment"@,
        LexErrorKind::UnterminatedString => "unterminated string literal"@,
        LexErrorKind::UnterminatedChar => "unterminated char literal"@,
        LexErrorKind::CharTooLong => "more than one character between quotes"@,
        LexErrorKind::CharNotAscii(b) => "byte "@ + decimal(b as nat)
            + " is not an ASCII character"@,
        LexErrorKind::BadIdentifierByte(b) => "byte "@ + decimal(b as nat)
            + " cannot be part of an identifier"@,
        LexErrorKind::BinaryOverflow => "binary digit overflow"@,
        LexErrorKind::OctalOverflow => "octal digit overflow"@,
        LexErrorKind::DecimalOverflow => "decimal digit overflow"@,
        LexErrorKind::DigitStartsIdentifier => "identifier cannot start with a digit"@,
    }
}

impl LexErrorKind {
    /// What a message says of this kind of failure.
    pub fn description(&self) -> (s: String)
        ensures
            s@ == describe(*self),
    {
        match self {
            LexErrorKind::UnterminatedComment => String::from_str("unterminated block comment"),
            LexErrorKind::UnterminatedString => String::from_str("unterminated string literal"),
            LexErrorKind::UnterminatedChar => String::from_str("unterminated char literal"),
            LexErrorKind::CharTooLong => String::from_str(
                "more than one character between quotes",
            ),
            LexErrorKind::CharNotAscii(b) => {
                let mut s = String::from_str("byte ");
                s.append(decimal_string(*b as usize).as_str());
                s.append(" is not an ASCII character");
                s
            },
            LexErrorKind::BadIdentifierByte(b) => {
                let mut s = String::from_str("byte ");
                s.append(decimal_string(*b as usize).as_str());
                s.append(" cannot be part of an identifier");
                s
            },
            LexErrorKind::BinaryOverflow => String::from_str("binary digit overflow"),
            LexErrorKind::OctalOverflow => String::from_str("octal digit overflow"),
            LexErrorKind::DecimalOverflow => String::from_str("decimal digit overflow"),
            LexErrorKind::DigitStartsIdentifier => String::from_str(
                "identifier cannot start with a digit",
            ),
        }
    }
}

/// A failed scan: why, and where in the source.
#[derive(Debug)]
pub struct LexError {
    kind: LexErrorKind,
    loc: Location,
}

/// A failed scan as plain values.
pub struct LexErrorView {
    pub kind: LexErrorKind,
    pub loc: LocationView,
}

/// The one-line message for a failure:
/// `Error: "description" at (file:line:column)`.
pub open spec fn error_text(e: LexErrorView) -> Seq<char> {
    "Error: \""@ + describe(e.kind) + "\" at ("@ + location_text(e.loc) + ")"@
}

impl View for LexError {
    type V = LexErrorView;

    closed spec fn view(&self) -> LexErrorView {
        LexErrorView { kind: self.kind, loc: self.loc@ }
    }
}

impl LexError {
    pub fn new(kind: LexErrorKind, loc: Location) -> (e: LexError)
        ensures
            e@ == (LexErrorView { kind, loc: loc@ }),
    {
        LexError { kind, loc }
    }

    pub fn kind(&self) -> (k: LexErrorKind)
        ensures
            k == self@.kind,
    {
        self.kind
    }

    pub fn location(&self) -> (l: &Location)
        ensures
            l@ == self@.loc,
    {
        &self.loc
    }

    /// The one-line message for this failure.
    pub fn show(&self) -> (s: String)
        ensures
            s@ == error_text(self@),
    {
        let mut s = String::from_str("Error: \"");
        s.append(self.kind.description().as_str());
        s.append("\" at (");
        s.append(self.loc.show().as_str());
        s.append(")");
        s
    }
}

} // verus!
