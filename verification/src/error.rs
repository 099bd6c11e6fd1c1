//! Error kinds reported by the parser.

use vstd::prelude::*;

verus! {

/// The kind of failure met while parsing.
///
/// Every error is fatal to the parse that raised it; the surrounding
/// [`Span`](crate::span::Span) carries the byte range of the offending lexeme.
#[derive(Clone, Copy, Debug, PartialEq, Eq, Structural)]
pub enum Error {
    /// Expected a value but found end of input instead.
    Eof,
    /// Expected the given character but found something else.
    Expected(char),
    /// Expected a colon between an object key and its value.
    ExpectedColon,
    /// Expected a value.
    ExpectedValue,
    /// Exponent marker in a number not followed by a digit.
    ExpectedExponentValue,
    /// Unexpected token while parsing.
    UnexpectedToken,
    /// String was not properly terminated.
    UnclosedString,
    /// Raw control character inside a string.
    ControlCharacter,
    /// Invalid escape sequence in a string.
    InvalidEscapeSequnce,
    /// Invalid literal where `true`, `false` or `null` was expected.
    InvalidLiteral,
    /// Comma after the last value of an array or an object.
    TrailingComma,
    /// Number starting with a decimal point.
    LeadingDecimal,
    /// Number ending with a decimal point.
    TrailingDecimal,
    /// Zero followed by a digit in the integer part of a number.
    LeadingZero,
    /// Negative sign of a number not followed by a digit.
    MissingDigitAfterNegative,
    /// Number does not fit a finite double.
    NumberOverflow,
}

impl Error {
    /// A short name for the error kind, for diagnostics.
    pub fn describe(&self) -> (r: &'static str) {
        match self {
            Error::Eof => "unexpected end of input",
            Error::Expected(_) => "expected a specific character",
            Error::ExpectedColon => "expected a colon",
            Error::ExpectedValue => "expected a value",
            Error::ExpectedExponentValue => "expected an exponent value",
            Error::UnexpectedToken => "unexpected token",
            Error::UnclosedString => "unclosed string",
            Error::ControlCharacter => "control character in string",
            Error::InvalidEscapeSequnce => "invalid escape sequence",
            Error::InvalidLiteral => "invalid literal",
            Error::TrailingComma => "trailing comma",
            Error::LeadingDecimal => "number starts with a decimal point",
            Error::TrailingDecimal => "number ends with a decimal point",
            Error::LeadingZero => "number has a leading zero",
            Error::MissingDigitAfterNegative => "missing digit after minus sign",
            Error::NumberOverflow => "number overflow",
        }
    }
}

} // verus!
