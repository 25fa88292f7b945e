//! The vocabularies of the scanner: what a step reports, what kind of
//! container is open, and which lexical context the scanner is in.
use vstd::prelude::*;

verus! {

/// The classification of one character, returned by every step.
#[derive(Clone, Copy, Debug, PartialEq, Eq, Structural, Hash)]
pub enum Opcode {
    /// An uninteresting character inside a literal.
    Continue,
    /// The first character of a string, a number or a keyword.
    BeginLiteral,
    /// The `{` that opens an object.
    BeginObject,
    /// The `:` after an object key.
    ObjectKey,
    /// The `,` after an object value that is not the last.
    ObjectValue,
    /// The `}` that closes an object.
    EndObject,
    /// The `[` that opens an array.
    BeginArray,
    /// The `,` after an array element that is not the last.
    ArrayValue,
    /// The `]` that closes an array.
    EndArray,
    /// Whitespace between tokens.
    SkipSpace,
    /// The top-level value ended before this character.
    End,
    /// A syntax error; the scanner's error slot holds the message.
    Error,
}

/// What the scanner is in the middle of, one entry for each open container.
#[derive(Clone, Copy, Debug, PartialEq, Eq, Structural, Hash)]
pub enum ParseState {
    /// In an object, before the colon of a member.
    ObjectKey,
    /// In an object, after the colon of a member.
    ObjectValue,
    /// In an array.
    ArrayValue,
}

/// The lexical context that decides how the next character is classified.
#[derive(Clone, Copy, Debug, PartialEq, Eq, Structural, Hash)]
pub enum State {
    /// Before a value.
    BeginValue,
    /// After `[`: before a value or `]`.
    BeginValueOrEmpty,
    /// After `{`: before a key or `}`.
    BeginStringOrEmpty,
    /// After `,` in an object: before a key.
    BeginString,
    /// After a value.
    EndValue,
    /// After the top-level value.
    EndTop,
    /// After `"`.
    InString,
    /// After `\` in a string.
    InStringEsc,
    /// After `\u` in a string.
    InStringEscU,
    /// After `\u` and one hexadecimal digit.
    InStringEscU1,
    /// After `\u` and two hexadecimal digits.
    InStringEscU12,
    /// After `\u` and three hexadecimal digits.
    InStringEscU123,
    /// After the `-` of a number.
    Neg,
    /// After an integer part that starts with a digit from 1 to 9.
    One,
    /// After the integer part `0`.
    Zero,
    /// After the decimal point.
    Dot,
    /// After the decimal point and at least one digit.
    Dot0,
    /// After `e` or `E`.
    E,
    /// After `e` or `E` and a sign.
    ESign,
    /// After `e` or `E`, the sign if any, and at least one digit.
    E0,
    /// After `t`.
    T,
    /// After `tr`.
    Tr,
    /// After `tru`.
    Tru,
    /// After `f`.
    F,
    /// After `fa`.
    Fa,
    /// After `fal`.
    Fal,
    /// After `fals`.
    Fals,
    /// After `n`.
    N,
    /// After `nu`.
    Nu,
    /// After `nul`.
    Nul,
    /// After a syntax error.
    Error,
}

} // verus!
