//! The transition functions, one for each lexical context.
//!
//! Each takes the scanner and one character, reports the character's opcode
//! and moves the scanner to the context of the next character.
use vstd::prelude::*;
use crate::model::handle;
use crate::opcode::{Opcode, ParseState, State};
use crate::scanner::Scanner;

verus! {

/// Whether `c` is a space, a tab, a carriage return or a line feed.
pub fn isSpace(c: char) -> (r: bool)
    ensures
        r == crate::model::is_space(c),
{
    c == ' ' || c == '\t' || c == '\r' || c == '\n'
}

/// Whether `c` is a decimal digit.
fn is_digit(c: char) -> (r: bool)
    ensures
        r == crate::model::is_digit(c),
{
    '0' <= c && c <= '9'
}

/// Whether `c` is a hexadecimal digit.
fn is_hex(c: char) -> (r: bool)
    ensures
        r == crate::model::is_hex(c),
{
    '0' <= c && c <= '9' || 'a' <= c && c <= 'f' || 'A' <= c && c <= 'F'
}

/// The state after reading `[`.
pub fn stateBeginValueOrEmpty(s: &mut Scanner, c: char) -> (r: Opcode)
    ensures
        (final(s)@, r) == handle(State::BeginValueOrEmpty, old(s)@, c),
{
    if isSpace(c) {
        return Opcode::SkipSpace;
    }
    if c == ']' {
        return state_end_value(s, c);
    }
    stateBeginValue(s, c)
}

/// The state at the beginning of the input, and before each value in a
/// container.
pub fn stateBeginValue(s: &mut Scanner, c: char) -> (r: Opcode)
    ensures
        (final(s)@, r) == handle(State::BeginValue, old(s)@, c),
{
    if isSpace(c) {
        return Opcode::SkipSpace;
    }
    match c {
        '{' => {
            s.state = State::BeginStringOrEmpty;
            s.pushParseState(ParseState::ObjectKey);
            Opcode::BeginObject
        },
        '[' => {
            s.state = State::BeginValueOrEmpty;
            s.pushParseState(ParseState::ArrayValue);
            Opcode::BeginArray
        },
        '"' => {
            s.state = State::InString;
            Opcode::BeginLiteral
        },
        '-' => {
            s.state = State::Neg;
            Opcode::BeginLiteral
        },
        '0' => {
            s.state = State::Zero;
            Opcode::BeginLiteral
        },
        't' => {
            s.state = State::T;
            Opcode::BeginLiteral
        },
        'f' => {
            s.state = State::F;
            Opcode::BeginLiteral
        },
        'n' => {
            s.state = State::N;
            Opcode::BeginLiteral
        },
        _ => {
            if '1' <= c && c <= '9' {
                s.state = State::One;
                return Opcode::BeginLiteral;
            }
            s.error(c, "looking for beginning of value")
        },
    }
}

/// The state after reading `{`.
pub fn stateBeginStringOrEmpty(s: &mut Scanner, c: char) -> (r: Opcode)
    requires
        old(s).parse_state@.len() > 0,
    ensures
        (final(s)@, r) == handle(State::BeginStringOrEmpty, old(s)@, c),
{
    if isSpace(c) {
        return Opcode::SkipSpace;
    }
    if c == '}' {
        let n: usize = s.parse_state.len();
        s.parse_state[n - 1] = ParseState::ObjectValue;
        return state_end_value(s, c);
    }
    stateBeginString(s, c)
}

/// The state after reading `{"key": value,`.
pub fn stateBeginString(s: &mut Scanner, c: char) -> (r: Opcode)
    ensures
        (final(s)@, r) == handle(State::BeginString, old(s)@, c),
{
    if isSpace(c) {
        return Opcode::SkipSpace;
    }
    if c == '"' {
        s.state = State::InString;
        return Opcode::BeginLiteral;
    }
    s.error(c, "looking for beginning of object key string")
}

/// The state after completing a value, such as after reading `{}` or `true`
/// or `["x"`.
pub fn state_end_value(s: &mut Scanner, c: char) -> (r: Opcode)
    ensures
        (final(s)@, r) == handle(State::EndValue, old(s)@, c),
{
    let n: usize = s.parse_state.len();
    if n == 0 {
        // The top-level value was complete before this character.
        s.state = State::EndTop;
        s.end_top = true;
        return state_end_top(s, c);
    }
    if isSpace(c) {
        s.state = State::EndValue;
        return Opcode::SkipSpace;
    }
    let ps: ParseState = s.parse_state[n - 1];
    match ps {
        ParseState::ObjectKey => {
            if c == ':' {
                s.parse_state[n - 1] = ParseState::ObjectValue;
                s.state = State::BeginValue;
                return Opcode::ObjectKey;
            }
            s.error(c, "after object key")
        },
        ParseState::ObjectValue => {
            if c == ',' {
                s.parse_state[n - 1] = ParseState::ObjectKey;
                s.state = State::BeginString;
                return Opcode::ObjectValue;
            }
            if c == '}' {
                s.popParseState();
                return Opcode::EndObject;
            }
            s.error(c, "after object key:value pair")
        },
        ParseState::ArrayValue => {
            if c == ',' {
                s.state = State::BeginValue;
                return Opcode::ArrayValue;
            }
            if c == ']' {
                s.popParseState();
                return Opcode::EndArray;
            }
            s.error(c, "after array element")
        },
    }
}

/// The state after finishing the top-level value, such as after reading `{}`
/// or `[1,2,3]`. Only whitespace should be seen now.
pub fn state_end_top(s: &mut Scanner, c: char) -> (r: Opcode)
    ensures
        (final(s)@, r) == handle(State::EndTop, old(s)@, c),
{
    if !isSpace(c) {
        // The complaint about this character comes at the next call.
        s.error(c, "after top-level value");
    }
    Opcode::End
}

/// The state after reading `"`.
pub fn state_in_string(s: &mut Scanner, c: char) -> (r: Opcode)
    ensures
        (final(s)@, r) == handle(State::InString, old(s)@, c),
{
    if c == '"' {
        s.state = State::EndValue;
        return Opcode::Continue;
    }
    if c == '\\' {
        s.state = State::InStringEsc;
        return Opcode::Continue;
    }
    if ' ' > c {
        return s.error(c, "in string literal");
    }
    Opcode::Continue
}

/// The state after reading `"\` during a quoted string.
pub fn state_in_string_esc(s: &mut Scanner, c: char) -> (r: Opcode)
    ensures
        (final(s)@, r) == handle(State::InStringEsc, old(s)@, c),
{
    match c {
        'b' | 'f' | 'n' | 'r' | 't' | '\\' | '/' | '"' => {
            s.state = State::InString;
            Opcode::Continue
        },
        'u' => {
            s.state = State::InStringEscU;
            Opcode::Continue
        },
        _ => s.error(c, "in string escape code"),
    }
}

/// The state after reading `"\u` during a quoted string.
pub fn state_in_string_esc_u(s: &mut Scanner, c: char) -> (r: Opcode)
    ensures
        (final(s)@, r) == handle(State::InStringEscU, old(s)@, c),
{
    if is_hex(c) {
        s.state = State::InStringEscU1;
        return Opcode::Continue;
    }
    s.error(c, "in \\u hexadecimal character escape")
}

/// The state after reading `"\u1` during a quoted string.
pub fn state_in_string_esc_u1(s: &mut Scanner, c: char) -> (r: Opcode)
    ensures
        (final(s)@, r) == handle(State::InStringEscU1, old(s)@, c),
{
    if is_hex(c) {
        s.state = State::InStringEscU12;
        return Opcode::Continue;
    }
    s.error(c, "in \\u hexadecimal character escape")
}

/// The state after reading `"\u12` during a quoted string.
pub fn state_in_string_esc_u12(s: &mut Scanner, c: char) -> (r: Opcode)
    ensures
        (final(s)@, r) == handle(State::InStringEscU12, old(s)@, c),
{
    if is_hex(c) {
        s.state = State::InStringEscU123;
        return Opcode::Continue;
    }
    s.error(c, "in \\u hexadecimal character escape")
}

/// The state after reading `"\u123` during a quoted string.
pub fn state_in_string_esc_u123(s: &mut Scanner, c: char) -> (r: Opcode)
    ensures
        (final(s)@, r) == handle(State::InStringEscU123, old(s)@, c),
{
    if is_hex(c) {
        s.state = State::InString;
        return Opcode::Continue;
    }
    s.error(c, "in \\u hexadecimal character escape")
}

/// The state after reading `-` during a number.
pub fn state_neg(s: &mut Scanner, c: char) -> (r: Opcode)
    ensures
        (final(s)@, r) == handle(State::Neg, old(s)@, c),
{
    if c == '0' {
        s.state = State::Zero;
        return Opcode::Continue;
    }
    if '1' <= c && c <= '9' {
        s.state = State::One;
        return Opcode::Continue;
    }
    s.error(c, "in numeric literal")
}

/// The state after reading a non-zero integer during a number, such as after
/// reading `1` or `100` but not `0`.
pub fn state1(s: &mut Scanner, c: char) -> (r: Opcode)
    ensures
        (final(s)@, r) == handle(State::One, old(s)@, c),
{
    if is_digit(c) {
        s.state = State::One;
        return Opcode::Continue;
    }
    state0(s, c)
}

/// The state after reading `0` during a number.
pub fn state0(s: &mut Scanner, c: char) -> (r: Opcode)
    ensures
        (final(s)@, r) == handle(State::Zero, old(s)@, c),
{
    if c == '.' {
        s.state = State::Dot;
        return Opcode::Continue;
    }
    if c == 'e' || c == 'E' {
        s.state = State::E;
        return Opcode::Continue;
    }
    state_end_value(s, c)
}

/// The state after reading the integer and decimal point in a number, such
/// as after reading `1.`.
pub fn state_dot(s: &mut Scanner, c: char) -> (r: Opcode)
    ensures
        (final(s)@, r) == handle(State::Dot, old(s)@, c),
{
    if is_digit(c) {
        s.state = State::Dot0;
        return Opcode::Continue;
    }
    s.error(c, "after decimal point in numeric literal")
}

/// The state after reading the integer, decimal point, and subsequent digits
/// of a number, such as after reading `3.14`.
pub fn state_dot0(s: &mut Scanner, c: char) -> (r: Opcode)
    ensures
        (final(s)@, r) == handle(State::Dot0, old(s)@, c),
{
    if is_digit(c) {
        return Opcode::Continue;
    }
    if c == 'e' || c == 'E' {
        s.state = State::E;
        return Opcode::Continue;
    }
    state_end_value(s, c)
}

/// The state after reading the mantissa and e in a number, such as after
/// reading `314e` or `0.314e`.
pub fn state_e(s: &mut Scanner, c: char) -> (r: Opcode)
    ensures
        (final(s)@, r) == handle(State::E, old(s)@, c),
{
    if c == '+' || c == '-' {
        s.state = State::ESign;
        return Opcode::Continue;
    }
    state_esign(s, c)
}

/// The state after reading the mantissa, e, and sign in a number, such as
/// after reading `314e-` or `0.314e+`.
pub fn state_esign(s: &mut Scanner, c: char) -> (r: Opcode)
    ensures
        (final(s)@, r) == handle(State::ESign, old(s)@, c),
{
    if is_digit(c) {
        s.state = State::E0;
        return Opcode::Continue;
    }
    s.error(c, "in exponent of numeric literal")
}

/// The state after reading the mantissa, e, optional sign, and at least one
/// digit of the exponent in a number, such as after reading `314e-2` or
/// `0.314e+1` or `3.14e0`.
pub fn state_e0(s: &mut Scanner, c: char) -> (r: Opcode)
    ensures
        (final(s)@, r) == handle(State::E0, old(s)@, c),
{
    if is_digit(c) {
        return Opcode::Continue;
    }
    state_end_value(s, c)
}

/// The state after reading `t`.
pub fn stateT(s: &mut Scanner, c: char) -> (r: Opcode)
    ensures
        (final(s)@, r) == handle(State::T, old(s)@, c),
{
    if c == 'r' {
        s.state = State::Tr;
        return Opcode::Continue;
    }
    s.error(c, "in literal true (expecting 'r')")
}

/// The state after reading `tr`.
pub fn stateTr(s: &mut Scanner, c: char) -> (r: Opcode)
    ensures
        (final(s)@, r) == handle(State::Tr, old(s)@, c),
{
    if c == 'u' {
        s.state = State::Tru;
        return Opcode::Continue;
    }
    s.error(c, "in literal true (expecting 'u')")
}

/// The state after reading `tru`.
pub fn stateTru(s: &mut Scanner, c: char) -> (r: Opcode)
    ensures
        (final(s)@, r) == handle(State::Tru, old(s)@, c),
{
    if c == 'e' {
        s.state = State::EndValue;
        return Opcode::Continue;
    }
    s.error(c, "in literal true (expecting 'e')")
}

/// The state after reading `f`.
pub fn stateF(s: &mut Scanner, c: char) -> (r: Opcode)
    ensures
        (final(s)@, r) == handle(State::F, old(s)@, c),
{
    if c == 'a' {
        s.state = State::Fa;
        return Opcode::Continue;
    }
    s.error(c, "in literal false (expecting 'a')")
}

/// The state after reading `fa`.
pub fn stateFa(s: &mut Scanner, c: char) -> (r: Opcode)
    ensures
        (final(s)@, r) == handle(State::Fa, old(s)@, c),
{
    if c == 'l' {
        s.state = State::Fal;
        return Opcode::Continue;
    }
    s.error(c, "in literal false (expecting 'l')")
}

/// The state after reading `fal`.
pub fn stateFal(s: &mut Scanner, c: char) -> (r: Opcode)
    ensures
        (final(s)@, r) == handle(State::Fal, old(s)@, c),
{
    if c == 's' {
        s.state = State::Fals;
        return Opcode::Continue;
    }
    s.error(c, "in literal false (expecting 's')")
}

/// The state after reading `fals`.
pub fn stateFals(s: &mut Scanner, c: char) -> (r: Opcode)
    ensures
        (final(s)@, r) == handle(State::Fals, old(s)@, c),
{
    if c == 'e' {
        s.state = State::EndValue;
        return Opcode::Continue;
    }
    s.error(c, "in literal false (expecting 'e')")
}

/// The state after reading `n`.
pub fn stateN(s: &mut Scanner, c: char) -> (r: Opcode)
    ensures
        (final(s)@, r) == handle(State::N, old(s)@, c),
{
    if c == 'u' {
        s.state = State::Nu;
        return Opcode::Continue;
    }
    s.error(c, "in literal null (expecting 'u')")
}

/// The state after reading `nu`.
pub fn stateNu(s: &mut Scanner, c: char) -> (r: Opcode)
    ensures
        (final(s)@, r) == handle(State::Nu, old(s)@, c),
{
    if c == 'l' {
        s.state = State::Nul;
        return Opcode::Continue;
    }
    s.error(c, "in literal null (expecting 'l')")
}

/// The state after reading `nul`.
pub fn stateNul(s: &mut Scanner, c: char) -> (r: Opcode)
    ensures
        (final(s)@, r) == handle(State::Nul, old(s)@, c),
{
    if c == 'l' {
        s.state = State::EndValue;
        return Opcode::Continue;
    }
    s.error(c, "in literal null (expecting 'l')")
}

/// The state after reaching a syntax error, such as after reading `[1}` or
/// `5.1.2`.
pub fn stateError(s: &mut Scanner, c: char) -> (r: Opcode)
    ensures
        (final(s)@, r) == handle(State::Error, old(s)@, c),
{
    Opcode::Error
}

} // verus!
