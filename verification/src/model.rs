//! The mathematical model of the scanner: its state as plain values, and the
//! effect of one character on it.
use vstd::prelude::*;
use crate::opcode::{Opcode, ParseState, State};

verus! {

/// The four characters that JSON allows between tokens.
pub open spec fn is_space(c: char) -> bool {
    c == ' ' || c == '\t' || c == '\r' || c == '\n'
}

/// A decimal digit.
pub open spec fn is_digit(c: char) -> bool {
    '0' <= c && c <= '9'
}

/// A hexadecimal digit, in either case.
pub open spec fn is_hex(c: char) -> bool {
    is_digit(c) || ('a' <= c && c <= 'f') || ('A' <= c && c <= 'F')
}

/// A control character, which no string may hold unescaped.
pub open spec fn is_control(c: char) -> bool {
    ' ' > c
}

/// A character that may follow `\` in a string, other than `u`.
pub open spec fn is_simple_escape(c: char) -> bool {
    c == 'b' || c == 'f' || c == 'n' || c == 'r' || c == 't' || c == '\\' || c == '/' || c == '"'
}

/// The text of a syntax error: the offending character, then the context in
/// which it was met.
pub open spec fn syntax_message(c: char, context: Seq<char>) -> Seq<char> {
    "invalid character "@.push(c).push(' ') + context
}

/// The text of the error for input that stops inside a value.
pub open spec fn end_of_input_message() -> Seq<char> {
    "unexpected end of input"@
}

/// What a scanner holds.
pub struct ScannerView {
    /// The lexical context of the next character.
    pub state: State,
    /// Whether the top-level value is known to be complete.
    pub end_top: bool,
    /// The open containers, outermost first.
    pub stack: Seq<ParseState>,
    /// The message of the syntax error, once there is one.
    pub error: Option<Seq<char>>,
    /// The count of bytes consumed, which the caller keeps.
    pub bytes: int,
}

impl ScannerView {
    /// A scanner before its first character.
    pub open spec fn initial() -> ScannerView {
        ScannerView {
            state: State::BeginValue,
            end_top: false,
            stack: Seq::empty(),
            error: None,
            bytes: 0,
        }
    }

    /// The same scanner in another lexical context.
    pub open spec fn goto(self, state: State) -> ScannerView {
        ScannerView { state, ..self }
    }

    /// The scanner with one more open container.
    pub open spec fn push(self, p: ParseState) -> ScannerView {
        ScannerView { stack: self.stack.push(p), ..self }
    }

    /// The scanner with its innermost container marked as `p`.
    pub open spec fn retop(self, p: ParseState) -> ScannerView
        recommends
            self.stack.len() > 0,
    {
        ScannerView { stack: self.stack.update(self.stack.len() - 1, p), ..self }
    }

    /// The scanner after its innermost container closed: back in the
    /// enclosing container after a value, or done with the top-level value.
    pub open spec fn pop(self) -> ScannerView
        recommends
            self.stack.len() > 0,
    {
        if self.stack.len() == 1 {
            ScannerView {
                state: State::EndTop,
                end_top: true,
                stack: self.stack.drop_last(),
                ..self
            }
        } else {
            ScannerView { state: State::EndValue, stack: self.stack.drop_last(), ..self }
        }
    }

    /// The scanner stopped by the character `c`, met in `context`.
    pub open spec fn fail(self, c: char, context: Seq<char>) -> (ScannerView, Opcode) {
        (
            ScannerView {
                state: State::Error,
                error: Some(syntax_message(c, context)),
                ..self
            },
            Opcode::Error,
        )
    }

    /// Whether the innermost open container is at `p`.
    pub open spec fn within(self, p: ParseState) -> bool {
        self.stack.len() > 0 && self.stack.last() == p
    }

    /// What holds of every scanner that was reset and then only stepped.
    pub open spec fn wf(self) -> bool {
        &&& self.error.is_some() <==> self.state == State::Error
        &&& self.end_top ==> self.stack.len() == 0 && (self.state == State::EndTop || self.state
            == State::Error)
        &&& self.state == State::EndTop ==> self.end_top
        &&& self.state == State::BeginValueOrEmpty ==> self.within(ParseState::ArrayValue)
        &&& self.state == State::BeginStringOrEmpty ==> self.within(ParseState::ObjectKey)
        &&& self.state == State::BeginString ==> self.within(ParseState::ObjectKey)
        &&& self.state == State::BeginValue ==> !self.within(ParseState::ObjectKey)
        &&& starts_no_key(self.state) ==> !self.within(ParseState::ObjectKey)
    }
}

/// The states inside a number or a keyword, which cannot be an object key.
pub open spec fn starts_no_key(q: State) -> bool {
    match q {
        State::Neg | State::One | State::Zero | State::Dot | State::Dot0 | State::E
        | State::ESign | State::E0 => true,
        State::T | State::Tr | State::Tru => true,
        State::F | State::Fa | State::Fal | State::Fals => true,
        State::N | State::Nu | State::Nul => true,
        _ => false,
    }
}

/// What one character does to a scanner that is inside a literal.
pub enum LiteralStep {
    /// The character belongs to the literal and leaves the context as it is.
    Stay,
    /// The character belongs to the literal and leads to the given context.
    Goto(State),
    /// The literal, a number, ended before the character.
    Ended,
    /// The character cannot stand here; the context phrase says where.
    Reject(Seq<char>),
}

/// The context that the first character of a literal leads to, if `c` can
/// start a literal.
pub open spec fn literal_start(c: char) -> Option<State> {
    if c == '"' {
        Some(State::InString)
    } else if c == '-' {
        Some(State::Neg)
    } else if c == '0' {
        Some(State::Zero)
    } else if '1' <= c && c <= '9' {
        Some(State::One)
    } else if c == 't' {
        Some(State::T)
    } else if c == 'f' {
        Some(State::F)
    } else if c == 'n' {
        Some(State::N)
    } else {
        None
    }
}

/// The step that expects exactly the character `want`.
pub open spec fn expect(c: char, want: char, next: State, context: Seq<char>) -> LiteralStep {
    if c == want {
        LiteralStep::Goto(next)
    } else {
        LiteralStep::Reject(context)
    }
}

/// The step that expects a hexadecimal digit of a `\u` escape.
pub open spec fn expect_hex(c: char, next: State) -> LiteralStep {
    if is_hex(c) {
        LiteralStep::Goto(next)
    } else {
        LiteralStep::Reject("in \\u hexadecimal character escape"@)
    }
}

/// The step after a complete integer part.
pub open spec fn after_integer(c: char) -> LiteralStep {
    if c == '.' {
        LiteralStep::Goto(State::Dot)
    } else if c == 'e' || c == 'E' {
        LiteralStep::Goto(State::E)
    } else {
        LiteralStep::Ended
    }
}

/// The step that expects the first digit of an exponent.
pub open spec fn exponent_digit(c: char) -> LiteralStep {
    if is_digit(c) {
        LiteralStep::Goto(State::E0)
    } else {
        LiteralStep::Reject("in exponent of numeric literal"@)
    }
}

/// The step that the character `c` takes in the context `q` inside a
/// string, a number or a keyword. The stack has no part in it. For a context
/// outside a literal the result has no meaning.
pub open spec fn literal_step(q: State, c: char) -> LiteralStep {
    match q {
        State::InString => if c == '"' {
            LiteralStep::Goto(State::EndValue)
        } else if c == '\\' {
            LiteralStep::Goto(State::InStringEsc)
        } else if is_control(c) {
            LiteralStep::Reject("in string literal"@)
        } else {
            LiteralStep::Stay
        },
        State::InStringEsc => if is_simple_escape(c) {
            LiteralStep::Goto(State::InString)
        } else if c == 'u' {
            LiteralStep::Goto(State::InStringEscU)
        } else {
            LiteralStep::Reject("in string escape code"@)
        },
        State::InStringEscU => expect_hex(c, State::InStringEscU1),
        State::InStringEscU1 => expect_hex(c, State::InStringEscU12),
        State::InStringEscU12 => expect_hex(c, State::InStringEscU123),
        State::InStringEscU123 => expect_hex(c, State::InString),
        State::Neg => if c == '0' {
            LiteralStep::Goto(State::Zero)
        } else if '1' <= c && c <= '9' {
            LiteralStep::Goto(State::One)
        } else {
            LiteralStep::Reject("in numeric literal"@)
        },
        State::One => if is_digit(c) {
            LiteralStep::Goto(State::One)
        } else {
            after_integer(c)
        },
        State::Zero => after_integer(c),
        State::Dot => if is_digit(c) {
            LiteralStep::Goto(State::Dot0)
        } else {
            LiteralStep::Reject("after decimal point in numeric literal"@)
        },
        State::Dot0 => if is_digit(c) {
            LiteralStep::Stay
        } else if c == 'e' || c == 'E' {
            LiteralStep::Goto(State::E)
        } else {
            LiteralStep::Ended
        },
        State::E => if c == '+' || c == '-' {
            LiteralStep::Goto(State::ESign)
        } else {
            exponent_digit(c)
        },
        State::ESign => exponent_digit(c),
        State::E0 => if is_digit(c) {
            LiteralStep::Stay
        } else {
            LiteralStep::Ended
        },
        State::T => expect(c, 'r', State::Tr, "in literal true (expecting 'r')"@),
        State::Tr => expect(c, 'u', State::Tru, "in literal true (expecting 'u')"@),
        State::Tru => expect(c, 'e', State::EndValue, "in literal true (expecting 'e')"@),
        State::F => expect(c, 'a', State::Fa, "in literal false (expecting 'a')"@),
        State::Fa => expect(c, 'l', State::Fal, "in literal false (expecting 'l')"@),
        State::Fal => expect(c, 's', State::Fals, "in literal false (expecting 's')"@),
        State::Fals => expect(c, 'e', State::EndValue, "in literal false (expecting 'e')"@),
        State::N => expect(c, 'u', State::Nu, "in literal null (expecting 'u')"@),
        State::Nu => expect(c, 'l', State::Nul, "in literal null (expecting 'l')"@),
        State::Nul => expect(c, 'l', State::EndValue, "in literal null (expecting 'l')"@),
        _ => LiteralStep::Stay,
    }
}

/// After the top-level value only whitespace may follow. Anything else is
/// recorded as an error, and still reported as the end of the value: the
/// error shows at the next call.
pub open spec fn end_top(v: ScannerView, c: char) -> (ScannerView, Opcode) {
    if is_space(c) {
        (v, Opcode::End)
    } else {
        (v.fail(c, "after top-level value"@).0, Opcode::End)
    }
}

/// After a value: the top-level value is complete, or the character is
/// whitespace, or it is the punctuation that the innermost container allows.
pub open spec fn end_value(v: ScannerView, c: char) -> (ScannerView, Opcode) {
    if v.stack.len() == 0 {
        end_top(ScannerView { state: State::EndTop, end_top: true, ..v }, c)
    } else if is_space(c) {
        (v.goto(State::EndValue), Opcode::SkipSpace)
    } else {
        match v.stack.last() {
            ParseState::ObjectKey => if c == ':' {
                (v.retop(ParseState::ObjectValue).goto(State::BeginValue), Opcode::ObjectKey)
            } else {
                v.fail(c, "after object key"@)
            },
            ParseState::ObjectValue => if c == ',' {
                (v.retop(ParseState::ObjectKey).goto(State::BeginString), Opcode::ObjectValue)
            } else if c == '}' {
                (v.pop(), Opcode::EndObject)
            } else {
                v.fail(c, "after object key:value pair"@)
            },
            ParseState::ArrayValue => if c == ',' {
                (v.goto(State::BeginValue), Opcode::ArrayValue)
            } else if c == ']' {
                (v.pop(), Opcode::EndArray)
            } else {
                v.fail(c, "after array element"@)
            },
        }
    }
}

/// Before a value: whitespace, the opening of a container, or the first
/// character of a literal.
pub open spec fn begin_value(v: ScannerView, c: char) -> (ScannerView, Opcode) {
    if is_space(c) {
        (v, Opcode::SkipSpace)
    } else if c == '{' {
        (v.push(ParseState::ObjectKey).goto(State::BeginStringOrEmpty), Opcode::BeginObject)
    } else if c == '[' {
        (v.push(ParseState::ArrayValue).goto(State::BeginValueOrEmpty), Opcode::BeginArray)
    } else {
        match literal_start(c) {
            Some(q) => (v.goto(q), Opcode::BeginLiteral),
            None => v.fail(c, "looking for beginning of value"@),
        }
    }
}

/// After `[`: as before a value, but `]` closes the empty array.
pub open spec fn begin_value_or_empty(v: ScannerView, c: char) -> (ScannerView, Opcode) {
    if is_space(c) {
        (v, Opcode::SkipSpace)
    } else if c == ']' {
        end_value(v, c)
    } else {
        begin_value(v, c)
    }
}

/// Before an object key: whitespace or the `"` that opens the key.
pub open spec fn begin_string(v: ScannerView, c: char) -> (ScannerView, Opcode) {
    if is_space(c) {
        (v, Opcode::SkipSpace)
    } else if c == '"' {
        (v.goto(State::InString), Opcode::BeginLiteral)
    } else {
        v.fail(c, "looking for beginning of object key string"@)
    }
}

/// After `{`: as before a key, but `}` closes the empty object.
pub open spec fn begin_string_or_empty(v: ScannerView, c: char) -> (ScannerView, Opcode) {
    if is_space(c) {
        (v, Opcode::SkipSpace)
    } else if c == '}' {
        end_value(v.retop(ParseState::ObjectValue), c)
    } else {
        begin_string(v, c)
    }
}

/// Inside a literal: the character goes on with it, ends it, or is an error.
pub open spec fn in_literal(v: ScannerView, c: char, step: LiteralStep) -> (ScannerView, Opcode) {
    match step {
        LiteralStep::Stay => (v, Opcode::Continue),
        LiteralStep::Goto(q) => (v.goto(q), Opcode::Continue),
        LiteralStep::Ended => end_value(v, c),
        LiteralStep::Reject(context) => v.fail(c, context),
    }
}

/// The effect of the character `c` on the scanner `v`, classified as the
/// context `q` classifies it, and the opcode that is reported for it.
pub open spec fn handle(q: State, v: ScannerView, c: char) -> (ScannerView, Opcode) {
    match q {
        State::BeginValue => begin_value(v, c),
        State::BeginValueOrEmpty => begin_value_or_empty(v, c),
        State::BeginStringOrEmpty => begin_string_or_empty(v, c),
        State::BeginString => begin_string(v, c),
        State::EndValue => end_value(v, c),
        State::EndTop => end_top(v, c),
        State::Error => (v, Opcode::Error),
        _ => in_literal(v, c, literal_step(q, c)),
    }
}

/// One step: the scanner's own context classifies the character.
pub open spec fn step(v: ScannerView, c: char) -> (ScannerView, Opcode) {
    handle(v.state, v, c)
}

/// The end of the input. A scanner in error stays so; one that has seen the
/// whole top-level value reports its end. Otherwise one space is scanned, so
/// that a number that was still open can end; if the top-level value is then
/// complete its end is reported, and if not the input stopped too early.
pub open spec fn eof(v: ScannerView) -> (ScannerView, Opcode) {
    if v.error.is_some() {
        (v, Opcode::Error)
    } else if v.end_top {
        (v, Opcode::End)
    } else {
        let w = step(v, ' ').0;
        if w.end_top {
            (w, Opcode::End)
        } else {
            (
                ScannerView { state: State::Error, error: Some(end_of_input_message()), ..w },
                Opcode::Error,
            )
        }
    }
}

} // verus!
