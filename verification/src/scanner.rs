//! The scanner itself: its state, and the calls that reset it, advance it by
//! one character and close the input.
use vstd::prelude::*;
use crate::wellformed::{lemma_eof_wf, lemma_step_wf};
use crate::model;
use crate::model::ScannerView;
use crate::opcode::{Opcode, ParseState, State};
use crate::transitions::{
    state0, state1, stateBeginString, stateBeginStringOrEmpty, stateBeginValue,
    stateBeginValueOrEmpty, stateError, stateF, stateFa, stateFal, stateFals, stateN, stateNu,
    stateNul, stateT, stateTr, stateTru, state_dot, state_dot0, state_e, state_e0, state_end_top,
    state_end_value, state_esign, state_in_string, state_in_string_esc, state_in_string_esc_u,
    state_in_string_esc_u1, state_in_string_esc_u12, state_in_string_esc_u123, state_neg,
};

verus! {

/// A JSON scanning state machine.
///
/// Reset it, pass the characters of one document to [`Scanner::step`] one at
/// a time, then call [`Scanner::eof`].
pub struct Scanner {
    /// The lexical context that classifies the next character.
    pub state: State,
    /// Whether the end of the top-level value was reached.
    pub end_top: bool,
    /// What the scanner is in the middle of, outermost container first.
    pub parse_state: Vec<ParseState>,
    /// The message of the syntax error, once there is one.
    pub error: Option<String>,
    /// The total of bytes consumed. The caller keeps it; the scanner only
    /// clears it on reset.
    pub bytes: i64,
}

impl View for Scanner {
    type V = ScannerView;

    open spec fn view(&self) -> ScannerView {
        ScannerView {
            state: self.state,
            end_top: self.end_top,
            stack: self.parse_state@,
            error: match self.error {
                Some(message) => Some(message@),
                None => None,
            },
            bytes: self.bytes as int,
        }
    }
}

/// Appends one character to a string: `String::push` of std, which puts the
/// character at the end and leaves the rest as it was.
#[verifier::external_body]
fn push_char(text: &mut String, c: char)
    ensures
        final(text)@ == old(text)@.push(c),
{
    text.push(c);
}

impl Scanner {
    /// Whether the fields agree with each other, as they do in every scanner
    /// that was made by [`Scanner::new`] and changed only by its methods.
    pub open spec fn wf(&self) -> bool {
        self@.wf()
    }

    /// A scanner ready for the first character of a document.
    pub fn new() -> (s: Scanner)
        ensures
            s@ == ScannerView::initial(),
            s.wf(),
    {
        Scanner {
            state: State::BeginValue,
            end_top: false,
            parse_state: Vec::new(),
            error: None,
            bytes: 0,
        }
    }

    /// Prepares the scanner for a new document, whatever it held.
    pub fn reset(&mut self)
        ensures
            final(self)@ == ScannerView::initial(),
            final(self).wf(),
    {
        self.state = State::BeginValue;
        self.end_top = false;
        self.parse_state.clear();
        self.error = None;
        self.bytes = 0;
    }

    /// Scans one character and reports what it was.
    pub fn step(&mut self, c: char) -> (r: Opcode)
        requires
            old(self).wf(),
        ensures
            (final(self)@, r) == model::step(old(self)@, c),
            final(self).wf(),
    {
        proof {
            lemma_step_wf(self@, c);
        }
        match self.state {
            State::BeginValue => stateBeginValue(self, c),
            State::BeginValueOrEmpty => stateBeginValueOrEmpty(self, c),
            State::BeginStringOrEmpty => stateBeginStringOrEmpty(self, c),
            State::BeginString => stateBeginString(self, c),
            State::EndValue => state_end_value(self, c),
            State::EndTop => state_end_top(self, c),
            State::InString => state_in_string(self, c),
            State::InStringEsc => state_in_string_esc(self, c),
            State::InStringEscU => state_in_string_esc_u(self, c),
            State::InStringEscU1 => state_in_string_esc_u1(self, c),
            State::InStringEscU12 => state_in_string_esc_u12(self, c),
            State::InStringEscU123 => state_in_string_esc_u123(self, c),
            State::Neg => state_neg(self, c),
            State::One => state1(self, c),
            State::Zero => state0(self, c),
            State::Dot => state_dot(self, c),
            State::Dot0 => state_dot0(self, c),
            State::E => state_e(self, c),
            State::ESign => state_esign(self, c),
            State::E0 => state_e0(self, c),
            State::T => stateT(self, c),
            State::Tr => stateTr(self, c),
            State::Tru => stateTru(self, c),
            State::F => stateF(self, c),
            State::Fa => stateFa(self, c),
            State::Fal => stateFal(self, c),
            State::Fals => stateFals(self, c),
            State::N => stateN(self, c),
            State::Nu => stateNu(self, c),
            State::Nul => stateNul(self, c),
            State::Error => stateError(self, c),
        }
    }

    /// Tells the scanner that the input has ended, and reports how it ended.
    pub fn eof(&mut self) -> (r: Opcode)
        requires
            old(self).wf(),
        ensures
            (final(self)@, r) == model::eof(old(self)@),
            final(self).wf(),
    {
        proof {
            lemma_eof_wf(self@);
        }
        if self.error.is_some() {
            return Opcode::Error;
        }
        if self.end_top {
            return Opcode::End;
        }
        self.step(' ');
        if self.end_top {
            return Opcode::End;
        }
        self.state = State::Error;
        self.error = Some(String::from_str("unexpected end of input"));
        Opcode::Error
    }

    /// Opens a container: puts `p` on the stack.
    pub fn pushParseState(&mut self, p: ParseState)
        ensures
            final(self)@ == old(self)@.push(p),
    {
        self.parse_state.push(p);
    }

    /// Closes the innermost container: takes its entry off the stack and
    /// moves to the context that follows a value there.
    pub fn popParseState(&mut self)
        requires
            old(self).parse_state@.len() > 0,
        ensures
            final(self)@ == old(self)@.pop(),
    {
        let n: usize = self.parse_state.len() - 1;
        let _ = self.parse_state.pop();
        if n == 0 {
            self.state = State::EndTop;
            self.end_top = true;
        } else {
            self.state = State::EndValue;
        }
    }

    /// Records a syntax error at the character `c`, met in `context`, and
    /// moves to the error state.
    pub fn error(&mut self, c: char, context: &str) -> (r: Opcode)
        ensures
            (final(self)@, r) == old(self)@.fail(c, context@),
    {
        let mut message = String::from_str("invalid character ");
        push_char(&mut message, c);
        push_char(&mut message, ' ');
        message.append(context);
        self.state = State::Error;
        self.error = Some(message);
        Opcode::Error
    }
}

} // verus!
