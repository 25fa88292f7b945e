//! An error is terminal: once the scanner holds one, nothing but a reset
//! changes it.
use vstd::prelude::*;
use crate::model::{eof, step, ScannerView};
use crate::opcode::{Opcode, State};
use crate::trace::{after, opcodes};
use crate::wellformed::{lemma_eof_wf, lemma_step_wf};

verus! {

/// A scanner that holds an error and is in the error state.
pub open spec fn stopped(v: ScannerView) -> bool {
    v.state == State::Error && v.error.is_some()
}

/// A scanner holds an error exactly if it is stopped, and then nothing
/// changes it: every character is answered with an error, and so is the end
/// of the input.
pub proof fn lemma_stopped_stays(v: ScannerView, input: Seq<char>)
    requires
        v.wf(),
        v.error.is_some(),
    ensures
        stopped(v),
        after(v, input) == v,
        opcodes(v, input) == Seq::new(input.len(), |i: int| Opcode::Error),
        eof(after(v, input)) == (v, Opcode::Error),
    decreases input.len(),
{
    if input.len() > 0 {
        lemma_stopped_stays(v, input.drop_first());
    }
    assert(opcodes(v, input) =~= Seq::new(input.len(), |i: int| Opcode::Error));
}

/// Once a step has reported an error, the scanner holds the message, and
/// every later step reports an error and changes nothing, and so does the
/// end of the input, whatever the characters.
pub proof fn lemma_error_is_terminal(v: ScannerView, c: char, input: Seq<char>)
    requires
        v.wf(),
        step(v, c).1 == Opcode::Error,
    ensures
        stopped(step(v, c).0),
        forall|i: int|
            0 <= i < input.len() ==> opcodes(step(v, c).0, input)[i] == Opcode::Error,
        eof(after(step(v, c).0, input)).1 == Opcode::Error,
        after(step(v, c).0, input) == step(v, c).0,
{
    lemma_step_wf(v, c);
    lemma_stopped_stays(step(v, c).0, input);
}

/// Once the end of the input has reported an error, the scanner holds the
/// message, and every later call reports an error and changes nothing.
pub proof fn lemma_eof_error_is_terminal(v: ScannerView, input: Seq<char>)
    requires
        v.wf(),
        eof(v).1 == Opcode::Error,
    ensures
        stopped(eof(v).0),
        forall|i: int| 0 <= i < input.len() ==> opcodes(eof(v).0, input)[i] == Opcode::Error,
        eof(after(eof(v).0, input)).1 == Opcode::Error,
        after(eof(v).0, input) == eof(v).0,
{
    lemma_eof_wf(v);
    lemma_stopped_stays(eof(v).0, input);
}

/// No step takes an error back.
pub proof fn lemma_error_stays_set(v: ScannerView, input: Seq<char>)
    requires
        v.error is Some,
    ensures
        after(v, input).error is Some,
    decreases input.len(),
{
    if input.len() > 0 {
        lemma_error_stays_set(step(v, input.first()).0, input.drop_first());
    }
}

} // verus!
