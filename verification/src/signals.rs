//! What the opcodes tell the caller about the character that was read and
//! about the state of the scan.
use vstd::prelude::*;
use crate::model::{eof, is_space, literal_start, step, ScannerView};
use crate::opcode::{Opcode, State};
use crate::terminal::lemma_stopped_stays;
use crate::trace::{after, lemma_opcodes_len, opcodes};
use crate::wellformed::lemma_step_wf;

verus! {

/// Each opcode but `Continue`, `End` and `Error` tells which character was
/// read: the bracket that opens or closes a container, the colon after a
/// key, the comma after a value, whitespace, or the first character of a
/// literal.
pub proof fn lemma_opcode_tells_character(v: ScannerView, c: char)
    ensures
        match step(v, c).1 {
            Opcode::BeginObject => c == '{',
            Opcode::EndObject => c == '}',
            Opcode::BeginArray => c == '[',
            Opcode::EndArray => c == ']',
            Opcode::ObjectKey => c == ':',
            Opcode::ObjectValue => c == ',',
            Opcode::ArrayValue => c == ',',
            Opcode::SkipSpace => is_space(c),
            Opcode::BeginLiteral => literal_start(c) is Some,
            _ => true,
        },
{
}

/// `End` is reported only when the top-level value is complete and no
/// container is open, by a step and by the end of the input alike.
pub proof fn lemma_end_means_complete(v: ScannerView, c: char)
    requires
        v.wf(),
    ensures
        step(v, c).1 == Opcode::End ==> step(v, c).0.end_top && step(v, c).0.stack.len() == 0,
        eof(v).1 == Opcode::End ==> eof(v).0.end_top && eof(v).0.stack.len() == 0,
{
    lemma_step_wf(v, c);
    lemma_step_wf(v, ' ');
}

/// An opcode that reports the first character of a value.
pub open spec fn begins_value(op: Opcode) -> bool {
    op == Opcode::BeginLiteral || op == Opcode::BeginObject || op == Opcode::BeginArray
}

/// A scanner in which no value has begun.
pub open spec fn untouched(v: ScannerView) -> bool {
    v.state == State::BeginValue && v.stack.len() == 0 && !v.end_top && v.error.is_none()
}

/// From a scanner in which no value has begun, a container is open or the
/// top-level value is complete only after a value has begun.
pub proof fn lemma_value_begins_first(v: ScannerView, input: Seq<char>)
    requires
        untouched(v),
    ensures
        after(v, input).end_top || after(v, input).stack.len() > 0 ==> exists|i: int|
            0 <= i < input.len() && begins_value(#[trigger] opcodes(v, input)[i]),
    decreases input.len(),
{
    if input.len() > 0 {
        let c = input.first();
        let w = step(v, c).0;
        let rest = input.drop_first();
        let ops = opcodes(v, input);
        lemma_opcodes_len(v, input);
        if begins_value(step(v, c).1) {
            assert(begins_value(ops[0]));
        } else if is_space(c) {
            lemma_value_begins_first(v, rest);
            if after(v, input).end_top || after(v, input).stack.len() > 0 {
                let i = choose|i: int|
                    0 <= i < rest.len() && begins_value(#[trigger] opcodes(v, rest)[i]);
                assert(ops[i + 1] == opcodes(v, rest)[i]);
                assert(begins_value(ops[i + 1]));
            }
        } else {
            assert(w.wf());
            lemma_stopped_stays(w, rest);
        }
    }
}

} // verus!
