//! The scanner's invariant is kept by every step and by the end of input.
use vstd::prelude::*;
use crate::model::{
    begin_string, begin_value, end_top, end_value, eof, in_literal, literal_step, starts_no_key,
    step, LiteralStep, ScannerView,
};
use crate::opcode::{ParseState, State};

verus! {

/// A scanner that holds no error and does not yet know the top-level value
/// to be complete, as in every context but the error state and the one
/// after the top-level value.
pub open spec fn running(v: ScannerView) -> bool {
    v.error.is_none() && !v.end_top
}

/// What follows the top-level value keeps the invariant.
pub proof fn lemma_end_top_wf(v: ScannerView, c: char)
    requires
        v.wf(),
        v.state == State::EndTop,
    ensures
        end_top(v, c).0.wf(),
{
}

/// What follows a value keeps the invariant, from whichever context the
/// value was left.
pub proof fn lemma_end_value_wf(v: ScannerView, c: char)
    requires
        running(v),
    ensures
        end_value(v, c).0.wf(),
{
    if v.stack.len() == 0 {
        lemma_end_top_wf(ScannerView { state: State::EndTop, end_top: true, ..v }, c);
    }
}

/// What stands before a value keeps the invariant.
pub proof fn lemma_begin_value_wf(v: ScannerView, c: char)
    requires
        v.wf(),
        running(v),
        !v.within(ParseState::ObjectKey),
    ensures
        begin_value(v, c).0.wf(),
{
}

/// What stands before an object key keeps the invariant.
pub proof fn lemma_begin_string_wf(v: ScannerView, c: char)
    requires
        v.wf(),
        running(v),
    ensures
        begin_string(v, c).0.wf(),
{
}

/// A character inside a literal keeps the invariant.
pub proof fn lemma_in_literal_wf(v: ScannerView, c: char)
    requires
        v.wf(),
        running(v),
        literal_step(v.state, c) != LiteralStep::Stay || starts_no_key(v.state) || v.state
            == State::InString,
    ensures
        in_literal(v, c, literal_step(v.state, c)).0.wf(),
{
    match literal_step(v.state, c) {
        LiteralStep::Ended => lemma_end_value_wf(v, c),
        _ => {},
    }
}

/// Every step keeps the invariant.
pub proof fn lemma_step_wf(v: ScannerView, c: char)
    requires
        v.wf(),
    ensures
        step(v, c).0.wf(),
{
    match v.state {
        State::BeginValue => lemma_begin_value_wf(v, c),
        State::BeginValueOrEmpty => {
            lemma_begin_value_wf(v, c);
            lemma_end_value_wf(v, c);
        },
        State::BeginStringOrEmpty => {
            lemma_begin_string_wf(v, c);
            lemma_end_value_wf(v.retop(ParseState::ObjectValue), c);
        },
        State::BeginString => lemma_begin_string_wf(v, c),
        State::EndValue => lemma_end_value_wf(v, c),
        State::EndTop => lemma_end_top_wf(v, c),
        State::Error => {},
        _ => lemma_in_literal_wf(v, c),
    }
}

/// The end of the input keeps the invariant.
pub proof fn lemma_eof_wf(v: ScannerView)
    requires
        v.wf(),
    ensures
        eof(v).0.wf(),
{
    lemma_step_wf(v, ' ');
}

} // verus!
