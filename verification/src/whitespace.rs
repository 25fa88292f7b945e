//! Whitespace between tokens: it is skipped, and what follows is read as
//! it would be without it.
use vstd::prelude::*;
use crate::model::{end_value, eof, is_space, step, ScannerView};
use crate::opcode::{Opcode, State};
use crate::trace::{after, lemma_scans_join, opcodes, scans};

verus! {

/// Whether `text` holds nothing but whitespace.
pub open spec fn is_blank(text: Seq<char>) -> bool {
    forall|i: int| 0 <= i < text.len() ==> is_space(#[trigger] text[i])
}

/// The opcodes of `n` characters of whitespace between tokens.
pub open spec fn skips(n: nat) -> Seq<Opcode> {
    Seq::new(n, |i: int| Opcode::SkipSpace)
}

/// A scanner between two tokens: before a value or a key, or after a value
/// inside a container. There whitespace is skipped and changes nothing.
pub open spec fn between_tokens(v: ScannerView) -> bool {
    ||| v.state == State::BeginValue
    ||| v.state == State::BeginValueOrEmpty
    ||| v.state == State::BeginStringOrEmpty
    ||| v.state == State::BeginString
    ||| (v.state == State::EndValue && v.stack.len() > 0)
}

/// What follows a value does not depend on the context that the value was
/// left in.
pub proof fn lemma_end_value_from_any_state(v: ScannerView, q: State, c: char)
    ensures
        end_value(v.goto(q), c) == end_value(v, c),
{
}

/// Whitespace that is skipped leaves the scanner between two tokens.
pub proof fn lemma_skipped_is_between_tokens(v: ScannerView, c: char)
    requires
        is_space(c),
        step(v, c).1 == Opcode::SkipSpace,
    ensures
        between_tokens(step(v, c).0),
{
}

/// Between two tokens, whitespace is skipped and changes nothing.
pub proof fn lemma_blank_is_skipped(v: ScannerView, blank: Seq<char>)
    requires
        between_tokens(v),
        is_blank(blank),
    ensures
        scans(v, blank, skips(blank.len()), v),
    decreases blank.len(),
{
    if blank.len() > 0 {
        assert(is_space(blank[0]));
        assert(step(v, blank.first()) == (v, Opcode::SkipSpace));
        assert(is_blank(blank.drop_first())) by {
            assert forall|i: int| 0 <= i < blank.drop_first().len() implies is_space(
                #[trigger] blank.drop_first()[i],
            ) by {
                assert(blank.drop_first()[i] == blank[i + 1]);
            }
        }
        lemma_blank_is_skipped(v, blank.drop_first());
    }
    assert(opcodes(v, blank) =~= skips(blank.len()));
}

/// Whitespace between two tokens changes nothing of what follows it.
///
/// Let `blank` be whitespace that the scanner skips, so that it does not
/// stand in a string or after the top-level value, and let what follows not
/// go on with a number that the whitespace would end. Then the opcodes are
/// those without the whitespace, after one `SkipSpace` for each of its
/// characters, and the input ends as it would without it.
pub proof fn lemma_whitespace_between_tokens(v: ScannerView, blank: Seq<char>, rest: Seq<char>)
    requires
        v.wf(),
        is_blank(blank),
        blank.len() > 0,
        step(v, blank[0]).1 == Opcode::SkipSpace,
        rest.len() > 0 ==> step(v, rest[0]).1 != Opcode::Continue,
    ensures
        opcodes(v, blank + rest) == skips(blank.len()) + opcodes(v, rest),
        rest.len() > 0 ==> after(v, blank + rest) == after(v, rest),
        eof(after(v, blank + rest)) == eof(after(v, rest)),
{
    let c = blank[0];
    assert(is_space(c));
    let v1 = step(v, c).0;
    lemma_skipped_is_between_tokens(v, c);
    assert(is_blank(blank.drop_first())) by {
        assert forall|i: int| 0 <= i < blank.drop_first().len() implies is_space(
            #[trigger] blank.drop_first()[i],
        ) by {
            assert(blank.drop_first()[i] == blank[i + 1]);
        }
    }
    lemma_blank_is_skipped(v1, blank.drop_first());
    assert(after(v, blank) == v1);
    assert(opcodes(v, blank) =~= skips(blank.len()));
    lemma_scans_join(v, blank, rest);
    if rest.len() > 0 {
        let d = rest[0];
        lemma_end_value_from_any_state(v, State::EndValue, d);
        assert(step(v1, d) == step(v, d));
    } else {
        assert(blank + rest =~= blank);
        assert(step(v1, ' ').0 == v1);
        assert(eof(v1) == eof(v));
    }
}

} // verus!
