//! Whole inputs: the scanner after a sequence of characters, and the opcodes
//! that it reports on the way.
use vstd::prelude::*;
use crate::model::{eof, step, ScannerView};
use crate::opcode::Opcode;

verus! {

/// The scanner after the characters of `input`, one step for each.
pub open spec fn after(v: ScannerView, input: Seq<char>) -> ScannerView
    decreases input.len(),
{
    if input.len() == 0 {
        v
    } else {
        after(step(v, input.first()).0, input.drop_first())
    }
}

/// The opcodes that the scanner reports for the characters of `input`.
pub open spec fn opcodes(v: ScannerView, input: Seq<char>) -> Seq<Opcode>
    decreases input.len(),
{
    if input.len() == 0 {
        Seq::empty()
    } else {
        seq![step(v, input.first()).1] + opcodes(step(v, input.first()).0, input.drop_first())
    }
}

/// The scanner `v` reports `ops` for `input` and is then `w`.
pub open spec fn scans(v: ScannerView, input: Seq<char>, ops: Seq<Opcode>, w: ScannerView) -> bool {
    after(v, input) == w && opcodes(v, input) == ops
}

/// One opcode for each character.
pub proof fn lemma_opcodes_len(v: ScannerView, input: Seq<char>)
    ensures
        opcodes(v, input).len() == input.len(),
    decreases input.len(),
{
    if input.len() > 0 {
        lemma_opcodes_len(step(v, input.first()).0, input.drop_first());
    }
}

/// An input of no characters changes nothing and reports nothing.
pub proof fn lemma_scans_nothing(v: ScannerView)
    ensures
        scans(v, Seq::empty(), Seq::empty(), v),
{
}

/// An input of one character is one step.
pub proof fn lemma_scans_one(v: ScannerView, c: char, ops: Seq<Opcode>)
    requires
        ops =~= seq![step(v, c).1],
    ensures
        scans(v, seq![c], ops, step(v, c).0),
{
    let input = seq![c];
    assert(input.drop_first() =~= Seq::<char>::empty());
    assert(input.first() == c);
    assert(after(step(v, c).0, input.drop_first()) == step(v, c).0);
    assert(opcodes(step(v, c).0, input.drop_first()) =~= Seq::<Opcode>::empty());
    assert(opcodes(v, input) =~= seq![step(v, c).1]);
}

/// Scanning two inputs in turn is scanning them joined.
pub proof fn lemma_scans_join(
    v: ScannerView,
    a: Seq<char>,
    b: Seq<char>,
)
    ensures
        after(v, a + b) == after(after(v, a), b),
        opcodes(v, a + b) == opcodes(v, a) + opcodes(after(v, a), b),
    decreases a.len(),
{
    if a.len() == 0 {
        assert(a + b =~= b);
        assert(opcodes(v, a) + opcodes(after(v, a), b) =~= opcodes(v, b));
    } else {
        let next = step(v, a.first()).0;
        assert((a + b).first() == a.first());
        assert((a + b).drop_first() =~= a.drop_first() + b);
        lemma_scans_join(next, a.drop_first(), b);
        assert(opcodes(v, a + b) =~= opcodes(v, a) + opcodes(after(v, a), b));
    }
}

/// Two scans, the second from where the first ended, make one. The joined
/// input and opcodes are named by the caller, in whatever form suits it.
pub proof fn lemma_scans_then(
    v: ScannerView,
    a: Seq<char>,
    ops_a: Seq<Opcode>,
    w: ScannerView,
    b: Seq<char>,
    ops_b: Seq<Opcode>,
    x: ScannerView,
    whole: Seq<char>,
    ops: Seq<Opcode>,
)
    requires
        scans(v, a, ops_a, w),
        scans(w, b, ops_b, x),
        whole =~= a + b,
        ops =~= ops_a + ops_b,
    ensures
        scans(v, whole, ops, x),
{
    lemma_scans_join(v, a, b);
}

/// A scan and then one more character.
pub proof fn lemma_scans_push(
    v: ScannerView,
    a: Seq<char>,
    ops_a: Seq<Opcode>,
    w: ScannerView,
    c: char,
    whole: Seq<char>,
    ops: Seq<Opcode>,
)
    requires
        scans(v, a, ops_a, w),
        whole =~= a.push(c),
        ops =~= ops_a.push(step(w, c).1),
    ensures
        scans(v, whole, ops, step(w, c).0),
{
    lemma_scans_one(w, c, seq![step(w, c).1]);
    lemma_scans_join(v, a, seq![c]);
    assert(a.push(c) =~= a + seq![c]);
    assert(ops_a.push(step(w, c).1) =~= ops_a + seq![step(w, c).1]);
}

/// A scanner that was reset scans as a new one does, whatever it held
/// before: both start from the same state, and what a scanner reports
/// depends on nothing else.
pub proof fn lemma_reset_scans_as_new(reset: ScannerView, fresh: ScannerView, input: Seq<char>)
    requires
        reset == ScannerView::initial(),
        fresh == ScannerView::initial(),
    ensures
        opcodes(reset, input) == opcodes(fresh, input),
        after(reset, input) == after(fresh, input),
        eof(after(reset, input)) == eof(after(fresh, input)),
{
}

/// The count of bytes has no part in a step, which neither reads it nor
/// changes it.
pub proof fn lemma_step_leaves_bytes(v: ScannerView, bytes: int, c: char)
    ensures
        step(ScannerView { bytes, ..v }, c) == (
            ScannerView { bytes, ..step(v, c).0 },
            step(v, c).1,
        ),
        step(v, c).0.bytes == v.bytes,
{
}

/// The count of bytes has no part in the end of the input, which neither
/// reads it nor changes it.
pub proof fn lemma_eof_leaves_bytes(v: ScannerView, bytes: int)
    ensures
        eof(ScannerView { bytes, ..v }) == (ScannerView { bytes, ..eof(v).0 }, eof(v).1),
        eof(v).0.bytes == v.bytes,
{
    lemma_step_leaves_bytes(v, bytes, ' ');
}

} // verus!
