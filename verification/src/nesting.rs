//! Containers open and close in step with the scanner's stack, so that the
//! opcodes of any input are correctly nested.
use vstd::prelude::*;
use crate::model::{step, ScannerView};
use crate::opcode::{Opcode, ParseState};
use crate::trace::{after, opcodes};
use crate::wellformed::lemma_step_wf;

verus! {

/// The two kinds of container.
#[derive(PartialEq, Eq, Structural)]
pub enum Container {
    /// Opened by `{`, closed by `}`.
    Object,
    /// Opened by `[`, closed by `]`.
    Array,
}

/// The kind of container that a stack entry stands for.
pub open spec fn container(p: ParseState) -> Container {
    match p {
        ParseState::ObjectKey => Container::Object,
        ParseState::ObjectValue => Container::Object,
        ParseState::ArrayValue => Container::Array,
    }
}

/// The containers that a stack holds open, outermost first.
pub open spec fn open_containers(stack: Seq<ParseState>) -> Seq<Container> {
    Seq::new(stack.len(), |i: int| container(stack[i]))
}

/// The containers open after the opcode `op`, given those open before it;
/// `None` where `op` closes a container that is not the innermost open one.
pub open spec fn nest(open: Seq<Container>, op: Opcode) -> Option<Seq<Container>> {
    match op {
        Opcode::BeginObject => Some(open.push(Container::Object)),
        Opcode::BeginArray => Some(open.push(Container::Array)),
        Opcode::EndObject => if open.len() > 0 && open.last() == Container::Object {
            Some(open.drop_last())
        } else {
            None
        },
        Opcode::EndArray => if open.len() > 0 && open.last() == Container::Array {
            Some(open.drop_last())
        } else {
            None
        },
        _ => Some(open),
    }
}

/// The containers open after the opcodes `ops`, given those open before
/// them; `None` where one of them closes what is not the innermost open
/// container.
pub open spec fn nest_all(open: Seq<Container>, ops: Seq<Opcode>) -> Option<Seq<Container>>
    decreases ops.len(),
{
    if ops.len() == 0 {
        Some(open)
    } else {
        match nest(open, ops.first()) {
            Some(inner) => nest_all(inner, ops.drop_first()),
            None => None,
        }
    }
}

/// Every container that `ops` opens is closed by the matching opcode, inside
/// the container that was open around it, and nothing else is closed.
pub open spec fn balanced(ops: Seq<Opcode>) -> bool {
    nest_all(Seq::empty(), ops) == Some(Seq::<Container>::empty())
}

/// One step opens or closes a container exactly as its opcode says.
pub proof fn lemma_step_nests(v: ScannerView, c: char)
    requires
        v.wf(),
    ensures
        nest(open_containers(v.stack), step(v, c).1) == Some(
            open_containers(step(v, c).0.stack),
        ),
{
    let before = open_containers(v.stack);
    let w = step(v, c).0;
    let now = open_containers(w.stack);
    match step(v, c).1 {
        Opcode::BeginObject | Opcode::BeginArray => {
            assert(w.stack.len() == v.stack.len() + 1);
            assert(w.stack.drop_last() =~= v.stack);
            assert(nest(before, step(v, c).1).unwrap() =~= now);
        },
        Opcode::EndObject | Opcode::EndArray => {
            assert(v.stack.len() > 0);
            assert(w.stack =~= v.stack.drop_last());
            assert(nest(before, step(v, c).1).unwrap() =~= now);
        },
        _ => {
            assert(w.stack.len() == v.stack.len());
            assert forall|i: int| 0 <= i < v.stack.len() implies container(w.stack[i])
                == container(v.stack[i]) by {}
            assert(before =~= now);
        },
    }
}

/// Whatever the input, its opcodes are correctly nested: each `EndObject`
/// and `EndArray` closes the innermost container that is open, which is of
/// its kind, and the containers left open are those on the scanner's stack.
pub proof fn lemma_opcodes_nest(v: ScannerView, input: Seq<char>)
    requires
        v.wf(),
    ensures
        nest_all(open_containers(v.stack), opcodes(v, input)) == Some(
            open_containers(after(v, input).stack),
        ),
    decreases input.len(),
{
    if input.len() > 0 {
        let c = input.first();
        let w = step(v, c).0;
        lemma_step_nests(v, c);
        lemma_step_wf(v, c);
        lemma_opcodes_nest(w, input.drop_first());
        let ops = opcodes(v, input);
        assert(ops.first() == step(v, c).1);
        assert(ops.drop_first() =~= opcodes(w, input.drop_first()));
    }
}

/// An input that starts and ends outside every container has balanced
/// opcodes.
pub proof fn lemma_closed_input_is_balanced(v: ScannerView, input: Seq<char>)
    requires
        v.wf(),
        v.stack.len() == 0,
        after(v, input).stack.len() == 0,
    ensures
        balanced(opcodes(v, input)),
{
    lemma_opcodes_nest(v, input);
    assert(open_containers(v.stack) =~= Seq::<Container>::empty());
    assert(open_containers(after(v, input).stack) =~= Seq::<Container>::empty());
}

} // verus!
