//! What the scanner reports for a whole well-formed document.
use vstd::prelude::*;
use crate::grammar::{
    element_events, elements_events, literal_events, member_events, members_events,
    string_text, value_events, value_text, Document, Element, Member, Number, Value,
};
use crate::literals::{lemma_number, number_end};
use crate::model::{eof, is_digit, is_space, step, ScannerView};
use crate::nesting::{balanced, lemma_closed_input_is_balanced};
use crate::opcode::{Opcode, State};
use crate::trace::{after, lemma_scans_join, lemma_scans_then, opcodes};
use crate::whitespace::{is_blank, lemma_blank_is_skipped, skips};
use crate::values::{after_value, goes_on_with_number, lemma_after_value_step, lemma_value};

verus! {

/// Whether `ops` holds neither `End` nor `Error`.
pub open spec fn quiet(ops: Seq<Opcode>) -> bool {
    forall|i: int|
        0 <= i < ops.len() ==> #[trigger] ops[i] != Opcode::End && ops[i] != Opcode::Error
}

/// Opcodes without `End` and `Error`, joined, are without them.
pub proof fn lemma_quiet_join(a: Seq<Opcode>, b: Seq<Opcode>)
    requires
        quiet(a),
        quiet(b),
    ensures
        quiet(a + b),
{
    assert forall|i: int| 0 <= i < (a + b).len() implies #[trigger] (a + b)[i] != Opcode::End && (a
        + b)[i] != Opcode::Error by {
        if i < a.len() {
            assert((a + b)[i] == a[i]);
        } else {
            assert((a + b)[i] == b[i - a.len()]);
        }
    }
}

/// The opcodes of an element hold neither `End` nor `Error`.
pub proof fn lemma_element_events_quiet(element: Element)
    ensures
        quiet(element_events(element)),
    decreases element,
{
    lemma_value_events_quiet(element.value);
    lemma_quiet_join(skips(element.before.len()), value_events(element.value));
    lemma_quiet_join(
        skips(element.before.len()) + value_events(element.value),
        skips(element.after.len()),
    );
}

/// The opcodes of the elements of an array hold neither `End` nor `Error`.
pub proof fn lemma_elements_events_quiet(items: Seq<Element>)
    ensures
        quiet(elements_events(items)),
    decreases items,
{
    if items.len() == 1 {
        lemma_element_events_quiet(items[0]);
    } else if items.len() > 1 {
        lemma_elements_events_quiet(items.drop_last());
        lemma_element_events_quiet(items.last());
        lemma_quiet_join(elements_events(items.drop_last()), seq![Opcode::ArrayValue]);
        lemma_quiet_join(
            elements_events(items.drop_last()) + seq![Opcode::ArrayValue],
            element_events(items.last()),
        );
    }
}

/// The opcodes of a member hold neither `End` nor `Error`.
pub proof fn lemma_member_events_quiet(member: Member)
    ensures
        quiet(member_events(member)),
    decreases member,
{
    let a = skips(member.before.len());
    let b = literal_events(string_text(member.key).len());
    let c = skips(member.between.len());
    let d = seq![Opcode::ObjectKey];
    lemma_element_events_quiet(member.element);
    lemma_quiet_join(a, b);
    lemma_quiet_join(a + b, c);
    lemma_quiet_join(a + b + c, d);
    lemma_quiet_join(a + b + c + d, element_events(member.element));
}

/// The opcodes of the members of an object hold neither `End` nor `Error`.
pub proof fn lemma_members_events_quiet(members: Seq<Member>)
    ensures
        quiet(members_events(members)),
    decreases members,
{
    if members.len() == 1 {
        lemma_member_events_quiet(members[0]);
    } else if members.len() > 1 {
        lemma_members_events_quiet(members.drop_last());
        lemma_member_events_quiet(members.last());
        lemma_quiet_join(members_events(members.drop_last()), seq![Opcode::ObjectValue]);
        lemma_quiet_join(
            members_events(members.drop_last()) + seq![Opcode::ObjectValue],
            member_events(members.last()),
        );
    }
}

/// The opcodes of a value hold neither `End` nor `Error`.
pub proof fn lemma_value_events_quiet(value: Value)
    ensures
        quiet(value_events(value)),
    decreases value,
{
    match value {
        Value::Literal(literal) => {},
        Value::Array(blank, items) => {
            lemma_elements_events_quiet(items);
            lemma_quiet_join(seq![Opcode::BeginArray], skips(blank.len()));
            lemma_quiet_join(seq![Opcode::BeginArray] + skips(blank.len()), elements_events(items));
            lemma_quiet_join(
                seq![Opcode::BeginArray] + skips(blank.len()) + elements_events(items),
                seq![Opcode::EndArray],
            );
        },
        Value::Object(blank, members) => {
            lemma_members_events_quiet(members);
            lemma_quiet_join(seq![Opcode::BeginObject], skips(blank.len()));
            lemma_quiet_join(
                seq![Opcode::BeginObject] + skips(blank.len()),
                members_events(members),
            );
            lemma_quiet_join(
                seq![Opcode::BeginObject] + skips(blank.len()) + members_events(members),
                seq![Opcode::EndObject],
            );
        },
    }
}

/// After a complete top-level value, the end of the input reports `End`, and
/// so does every character that cannot go on with a number.
pub proof fn lemma_top_level_value_ends(w: ScannerView, c: char)
    requires
        after_value(w, ScannerView::initial()),
    ensures
        eof(w).1 == Opcode::End,
        !goes_on_with_number(c) ==> step(w, c).1 == Opcode::End,
{
    lemma_after_value_step(w, ScannerView::initial(), ' ');
    if !goes_on_with_number(c) {
        lemma_after_value_step(w, ScannerView::initial(), c);
    }
}

/// A new scanner reads a well-formed document as follows.
///
/// It reports exactly the opcodes that the characters of the document call
/// for, one after the other. None of them is `End` or `Error`. Every
/// container that they open they close again, in the right order. After the
/// last character of the document `End` is reported once: by the end of the
/// input, or by the next character, provided that character cannot go on
/// with a number.
pub proof fn lemma_document(document: Document)
    requires
        document.wf(),
    ensures
        opcodes(ScannerView::initial(), document.text()) == document.events(),
        quiet(document.events()),
        balanced(document.events()),
        eof(after(ScannerView::initial(), document.text())).1 == Opcode::End,
        forall|c: char|
            !goes_on_with_number(c) ==> #[trigger] step(
                after(ScannerView::initial(), document.text()),
                c,
            ).1 == Opcode::End,
{
    let v = ScannerView::initial();
    let w = after(v, value_text(document.value));
    lemma_blank_is_skipped(v, document.before);
    lemma_value(v, document.value);
    lemma_scans_then(
        v,
        document.before,
        skips(document.before.len()),
        v,
        value_text(document.value),
        value_events(document.value),
        w,
        document.text(),
        document.events(),
    );
    lemma_value_events_quiet(document.value);
    lemma_quiet_join(skips(document.before.len()), value_events(document.value));
    lemma_closed_input_is_balanced(v, document.text());
    assert forall|c: char| !goes_on_with_number(c) implies #[trigger] step(w, c).1
        == Opcode::End by {
        lemma_top_level_value_ends(w, c);
    }
    lemma_top_level_value_ends(w, ' ');
}

/// The end of a number is known only after it.
///
/// A new scanner reads a number as one literal: no character of it, and so
/// not the last, is answered with `End`. The end of the input is. A further
/// digit goes on with the literal and changes nothing, unless the number is
/// a lone `0` or `-0`, where a digit would be a second value.
pub proof fn lemma_number_ends_late(number: Number, digit: char)
    requires
        number.wf(),
        is_digit(digit),
    ensures
        opcodes(ScannerView::initial(), number.text()) == literal_events(number.text().len()),
        eof(after(ScannerView::initial(), number.text())).1 == Opcode::End,
        number_end(number) != State::Zero ==> step(
            after(ScannerView::initial(), number.text()),
            digit,
        ) == (after(ScannerView::initial(), number.text()), Opcode::Continue),
{
    let v = ScannerView::initial();
    lemma_number(v, number);
    lemma_top_level_value_ends(after(v, number.text()), ' ');
}

/// Whitespace after a well-formed document is answered with `End`,
/// character by character, and so is the end of the input after it.
pub proof fn lemma_trailing_whitespace(document: Document, blank: Seq<char>)
    requires
        document.wf(),
        is_blank(blank),
    ensures
        opcodes(after(ScannerView::initial(), document.text()), blank) == Seq::new(
            blank.len(),
            |i: int| Opcode::End,
        ),
        eof(after(ScannerView::initial(), document.text() + blank)).1 == Opcode::End,
{
    let v = ScannerView::initial();
    let w = after(v, document.text());
    let done = ScannerView { state: State::EndTop, end_top: true, ..v };
    lemma_blank_is_skipped(v, document.before);
    lemma_value(v, document.value);
    lemma_scans_join(v, document.before, value_text(document.value));
    lemma_scans_join(v, document.text(), blank);
    if blank.len() > 0 {
        assert(is_space(blank[0]));
        lemma_after_value_step(w, v, blank[0]);
        assert(is_blank(blank.drop_first())) by {
            assert forall|i: int| 0 <= i < blank.drop_first().len() implies is_space(
                #[trigger] blank.drop_first()[i],
            ) by {
                assert(blank.drop_first()[i] == blank[i + 1]);
            }
        }
        lemma_ends(done, blank.drop_first());
    } else {
        lemma_top_level_value_ends(w, ' ');
    }
    assert(opcodes(w, blank) =~= Seq::new(blank.len(), |i: int| Opcode::End));
}

/// After the top-level value, whitespace changes nothing and is answered
/// with `End`.
pub proof fn lemma_ends(v: ScannerView, blank: Seq<char>)
    requires
        v.state == State::EndTop,
        is_blank(blank),
    ensures
        after(v, blank) == v,
        opcodes(v, blank) == Seq::new(blank.len(), |i: int| Opcode::End),
    decreases blank.len(),
{
    if blank.len() > 0 {
        assert(is_space(blank[0]));
        assert(is_blank(blank.drop_first())) by {
            assert forall|i: int| 0 <= i < blank.drop_first().len() implies is_space(
                #[trigger] blank.drop_first()[i],
            ) by {
                assert(blank.drop_first()[i] == blank[i + 1]);
            }
        }
        lemma_ends(v, blank.drop_first());
    }
    assert(opcodes(v, blank) =~= Seq::new(blank.len(), |i: int| Opcode::End));
}

} // verus!
