//! How the scanner reads the values of the grammar: literals, arrays and
//! objects, nested to any depth.
use vstd::prelude::*;
use crate::grammar::{
    element_events, element_text, element_wf, elements_events, elements_text, literal_events,
    member_events, member_text, member_wf, members_events, members_text, string_text,
    value_events, value_text, value_wf, Element, Member, Value,
};
use crate::literals::{before_key, before_value, lemma_literal, lemma_string};
use crate::model::{end_value, is_digit, is_space, step, ScannerView};
use crate::opcode::{Opcode, ParseState, State};
use crate::trace::{
    after, lemma_scans_nothing, lemma_scans_one, lemma_scans_push, lemma_scans_then, opcodes,
};
use crate::whitespace::{
    is_blank, lemma_blank_is_skipped, lemma_end_value_from_any_state, skips,
};

verus! {

/// A character that can go on with a number after one of its digits.
pub open spec fn goes_on_with_number(c: char) -> bool {
    is_digit(c) || c == '.' || c == 'e' || c == 'E'
}

/// The scanner `w` is the scanner `v` after one complete value: the stack is
/// as it was, and the context is the one after a value or, for a number, the
/// one of its last part; after a container at the top level the end of the
/// top-level value is already known.
pub open spec fn after_value(w: ScannerView, v: ScannerView) -> bool {
    ||| w == v.goto(State::EndValue)
    ||| w == v.goto(State::Zero)
    ||| w == v.goto(State::One)
    ||| w == v.goto(State::Dot0)
    ||| w == v.goto(State::E0)
    ||| (v.stack.len() == 0 && w == ScannerView { state: State::EndTop, end_top: true, ..v })
}

/// After a complete value, a character that cannot go on with a number is
/// read as what follows a value.
pub proof fn lemma_after_value_step(w: ScannerView, v: ScannerView, c: char)
    requires
        after_value(w, v),
        !goes_on_with_number(c),
    ensures
        step(w, c) == end_value(v, c),
{
    lemma_end_value_from_any_state(v, w.state, c);
}

/// After a complete value in a container, whitespace is skipped and the
/// value is still complete.
pub proof fn lemma_after_value_blank(w: ScannerView, v: ScannerView, blank: Seq<char>)
    requires
        after_value(w, v),
        v.stack.len() > 0,
        is_blank(blank),
    ensures
        opcodes(w, blank) == skips(blank.len()),
        after_value(after(w, blank), v),
{
    if blank.len() == 0 {
        lemma_scans_nothing(w);
        assert(blank =~= Seq::<char>::empty());
        assert(skips(0) =~= Seq::<Opcode>::empty());
    } else {
        let c = blank[0];
        let rest = blank.drop_first();
        let w1 = v.goto(State::EndValue);
        assert(is_space(c));
        lemma_after_value_step(w, v, c);
        lemma_scans_one(w, c, skips(1));
        assert(is_blank(rest)) by {
            assert forall|i: int| 0 <= i < rest.len() implies is_space(#[trigger] rest[i]) by {
                assert(rest[i] == blank[i + 1]);
            }
        }
        lemma_blank_is_skipped(w1, rest);
        lemma_scans_then(
            w,
            seq![c],
            skips(1),
            w1,
            rest,
            skips(rest.len()),
            w1,
            blank,
            skips(blank.len()),
        );
    }
}

/// What is complete after `v` in one context is complete after `v` in any
/// other.
pub proof fn lemma_after_value_from_any_state(w: ScannerView, v: ScannerView, q: State)
    requires
        after_value(w, v.goto(q)),
    ensures
        after_value(w, v),
{
}

/// An element of a container is read as its value, with `SkipSpace` for the
/// whitespace around it.
pub proof fn lemma_element(v: ScannerView, element: Element)
    requires
        before_value(v),
        v.stack.len() > 0,
        element_wf(element),
    ensures
        opcodes(v, element_text(element)) == element_events(element),
        after_value(after(v, element_text(element)), v),
    decreases element,
{
    let value = element.value;
    let w1 = after(v, value_text(value));
    let w2 = after(w1, element.after);
    lemma_blank_is_skipped(v, element.before);
    lemma_value(v, value);
    lemma_after_value_blank(w1, v, element.after);
    lemma_scans_then(
        v,
        element.before,
        skips(element.before.len()),
        v,
        value_text(value),
        value_events(value),
        w1,
        element.before + value_text(value),
        skips(element.before.len()) + value_events(value),
    );
    lemma_scans_then(
        v,
        element.before + value_text(value),
        skips(element.before.len()) + value_events(value),
        w1,
        element.after,
        skips(element.after.len()),
        w2,
        element_text(element),
        element_events(element),
    );
}

/// The elements of an array are read one after the other, with `ArrayValue`
/// for each comma between them.
pub proof fn lemma_elements(v: ScannerView, items: Seq<Element>)
    requires
        before_value(v),
        v.within(ParseState::ArrayValue),
        items.len() > 0,
        forall|i: int| 0 <= i < items.len() ==> element_wf(#[trigger] items[i]),
    ensures
        opcodes(v, elements_text(items)) == elements_events(items),
        after_value(after(v, elements_text(items)), v),
    decreases items,
{
    if items.len() == 1 {
        lemma_element(v, items[0]);
    } else {
        let front = items.drop_last();
        let last = items.last();
        assert forall|i: int| 0 <= i < front.len() implies element_wf(#[trigger] front[i]) by {
            assert(front[i] == items[i]);
        }
        lemma_elements(v, front);
        let w1 = after(v, elements_text(front));
        let v2 = v.goto(State::BeginValue);
        lemma_after_value_step(w1, v, ',');
        lemma_scans_push(
            v,
            elements_text(front),
            elements_events(front),
            w1,
            ',',
            elements_text(front) + seq![','],
            elements_events(front) + seq![Opcode::ArrayValue],
        );
        lemma_element(v2, last);
        lemma_scans_then(
            v,
            elements_text(front) + seq![','],
            elements_events(front) + seq![Opcode::ArrayValue],
            v2,
            element_text(last),
            element_events(last),
            after(v2, element_text(last)),
            elements_text(items),
            elements_events(items),
        );
        lemma_after_value_from_any_state(after(v2, element_text(last)), v, State::BeginValue);
    }
}

/// A member of an object is read as its key, `ObjectKey` for the colon, and
/// its value; the object is then after a value.
pub proof fn lemma_member(v: ScannerView, member: Member)
    requires
        before_key(v),
        v.within(ParseState::ObjectKey),
        member_wf(member),
    ensures
        opcodes(v, member_text(member)) == member_events(member),
        after_value(after(v, member_text(member)), v.retop(ParseState::ObjectValue)),
    decreases member,
{
    let key = string_text(member.key);
    let key_events = literal_events(key.len());
    let v1 = v.goto(State::EndValue);
    let v2 = v.retop(ParseState::ObjectValue).goto(State::BeginValue);
    let w = after(v2, element_text(member.element));
    lemma_blank_is_skipped(v, member.before);
    lemma_string(v, member.key);
    lemma_scans_then(
        v,
        member.before,
        skips(member.before.len()),
        v,
        key,
        key_events,
        v1,
        member.before + key,
        skips(member.before.len()) + key_events,
    );
    lemma_blank_is_skipped(v1, member.between);
    lemma_scans_then(
        v,
        member.before + key,
        skips(member.before.len()) + key_events,
        v1,
        member.between,
        skips(member.between.len()),
        v1,
        member.before + key + member.between,
        skips(member.before.len()) + key_events + skips(member.between.len()),
    );
    lemma_scans_push(
        v,
        member.before + key + member.between,
        skips(member.before.len()) + key_events + skips(member.between.len()),
        v1,
        ':',
        member.before + key + member.between + seq![':'],
        skips(member.before.len()) + key_events + skips(member.between.len())
            + seq![Opcode::ObjectKey],
    );
    lemma_element(v2, member.element);
    lemma_scans_then(
        v,
        member.before + key + member.between + seq![':'],
        skips(member.before.len()) + key_events + skips(member.between.len())
            + seq![Opcode::ObjectKey],
        v2,
        element_text(member.element),
        element_events(member.element),
        w,
        member_text(member),
        member_events(member),
    );
    lemma_after_value_from_any_state(w, v.retop(ParseState::ObjectValue), State::BeginValue);
}

/// The members of an object are read one after the other, with
/// `ObjectValue` for each comma between them.
pub proof fn lemma_members(v: ScannerView, members: Seq<Member>)
    requires
        before_key(v),
        v.within(ParseState::ObjectKey),
        members.len() > 0,
        forall|i: int| 0 <= i < members.len() ==> member_wf(#[trigger] members[i]),
    ensures
        opcodes(v, members_text(members)) == members_events(members),
        after_value(after(v, members_text(members)), v.retop(ParseState::ObjectValue)),
    decreases members,
{
    if members.len() == 1 {
        lemma_member(v, members[0]);
    } else {
        let front = members.drop_last();
        let last = members.last();
        assert forall|i: int| 0 <= i < front.len() implies member_wf(#[trigger] front[i]) by {
            assert(front[i] == members[i]);
        }
        lemma_members(v, front);
        let w1 = after(v, members_text(front));
        let v1 = v.retop(ParseState::ObjectValue);
        let v2 = v.goto(State::BeginString);
        lemma_after_value_step(w1, v1, ',');
        assert(v1.retop(ParseState::ObjectKey).stack =~= v.stack);
        assert(step(w1, ',') == (v2, Opcode::ObjectValue));
        lemma_scans_push(
            v,
            members_text(front),
            members_events(front),
            w1,
            ',',
            members_text(front) + seq![','],
            members_events(front) + seq![Opcode::ObjectValue],
        );
        lemma_member(v2, last);
        lemma_scans_then(
            v,
            members_text(front) + seq![','],
            members_events(front) + seq![Opcode::ObjectValue],
            v2,
            member_text(last),
            member_events(last),
            after(v2, member_text(last)),
            members_text(members),
            members_events(members),
        );
        lemma_after_value_from_any_state(after(v2, member_text(last)), v1, State::BeginString);
    }
}

/// A value is read with exactly the opcodes that its characters call for,
/// and leaves the scanner after a value, with the stack as it was.
pub proof fn lemma_value(v: ScannerView, value: Value)
    requires
        before_value(v),
        value_wf(value),
    ensures
        opcodes(v, value_text(value)) == value_events(value),
        after_value(after(v, value_text(value)), v),
    decreases value,
{
    match value {
        Value::Literal(literal) => {
            lemma_literal(v, literal);
        },
        Value::Array(blank, items) => {
            let v1 = v.push(ParseState::ArrayValue).goto(State::BeginValueOrEmpty);
            let opened = seq!['['] + blank;
            let opened_events = seq![Opcode::BeginArray] + skips(blank.len());
            lemma_scans_one(v, '[', seq![Opcode::BeginArray]);
            lemma_blank_is_skipped(v1, blank);
            lemma_scans_then(
                v,
                seq!['['],
                seq![Opcode::BeginArray],
                v1,
                blank,
                skips(blank.len()),
                v1,
                opened,
                opened_events,
            );
            let w = after(v1, elements_text(items));
            if items.len() == 0 {
                lemma_scans_nothing(v1);
            } else {
                lemma_elements(v1, items);
                lemma_after_value_step(w, v1, ']');
            }
            assert(step(w, ']') == (v1.pop(), Opcode::EndArray));
            lemma_scans_then(
                v,
                opened,
                opened_events,
                v1,
                elements_text(items),
                elements_events(items),
                w,
                opened + elements_text(items),
                opened_events + elements_events(items),
            );
            lemma_scans_push(
                v,
                opened + elements_text(items),
                opened_events + elements_events(items),
                w,
                ']',
                value_text(value),
                value_events(value),
            );
            assert(v1.pop().stack =~= v.stack);
        },
        Value::Object(blank, members) => {
            let v1 = v.push(ParseState::ObjectKey).goto(State::BeginStringOrEmpty);
            let v2 = v1.retop(ParseState::ObjectValue);
            let opened = seq!['{'] + blank;
            let opened_events = seq![Opcode::BeginObject] + skips(blank.len());
            lemma_scans_one(v, '{', seq![Opcode::BeginObject]);
            lemma_blank_is_skipped(v1, blank);
            lemma_scans_then(
                v,
                seq!['{'],
                seq![Opcode::BeginObject],
                v1,
                blank,
                skips(blank.len()),
                v1,
                opened,
                opened_events,
            );
            let w = after(v1, members_text(members));
            if members.len() == 0 {
                lemma_scans_nothing(v1);
            } else {
                lemma_members(v1, members);
                lemma_after_value_step(w, v2, '}');
            }
            assert(step(w, '}') == (v2.pop(), Opcode::EndObject));
            lemma_scans_then(
                v,
                opened,
                opened_events,
                v1,
                members_text(members),
                members_events(members),
                w,
                opened + members_text(members),
                opened_events + members_events(members),
            );
            lemma_scans_push(
                v,
                opened + members_text(members),
                opened_events + members_events(members),
                w,
                '}',
                value_text(value),
                value_events(value),
            );
            assert(v2.pop().stack =~= v.stack);
        },
    }
}

} // verus!
