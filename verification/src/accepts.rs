//! What the scanner accepts is a well-formed document.
//!
//! Step by step, what the scanner has read without an error is part of a
//! document; at an end of input that reports `End`, it is a whole document
//! and the whitespace after it.
use vstd::prelude::*;
use crate::document::lemma_trailing_whitespace;
use crate::grammar::{
    element_text, element_wf, elements_text, member_text, member_wf, members_text, pieces_text,
    string_text, value_text, value_wf, Document, Element, Exponent, Literal, Member, Number,
    Piece, Value,
};
use crate::model::{end_value, eof, is_space, literal_step, step, ScannerView};
use crate::opcode::{Opcode, State};
use crate::partial::{
    elements_wf, entries, frames_text, listed_elements, listed_members, members_wf, Frame, Open,
    Partial, Position, Reading,
};
use crate::terminal::lemma_error_stays_set;
use crate::trace::after;
use crate::whitespace::is_blank;

verus! {

/// The pieces with one more have the text of the pieces and then the text of
/// that one.
pub proof fn lemma_pieces_push(pieces: Seq<Piece>, piece: Piece)
    ensures
        pieces_text(pieces.push(piece)) == pieces_text(pieces) + piece.text(),
{
    assert(pieces.push(piece).drop_last() =~= pieces);
}

/// The elements with one more are well formed if the elements and that one
/// are, and have the text of the elements, each with its comma, and then
/// the text of that one.
pub proof fn lemma_elements_push(done: Seq<Element>, element: Element)
    requires
        elements_wf(done),
        element_wf(element),
    ensures
        elements_wf(done.push(element)),
        elements_text(done.push(element)) == listed_elements(done) + element_text(element),
{
    let items = done.push(element);
    assert(items.drop_last() =~= done);
    assert(elements_text(items) =~= listed_elements(done) + element_text(element));
    assert forall|i: int| 0 <= i < items.len() implies element_wf(#[trigger] items[i]) by {
        if i < done.len() {
            assert(items[i] == done[i]);
        }
    }
}

/// The members with one more are well formed if the members and that one
/// are, and have the text of the members, each with its comma, and then the
/// text of that one.
pub proof fn lemma_members_push(done: Seq<Member>, member: Member)
    requires
        members_wf(done),
        member_wf(member),
    ensures
        members_wf(done.push(member)),
        members_text(done.push(member)) == listed_members(done) + member_text(member),
{
    let members = done.push(member);
    assert(members.drop_last() =~= done);
    assert(members_text(members) =~= listed_members(done) + member_text(member));
    assert forall|i: int| 0 <= i < members.len() implies member_wf(#[trigger] members[i]) by {
        if i < done.len() {
            assert(members[i] == done[i]);
        }
    }
}

/// What has been read is what the containers below the innermost hold,
/// then what the innermost holds, then what stands at the place in it.
pub proof fn lemma_top_text(p: Partial)
    requires
        p.frames.len() > 0,
    ensures
        p.text() == frames_text(p.frames.drop_last()) + p.frames.last().text()
            + p.position.text(),
{
}

/// One more open container, inside those that are open.
pub proof fn lemma_frame_opened(p: Partial, frame: Frame) -> (grown: Partial)
    requires
        p.wf(),
        frame.wf(),
        !p.at_key(),
    ensures
        grown == (Partial {
            frames: p.frames.push(frame),
            position: Position::Before(Seq::empty()),
        }),
        grown.wf(),
        grown.text() == frames_text(p.frames) + frame.text(),
        entries(grown.frames) == entries(p.frames).push(frame.entry()),
{
    let grown = Partial { frames: p.frames.push(frame), position: Position::Before(Seq::empty()) };
    assert(grown.frames.drop_last() =~= p.frames);
    assert(grown.text() =~= frames_text(p.frames) + frame.text());
    assert(entries(grown.frames) =~= entries(p.frames).push(frame.entry()));
    assert forall|i: int| 0 <= i < grown.frames.len() implies (#[trigger] grown.frames[i]).wf() by {
        if i < p.frames.len() {
            assert(grown.frames[i] == p.frames[i]);
        }
    }
    assert forall|i: int| 0 <= i < grown.frames.len() - 1 implies !(
        (#[trigger] grown.frames[i]).open is Key
    ) by {
        assert(grown.frames[i] == p.frames[i]);
    }
    grown
}

/// The innermost open container with more read of it, and the place at the
/// beginning of what comes next in it.
pub proof fn lemma_frame_grown(p: Partial, frame: Frame) -> (grown: Partial)
    requires
        p.wf(),
        p.frames.len() > 0,
        frame.wf(),
    ensures
        grown == (Partial {
            frames: p.frames.drop_last().push(frame),
            position: Position::Before(Seq::empty()),
        }),
        grown.wf(),
        grown.text() == frames_text(p.frames.drop_last()) + frame.text(),
        entries(grown.frames) == entries(p.frames).drop_last().push(frame.entry()),
{
    let below = p.frames.drop_last();
    let grown = Partial { frames: below.push(frame), position: Position::Before(Seq::empty()) };
    assert(grown.frames.drop_last() =~= below);
    assert(grown.text() =~= frames_text(below) + frame.text());
    assert(entries(grown.frames) =~= entries(p.frames).drop_last().push(frame.entry()));
    assert forall|i: int| 0 <= i < grown.frames.len() implies (#[trigger] grown.frames[i]).wf() by {
        if i < below.len() {
            assert(grown.frames[i] == p.frames[i]);
        }
    }
    assert forall|i: int| 0 <= i < grown.frames.len() - 1 implies !(
        (#[trigger] grown.frames[i]).open is Key
    ) by {
        assert(grown.frames[i] == p.frames[i]);
    }
    grown
}

/// The innermost open container closed: it is a value in the container
/// around it, or the top-level value.
pub proof fn lemma_frame_closed(p: Partial, value: Value) -> (grown: Partial)
    requires
        p.wf(),
        p.frames.len() > 0,
        value_wf(value),
    ensures
        grown == (Partial {
            frames: p.frames.drop_last(),
            position: Position::After(p.frames.last().before, value, Seq::empty()),
        }),
        grown.wf(),
        !grown.at_key(),
        grown.text() == frames_text(p.frames.drop_last()) + (p.frames.last().before + value_text(
            value,
        )),
        entries(grown.frames) == entries(p.frames).drop_last(),
{
    let below = p.frames.drop_last();
    let grown = Partial {
        frames: below,
        position: Position::After(p.frames.last().before, value, Seq::empty()),
    };
    assert(p.frames.last().wf());
    assert(grown.position.text() =~= p.frames.last().before + value_text(value));
    assert(entries(below) =~= entries(p.frames).drop_last());
    assert forall|i: int| 0 <= i < below.len() implies {
        &&& (#[trigger] below[i]).wf()
        &&& !(below[i].open is Key)
    } by {
        assert(below[i] == p.frames[i]);
    }
    grown
}

/// Before a value or a key, whitespace is one more character of whitespace.
pub proof fn lemma_before_blank(p: Partial, v: ScannerView, c: char) -> (grown: Partial)
    requires
        p.wf(),
        p.agrees(v),
        p.position is Before,
        is_space(c),
    ensures
        grown.wf(),
        grown.agrees(step(v, c).0),
        grown.text() == p.text().push(c),
{
    let blank = p.position->Before_0;
    let grown = Partial { frames: p.frames, position: Position::Before(blank.push(c)) };
    assert(grown.text() =~= p.text().push(c));
    grown
}

/// Before a value, a bracket or a brace opens a container.
pub proof fn lemma_before_open(p: Partial, v: ScannerView, c: char) -> (grown: Partial)
    requires
        p.wf(),
        p.agrees(v),
        p.position is Before,
        c == '[' || c == '{',
        step(v, c).0.error is None,
    ensures
        grown.wf(),
        grown.agrees(step(v, c).0),
        grown.text() == p.text().push(c),
{
    let blank = p.position->Before_0;
    let open = if c == '[' {
        Open::Array(Seq::empty())
    } else {
        Open::Key(Seq::empty())
    };
    let frame = Frame { before: blank, open };
    assert(frame.text() =~= blank.push(c));
    let grown = lemma_frame_opened(p, frame);
    assert(grown.text() =~= p.text().push(c));
    assert(grown.frames.last() == frame);
    grown
}

/// After the bracket or the brace that opened a container, the closing one
/// makes the empty container.
pub proof fn lemma_before_close(p: Partial, v: ScannerView, c: char) -> (grown: Partial)
    requires
        p.wf(),
        p.agrees(v),
        p.position is Before,
        c == ']' || c == '}',
        step(v, c).0.error is None,
    ensures
        grown.wf(),
        grown.agrees(step(v, c).0),
        grown.text() == p.text().push(c),
{
    let blank = p.position->Before_0;
    let frame = p.frames.last();
    let value = if c == ']' {
        Value::Array(blank, Seq::empty())
    } else {
        Value::Object(blank, Seq::empty())
    };
    assert(elements_text(Seq::<Element>::empty()) =~= Seq::<char>::empty());
    assert(members_text(Seq::<Member>::empty()) =~= Seq::<char>::empty());
    assert(frame.before + value_text(value) =~= (frame.text() + blank).push(c));
    assert(value_wf(value));
    lemma_top_text(p);
    let grown = lemma_frame_closed(p, value);
    assert(grown.text() =~= p.text().push(c));
    assert(step(v, c).0.stack =~= v.stack.drop_last());
    grown
}

/// Before a value or a key, the first character of a literal begins it.
pub proof fn lemma_before_literal(p: Partial, v: ScannerView, c: char) -> (grown: Partial)
    requires
        p.wf(),
        p.agrees(v),
        p.position is Before,
        !is_space(c),
        c != '[' && c != '{' && c != ']' && c != '}',
        step(v, c).0.error is None,
    ensures
        grown.wf(),
        grown.agrees(step(v, c).0),
        grown.text() == p.text().push(c),
{
    let blank = p.position->Before_0;
    let none = Seq::<char>::empty();
    let reading = if c == '"' {
        Reading::Text(Seq::empty(), none)
    } else if c == 't' || c == 'f' || c == 'n' {
        Reading::Word(seq![c])
    } else {
        Reading::Number(
            Number {
                negative: c == '-',
                integer: if c == '-' {
                    none
                } else {
                    seq![c]
                },
                fraction: None,
                exponent: None,
            },
        )
    };
    let grown = Partial { frames: p.frames, position: Position::In(blank, reading) };
    assert(pieces_text(Seq::<Piece>::empty()) =~= none);
    assert(reading.text() =~= seq![c]);
    assert(grown.text() =~= p.text().push(c));
    grown
}

/// Before a value or a key, a character that is no error is whitespace,
/// opens a container, begins a literal or closes the empty container.
pub proof fn lemma_step_before(p: Partial, v: ScannerView, c: char) -> (grown: Partial)
    requires
        p.wf(),
        p.agrees(v),
        p.position is Before,
        step(v, c).0.error is None,
    ensures
        grown.wf(),
        grown.agrees(step(v, c).0),
        grown.text() == p.text().push(c),
{
    if is_space(c) {
        lemma_before_blank(p, v, c)
    } else if c == '[' || c == '{' {
        lemma_before_open(p, v, c)
    } else if c == ']' || c == '}' {
        lemma_before_close(p, v, c)
    } else {
        lemma_before_literal(p, v, c)
    }
}

/// A value or a key is complete, and the scanner `v` is about to read what
/// follows it.
pub open spec fn value_read(p: Partial, v: ScannerView) -> bool {
    &&& p.wf()
    &&& p.position is After
    &&& v.error is None
    &&& !v.end_top
    &&& v.stack == entries(p.frames)
    &&& p.at_key() ==> p.position->After_1 is Literal && p.position->After_1->Literal_0 is Text
    &&& p.frames.len() == 0 ==> p.position->After_2.len() == 0
}

/// The element that stands at a place after a value.
pub open spec fn element_read(position: Position) -> Element {
    Element {
        before: position->After_0,
        value: position->After_1,
        after: position->After_2,
    }
}

/// The member that an open object holds with the value that stands at a
/// place after a value.
pub open spec fn member_read(open: Open, position: Position) -> Member {
    Member {
        before: open->Member_1,
        key: open->Member_2,
        between: open->Member_3,
        element: element_read(position),
    }
}

/// After a value in an array, the value is one more element of the array.
pub proof fn lemma_element_read(frame: Frame, position: Position)
    requires
        frame.wf(),
        frame.open is Array,
        position.wf(),
        position is After,
    ensures
        elements_wf(frame.open->Array_0.push(element_read(position))),
        frame.text() + position.text() == frame.before + seq!['['] + elements_text(
            frame.open->Array_0.push(element_read(position)),
        ),
{
    let done = frame.open->Array_0;
    let element = element_read(position);
    lemma_elements_push(done, element);
    assert(element_text(element) =~= position.text());
    assert(frame.text() + position.text() =~= frame.before + seq!['['] + (listed_elements(done)
        + element_text(element)));
}

/// After a value in an object, the key and the value are one more member of
/// the object.
pub proof fn lemma_member_read(frame: Frame, position: Position)
    requires
        frame.wf(),
        frame.open is Member,
        position.wf(),
        position is After,
    ensures
        members_wf(frame.open->Member_0.push(member_read(frame.open, position))),
        frame.text() + position.text() == frame.before + seq!['{'] + members_text(
            frame.open->Member_0.push(member_read(frame.open, position)),
        ),
{
    let done = frame.open->Member_0;
    let member = member_read(frame.open, position);
    assert(element_wf(member.element));
    assert(member_wf(member));
    lemma_members_push(done, member);
    assert(element_text(member.element) =~= position.text());
    let head = member.before + string_text(member.key) + member.between + seq![':'];
    assert(member_text(member) =~= head + position.text());
    assert(frame.text() =~= frame.before + seq!['{'] + listed_members(done) + head);
    assert(frame.text() + position.text() =~= frame.before + seq!['{'] + (listed_members(done)
        + member_text(member)));
}

/// After a value in an array, a comma takes the value into the array.
pub proof fn lemma_after_element_comma(p: Partial, v: ScannerView) -> (grown: Partial)
    requires
        value_read(p, v),
        p.frames.len() > 0,
        p.frames.last().open is Array,
    ensures
        grown.wf(),
        grown.agrees(end_value(v, ',').0),
        grown.text() == p.text().push(','),
{
    let frame = p.frames.last();
    let items = frame.open->Array_0.push(element_read(p.position));
    let next = Frame { before: frame.before, open: Open::Array(items) };
    assert(v.stack.last() == frame.entry());
    lemma_top_text(p);
    lemma_element_read(frame, p.position);
    assert(next.text() =~= (frame.text() + p.position.text()).push(','));
    let grown = lemma_frame_grown(p, next);
    assert(grown.text() =~= p.text().push(','));
    assert(end_value(v, ',').0.stack =~= entries(grown.frames));
    assert(grown.frames.last() == next);
    grown
}

/// After a value in an object, a comma takes the member into the object.
pub proof fn lemma_after_member_comma(p: Partial, v: ScannerView) -> (grown: Partial)
    requires
        value_read(p, v),
        p.frames.len() > 0,
        p.frames.last().open is Member,
    ensures
        grown.wf(),
        grown.agrees(end_value(v, ',').0),
        grown.text() == p.text().push(','),
{
    let frame = p.frames.last();
    let members = frame.open->Member_0.push(member_read(frame.open, p.position));
    let next = Frame { before: frame.before, open: Open::Key(members) };
    assert(v.stack.last() == frame.entry());
    lemma_top_text(p);
    lemma_member_read(frame, p.position);
    assert(next.text() =~= (frame.text() + p.position.text()).push(','));
    let grown = lemma_frame_grown(p, next);
    assert(grown.text() =~= p.text().push(','));
    assert(end_value(v, ',').0.stack =~= entries(grown.frames));
    assert(grown.frames.last() == next);
    grown
}

/// After a value in an array, the closing bracket takes the value into the
/// array and closes it.
pub proof fn lemma_after_element_close(p: Partial, v: ScannerView) -> (grown: Partial)
    requires
        value_read(p, v),
        p.frames.len() > 0,
        p.frames.last().open is Array,
    ensures
        grown.wf(),
        grown.agrees(end_value(v, ']').0),
        grown.text() == p.text().push(']'),
{
    let frame = p.frames.last();
    let items = frame.open->Array_0.push(element_read(p.position));
    let value = Value::Array(Seq::empty(), items);
    assert(v.stack.last() == frame.entry());
    lemma_top_text(p);
    lemma_element_read(frame, p.position);
    assert(value_wf(value));
    assert(frame.before + value_text(value) =~= (frame.text() + p.position.text()).push(']'));
    let grown = lemma_frame_closed(p, value);
    assert(grown.text() =~= p.text().push(']'));
    assert(end_value(v, ']').0.stack =~= v.stack.drop_last());
    grown
}

/// After a value in an object, the closing brace takes the member into the
/// object and closes it.
pub proof fn lemma_after_member_close(p: Partial, v: ScannerView) -> (grown: Partial)
    requires
        value_read(p, v),
        p.frames.len() > 0,
        p.frames.last().open is Member,
    ensures
        grown.wf(),
        grown.agrees(end_value(v, '}').0),
        grown.text() == p.text().push('}'),
{
    let frame = p.frames.last();
    let members = frame.open->Member_0.push(member_read(frame.open, p.position));
    let value = Value::Object(Seq::empty(), members);
    assert(v.stack.last() == frame.entry());
    lemma_top_text(p);
    lemma_member_read(frame, p.position);
    assert(value_wf(value));
    assert(frame.before + value_text(value) =~= (frame.text() + p.position.text()).push('}'));
    let grown = lemma_frame_closed(p, value);
    assert(grown.text() =~= p.text().push('}'));
    assert(end_value(v, '}').0.stack =~= v.stack.drop_last());
    grown
}

/// After a key, the colon takes the key into its member.
pub proof fn lemma_after_key(p: Partial, v: ScannerView) -> (grown: Partial)
    requires
        value_read(p, v),
        p.frames.len() > 0,
        p.frames.last().open is Key,
    ensures
        grown.wf(),
        grown.agrees(end_value(v, ':').0),
        grown.text() == p.text().push(':'),
{
    let frame = p.frames.last();
    let w = end_value(v, ':').0;
    let key = p.position->After_1->Literal_0->Text_0;
    let next = Frame {
        before: frame.before,
        open: Open::Member(frame.open->Key_0, p.position->After_0, key, p.position->After_2),
    };
    assert(v.stack.last() == frame.entry());
    assert(frame.wf());
    lemma_top_text(p);
    assert(next.text() =~= (frame.text() + p.position.text()).push(':'));
    let grown = lemma_frame_grown(p, next);
    assert(grown.text() =~= p.text().push(':'));
    assert(w.stack =~= entries(grown.frames));
    assert(grown.frames.last() == next);
    grown
}

/// After a value or a key, whitespace is one more character of whitespace.
pub proof fn lemma_after_blank(p: Partial, c: char) -> (grown: Partial)
    requires
        p.wf(),
        p.position is After,
        is_space(c),
    ensures
        grown == (Partial {
            frames: p.frames,
            position: Position::After(
                p.position->After_0,
                p.position->After_1,
                p.position->After_2.push(c),
            ),
        }),
        grown.wf(),
        grown.text() == p.text().push(c),
{
    let grown = Partial {
        frames: p.frames,
        position: Position::After(
            p.position->After_0,
            p.position->After_1,
            p.position->After_2.push(c),
        ),
    };
    assert(grown.position.text() =~= p.position.text().push(c));
    assert(grown.text() =~= p.text().push(c));
    grown
}

/// After a value or a key, a character that is no error is whitespace or
/// the punctuation that the innermost container allows.
pub proof fn lemma_step_after(p: Partial, v: ScannerView, c: char) -> (grown: Partial)
    requires
        value_read(p, v),
        end_value(v, c).0.error is None,
    ensures
        grown.wf(),
        grown.agrees(end_value(v, c).0),
        grown.text() == p.text().push(c),
{
    if is_space(c) {
        lemma_after_blank(p, c)
    } else {
        assert(p.frames.len() > 0);
        assert(v.stack.last() == p.frames.last().entry());
        match p.frames.last().open {
            Open::Key(done) => lemma_after_key(p, v),
            Open::Array(done) => if c == ',' {
                lemma_after_element_comma(p, v)
            } else {
                lemma_after_element_close(p, v)
            },
            Open::Member(done, before, key, between) => if c == ',' {
                lemma_after_member_comma(p, v)
            } else {
                lemma_after_member_close(p, v)
            },
        }
    }
}

/// Inside a string, a character that goes on with the string completes a
/// piece or adds to an escape.
pub proof fn lemma_string_goes_on(
    pieces: Seq<Piece>,
    escape: Seq<char>,
    q: State,
    c: char,
) -> (more: Reading)
    requires
        Reading::Text(pieces, escape).fits(q),
        literal_step(q, c) is Stay || literal_step(q, c) is Goto,
        !(q == State::InString && c == '"'),
    ensures
        more is Text,
        more.fits(
            if literal_step(q, c) is Stay {
                q
            } else {
                literal_step(q, c)->Goto_0
            },
        ),
        more.text() == Reading::Text(pieces, escape).text().push(c),
{
    let none = Seq::<char>::empty();
    let piece = if q == State::InString {
        Piece::Plain(c)
    } else if q == State::InStringEsc {
        Piece::Escape(c)
    } else {
        Piece::Unicode(escape[2], escape[3], escape[4], c)
    };
    let complete = (q == State::InString && c != '\\') || (q == State::InStringEsc && c != 'u')
        || q == State::InStringEscU123;
    if complete {
        let more = Reading::Text(pieces.push(piece), none);
        lemma_pieces_push(pieces, piece);
        assert(piece.text() =~= escape.push(c));
        assert forall|i: int| 0 <= i < pieces.push(piece).len() implies (#[trigger] pieces.push(
            piece,
        )[i]).wf() by {
            if i < pieces.len() {
                assert(pieces.push(piece)[i] == pieces[i]);
            }
        }
        assert(more.text() =~= Reading::Text(pieces, escape).text().push(c));
        more
    } else {
        let more = Reading::Text(pieces, escape.push(c));
        assert(more.text() =~= Reading::Text(pieces, escape).text().push(c));
        more
    }
}

/// Inside a string, a character that is no error goes on with the string or
/// closes it.
pub proof fn lemma_step_in_string(p: Partial, v: ScannerView, c: char) -> (grown: Partial)
    requires
        p.wf(),
        p.agrees(v),
        p.position is In,
        p.position->In_1 is Text,
        step(v, c).0.error is None,
    ensures
        grown.wf(),
        grown.agrees(step(v, c).0),
        grown.text() == p.text().push(c),
{
    let blank = p.position->In_0;
    let pieces = p.position->In_1->Text_0;
    let escape = p.position->In_1->Text_1;
    if v.state == State::InString && c == '"' {
        let value = Value::Literal(Literal::Text(pieces));
        let grown = Partial {
            frames: p.frames,
            position: Position::After(blank, value, Seq::empty()),
        };
        assert(grown.position.text() =~= p.position.text().push(c));
        assert(grown.text() =~= p.text().push(c));
        grown
    } else {
        let more = lemma_string_goes_on(pieces, escape, v.state, c);
        let grown = Partial { frames: p.frames, position: Position::In(blank, more) };
        assert(grown.position.text() =~= p.position.text().push(c));
        assert(grown.text() =~= p.text().push(c));
        grown
    }
}

/// Inside a keyword, a character that is no error is the next of the
/// keyword.
pub proof fn lemma_step_in_word(p: Partial, v: ScannerView, c: char) -> (grown: Partial)
    requires
        p.wf(),
        p.agrees(v),
        p.position is In,
        p.position->In_1 is Word,
        step(v, c).0.error is None,
    ensures
        grown.wf(),
        grown.agrees(step(v, c).0),
        grown.text() == p.text().push(c),
{
    let blank = p.position->In_0;
    let text = p.position->In_1->Word_0;
    if v.state == State::Tru || v.state == State::Fals || v.state == State::Nul {
        let literal = if v.state == State::Tru {
            Literal::True
        } else if v.state == State::Fals {
            Literal::False
        } else {
            Literal::Null
        };
        let grown = Partial {
            frames: p.frames,
            position: Position::After(blank, Value::Literal(literal), Seq::empty()),
        };
        assert(literal.text() =~= text.push(c));
        assert(grown.position.text() =~= p.position.text().push(c));
        assert(grown.text() =~= p.text().push(c));
        grown
    } else {
        let grown = Partial {
            frames: p.frames,
            position: Position::In(blank, Reading::Word(text.push(c))),
        };
        assert(grown.position.text() =~= p.position.text().push(c));
        assert(grown.text() =~= p.text().push(c));
        grown
    }
}

/// Inside a number, a character that goes on with the number begins the
/// fraction or the exponent, or adds to the last part that has begun.
pub proof fn lemma_number_goes_on(number: Number, q: State, c: char) -> (more: Number)
    requires
        Reading::Number(number).fits(q),
        literal_step(q, c) is Stay || literal_step(q, c) is Goto,
    ensures
        Reading::Number(more).fits(
            if literal_step(q, c) is Stay {
                q
            } else {
                literal_step(q, c)->Goto_0
            },
        ),
        more.text() == number.text().push(c),
{
    let none = Seq::<char>::empty();
    let more = if c == '.' {
        Number { fraction: Some(none), ..number }
    } else if c == 'e' || c == 'E' {
        Number { exponent: Some(Exponent { mark: c, sign: None, digits: none }), ..number }
    } else if let Some(exponent) = number.exponent {
        if c == '+' || c == '-' {
            Number { exponent: Some(Exponent { sign: Some(c), ..exponent }), ..number }
        } else {
            Number {
                exponent: Some(Exponent { digits: exponent.digits.push(c), ..exponent }),
                ..number
            }
        }
    } else if let Some(digits) = number.fraction {
        Number { fraction: Some(digits.push(c)), ..number }
    } else {
        Number { integer: number.integer.push(c), ..number }
    };
    assert(more.text() =~= number.text().push(c));
    more
}

/// Inside a number, a character that is no error goes on with the number or
/// is what follows a value; the number is then complete.
pub proof fn lemma_step_in_number(p: Partial, v: ScannerView, c: char) -> (grown: Partial)
    requires
        p.wf(),
        p.agrees(v),
        p.position is In,
        p.position->In_1 is Number,
        step(v, c).0.error is None,
    ensures
        grown.wf(),
        grown.agrees(step(v, c).0),
        grown.text() == p.text().push(c),
{
    let blank = p.position->In_0;
    let number = p.position->In_1->Number_0;
    if literal_step(v.state, c) is Ended {
        let value = Value::Literal(Literal::Number(number));
        let complete = Partial {
            frames: p.frames,
            position: Position::After(blank, value, Seq::empty()),
        };
        assert(complete.position.text() =~= p.position.text());
        lemma_step_after(complete, v, c)
    } else {
        let more = lemma_number_goes_on(number, v.state, c);
        let grown = Partial {
            frames: p.frames,
            position: Position::In(blank, Reading::Number(more)),
        };
        assert(grown.position.text() =~= p.position.text().push(c));
        assert(grown.text() =~= p.text().push(c));
        grown
    }
}

/// Whatever the scanner has read without an error is part of a document,
/// and so it is with one more character that is no error.
pub proof fn lemma_step_tracks(p: Partial, v: ScannerView, c: char) -> (grown: Partial)
    requires
        p.wf(),
        p.agrees(v),
        step(v, c).0.error is None,
    ensures
        grown.wf(),
        grown.agrees(step(v, c).0),
        grown.text() == p.text().push(c),
{
    match p.position {
        Position::Before(blank) => lemma_step_before(p, v, c),
        Position::In(blank, reading) => match reading {
            Reading::Text(pieces, escape) => lemma_step_in_string(p, v, c),
            Reading::Number(number) => lemma_step_in_number(p, v, c),
            Reading::Word(text) => lemma_step_in_word(p, v, c),
        },
        Position::After(before, value, rest) => {
            if v.state == State::EndTop {
                lemma_after_blank(p, c)
            } else {
                lemma_step_after(p, v, c)
            }
        },
    }
}

/// Whatever the scanner reads without an error is part of a document.
pub proof fn lemma_scan_tracks(p: Partial, v: ScannerView, input: Seq<char>) -> (grown: Partial)
    requires
        p.wf(),
        p.agrees(v),
        after(v, input).error is None,
    ensures
        grown.wf(),
        grown.agrees(after(v, input)),
        grown.text() == p.text() + input,
    decreases input.len(),
{
    if input.len() == 0 {
        assert(p.text() + input =~= p.text());
        p
    } else {
        let c = input.first();
        let w = step(v, c).0;
        if w.error is Some {
            lemma_error_stays_set(w, input.drop_first());
        }
        let stepped = lemma_step_tracks(p, v, c);
        let grown = lemma_scan_tracks(stepped, w, input.drop_first());
        assert(p.text().push(c) + input.drop_first() =~= p.text() + input);
        grown
    }
}

/// What the scanner accepts is a well-formed document and the whitespace
/// after it.
///
/// If the end of the input reports `End` after a new scanner has read
/// `input`, then `input` is the text of a well-formed document, followed by
/// nothing but whitespace. The document and the whitespace are the result.
pub proof fn lemma_accepted_input_is_a_document(input: Seq<char>) -> (parts: (
    Document,
    Seq<char>,
))
    requires
        eof(after(ScannerView::initial(), input)).1 == Opcode::End,
    ensures
        parts.0.wf(),
        is_blank(parts.1),
        input == parts.0.text() + parts.1,
{
    let v = ScannerView::initial();
    let none = Seq::<char>::empty();
    assert(entries(Seq::<Frame>::empty()) =~= v.stack);
    assert(Partial::start().text() =~= none);
    let p = lemma_scan_tracks(Partial::start(), v, input);
    assert(p.text() =~= input);
    assert(p.frames.len() == 0);
    assert(p.text() =~= p.position.text());
    match p.position {
        Position::Before(blank) => {
            (Document { before: none, value: Value::Literal(Literal::Null) }, none)
        },
        Position::In(blank, reading) => {
            let number = reading->Number_0;
            let document = Document {
                before: blank,
                value: Value::Literal(Literal::Number(number)),
            };
            assert(document.text() + none =~= input);
            (document, none)
        },
        Position::After(before, value, rest) => {
            let document = Document { before, value };
            assert(document.text() + rest =~= input);
            (document, rest)
        },
    }
}

/// Whether `input` is the text of `document` and then `blank`.
pub open spec fn reads_as(input: Seq<char>, document: Document, blank: Seq<char>) -> bool {
    document.wf() && is_blank(blank) && input == document.text() + blank
}

/// Whether `input` is JSON text: a well-formed document, with nothing but
/// whitespace after it.
pub open spec fn is_json(input: Seq<char>) -> bool {
    exists|document: Document, blank: Seq<char>| reads_as(input, document, blank)
}

/// Whether a new scanner accepts `input`: after its characters, the end of
/// the input reports `End`.
pub open spec fn accepts(input: Seq<char>) -> bool {
    eof(after(ScannerView::initial(), input)).1 == Opcode::End
}

/// The scanner accepts exactly the JSON texts.
pub proof fn lemma_accepts_json(input: Seq<char>)
    ensures
        accepts(input) <==> is_json(input),
{
    if accepts(input) {
        let parts = lemma_accepted_input_is_a_document(input);
        assert(reads_as(input, parts.0, parts.1));
    }
    if is_json(input) {
        let (document, blank) = choose|document: Document, blank: Seq<char>|
            reads_as(input, document, blank);
        lemma_trailing_whitespace(document, blank);
    }
}

} // verus!
