//! How the scanner reads the literals of the grammar: strings, numbers and
//! keywords.
use vstd::prelude::*;
use crate::grammar::{
    is_digits, literal_events, pieces_text, pieces_wf, string_text, Exponent, Literal, Number,
    Piece,
};
use crate::model::{is_digit, step, ScannerView};
use crate::opcode::{Opcode, State};
use crate::trace::{
    after, lemma_scans_nothing, lemma_scans_one, lemma_scans_push, lemma_scans_then, opcodes,
    scans,
};

verus! {

/// The opcodes of `n` further characters of a literal.
pub open spec fn continues(n: nat) -> Seq<Opcode> {
    Seq::new(n, |i: int| Opcode::Continue)
}

/// A scanner that is about to read a value.
pub open spec fn before_value(v: ScannerView) -> bool {
    v.state == State::BeginValue || v.state == State::BeginValueOrEmpty
}

/// A scanner that is about to read an object key.
pub open spec fn before_key(v: ScannerView) -> bool {
    v.state == State::BeginString || v.state == State::BeginStringOrEmpty
}

/// Inside a string, each piece is read with `Continue` for every character
/// and leaves the scanner inside the string.
pub proof fn lemma_piece(v: ScannerView, piece: Piece)
    requires
        v.state == State::InString,
        piece.wf(),
    ensures
        scans(v, piece.text(), continues(piece.text().len()), v),
{
    match piece {
        Piece::Plain(c) => {
            lemma_scans_one(v, c, continues(1));
        },
        Piece::Escape(c) => {
            let v1 = v.goto(State::InStringEsc);
            lemma_scans_one(v, '\\', continues(1));
            lemma_scans_push(v, seq!['\\'], continues(1), v1, c, piece.text(), continues(2));
        },
        Piece::Unicode(a, b, c, d) => {
            let v1 = v.goto(State::InStringEsc);
            let v2 = v.goto(State::InStringEscU);
            let v3 = v.goto(State::InStringEscU1);
            let v4 = v.goto(State::InStringEscU12);
            let v5 = v.goto(State::InStringEscU123);
            lemma_scans_one(v, '\\', continues(1));
            lemma_scans_push(
                v,
                seq!['\\'],
                continues(1),
                v1,
                'u',
                seq!['\\', 'u'],
                continues(2),
            );
            lemma_scans_push(
                v,
                seq!['\\', 'u'],
                continues(2),
                v2,
                a,
                seq!['\\', 'u', a],
                continues(3),
            );
            lemma_scans_push(
                v,
                seq!['\\', 'u', a],
                continues(3),
                v3,
                b,
                seq!['\\', 'u', a, b],
                continues(4),
            );
            lemma_scans_push(
                v,
                seq!['\\', 'u', a, b],
                continues(4),
                v4,
                c,
                seq!['\\', 'u', a, b, c],
                continues(5),
            );
            lemma_scans_push(
                v,
                seq!['\\', 'u', a, b, c],
                continues(5),
                v5,
                d,
                piece.text(),
                continues(6),
            );
        },
    }
}

/// Inside a string, the pieces are read with `Continue` for every
/// character and leave the scanner inside the string.
pub proof fn lemma_pieces(v: ScannerView, pieces: Seq<Piece>)
    requires
        v.state == State::InString,
        pieces_wf(pieces),
    ensures
        scans(v, pieces_text(pieces), continues(pieces_text(pieces).len()), v),
    decreases pieces.len(),
{
    if pieces.len() == 0 {
        lemma_scans_nothing(v);
        assert(continues(0) =~= Seq::<Opcode>::empty());
    } else {
        let front = pieces.drop_last();
        assert(pieces_wf(front)) by {
            assert forall|i: int| 0 <= i < front.len() implies (#[trigger] front[i]).wf() by {
                assert(front[i] == pieces[i]);
            }
        }
        lemma_pieces(v, front);
        lemma_piece(v, pieces.last());
        lemma_scans_then(
            v,
            pieces_text(front),
            continues(pieces_text(front).len()),
            v,
            pieces.last().text(),
            continues(pieces.last().text().len()),
            v,
            pieces_text(pieces),
            continues(pieces_text(pieces).len()),
        );
    }
}

/// A string is read as one literal, from the opening quote to the closing
/// one, and leaves the scanner after a value.
pub proof fn lemma_string(v: ScannerView, pieces: Seq<Piece>)
    requires
        step(v, '"') == (v.goto(State::InString), Opcode::BeginLiteral),
        pieces_wf(pieces),
    ensures
        scans(
            v,
            string_text(pieces),
            literal_events(string_text(pieces).len()),
            v.goto(State::EndValue),
        ),
{
    let v1 = v.goto(State::InString);
    let body = pieces_text(pieces);
    lemma_scans_one(v, '"', literal_events(1));
    lemma_pieces(v1, pieces);
    lemma_scans_then(
        v,
        seq!['"'],
        literal_events(1),
        v1,
        body,
        continues(body.len()),
        v1,
        seq!['"'] + body,
        literal_events(body.len() + 1),
    );
    lemma_scans_push(
        v,
        seq!['"'] + body,
        literal_events(body.len() + 1),
        v1,
        '"',
        string_text(pieces),
        literal_events(string_text(pieces).len()),
    );
}

/// Each keyword is read as one literal and leaves the scanner after a
/// value.
pub proof fn lemma_keyword(v: ScannerView, literal: Literal)
    requires
        before_value(v),
        literal is True || literal is False || literal is Null,
    ensures
        scans(v, literal.text(), literal_events(literal.text().len()), v.goto(State::EndValue)),
{
    match literal {
        Literal::True => {
            lemma_scans_one(v, 't', literal_events(1));
            lemma_scans_push(
                v,
                seq!['t'],
                literal_events(1),
                v.goto(State::T),
                'r',
                seq!['t', 'r'],
                literal_events(2),
            );
            lemma_scans_push(
                v,
                seq!['t', 'r'],
                literal_events(2),
                v.goto(State::Tr),
                'u',
                seq!['t', 'r', 'u'],
                literal_events(3),
            );
            lemma_scans_push(
                v,
                seq!['t', 'r', 'u'],
                literal_events(3),
                v.goto(State::Tru),
                'e',
                literal.text(),
                literal_events(4),
            );
        },
        Literal::False => {
            lemma_scans_one(v, 'f', literal_events(1));
            lemma_scans_push(
                v,
                seq!['f'],
                literal_events(1),
                v.goto(State::F),
                'a',
                seq!['f', 'a'],
                literal_events(2),
            );
            lemma_scans_push(
                v,
                seq!['f', 'a'],
                literal_events(2),
                v.goto(State::Fa),
                'l',
                seq!['f', 'a', 'l'],
                literal_events(3),
            );
            lemma_scans_push(
                v,
                seq!['f', 'a', 'l'],
                literal_events(3),
                v.goto(State::Fal),
                's',
                seq!['f', 'a', 'l', 's'],
                literal_events(4),
            );
            lemma_scans_push(
                v,
                seq!['f', 'a', 'l', 's'],
                literal_events(4),
                v.goto(State::Fals),
                'e',
                literal.text(),
                literal_events(5),
            );
        },
        _ => {
            lemma_scans_one(v, 'n', literal_events(1));
            lemma_scans_push(
                v,
                seq!['n'],
                literal_events(1),
                v.goto(State::N),
                'u',
                seq!['n', 'u'],
                literal_events(2),
            );
            lemma_scans_push(
                v,
                seq!['n', 'u'],
                literal_events(2),
                v.goto(State::Nu),
                'l',
                seq!['n', 'u', 'l'],
                literal_events(3),
            );
            lemma_scans_push(
                v,
                seq!['n', 'u', 'l'],
                literal_events(3),
                v.goto(State::Nul),
                'l',
                literal.text(),
                literal_events(4),
            );
        },
    }
}

/// Whether every character of `text` is a decimal digit.
pub open spec fn all_digits(text: Seq<char>) -> bool {
    forall|i: int| 0 <= i < text.len() ==> is_digit(#[trigger] text[i])
}

/// A context of a number in which further digits change nothing.
pub open spec fn takes_digits(q: State) -> bool {
    q == State::One || q == State::Dot0 || q == State::E0
}

/// Where digits may go on, they are read with `Continue` and leave the
/// scanner where it was.
pub proof fn lemma_digits(v: ScannerView, digits: Seq<char>)
    requires
        takes_digits(v.state),
        all_digits(digits),
    ensures
        scans(v, digits, continues(digits.len()), v),
    decreases digits.len(),
{
    if digits.len() == 0 {
        lemma_scans_nothing(v);
        assert(continues(0) =~= Seq::<Opcode>::empty());
        assert(digits =~= Seq::<char>::empty());
    } else {
        let front = digits.drop_last();
        assert(all_digits(front)) by {
            assert forall|i: int| 0 <= i < front.len() implies is_digit(#[trigger] front[i]) by {
                assert(front[i] == digits[i]);
            }
        }
        lemma_digits(v, front);
        assert(is_digit(digits[digits.len() - 1]));
        lemma_scans_push(
            v,
            front,
            continues(front.len()),
            v,
            digits.last(),
            digits,
            continues(digits.len()),
        );
    }
}

/// The digits after the first of a run are digits too.
pub proof fn lemma_digits_rest(digits: Seq<char>)
    requires
        is_digits(digits),
    ensures
        all_digits(digits.drop_first()),
        is_digit(digits[0]),
        digits =~= seq![digits[0]] + digits.drop_first(),
{
    assert forall|i: int| 0 <= i < digits.drop_first().len() implies is_digit(
        #[trigger] digits.drop_first()[i],
    ) by {
        assert(digits.drop_first()[i] == digits[i + 1]);
    }
}

/// The context after the integer part of a number.
pub open spec fn integer_end(number: Number) -> State {
    if number.integer[0] == '0' {
        State::Zero
    } else {
        State::One
    }
}

/// The context after the whole number.
pub open spec fn number_end(number: Number) -> State {
    if number.exponent is Some {
        State::E0
    } else if number.fraction is Some {
        State::Dot0
    } else {
        integer_end(number)
    }
}

/// The sign and the integer part begin the literal.
pub proof fn lemma_integer(v: ScannerView, number: Number)
    requires
        before_value(v),
        number.wf(),
    ensures
        scans(
            v,
            number.integer_text(),
            literal_events(number.integer_text().len()),
            v.goto(integer_end(number)),
        ),
{
    let digits = number.integer;
    let first = digits[0];
    let rest = digits.drop_first();
    let v1 = v.goto(integer_end(number));
    lemma_digits_rest(digits);
    if first == '0' {
        assert(rest =~= Seq::<char>::empty());
        lemma_scans_nothing(v1);
        assert(continues(0) =~= Seq::<Opcode>::empty());
    } else {
        lemma_digits(v1, rest);
    }
    if number.negative {
        lemma_scans_one(v, '-', literal_events(1));
        lemma_scans_push(
            v,
            seq!['-'],
            literal_events(1),
            v.goto(State::Neg),
            first,
            seq!['-', first],
            literal_events(2),
        );
        lemma_scans_then(
            v,
            seq!['-', first],
            literal_events(2),
            v1,
            rest,
            continues(rest.len()),
            v1,
            number.integer_text(),
            literal_events(number.integer_text().len()),
        );
    } else {
        lemma_scans_one(v, first, literal_events(1));
        lemma_scans_then(
            v,
            seq![first],
            literal_events(1),
            v1,
            rest,
            continues(rest.len()),
            v1,
            number.integer_text(),
            literal_events(number.integer_text().len()),
        );
    }
}

/// After the integer part, a decimal point and its digits go on with the
/// literal.
pub proof fn lemma_fraction(v: ScannerView, digits: Seq<char>)
    requires
        v.state == State::Zero || v.state == State::One,
        is_digits(digits),
    ensures
        scans(
            v,
            seq!['.'] + digits,
            continues((seq!['.'] + digits).len()),
            v.goto(State::Dot0),
        ),
{
    let v1 = v.goto(State::Dot0);
    lemma_digits_rest(digits);
    lemma_digits(v1, digits.drop_first());
    lemma_scans_one(v, '.', continues(1));
    lemma_scans_push(
        v,
        seq!['.'],
        continues(1),
        v.goto(State::Dot),
        digits[0],
        seq!['.', digits[0]],
        continues(2),
    );
    lemma_scans_then(
        v,
        seq!['.', digits[0]],
        continues(2),
        v1,
        digits.drop_first(),
        continues(digits.drop_first().len()),
        v1,
        seq!['.'] + digits,
        continues((seq!['.'] + digits).len()),
    );
}

/// After the integer part or the fraction, an exponent goes on with the
/// literal.
pub proof fn lemma_exponent(v: ScannerView, exponent: Exponent)
    requires
        v.state == State::Zero || v.state == State::One || v.state == State::Dot0,
        exponent.wf(),
    ensures
        scans(v, exponent.text(), continues(exponent.text().len()), v.goto(State::E0)),
{
    let v1 = v.goto(State::E0);
    let digits = exponent.digits;
    lemma_digits_rest(digits);
    lemma_digits(v1, digits.drop_first());
    lemma_scans_one(v, exponent.mark, continues(1));
    match exponent.sign {
        Some(sign) => {
            lemma_scans_push(
                v,
                seq![exponent.mark],
                continues(1),
                v.goto(State::E),
                sign,
                seq![exponent.mark, sign],
                continues(2),
            );
            lemma_scans_push(
                v,
                seq![exponent.mark, sign],
                continues(2),
                v.goto(State::ESign),
                digits[0],
                seq![exponent.mark, sign, digits[0]],
                continues(3),
            );
            lemma_scans_then(
                v,
                seq![exponent.mark, sign, digits[0]],
                continues(3),
                v1,
                digits.drop_first(),
                continues(digits.drop_first().len()),
                v1,
                exponent.text(),
                continues(exponent.text().len()),
            );
        },
        None => {
            lemma_scans_push(
                v,
                seq![exponent.mark],
                continues(1),
                v.goto(State::E),
                digits[0],
                seq![exponent.mark, digits[0]],
                continues(2),
            );
            lemma_scans_then(
                v,
                seq![exponent.mark, digits[0]],
                continues(2),
                v1,
                digits.drop_first(),
                continues(digits.drop_first().len()),
                v1,
                exponent.text(),
                continues(exponent.text().len()),
            );
        },
    }
}

/// A number is read as one literal. Its last character does not end it: the
/// scanner is left inside the number, in the context of its last part.
pub proof fn lemma_number(v: ScannerView, number: Number)
    requires
        before_value(v),
        number.wf(),
    ensures
        scans(v, number.text(), literal_events(number.text().len()), v.goto(number_end(number))),
        number.text().len() > 0,
{
    let v1 = v.goto(integer_end(number));
    lemma_integer(v, number);
    let head = number.integer_text();
    let v2 = if number.fraction is Some {
        v.goto(State::Dot0)
    } else {
        v1
    };
    let middle = head + number.fraction_text();
    match number.fraction {
        Some(digits) => {
            lemma_fraction(v1, digits);
            lemma_scans_then(
                v,
                head,
                literal_events(head.len()),
                v1,
                number.fraction_text(),
                continues(number.fraction_text().len()),
                v2,
                middle,
                literal_events(middle.len()),
            );
        },
        None => {
            assert(middle =~= head);
        },
    }
    match number.exponent {
        Some(exponent) => {
            lemma_exponent(v2, exponent);
            lemma_scans_then(
                v,
                middle,
                literal_events(middle.len()),
                v2,
                number.exponent_text(),
                continues(number.exponent_text().len()),
                v.goto(State::E0),
                number.text(),
                literal_events(number.text().len()),
            );
        },
        None => {
            assert(number.text() =~= middle);
        },
    }
}

/// The context after a literal: after a value, or for a number inside its
/// last part.
pub open spec fn literal_end(literal: Literal) -> State {
    match literal {
        Literal::Number(number) => number_end(number),
        _ => State::EndValue,
    }
}

/// Every literal is read as one literal: `BeginLiteral` for its first
/// character and `Continue` for each of the others.
pub proof fn lemma_literal(v: ScannerView, literal: Literal)
    requires
        before_value(v),
        literal.wf(),
    ensures
        scans(
            v,
            literal.text(),
            literal_events(literal.text().len()),
            v.goto(literal_end(literal)),
        ),
        literal.text().len() > 0,
{
    match literal {
        Literal::Text(pieces) => lemma_string(v, pieces),
        Literal::Number(number) => lemma_number(v, number),
        _ => lemma_keyword(v, literal),
    }
}

} // verus!
