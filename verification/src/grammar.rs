//! The grammar of JSON text, as syntax trees that keep every character:
//! each tree has one text, and the texts of the well-formed trees are the
//! JSON values.
use vstd::prelude::*;
use crate::model::{is_control, is_digit, is_hex, is_simple_escape};
use crate::opcode::Opcode;
use crate::whitespace::{is_blank, skips};

verus! {

/// One piece of what stands between the quotes of a string.
pub enum Piece {
    /// A character that stands for itself.
    Plain(char),
    /// A backslash and the character after it.
    Escape(char),
    /// `\u` and four hexadecimal digits.
    Unicode(char, char, char, char),
}

impl Piece {
    /// Whether the piece may stand in a string.
    pub open spec fn wf(self) -> bool {
        match self {
            Piece::Plain(c) => c != '"' && c != '\\' && !is_control(c),
            Piece::Escape(c) => is_simple_escape(c),
            Piece::Unicode(a, b, c, d) => is_hex(a) && is_hex(b) && is_hex(c) && is_hex(d),
        }
    }

    /// The characters of the piece.
    pub open spec fn text(self) -> Seq<char> {
        match self {
            Piece::Plain(c) => seq![c],
            Piece::Escape(c) => seq!['\\', c],
            Piece::Unicode(a, b, c, d) => seq!['\\', 'u', a, b, c, d],
        }
    }
}

/// Whether every piece may stand in a string.
pub open spec fn pieces_wf(pieces: Seq<Piece>) -> bool {
    forall|i: int| 0 <= i < pieces.len() ==> (#[trigger] pieces[i]).wf()
}

/// The characters of the pieces, in order.
pub open spec fn pieces_text(pieces: Seq<Piece>) -> Seq<char>
    decreases pieces.len(),
{
    if pieces.len() == 0 {
        Seq::empty()
    } else {
        pieces_text(pieces.drop_last()) + pieces.last().text()
    }
}

/// The characters of a string with its quotes.
pub open spec fn string_text(pieces: Seq<Piece>) -> Seq<char> {
    seq!['"'] + pieces_text(pieces) + seq!['"']
}

/// Whether `text` is one decimal digit or more.
pub open spec fn is_digits(text: Seq<char>) -> bool {
    text.len() > 0 && forall|i: int| 0 <= i < text.len() ==> is_digit(#[trigger] text[i])
}

/// The exponent part of a number.
pub struct Exponent {
    /// `e` or `E`.
    pub mark: char,
    /// `+` or `-`, if a sign is written.
    pub sign: Option<char>,
    /// The digits.
    pub digits: Seq<char>,
}

impl Exponent {
    /// Whether the part is written as JSON asks.
    pub open spec fn wf(self) -> bool {
        &&& self.mark == 'e' || self.mark == 'E'
        &&& match self.sign {
            Some(c) => c == '+' || c == '-',
            None => true,
        }
        &&& is_digits(self.digits)
    }

    /// The characters of the part.
    pub open spec fn text(self) -> Seq<char> {
        seq![self.mark] + match self.sign {
            Some(c) => seq![c],
            None => Seq::empty(),
        } + self.digits
    }
}

/// A number, part by part.
pub struct Number {
    /// Whether a `-` stands in front.
    pub negative: bool,
    /// The digits before the decimal point.
    pub integer: Seq<char>,
    /// The digits after the decimal point, if there is one.
    pub fraction: Option<Seq<char>>,
    /// The exponent, if there is one.
    pub exponent: Option<Exponent>,
}

impl Number {
    /// Whether the number is written as JSON asks: an integer part without
    /// a needless leading zero, and digits wherever digits are due.
    pub open spec fn wf(self) -> bool {
        &&& is_digits(self.integer)
        &&& self.integer[0] == '0' ==> self.integer.len() == 1
        &&& match self.fraction {
            Some(digits) => is_digits(digits),
            None => true,
        }
        &&& match self.exponent {
            Some(exponent) => exponent.wf(),
            None => true,
        }
    }

    /// The characters of the sign and the integer part.
    pub open spec fn integer_text(self) -> Seq<char> {
        if self.negative {
            seq!['-'] + self.integer
        } else {
            self.integer
        }
    }

    /// The characters of the fraction with its decimal point.
    pub open spec fn fraction_text(self) -> Seq<char> {
        match self.fraction {
            Some(digits) => seq!['.'] + digits,
            None => Seq::empty(),
        }
    }

    /// The characters of the exponent.
    pub open spec fn exponent_text(self) -> Seq<char> {
        match self.exponent {
            Some(exponent) => exponent.text(),
            None => Seq::empty(),
        }
    }

    /// The characters of the number.
    pub open spec fn text(self) -> Seq<char> {
        self.integer_text() + self.fraction_text() + self.exponent_text()
    }
}

/// A value that holds no other value.
pub enum Literal {
    /// A string, as the pieces between its quotes.
    Text(Seq<Piece>),
    /// A number.
    Number(Number),
    /// `true`.
    True,
    /// `false`.
    False,
    /// `null`.
    Null,
}

impl Literal {
    /// Whether the literal is written as JSON asks.
    pub open spec fn wf(self) -> bool {
        match self {
            Literal::Text(pieces) => pieces_wf(pieces),
            Literal::Number(number) => number.wf(),
            _ => true,
        }
    }

    /// The characters of the literal.
    pub open spec fn text(self) -> Seq<char> {
        match self {
            Literal::Text(pieces) => string_text(pieces),
            Literal::Number(number) => number.text(),
            Literal::True => seq!['t', 'r', 'u', 'e'],
            Literal::False => seq!['f', 'a', 'l', 's', 'e'],
            Literal::Null => seq!['n', 'u', 'l', 'l'],
        }
    }
}

/// A value in a container, with the whitespace around it.
pub struct Element {
    /// The whitespace before the value.
    pub before: Seq<char>,
    /// The value.
    pub value: Value,
    /// The whitespace after the value.
    pub after: Seq<char>,
}

/// A member of an object: the key, the colon and the value, with the
/// whitespace around the key.
pub struct Member {
    /// The whitespace before the key.
    pub before: Seq<char>,
    /// The key, as the pieces between its quotes.
    pub key: Seq<Piece>,
    /// The whitespace between the key and the colon.
    pub between: Seq<char>,
    /// The value after the colon, with the whitespace around it.
    pub element: Element,
}

/// A JSON value.
pub enum Value {
    /// A string, a number or a keyword.
    Literal(Literal),
    /// An array: the whitespace after `[`, then the elements, which commas
    /// part.
    Array(Seq<char>, Seq<Element>),
    /// An object: the whitespace after `{`, then the members, which commas
    /// part.
    Object(Seq<char>, Seq<Member>),
}

/// Whether the value is written as JSON asks, with nothing but whitespace
/// around its tokens.
pub open spec fn value_wf(value: Value) -> bool
    decreases value,
{
    match value {
        Value::Literal(literal) => literal.wf(),
        Value::Array(blank, items) => is_blank(blank) && forall|i: int|
            0 <= i < items.len() ==> element_wf(#[trigger] items[i]),
        Value::Object(blank, members) => is_blank(blank) && forall|i: int|
            0 <= i < members.len() ==> member_wf(#[trigger] members[i]),
    }
}

/// Whether the element is written as JSON asks.
pub open spec fn element_wf(element: Element) -> bool
    decreases element,
{
    is_blank(element.before) && value_wf(element.value) && is_blank(element.after)
}

/// Whether the member is written as JSON asks.
pub open spec fn member_wf(member: Member) -> bool
    decreases member,
{
    &&& is_blank(member.before)
    &&& pieces_wf(member.key)
    &&& is_blank(member.between)
    &&& element_wf(member.element)
}

/// The characters of the value.
pub open spec fn value_text(value: Value) -> Seq<char>
    decreases value,
{
    match value {
        Value::Literal(literal) => literal.text(),
        Value::Array(blank, items) => seq!['['] + blank + elements_text(items) + seq![']'],
        Value::Object(blank, members) => seq!['{'] + blank + members_text(members) + seq!['}'],
    }
}

/// The characters of the element.
pub open spec fn element_text(element: Element) -> Seq<char>
    decreases element,
{
    element.before + value_text(element.value) + element.after
}

/// The characters of the elements, with a comma between each two.
pub open spec fn elements_text(items: Seq<Element>) -> Seq<char>
    decreases items,
{
    if items.len() == 0 {
        Seq::empty()
    } else if items.len() == 1 {
        element_text(items[0])
    } else {
        elements_text(items.drop_last()) + seq![','] + element_text(items.last())
    }
}

/// The characters of the member.
pub open spec fn member_text(member: Member) -> Seq<char>
    decreases member,
{
    member.before + string_text(member.key) + member.between + seq![':'] + element_text(
        member.element,
    )
}

/// The characters of the members, with a comma between each two.
pub open spec fn members_text(members: Seq<Member>) -> Seq<char>
    decreases members,
{
    if members.len() == 0 {
        Seq::empty()
    } else if members.len() == 1 {
        member_text(members[0])
    } else {
        members_text(members.drop_last()) + seq![','] + member_text(members.last())
    }
}

/// The opcodes of a literal of `n` characters: its beginning, then one
/// `Continue` for each further character.
pub open spec fn literal_events(n: nat) -> Seq<Opcode> {
    Seq::new(n, |i: int| if i == 0 { Opcode::BeginLiteral } else { Opcode::Continue })
}

/// The opcodes that the characters of the value call for, one for each.
pub open spec fn value_events(value: Value) -> Seq<Opcode>
    decreases value,
{
    match value {
        Value::Literal(literal) => literal_events(literal.text().len()),
        Value::Array(blank, items) => seq![Opcode::BeginArray] + skips(blank.len())
            + elements_events(items) + seq![Opcode::EndArray],
        Value::Object(blank, members) => seq![Opcode::BeginObject] + skips(blank.len())
            + members_events(members) + seq![Opcode::EndObject],
    }
}

/// The opcodes that the characters of the element call for.
pub open spec fn element_events(element: Element) -> Seq<Opcode>
    decreases element,
{
    skips(element.before.len()) + value_events(element.value) + skips(element.after.len())
}

/// The opcodes that the characters of the elements and of the commas
/// between them call for.
pub open spec fn elements_events(items: Seq<Element>) -> Seq<Opcode>
    decreases items,
{
    if items.len() == 0 {
        Seq::empty()
    } else if items.len() == 1 {
        element_events(items[0])
    } else {
        elements_events(items.drop_last()) + seq![Opcode::ArrayValue] + element_events(
            items.last(),
        )
    }
}

/// The opcodes that the characters of the member call for.
pub open spec fn member_events(member: Member) -> Seq<Opcode>
    decreases member,
{
    skips(member.before.len()) + literal_events(string_text(member.key).len()) + skips(
        member.between.len(),
    ) + seq![Opcode::ObjectKey] + element_events(member.element)
}

/// The opcodes that the characters of the members and of the commas between
/// them call for.
pub open spec fn members_events(members: Seq<Member>) -> Seq<Opcode>
    decreases members,
{
    if members.len() == 0 {
        Seq::empty()
    } else if members.len() == 1 {
        member_events(members[0])
    } else {
        members_events(members.drop_last()) + seq![Opcode::ObjectValue] + member_events(
            members.last(),
        )
    }
}

/// A document: one value, with whitespace before it.
pub struct Document {
    /// The whitespace before the value.
    pub before: Seq<char>,
    /// The value.
    pub value: Value,
}

impl Document {
    /// Whether the document is written as JSON asks.
    pub open spec fn wf(self) -> bool {
        is_blank(self.before) && value_wf(self.value)
    }

    /// The characters of the document.
    pub open spec fn text(self) -> Seq<char> {
        self.before + value_text(self.value)
    }

    /// The opcodes that the characters of the document call for.
    pub open spec fn events(self) -> Seq<Opcode> {
        skips(self.before.len()) + value_events(self.value)
    }
}

} // verus!
