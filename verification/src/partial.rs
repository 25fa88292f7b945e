//! Documents that are not yet complete: what has been read of a document at
//! some point of its text, as the open containers and the place inside the
//! innermost one.
use vstd::prelude::*;
use crate::grammar::{
    element_wf, elements_text, is_digits, member_wf, members_text, pieces_text, pieces_wf,
    string_text, value_text, value_wf, Element, Literal, Member, Number, Piece, Value,
};
use crate::model::{is_hex, ScannerView};
use crate::opcode::{ParseState, State};
use crate::whitespace::is_blank;

verus! {

/// A literal of which some characters have been read.
pub enum Reading {
    /// A string: the pieces that are complete, and the characters of an
    /// escape that is not.
    Text(Seq<Piece>, Seq<char>),
    /// A number: its parts so far, of which the last may still lack its
    /// digits.
    Number(Number),
    /// A keyword: its characters so far.
    Word(Seq<char>),
}

/// Whether the integer part of the number is complete.
pub open spec fn integer_done(number: Number) -> bool {
    is_digits(number.integer) && (number.integer[0] == '0' ==> number.integer.len() == 1)
}

/// Whether the fraction of the number, if it has one, is complete.
pub open spec fn fraction_done(number: Number) -> bool {
    match number.fraction {
        Some(digits) => is_digits(digits),
        None => true,
    }
}

/// Whether the number is in its exponent, with the sign as `signed` says and
/// no digit yet.
pub open spec fn exponent_begun(number: Number, signed: bool) -> bool {
    &&& integer_done(number)
    &&& fraction_done(number)
    &&& match number.exponent {
        Some(exponent) => {
            &&& exponent.mark == 'e' || exponent.mark == 'E'
            &&& exponent.digits.len() == 0
            &&& match exponent.sign {
                Some(sign) => signed && (sign == '+' || sign == '-'),
                None => !signed,
            }
        },
        None => false,
    }
}

/// Whether `escape` is a backslash, `u` and `n` hexadecimal digits.
pub open spec fn unicode_begun(escape: Seq<char>, n: int) -> bool {
    &&& escape.len() == 2 + n
    &&& escape[0] == '\\'
    &&& escape[1] == 'u'
    &&& forall|i: int| 2 <= i < escape.len() ==> is_hex(#[trigger] escape[i])
}

impl Reading {
    /// The characters read.
    pub open spec fn text(self) -> Seq<char> {
        match self {
            Reading::Text(pieces, escape) => seq!['"'] + pieces_text(pieces) + escape,
            Reading::Number(number) => number.text(),
            Reading::Word(text) => text,
        }
    }

    /// Whether the scanner is in the context `q` after these characters.
    pub open spec fn fits(self, q: State) -> bool {
        match self {
            Reading::Text(pieces, escape) => pieces_wf(pieces) && match q {
                State::InString => escape.len() == 0,
                State::InStringEsc => escape =~= seq!['\\'],
                State::InStringEscU => unicode_begun(escape, 0),
                State::InStringEscU1 => unicode_begun(escape, 1),
                State::InStringEscU12 => unicode_begun(escape, 2),
                State::InStringEscU123 => unicode_begun(escape, 3),
                _ => false,
            },
            Reading::Number(number) => match q {
                State::Neg => number.negative && number.integer.len() == 0 && number.fraction
                    is None && number.exponent is None,
                State::Zero => number.integer =~= seq!['0'] && number.fraction is None
                    && number.exponent is None,
                State::One => integer_done(number) && number.integer[0] != '0'
                    && number.fraction is None && number.exponent is None,
                State::Dot => integer_done(number) && number.fraction == Some(
                    Seq::<char>::empty(),
                ) && number.exponent is None,
                State::Dot0 => number.wf() && number.fraction is Some && number.exponent is None,
                State::E => exponent_begun(number, false),
                State::ESign => exponent_begun(number, true),
                State::E0 => number.wf() && number.exponent is Some,
                _ => false,
            },
            Reading::Word(text) => match q {
                State::T => text =~= seq!['t'],
                State::Tr => text =~= seq!['t', 'r'],
                State::Tru => text =~= seq!['t', 'r', 'u'],
                State::F => text =~= seq!['f'],
                State::Fa => text =~= seq!['f', 'a'],
                State::Fal => text =~= seq!['f', 'a', 'l'],
                State::Fals => text =~= seq!['f', 'a', 'l', 's'],
                State::N => text =~= seq!['n'],
                State::Nu => text =~= seq!['n', 'u'],
                State::Nul => text =~= seq!['n', 'u', 'l'],
                _ => false,
            },
        }
    }
}

/// A place in the text of a value or of an object key.
pub enum Position {
    /// In the whitespace before it.
    Before(Seq<char>),
    /// Inside it, a literal, after the whitespace before it.
    In(Seq<char>, Reading),
    /// After it, in the whitespace that follows; an object key stands here
    /// as a string value.
    After(Seq<char>, Value, Seq<char>),
}

impl Position {
    /// The characters read.
    pub open spec fn text(self) -> Seq<char> {
        match self {
            Position::Before(blank) => blank,
            Position::In(blank, reading) => blank + reading.text(),
            Position::After(before, value, after) => before + value_text(value) + after,
        }
    }

    /// Whether what is complete is written as JSON asks.
    pub open spec fn wf(self) -> bool {
        match self {
            Position::Before(blank) => is_blank(blank),
            Position::In(blank, reading) => is_blank(blank),
            Position::After(before, value, after) => is_blank(before) && value_wf(value)
                && is_blank(after),
        }
    }
}

/// What has been read of a container that is still open.
pub enum Open {
    /// An array: the elements that a comma follows.
    Array(Seq<Element>),
    /// An object in which a key is due: the members that a comma follows.
    Key(Seq<Member>),
    /// An object in which the value of a member is due: the members that a
    /// comma follows, then of the member at hand the whitespace before the
    /// key, the key and the whitespace between the key and the colon.
    Member(Seq<Member>, Seq<char>, Seq<Piece>, Seq<char>),
}

/// A container that is still open, with the whitespace before it.
pub struct Frame {
    /// The whitespace before the opening bracket.
    pub before: Seq<char>,
    /// What has been read after the bracket, but for the value or key at
    /// hand.
    pub open: Open,
}

/// The characters of the elements, each with a comma after it.
pub open spec fn listed_elements(done: Seq<Element>) -> Seq<char> {
    if done.len() == 0 {
        Seq::empty()
    } else {
        elements_text(done) + seq![',']
    }
}

/// The characters of the members, each with a comma after it.
pub open spec fn listed_members(done: Seq<Member>) -> Seq<char> {
    if done.len() == 0 {
        Seq::empty()
    } else {
        members_text(done) + seq![',']
    }
}

/// Whether every element is written as JSON asks.
pub open spec fn elements_wf(items: Seq<Element>) -> bool {
    forall|i: int| 0 <= i < items.len() ==> element_wf(#[trigger] items[i])
}

/// Whether every member is written as JSON asks.
pub open spec fn members_wf(members: Seq<Member>) -> bool {
    forall|i: int| 0 <= i < members.len() ==> member_wf(#[trigger] members[i])
}

impl Frame {
    /// The stack entry of the container.
    pub open spec fn entry(self) -> ParseState {
        match self.open {
            Open::Array(done) => ParseState::ArrayValue,
            Open::Key(done) => ParseState::ObjectKey,
            Open::Member(done, before, key, between) => ParseState::ObjectValue,
        }
    }

    /// The characters read, from the whitespace before the bracket on.
    pub open spec fn text(self) -> Seq<char> {
        self.before + match self.open {
            Open::Array(done) => seq!['['] + listed_elements(done),
            Open::Key(done) => seq!['{'] + listed_members(done),
            Open::Member(done, before, key, between) => seq!['{'] + listed_members(done) + before
                + string_text(key) + between + seq![':'],
        }
    }

    /// Whether what is complete is written as JSON asks.
    pub open spec fn wf(self) -> bool {
        is_blank(self.before) && match self.open {
            Open::Array(done) => elements_wf(done),
            Open::Key(done) => members_wf(done),
            Open::Member(done, before, key, between) => members_wf(done) && is_blank(before)
                && pieces_wf(key) && is_blank(between),
        }
    }
}

/// The stack entries of the open containers, outermost first.
pub open spec fn entries(frames: Seq<Frame>) -> Seq<ParseState> {
    Seq::new(frames.len(), |i: int| frames[i].entry())
}

/// The characters of the open containers, outermost first.
pub open spec fn frames_text(frames: Seq<Frame>) -> Seq<char>
    decreases frames.len(),
{
    if frames.len() == 0 {
        Seq::empty()
    } else {
        frames_text(frames.drop_last()) + frames.last().text()
    }
}

/// What has been read of a document: the containers that are open,
/// outermost first, and the place in the innermost, or in the document where
/// none is open.
pub struct Partial {
    /// The open containers.
    pub frames: Seq<Frame>,
    /// The place of the next character.
    pub position: Position,
}

impl Partial {
    /// A document of which nothing has been read.
    pub open spec fn start() -> Partial {
        Partial { frames: Seq::empty(), position: Position::Before(Seq::empty()) }
    }

    /// The characters read.
    pub open spec fn text(self) -> Seq<char> {
        frames_text(self.frames) + self.position.text()
    }

    /// Whether what is complete is written as JSON asks, and a key is due
    /// in no container but the innermost.
    pub open spec fn wf(self) -> bool {
        &&& self.position.wf()
        &&& forall|i: int| 0 <= i < self.frames.len() ==> (#[trigger] self.frames[i]).wf()
        &&& forall|i: int|
            0 <= i < self.frames.len() - 1 ==> !((#[trigger] self.frames[i]).open is Key)
    }

    /// The context in which the scanner is before a value or a key.
    pub open spec fn state_before(self) -> State {
        if self.frames.len() == 0 {
            State::BeginValue
        } else {
            match self.frames.last().open {
                Open::Array(done) => if done.len() == 0 {
                    State::BeginValueOrEmpty
                } else {
                    State::BeginValue
                },
                Open::Key(done) => if done.len() == 0 {
                    State::BeginStringOrEmpty
                } else {
                    State::BeginString
                },
                Open::Member(done, before, key, between) => State::BeginValue,
            }
        }
    }

    /// Whether an object key is due or at hand.
    pub open spec fn at_key(self) -> bool {
        self.frames.len() > 0 && self.frames.last().open is Key
    }

    /// Whether the scanner `v` is where this much of a document leaves it.
    pub open spec fn agrees(self, v: ScannerView) -> bool {
        &&& v.error is None
        &&& v.stack == entries(self.frames)
        &&& v.end_top == (v.state == State::EndTop)
        &&& match self.position {
            Position::Before(blank) => v.state == self.state_before(),
            Position::In(blank, reading) => reading.fits(v.state) && (self.at_key()
                ==> reading is Text),
            Position::After(before, value, after) => {
                &&& self.at_key() ==> value is Literal && value->Literal_0 is Text
                &&& if self.frames.len() == 0 {
                    v.state == State::EndTop || (v.state == State::EndValue && after.len() == 0)
                } else {
                    v.state == State::EndValue
                }
            },
        }
    }

    /// Whether this is what the scanner `v` has read when `text` is what it
    /// was given.
    pub open spec fn tracks(self, v: ScannerView, text: Seq<char>) -> bool {
        self.wf() && self.agrees(v) && self.text() == text
    }
}

} // verus!
