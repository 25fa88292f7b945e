use json_scanner::transitions::{
    isSpace, state0, state1, stateBeginString, stateBeginStringOrEmpty, stateBeginValue,
    stateBeginValueOrEmpty, stateError, stateF, stateFa, stateFal, stateFals, stateN, stateNu,
    stateNul, stateT, stateTr, stateTru, state_dot, state_dot0, state_e, state_e0, state_end_top,
    state_end_value, state_esign, state_in_string, state_in_string_esc, state_in_string_esc_u,
    state_in_string_esc_u1, state_in_string_esc_u12, state_in_string_esc_u123, state_neg,
};
use json_scanner::{Opcode, ParseState, Scanner, State};

fn within(stack: Vec<ParseState>, state: State) -> Scanner {
    Scanner { state, end_top: false, parse_state: stack, error: None, bytes: 0 }
}

#[test]
fn space_characters() {
    assert!(isSpace(' '));
    assert!(isSpace('\t'));
    assert!(isSpace('\r'));
    assert!(isSpace('\n'));
    assert!(!isSpace('\u{b}'));
    assert!(!isSpace('\u{c}'));
    assert!(!isSpace('\u{a0}'));
    assert!(!isSpace('a'));
    assert!(!isSpace('\u{0}'));
}

#[test]
fn begin_value_starts_every_kind_of_value() {
    let starts = [
        ('{', Opcode::BeginObject, State::BeginStringOrEmpty),
        ('[', Opcode::BeginArray, State::BeginValueOrEmpty),
        ('"', Opcode::BeginLiteral, State::InString),
        ('-', Opcode::BeginLiteral, State::Neg),
        ('0', Opcode::BeginLiteral, State::Zero),
        ('1', Opcode::BeginLiteral, State::One),
        ('9', Opcode::BeginLiteral, State::One),
        ('t', Opcode::BeginLiteral, State::T),
        ('f', Opcode::BeginLiteral, State::F),
        ('n', Opcode::BeginLiteral, State::N),
    ];
    for (c, op, state) in starts {
        let mut s = Scanner::new();
        assert_eq!(stateBeginValue(&mut s, c), op);
        assert_eq!(s.state, state);
        assert_eq!(s.error, None);
    }
    let mut s = Scanner::new();
    stateBeginValue(&mut s, '{');
    assert_eq!(s.parse_state, vec![ParseState::ObjectKey]);
    let mut s = Scanner::new();
    stateBeginValue(&mut s, '[');
    assert_eq!(s.parse_state, vec![ParseState::ArrayValue]);
}

#[test]
fn begin_value_skips_space_and_stays() {
    let mut s = within(vec![ParseState::ArrayValue], State::BeginValue);
    for c in [' ', '\t', '\r', '\n'] {
        assert_eq!(stateBeginValue(&mut s, c), Opcode::SkipSpace);
        assert_eq!(s.state, State::BeginValue);
    }
    assert_eq!(s.parse_state, vec![ParseState::ArrayValue]);
}

#[test]
fn begin_value_or_empty_closes_the_empty_array() {
    let mut s = within(vec![ParseState::ArrayValue], State::BeginValueOrEmpty);
    assert_eq!(stateBeginValueOrEmpty(&mut s, ' '), Opcode::SkipSpace);
    assert_eq!(s.state, State::BeginValueOrEmpty);
    assert_eq!(stateBeginValueOrEmpty(&mut s, ']'), Opcode::EndArray);
    assert_eq!(s.state, State::EndTop);
    assert!(s.end_top);
    assert!(s.parse_state.is_empty());

    let mut s = within(
        vec![ParseState::ObjectValue, ParseState::ArrayValue],
        State::BeginValueOrEmpty,
    );
    assert_eq!(stateBeginValueOrEmpty(&mut s, ']'), Opcode::EndArray);
    assert_eq!(s.state, State::EndValue);
    assert!(!s.end_top);
    assert_eq!(s.parse_state, vec![ParseState::ObjectValue]);

    let mut s = within(vec![ParseState::ArrayValue], State::BeginValueOrEmpty);
    assert_eq!(stateBeginValueOrEmpty(&mut s, '7'), Opcode::BeginLiteral);
    assert_eq!(s.state, State::One);
}

#[test]
fn begin_string_or_empty_closes_the_empty_object() {
    let mut s = within(vec![ParseState::ObjectKey], State::BeginStringOrEmpty);
    assert_eq!(stateBeginStringOrEmpty(&mut s, '\n'), Opcode::SkipSpace);
    assert_eq!(s.state, State::BeginStringOrEmpty);
    assert_eq!(s.parse_state, vec![ParseState::ObjectKey]);
    assert_eq!(stateBeginStringOrEmpty(&mut s, '}'), Opcode::EndObject);
    assert_eq!(s.state, State::EndTop);
    assert!(s.end_top);
    assert!(s.parse_state.is_empty());

    let mut s = within(
        vec![ParseState::ArrayValue, ParseState::ObjectKey],
        State::BeginStringOrEmpty,
    );
    assert_eq!(stateBeginStringOrEmpty(&mut s, '"'), Opcode::BeginLiteral);
    assert_eq!(s.state, State::InString);
    assert_eq!(s.parse_state, vec![ParseState::ArrayValue, ParseState::ObjectKey]);
}

#[test]
fn begin_string_takes_only_a_quote() {
    let mut s = within(vec![ParseState::ObjectKey], State::BeginString);
    assert_eq!(stateBeginString(&mut s, ' '), Opcode::SkipSpace);
    assert_eq!(s.state, State::BeginString);
    assert_eq!(stateBeginString(&mut s, '"'), Opcode::BeginLiteral);
    assert_eq!(s.state, State::InString);

    let mut s = within(vec![ParseState::ObjectKey], State::BeginString);
    assert_eq!(stateBeginString(&mut s, '}'), Opcode::Error);
    assert_eq!(
        s.error.as_deref(),
        Some("invalid character } looking for beginning of object key string")
    );
}

#[test]
fn end_value_at_the_top_level() {
    let mut s = within(vec![], State::EndValue);
    assert_eq!(state_end_value(&mut s, ' '), Opcode::End);
    assert_eq!(s.state, State::EndTop);
    assert!(s.end_top);
    assert_eq!(s.error, None);

    let mut s = within(vec![], State::EndValue);
    assert_eq!(state_end_value(&mut s, ','), Opcode::End);
    assert_eq!(s.state, State::Error);
    assert!(s.end_top);
    assert_eq!(s.error.as_deref(), Some("invalid character , after top-level value"));
}

#[test]
fn end_value_in_an_object() {
    let mut s = within(vec![ParseState::ObjectKey], State::EndValue);
    assert_eq!(state_end_value(&mut s, ' '), Opcode::SkipSpace);
    assert_eq!(s.state, State::EndValue);
    assert_eq!(state_end_value(&mut s, ':'), Opcode::ObjectKey);
    assert_eq!(s.state, State::BeginValue);
    assert_eq!(s.parse_state, vec![ParseState::ObjectValue]);

    s.state = State::EndValue;
    assert_eq!(state_end_value(&mut s, ','), Opcode::ObjectValue);
    assert_eq!(s.state, State::BeginString);
    assert_eq!(s.parse_state, vec![ParseState::ObjectKey]);

    let mut s = within(vec![ParseState::ObjectValue], State::EndValue);
    assert_eq!(state_end_value(&mut s, '}'), Opcode::EndObject);
    assert_eq!(s.state, State::EndTop);
    assert!(s.end_top);
}

#[test]
fn end_value_in_an_array() {
    let mut s = within(vec![ParseState::ArrayValue], State::EndValue);
    assert_eq!(state_end_value(&mut s, ','), Opcode::ArrayValue);
    assert_eq!(s.state, State::BeginValue);
    assert_eq!(s.parse_state, vec![ParseState::ArrayValue]);

    let mut s = within(vec![ParseState::ArrayValue, ParseState::ArrayValue], State::EndValue);
    assert_eq!(state_end_value(&mut s, ']'), Opcode::EndArray);
    assert_eq!(s.state, State::EndValue);
    assert_eq!(s.parse_state, vec![ParseState::ArrayValue]);
    assert!(!s.end_top);
}

#[test]
fn end_value_sets_the_state_from_a_number() {
    let mut s = within(vec![ParseState::ArrayValue], State::One);
    assert_eq!(state_end_value(&mut s, ' '), Opcode::SkipSpace);
    assert_eq!(s.state, State::EndValue);
}

#[test]
fn end_top_takes_only_space() {
    let mut s = Scanner {
        state: State::EndTop,
        end_top: true,
        parse_state: vec![],
        error: None,
        bytes: 0,
    };
    for c in [' ', '\t', '\r', '\n'] {
        assert_eq!(state_end_top(&mut s, c), Opcode::End);
        assert_eq!(s.state, State::EndTop);
        assert_eq!(s.error, None);
    }
    assert_eq!(state_end_top(&mut s, '1'), Opcode::End);
    assert_eq!(s.state, State::Error);
    assert_eq!(s.error.as_deref(), Some("invalid character 1 after top-level value"));
}

#[test]
fn string_contexts() {
    let mut s = within(vec![], State::InString);
    for c in ['a', ' ', '\u{7f}', '{', '\'', 'é', '\u{20}'] {
        assert_eq!(state_in_string(&mut s, c), Opcode::Continue);
        assert_eq!(s.state, State::InString);
    }
    assert_eq!(state_in_string(&mut s, '\\'), Opcode::Continue);
    assert_eq!(s.state, State::InStringEsc);
    s.state = State::InString;
    assert_eq!(state_in_string(&mut s, '"'), Opcode::Continue);
    assert_eq!(s.state, State::EndValue);

    for c in ['b', 'f', 'n', 'r', 't', '\\', '/', '"'] {
        let mut s = within(vec![], State::InStringEsc);
        assert_eq!(state_in_string_esc(&mut s, c), Opcode::Continue);
        assert_eq!(s.state, State::InString);
    }
    let mut s = within(vec![], State::InStringEsc);
    assert_eq!(state_in_string_esc(&mut s, 'u'), Opcode::Continue);
    assert_eq!(s.state, State::InStringEscU);
}

#[test]
fn hexadecimal_escape_takes_four_digits() {
    let mut s = within(vec![], State::InStringEscU);
    assert_eq!(state_in_string_esc_u(&mut s, '0'), Opcode::Continue);
    assert_eq!(s.state, State::InStringEscU1);
    assert_eq!(state_in_string_esc_u1(&mut s, '9'), Opcode::Continue);
    assert_eq!(s.state, State::InStringEscU12);
    assert_eq!(state_in_string_esc_u12(&mut s, 'a'), Opcode::Continue);
    assert_eq!(s.state, State::InStringEscU123);
    assert_eq!(state_in_string_esc_u123(&mut s, 'F'), Opcode::Continue);
    assert_eq!(s.state, State::InString);

    for c in ['f', 'A', '5'] {
        let mut s = within(vec![], State::InStringEscU);
        assert_eq!(state_in_string_esc_u(&mut s, c), Opcode::Continue);
    }
    for c in ['g', 'G', '/', ':', '@', '`', ' '] {
        let mut s = within(vec![], State::InStringEscU);
        assert_eq!(state_in_string_esc_u(&mut s, c), Opcode::Error);
        let mut s = within(vec![], State::InStringEscU1);
        assert_eq!(state_in_string_esc_u1(&mut s, c), Opcode::Error);
        let mut s = within(vec![], State::InStringEscU12);
        assert_eq!(state_in_string_esc_u12(&mut s, c), Opcode::Error);
        let mut s = within(vec![], State::InStringEscU123);
        assert_eq!(state_in_string_esc_u123(&mut s, c), Opcode::Error);
        assert_eq!(s.state, State::Error);
    }
}

#[test]
fn number_contexts() {
    let mut s = within(vec![], State::Neg);
    assert_eq!(state_neg(&mut s, '0'), Opcode::Continue);
    assert_eq!(s.state, State::Zero);
    let mut s = within(vec![], State::Neg);
    assert_eq!(state_neg(&mut s, '5'), Opcode::Continue);
    assert_eq!(s.state, State::One);

    assert_eq!(state1(&mut s, '0'), Opcode::Continue);
    assert_eq!(s.state, State::One);
    assert_eq!(state1(&mut s, '.'), Opcode::Continue);
    assert_eq!(s.state, State::Dot);
    assert_eq!(state_dot(&mut s, '2'), Opcode::Continue);
    assert_eq!(s.state, State::Dot0);
    assert_eq!(state_dot0(&mut s, '5'), Opcode::Continue);
    assert_eq!(s.state, State::Dot0);
    assert_eq!(state_dot0(&mut s, 'E'), Opcode::Continue);
    assert_eq!(s.state, State::E);
    assert_eq!(state_e(&mut s, '-'), Opcode::Continue);
    assert_eq!(s.state, State::ESign);
    assert_eq!(state_esign(&mut s, '1'), Opcode::Continue);
    assert_eq!(s.state, State::E0);
    assert_eq!(state_e0(&mut s, '0'), Opcode::Continue);
    assert_eq!(s.state, State::E0);
    assert_eq!(state_e0(&mut s, ' '), Opcode::End);
    assert_eq!(s.state, State::EndTop);
    assert!(s.end_top);

    let mut s = within(vec![], State::Zero);
    assert_eq!(state0(&mut s, 'e'), Opcode::Continue);
    assert_eq!(s.state, State::E);
    assert_eq!(state_e(&mut s, '7'), Opcode::Continue);
    assert_eq!(s.state, State::E0);

    let mut s = within(vec![ParseState::ArrayValue], State::Zero);
    assert_eq!(state0(&mut s, ','), Opcode::ArrayValue);
    assert_eq!(s.state, State::BeginValue);
    let mut s = within(vec![ParseState::ArrayValue], State::Zero);
    assert_eq!(state0(&mut s, '0'), Opcode::Error);
    assert_eq!(s.error.as_deref(), Some("invalid character 0 after array element"));
    let mut s = within(vec![ParseState::ObjectValue], State::Dot0);
    assert_eq!(state_dot0(&mut s, '}'), Opcode::EndObject);
    assert_eq!(s.state, State::EndTop);
    let mut s = within(vec![ParseState::ArrayValue], State::One);
    assert_eq!(state1(&mut s, ']'), Opcode::EndArray);
    assert!(s.end_top);
}

#[test]
fn keyword_contexts() {
    let mut s = within(vec![], State::T);
    assert_eq!(stateT(&mut s, 'r'), Opcode::Continue);
    assert_eq!(s.state, State::Tr);
    assert_eq!(stateTr(&mut s, 'u'), Opcode::Continue);
    assert_eq!(s.state, State::Tru);
    assert_eq!(stateTru(&mut s, 'e'), Opcode::Continue);
    assert_eq!(s.state, State::EndValue);

    let mut s = within(vec![], State::F);
    assert_eq!(stateF(&mut s, 'a'), Opcode::Continue);
    assert_eq!(s.state, State::Fa);
    assert_eq!(stateFa(&mut s, 'l'), Opcode::Continue);
    assert_eq!(s.state, State::Fal);
    assert_eq!(stateFal(&mut s, 's'), Opcode::Continue);
    assert_eq!(s.state, State::Fals);
    assert_eq!(stateFals(&mut s, 'e'), Opcode::Continue);
    assert_eq!(s.state, State::EndValue);

    let mut s = within(vec![], State::N);
    assert_eq!(stateN(&mut s, 'u'), Opcode::Continue);
    assert_eq!(s.state, State::Nu);
    assert_eq!(stateNu(&mut s, 'l'), Opcode::Continue);
    assert_eq!(s.state, State::Nul);
    assert_eq!(stateNul(&mut s, 'l'), Opcode::Continue);
    assert_eq!(s.state, State::EndValue);

    let mut s = within(vec![], State::T);
    assert_eq!(stateT(&mut s, 'R'), Opcode::Error);
    assert_eq!(s.error.as_deref(), Some("invalid character R in literal true (expecting 'r')"));
}

#[test]
fn error_state_changes_nothing() {
    let mut s = Scanner::new();
    s.error('x', "here");
    let stack = s.parse_state.clone();
    for c in ['a', ' ', '{', '"'] {
        assert_eq!(stateError(&mut s, c), Opcode::Error);
        assert_eq!(s.state, State::Error);
        assert_eq!(s.error.as_deref(), Some("invalid character x here"));
        assert_eq!(s.parse_state, stack);
    }
}

#[test]
fn context_without_a_move_leaves_the_state() {
    let mut s = Scanner::new();
    assert_eq!(state_dot0(&mut s, '1'), Opcode::Continue);
    assert_eq!(s.state, State::BeginValue);
    assert_eq!(state_e0(&mut s, '1'), Opcode::Continue);
    assert_eq!(s.state, State::BeginValue);
    assert_eq!(state_in_string(&mut s, 'a'), Opcode::Continue);
    assert_eq!(s.state, State::BeginValue);
}

#[test]
fn push_and_pop() {
    let mut s = Scanner::new();
    s.pushParseState(ParseState::ArrayValue);
    s.pushParseState(ParseState::ObjectKey);
    assert_eq!(s.parse_state, vec![ParseState::ArrayValue, ParseState::ObjectKey]);
    assert_eq!(s.state, State::BeginValue);
    s.popParseState();
    assert_eq!(s.parse_state, vec![ParseState::ArrayValue]);
    assert_eq!(s.state, State::EndValue);
    assert!(!s.end_top);
    s.popParseState();
    assert!(s.parse_state.is_empty());
    assert_eq!(s.state, State::EndTop);
    assert!(s.end_top);
}
