use json_scanner::{Opcode, ParseState, Scanner, State};

fn scan(s: &mut Scanner, text: &str) -> Vec<Opcode> {
    text.chars().map(|c| s.step(c)).collect()
}

#[test]
fn empty_object() {
    let mut s = Scanner::new();
    assert_eq!(s.step('{'), Opcode::BeginObject);
    assert_eq!(s.step('}'), Opcode::EndObject);
    assert_eq!(s.eof(), Opcode::End);
    assert_eq!(s.error, None);
}

#[test]
fn array_of_two_numbers() {
    let mut s = Scanner::new();
    assert_eq!(s.step('['), Opcode::BeginArray);
    assert_eq!(s.parse_state, vec![ParseState::ArrayValue]);
    assert_eq!(s.step('1'), Opcode::BeginLiteral);
    assert_eq!(s.step(','), Opcode::ArrayValue);
    assert_eq!(s.step('2'), Opcode::BeginLiteral);
    assert_eq!(s.step(']'), Opcode::EndArray);
    assert!(s.parse_state.is_empty());
    assert_eq!(s.eof(), Opcode::End);
}

#[test]
fn object_key_must_be_a_string() {
    let mut s = Scanner::new();
    assert_eq!(s.step('{'), Opcode::BeginObject);
    assert_eq!(s.step('1'), Opcode::Error);
    assert_eq!(
        s.error.as_deref(),
        Some("invalid character 1 looking for beginning of object key string")
    );
    assert_eq!(s.state, State::Error);
}

#[test]
fn unterminated_string() {
    let mut s = Scanner::new();
    assert_eq!(s.step('"'), Opcode::BeginLiteral);
    assert_eq!(s.step('a'), Opcode::Continue);
    assert_eq!(s.step('b'), Opcode::Continue);
    assert_eq!(s.eof(), Opcode::Error);
    assert_eq!(s.error.as_deref(), Some("unexpected end of input"));
}

#[test]
fn leading_zero_ends_the_value() {
    let mut s = Scanner::new();
    assert_eq!(s.step('0'), Opcode::BeginLiteral);
    assert_eq!(s.step('1'), Opcode::End);
    assert_eq!(s.error.as_deref(), Some("invalid character 1 after top-level value"));
    assert_eq!(s.step(' '), Opcode::Error);

    let mut t = Scanner::new();
    assert_eq!(scan(&mut t, "01"), vec![Opcode::BeginLiteral, Opcode::End]);
    assert_eq!(t.eof(), Opcode::Error);
    assert_eq!(t.error.as_deref(), Some("invalid character 1 after top-level value"));
}

#[test]
fn number_with_fraction_and_exponent() {
    let mut s = Scanner::new();
    assert_eq!(
        scan(&mut s, "3.14e+2"),
        vec![
            Opcode::BeginLiteral,
            Opcode::Continue,
            Opcode::Continue,
            Opcode::Continue,
            Opcode::Continue,
            Opcode::Continue,
            Opcode::Continue,
        ]
    );
    assert_eq!(s.state, State::E0);
    assert_eq!(s.eof(), Opcode::End);
}

#[test]
fn number_ends_at_the_end_of_input() {
    let mut s = Scanner::new();
    assert_eq!(
        scan(&mut s, "123"),
        vec![Opcode::BeginLiteral, Opcode::Continue, Opcode::Continue]
    );
    assert!(!s.end_top);
    assert_eq!(s.eof(), Opcode::End);
    assert!(s.end_top);
}

#[test]
fn further_digit_goes_on_with_the_number() {
    let mut s = Scanner::new();
    scan(&mut s, "123");
    assert_eq!(s.step('4'), Opcode::Continue);
    assert_eq!(s.state, State::One);
    assert!(!s.end_top);
    assert_eq!(s.eof(), Opcode::End);
}

#[test]
fn nested_document() {
    let mut s = Scanner::new();
    let ops = scan(&mut s, "{\"a\": [true, {\"b\": null}], \"c\": -1.5E3}");
    let expected = vec![
        Opcode::BeginObject,
        Opcode::BeginLiteral,
        Opcode::Continue,
        Opcode::Continue,
        Opcode::ObjectKey,
        Opcode::SkipSpace,
        Opcode::BeginArray,
        Opcode::BeginLiteral,
        Opcode::Continue,
        Opcode::Continue,
        Opcode::Continue,
        Opcode::ArrayValue,
        Opcode::SkipSpace,
        Opcode::BeginObject,
        Opcode::BeginLiteral,
        Opcode::Continue,
        Opcode::Continue,
        Opcode::ObjectKey,
        Opcode::SkipSpace,
        Opcode::BeginLiteral,
        Opcode::Continue,
        Opcode::Continue,
        Opcode::Continue,
        Opcode::EndObject,
        Opcode::EndArray,
        Opcode::ObjectValue,
        Opcode::SkipSpace,
        Opcode::BeginLiteral,
        Opcode::Continue,
        Opcode::Continue,
        Opcode::ObjectKey,
        Opcode::SkipSpace,
        Opcode::BeginLiteral,
        Opcode::Continue,
        Opcode::Continue,
        Opcode::Continue,
        Opcode::Continue,
        Opcode::Continue,
        Opcode::EndObject,
    ];
    assert_eq!(ops, expected);
    assert_eq!(s.state, State::EndTop);
    assert!(s.end_top);
    assert_eq!(s.eof(), Opcode::End);
    assert_eq!(s.error, None);
}

#[test]
fn stack_follows_the_containers() {
    let mut s = Scanner::new();
    scan(&mut s, "[{\"k\"");
    assert_eq!(s.parse_state, vec![ParseState::ArrayValue, ParseState::ObjectKey]);
    assert_eq!(s.step(':'), Opcode::ObjectKey);
    assert_eq!(s.parse_state, vec![ParseState::ArrayValue, ParseState::ObjectValue]);
    scan(&mut s, "[");
    assert_eq!(
        s.parse_state,
        vec![ParseState::ArrayValue, ParseState::ObjectValue, ParseState::ArrayValue]
    );
    assert_eq!(s.step(']'), Opcode::EndArray);
    assert_eq!(s.state, State::EndValue);
    assert_eq!(s.step(','), Opcode::ObjectValue);
    assert_eq!(s.parse_state, vec![ParseState::ArrayValue, ParseState::ObjectKey]);
    assert_eq!(s.state, State::BeginString);
}

#[test]
fn empty_containers_with_whitespace() {
    let mut s = Scanner::new();
    assert_eq!(
        scan(&mut s, "[ \t]"),
        vec![Opcode::BeginArray, Opcode::SkipSpace, Opcode::SkipSpace, Opcode::EndArray]
    );
    assert_eq!(s.eof(), Opcode::End);

    let mut t = Scanner::new();
    assert_eq!(
        scan(&mut t, "{\r\n}"),
        vec![Opcode::BeginObject, Opcode::SkipSpace, Opcode::SkipSpace, Opcode::EndObject]
    );
    assert_eq!(t.eof(), Opcode::End);
}

#[test]
fn end_is_reported_for_trailing_whitespace() {
    let mut s = Scanner::new();
    assert_eq!(
        scan(&mut s, "true \n"),
        vec![
            Opcode::BeginLiteral,
            Opcode::Continue,
            Opcode::Continue,
            Opcode::Continue,
            Opcode::End,
            Opcode::End,
        ]
    );
    assert_eq!(s.eof(), Opcode::End);
    assert_eq!(s.eof(), Opcode::End);
    assert_eq!(s.error, None);
}

#[test]
fn trailing_garbage_shows_one_call_late() {
    let mut s = Scanner::new();
    scan(&mut s, "{}");
    assert_eq!(s.step('x'), Opcode::End);
    assert_eq!(s.error.as_deref(), Some("invalid character x after top-level value"));
    assert_eq!(s.step(' '), Opcode::Error);
    assert_eq!(s.eof(), Opcode::Error);
    assert_eq!(s.error.as_deref(), Some("invalid character x after top-level value"));
}

#[test]
fn input_without_a_value() {
    let mut s = Scanner::new();
    assert_eq!(s.eof(), Opcode::Error);
    assert_eq!(s.error.as_deref(), Some("unexpected end of input"));

    let mut t = Scanner::new();
    assert_eq!(scan(&mut t, " \n"), vec![Opcode::SkipSpace, Opcode::SkipSpace]);
    assert_eq!(t.eof(), Opcode::Error);
    assert_eq!(t.error.as_deref(), Some("unexpected end of input"));
}

#[test]
fn input_that_stops_inside_a_container() {
    let mut s = Scanner::new();
    scan(&mut s, "[1");
    assert_eq!(s.eof(), Opcode::Error);
    assert_eq!(s.error.as_deref(), Some("unexpected end of input"));
    assert_eq!(s.state, State::Error);
    assert_eq!(s.parse_state, vec![ParseState::ArrayValue]);
}

#[test]
fn input_that_stops_inside_a_keyword() {
    let mut s = Scanner::new();
    scan(&mut s, "tru");
    assert_eq!(s.eof(), Opcode::Error);
    assert_eq!(s.error.as_deref(), Some("unexpected end of input"));
    assert_eq!(s.step('e'), Opcode::Error);
}

#[test]
fn characters_above_ascii() {
    let mut s = Scanner::new();
    assert_eq!(
        scan(&mut s, "\"é\u{10FFFF}\""),
        vec![Opcode::BeginLiteral, Opcode::Continue, Opcode::Continue, Opcode::Continue]
    );
    assert_eq!(s.eof(), Opcode::End);

    let mut t = Scanner::new();
    assert_eq!(t.step('é'), Opcode::Error);
    assert_eq!(t.error.as_deref(), Some("invalid character é looking for beginning of value"));
}

#[test]
fn zero_forms() {
    for text in ["0", "-0", "0.0", "0e0", "-0.5E-10", "10", "1e+1"] {
        let mut s = Scanner::new();
        let ops = scan(&mut s, text);
        assert_eq!(ops[0], Opcode::BeginLiteral);
        assert!(ops[1..].iter().all(|op| *op == Opcode::Continue));
        assert_eq!(s.eof(), Opcode::End);
        assert_eq!(s.error, None);
    }
}

#[test]
fn zero_in_an_array_ends_at_the_comma() {
    let mut s = Scanner::new();
    assert_eq!(
        scan(&mut s, "[0,0]"),
        vec![
            Opcode::BeginArray,
            Opcode::BeginLiteral,
            Opcode::ArrayValue,
            Opcode::BeginLiteral,
            Opcode::EndArray,
        ]
    );
    assert_eq!(s.eof(), Opcode::End);
}
