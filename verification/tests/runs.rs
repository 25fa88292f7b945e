use json_scanner::{Opcode, ParseState, Scanner, State};

fn scan(s: &mut Scanner, text: &str) -> Vec<Opcode> {
    text.chars().map(|c| s.step(c)).collect()
}

fn without_skips(ops: &[Opcode]) -> Vec<Opcode> {
    ops.iter().copied().filter(|op| *op != Opcode::SkipSpace).collect()
}

const DOCUMENTS: [&str; 8] = [
    "{}",
    "[]",
    "[[],[[]],{}]",
    "{\"a\":{\"b\":{\"c\":[1,2,{\"d\":null}]}}}",
    "[\"\\u00e9\\n\\\"\",-0.5e-3,true,false,null]",
    "\"text\"",
    "-12.50E+07",
    "[1,[2,[3,[4,[5]]]]]",
];

#[test]
fn opcodes_of_documents_are_balanced() {
    for text in DOCUMENTS {
        let mut s = Scanner::new();
        let mut open: Vec<Opcode> = Vec::new();
        for c in text.chars() {
            let op = s.step(c);
            assert_ne!(op, Opcode::End, "{:?}", text);
            assert_ne!(op, Opcode::Error, "{:?}", text);
            match op {
                Opcode::BeginObject | Opcode::BeginArray => open.push(op),
                Opcode::EndObject => assert_eq!(open.pop(), Some(Opcode::BeginObject)),
                Opcode::EndArray => assert_eq!(open.pop(), Some(Opcode::BeginArray)),
                _ => {}
            }
            assert_eq!(open.len(), s.parse_state.len());
        }
        assert!(open.is_empty());
        assert_eq!(s.eof(), Opcode::End);
    }
}

#[test]
fn end_follows_the_document() {
    for text in DOCUMENTS {
        for next in [' ', '\n', ',', ']', '}', 'x', '"'] {
            let mut s = Scanner::new();
            scan(&mut s, text);
            assert_eq!(s.step(next), Opcode::End, "{:?} then {:?}", text, next);
        }
    }
}

#[test]
fn stack_is_open_containers_on_any_input() {
    let mut s = Scanner::new();
    let mut open: Vec<ParseState> = Vec::new();
    for c in "[{\"a\":[[1,{\"b\":[]}],2]},[] }".chars() {
        match s.step(c) {
            Opcode::BeginObject => open.push(ParseState::ObjectKey),
            Opcode::BeginArray => open.push(ParseState::ArrayValue),
            Opcode::EndObject => assert_eq!(open.pop(), Some(ParseState::ObjectKey)),
            Opcode::EndArray => assert_eq!(open.pop(), Some(ParseState::ArrayValue)),
            _ => {}
        }
        let kinds: Vec<ParseState> = s
            .parse_state
            .iter()
            .map(|p| match p {
                ParseState::ArrayValue => ParseState::ArrayValue,
                _ => ParseState::ObjectKey,
            })
            .collect();
        assert_eq!(kinds, open);
    }
    assert_eq!(s.state, State::Error);
    assert_eq!(s.error.as_deref(), Some("invalid character } after array element"));
}

#[test]
fn whitespace_between_tokens_only_adds_skips() {
    let plain = "{\"a\":[1,true,\"x y\"],\"b\":{}}";
    let spaced = " {\t\"a\" :\n[ 1 ,\rtrue , \"x y\" ]\n, \"b\" : { } }";
    let mut s = Scanner::new();
    let mut t = Scanner::new();
    let a = scan(&mut s, plain);
    let b = scan(&mut t, spaced);
    assert_eq!(without_skips(&b), a);
    assert_eq!(
        b.len() - a.len(),
        spaced.chars().count() - plain.chars().count()
    );
    assert_eq!(s.eof(), Opcode::End);
    assert_eq!(t.eof(), Opcode::End);
}

#[test]
fn whitespace_after_a_number_in_a_container() {
    let mut s = Scanner::new();
    let mut t = Scanner::new();
    scan(&mut s, "[12");
    scan(&mut t, "[12");
    assert_eq!(t.step(' '), Opcode::SkipSpace);
    assert_eq!(t.step('\t'), Opcode::SkipSpace);
    assert_eq!(scan(&mut s, ",3]"), scan(&mut t, ",3]"));
    assert_eq!(s.state, t.state);
    assert_eq!(s.parse_state, t.parse_state);
    assert_eq!(s.eof(), t.eof());
}

#[test]
fn whitespace_inside_a_number_is_no_whitespace_between_tokens() {
    let mut s = Scanner::new();
    assert_eq!(
        scan(&mut s, "[1 2"),
        vec![Opcode::BeginArray, Opcode::BeginLiteral, Opcode::SkipSpace, Opcode::Error]
    );
}

#[test]
fn error_is_terminal() {
    let mut s = Scanner::new();
    scan(&mut s, "[1,");
    assert_eq!(s.step(']'), Opcode::Error);
    let message = s.error.clone();
    let stack = s.parse_state.clone();
    for c in "[]{}\"a\":1, \n\u{0}".chars() {
        assert_eq!(s.step(c), Opcode::Error);
        assert_eq!(s.state, State::Error);
        assert_eq!(s.error, message);
        assert_eq!(s.parse_state, stack);
    }
    assert_eq!(s.eof(), Opcode::Error);
    assert_eq!(s.eof(), Opcode::Error);
    assert_eq!(s.error, message);
}

#[test]
fn error_at_the_end_of_input_is_terminal() {
    let mut s = Scanner::new();
    scan(&mut s, "{\"a\"");
    assert_eq!(s.eof(), Opcode::Error);
    for c in ":1}".chars() {
        assert_eq!(s.step(c), Opcode::Error);
    }
    assert_eq!(s.eof(), Opcode::Error);
    assert_eq!(s.error.as_deref(), Some("unexpected end of input"));
}

#[test]
fn reset_scanner_scans_as_a_new_one() {
    let mut used = Scanner::new();
    scan(&mut used, "[{\"a\":tru?");
    used.bytes = 10;
    assert_eq!(used.state, State::Error);
    used.reset();
    assert_eq!(used.state, State::BeginValue);
    assert!(!used.end_top);
    assert!(used.parse_state.is_empty());
    assert_eq!(used.error, None);
    assert_eq!(used.bytes, 0);

    for text in DOCUMENTS {
        let mut fresh = Scanner::new();
        used.reset();
        assert_eq!(scan(&mut used, text), scan(&mut fresh, text));
        assert_eq!(used.eof(), fresh.eof());
        assert_eq!(used.state, fresh.state);
        assert_eq!(used.end_top, fresh.end_top);
    }

    let mut fresh = Scanner::new();
    used.reset();
    assert_eq!(scan(&mut used, "[1,}"), scan(&mut fresh, "[1,}"));
    assert_eq!(used.error, fresh.error);
}

#[test]
fn reset_after_a_complete_document() {
    let mut s = Scanner::new();
    scan(&mut s, "[1] ");
    assert!(s.end_top);
    s.reset();
    assert_eq!(scan(&mut s, "{}"), vec![Opcode::BeginObject, Opcode::EndObject]);
    assert_eq!(s.eof(), Opcode::End);
}

#[test]
fn bytes_have_no_part_in_scanning() {
    let mut s = Scanner::new();
    let mut t = Scanner::new();
    for c in "[1, 2]".chars() {
        t.bytes += 1;
        assert_eq!(s.step(c), t.step(c));
    }
    assert_eq!(s.bytes, 0);
    assert_eq!(t.bytes, 6);
    assert_eq!(s.eof(), t.eof());
    assert_eq!(t.bytes, 6);
}

#[test]
fn value_begins_before_anything_is_open_or_complete() {
    let mut s = Scanner::new();
    for c in " \t\r\n".chars() {
        assert_eq!(s.step(c), Opcode::SkipSpace);
        assert!(!s.end_top);
        assert!(s.parse_state.is_empty());
        assert_eq!(s.state, State::BeginValue);
    }
    assert_eq!(s.step('['), Opcode::BeginArray);
    assert_eq!(s.parse_state.len(), 1);
}
