use json_scanner::{Opcode, Scanner, State};

fn fails(text: &str, message: &str) {
    let mut s = Scanner::new();
    let count = text.chars().count();
    for (i, c) in text.chars().enumerate() {
        let op = s.step(c);
        if i + 1 < count {
            assert_ne!(op, Opcode::Error, "early error in {:?}", text);
            assert_eq!(s.error, None);
        } else {
            assert_eq!(op, Opcode::Error, "no error in {:?}", text);
        }
    }
    assert_eq!(s.error.as_deref(), Some(message));
    assert_eq!(s.state, State::Error);
    assert_eq!(s.step(' '), Opcode::Error);
    assert_eq!(s.eof(), Opcode::Error);
    assert_eq!(s.error.as_deref(), Some(message));
}

#[test]
fn error_before_a_value() {
    fails("x", "invalid character x looking for beginning of value");
    fails("[,", "invalid character , looking for beginning of value");
    fails("[1,]", "invalid character ] looking for beginning of value");
    fails("{\"a\":}", "invalid character } looking for beginning of value");
    fails("]", "invalid character ] looking for beginning of value");
    fails("[+", "invalid character + looking for beginning of value");
}

#[test]
fn error_before_a_key() {
    fails("{1", "invalid character 1 looking for beginning of object key string");
    fails("{\"a\":1,}", "invalid character } looking for beginning of object key string");
    fails("{,", "invalid character , looking for beginning of object key string");
}

#[test]
fn error_after_a_key() {
    fails("{\"a\" x", "invalid character x after object key");
    fails("{\"a\",", "invalid character , after object key");
    fails("{\"a\"}", "invalid character } after object key");
}

#[test]
fn error_after_a_member() {
    fails("{\"a\":1]", "invalid character ] after object key:value pair");
    fails("{\"a\":1 :", "invalid character : after object key:value pair");
    fails("{\"a\":\"b\" \"", "invalid character \" after object key:value pair");
}

#[test]
fn error_after_an_element() {
    fails("[1}", "invalid character } after array element");
    fails("[1 2", "invalid character 2 after array element");
    fails("[true:", "invalid character : after array element");
    fails("[01", "invalid character 1 after array element");
}

#[test]
fn error_in_a_string() {
    fails("\"a\n", "invalid character \n in string literal");
    fails("\"\u{1f}", "invalid character \u{1f} in string literal");
    fails("\"\u{0}", "invalid character \u{0} in string literal");
}

#[test]
fn error_in_an_escape() {
    fails("\"\\x", "invalid character x in string escape code");
    fails("\"\\U", "invalid character U in string escape code");
    fails("\"\\ ", "invalid character   in string escape code");
}

#[test]
fn error_in_a_hexadecimal_escape() {
    fails("\"\\ug", "invalid character g in \\u hexadecimal character escape");
    fails("\"\\u1G", "invalid character G in \\u hexadecimal character escape");
    fails("\"\\u12\"", "invalid character \" in \\u hexadecimal character escape");
    fails("\"\\u123-", "invalid character - in \\u hexadecimal character escape");
}

#[test]
fn error_in_a_number() {
    fails("-x", "invalid character x in numeric literal");
    fails("--", "invalid character - in numeric literal");
    fails("- ", "invalid character   in numeric literal");
    fails("1.x", "invalid character x after decimal point in numeric literal");
    fails("0.e", "invalid character e after decimal point in numeric literal");
    fails("1ex", "invalid character x in exponent of numeric literal");
    fails("1e+x", "invalid character x in exponent of numeric literal");
    fails("1E-+", "invalid character + in exponent of numeric literal");
    fails("1.5e ", "invalid character   in exponent of numeric literal");
}

#[test]
fn error_in_true() {
    fails("tx", "invalid character x in literal true (expecting 'r')");
    fails("trx", "invalid character x in literal true (expecting 'u')");
    fails("trux", "invalid character x in literal true (expecting 'e')");
}

#[test]
fn error_in_false() {
    fails("fx", "invalid character x in literal false (expecting 'a')");
    fails("fax", "invalid character x in literal false (expecting 'l')");
    fails("falx", "invalid character x in literal false (expecting 's')");
    fails("falsx", "invalid character x in literal false (expecting 'e')");
}

#[test]
fn error_in_null() {
    fails("nx", "invalid character x in literal null (expecting 'u')");
    fails("nux", "invalid character x in literal null (expecting 'l')");
    fails("nulx", "invalid character x in literal null (expecting 'l')");
}

#[test]
fn error_after_the_top_level_value() {
    for text in ["{}", "[]", "\"a\"", "null", "1", "1.5", "2e3"] {
        let mut s = Scanner::new();
        for c in text.chars() {
            assert_ne!(s.step(c), Opcode::Error);
        }
        assert_eq!(s.step('}'), Opcode::End);
        assert_eq!(s.error.as_deref(), Some("invalid character } after top-level value"));
        assert_eq!(s.state, State::Error);
        assert!(s.end_top);
        assert_eq!(s.step(' '), Opcode::Error);
        assert_eq!(s.eof(), Opcode::Error);
    }
}

#[test]
fn error_message_holds_the_character_and_the_context() {
    let mut s = Scanner::new();
    assert_eq!(s.error('q', "somewhere"), Opcode::Error);
    assert_eq!(s.error.as_deref(), Some("invalid character q somewhere"));
    assert_eq!(s.state, State::Error);
    assert_eq!(s.error('é', ""), Opcode::Error);
    assert_eq!(s.error.as_deref(), Some("invalid character é "));
}
