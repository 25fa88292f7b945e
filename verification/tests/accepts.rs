use json_scanner::{Opcode, Scanner};

fn accepts(text: &str) -> bool {
    let mut s = Scanner::new();
    for c in text.chars() {
        s.step(c);
    }
    s.eof() == Opcode::End
}

#[test]
fn json_texts_are_accepted() {
    let texts = [
        "null",
        "true",
        "false",
        "0",
        "-0",
        "10",
        "-12.5",
        "1e5",
        "1E+5",
        "0.0e-0",
        "123456789012345678901234567890",
        "\"\"",
        "\"a b\"",
        "\"\\\"\\\\\\/\\b\\f\\n\\r\\t\"",
        "\"\\u0041\\uabcd\\uABCD\\uffFF\"",
        "\"\u{7f}\u{80}\u{10ffff}\"",
        "[]",
        "{}",
        "[ ]",
        "{ }",
        "[null]",
        "[1,2,3]",
        "[ 1 , 2 , 3 ]",
        "[[[[]]]]",
        "{\"a\":1}",
        "{ \"a\" : 1 , \"b\" : [ ] }",
        "{\"\":{\"\":{}}}",
        "  \t\r\n[1]  \t\r\n",
        "1 ",
        " \"x\" ",
    ];
    for text in texts {
        assert!(accepts(text), "{:?}", text);
    }
}

#[test]
fn other_texts_are_rejected() {
    let texts = [
        "",
        " ",
        "nul",
        "nulll",
        "True",
        "tru e",
        "-",
        "+1",
        "01",
        "-01",
        "1.",
        ".5",
        "1.e5",
        "1e",
        "1e+",
        "1 2",
        "0x10",
        "\"",
        "\"a",
        "\"\\\"",
        "\"\\a\"",
        "\"\\u12\"",
        "\"\\u12g4\"",
        "\"a\nb\"",
        "\"a\tb\"",
        "'a'",
        "[",
        "]",
        "[1",
        "[1,",
        "[1,]",
        "[,1]",
        "[1 2]",
        "[1}",
        "[]]",
        "{",
        "}",
        "{\"a\"}",
        "{\"a\":}",
        "{\"a\":1,}",
        "{\"a\" 1}",
        "{a:1}",
        "{1:1}",
        "{\"a\":1]",
        "{\"a\":1}}",
        "{}{}",
        "[] []",
        "null null",
        "\u{feff}[]",
        "[\u{a0}]",
    ];
    for text in texts {
        assert!(!accepts(text), "{:?}", text);
    }
}

#[test]
fn accepted_text_reports_no_error_on_the_way() {
    let mut s = Scanner::new();
    for c in " {\"k\": [1.5e3, \"v\", null]} ".chars() {
        assert_ne!(s.step(c), Opcode::Error);
        assert_eq!(s.error, None);
    }
    assert_eq!(s.eof(), Opcode::End);
    assert_eq!(s.error, None);
}
