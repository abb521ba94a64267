//! Texts, numbers in texts, and dictionary tokens.

use ferrum::dictionary::{tokenize, tokenize_with, Dialect, TokenCursor};
use ferrum::json::{string_text, write_json_string};
use ferrum::layout::TextList;
use ferrum::numerics::parse_numerics_dictionary_str;
use ferrum::sections::format_value;
use ferrum::rounding::rounded_text;
use ferrum::text::{
    before_last, contains, integer_text, joined, lines_of, lowercase, name_of, number_text,
    path_below, read_integer, read_usize, reads_float, split_at_first, starts_with, text_before,
    trimmed, unsigned_text, without_comment, words_of,
};

fn values(tokens: Vec<ferrum::dictionary::Token>) -> Vec<String> {
    tokens.into_iter().map(|token| token.value).collect()
}

#[test]
fn trims_and_splits() {
    assert_eq!(trimmed(" \t a b\u{a0}\n"), "a b");
    assert_eq!(words_of("  a  b\u{2003}c "), vec!["a", "b", "c"]);
    assert_eq!(lines_of("a\r\nb\n\nc"), vec!["a", "b", "", "c"]);
    assert_eq!(lines_of("a\n"), vec!["a"]);
    assert!(lines_of("").is_empty());
    assert_eq!(
        split_at_first("a=b=c", '='),
        Some(("a".to_string(), "b=c".to_string()))
    );
    assert_eq!(split_at_first("abc", '='), None);
    assert_eq!(before_last("a/b/c", '/'), Some("a/b".to_string()));
    assert_eq!(without_comment("a / b // c // d"), "a / b ");
    assert_eq!(joined(&words_of("a b c"), ", "), "a, b, c");
}

#[test]
fn compares_texts() {
    assert!(contains("abcabd", "abd") && !contains("abc", "abd") && contains("a", ""));
    assert!(starts_with("abc", "ab") && !starts_with("ab", "abc"));
    assert!(text_before("a", "b") && text_before("a", "aa") && text_before("", "a"));
    assert!(!text_before("b", "a") && !text_before("a", "a"));
    assert!(text_before("B", "a") && text_before("a", "\u{e4}"));
    assert_eq!(lowercase("Gauss LINEAR 2\u{c4}"), "gauss linear 2\u{c4}");
}

#[test]
fn reads_and_writes_numbers() {
    for n in [0usize, 7, 10, 1234567890, usize::MAX] {
        assert_eq!(read_usize(&number_text(n)), Some(n));
        assert_eq!(number_text(n), format!("{n}"));
    }
    assert_eq!(read_usize("+5"), Some(5));
    assert_eq!(read_usize("-5"), None);
    assert_eq!(read_usize(""), None);
    assert_eq!(read_usize("18446744073709551616"), None);
    assert_eq!(read_integer("-128", -128, 127), Some(-128));
    assert_eq!(read_integer("128", -128, 127), None);
    for n in [0i64, -1, i64::MIN, i64::MAX] {
        assert_eq!(integer_text(n), format!("{n}"));
    }
    assert_eq!(unsigned_text(u64::MAX), format!("{}", u64::MAX));
}

#[test]
fn knows_notations_of_numbers() {
    for text in ["0", "-1", "+1.5", ".5", "5.", "1e5", "-2.5E-3", "inf", "-Infinity", "nan"] {
        assert!(reads_float(text), "{text}");
        assert!(text.parse::<f64>().is_ok(), "{text}");
    }
    for text in ["", ".", "e5", "1e", "1e+", "1 ", "0x1", "--1", "1.2.3", "in", "1,5"] {
        assert!(!reads_float(text), "{text}");
        assert!(text.parse::<f64>().is_err(), "{text}");
    }
}

#[test]
fn joins_paths() {
    assert_eq!(path_below("a", "b"), "a/b");
    assert_eq!(path_below("a/", "b"), "a/b");
    assert_eq!(path_below("", "b"), "b");
    assert_eq!(name_of("a/b/"), Some("b".to_string()));
    assert_eq!(name_of("a/.."), None);
}

#[test]
fn takes_tokens_apart() {
    assert_eq!(
        values(tokenize("a {b (1 2);} // c\n[0 2] \"x y\";")),
        vec!["a", "{", "b", "(", "1", "2", ")", ";", "}", "[", "0", "2", "]", "x y", ";"]
    );
    assert_eq!(values(tokenize_with("[0 2];", Dialect::Round)), vec!["[0", "2]", ";"]);
    let tokens = tokenize("a\n\nb");
    assert_eq!((tokens[0].line, tokens[1].line), (1, 3));
}

#[test]
fn keywords_may_carry_arguments() {
    assert_eq!(
        values(tokenize_with("div(phi,U) Gauss linearUpwind grad(U);", Dialect::Keywords)),
        vec!["div(phi,U)", "Gauss", "linearUpwind", "grad", "(", "U", ")", ";"]
    );
    assert_eq!(
        values(tokenize_with("{ div((nuEff*dev2(T(grad(U))))) x; }", Dialect::Keywords)),
        vec!["{", "div((nuEff*dev2(T(grad(U)))))", "x", ";", "}"]
    );
    assert_eq!(
        values(tokenize_with("fields(p U);", Dialect::Keywords)),
        vec!["fields", "(", "p", "U", ")", ";"]
    );
    assert_eq!(
        values(tokenize_with("fields (p);", Dialect::Keywords)),
        vec!["fields", "(", "p", ")", ";"]
    );
    assert_eq!(values(tokenize("div(phi,U) a;")), vec!["div", "(", "phi,U", ")", "a", ";"]);
    let sections =
        parse_numerics_dictionary_str("divSchemes { div(phi,U) Gauss upwind; }", "f").expect("ok");
    assert_eq!(sections[0].entries[0].key, "div(phi,U)");
    assert_eq!(format_value(&sections[0].entries[0].value), "Gauss upwind");
    assert_eq!(format_value(&Vec::new()), "empty");
}

#[test]
fn walks_through_tokens() {
    let mut cursor = TokenCursor::new("d", tokenize("a b; { x { y } } end"));
    assert_eq!(cursor.path(), "d");
    assert_eq!(cursor.peek(), Some("a"));
    assert_eq!(cursor.peek_next(), Some("b"));
    assert_eq!(cursor.next_required().expect("token"), "a");
    assert_eq!(cursor.read_value_until_semicolon().expect("value"), vec!["b"]);
    cursor.skip_braced_block().expect("block");
    assert!(cursor.at("end"));
    assert!(cursor.expect("stop").is_err());
    assert_eq!(cursor.peek(), None);
    assert!(cursor.next_required().is_err());
}

#[test]
fn stands_at_a_definite_place_after_a_failure() {
    let mut cursor = TokenCursor::new("d", tokenize("a b"));
    assert_eq!(
        cursor.skip_braced_block().expect_err("brace").to_string(),
        "line 1: expected '{' but found 'a'"
    );
    assert_eq!(cursor.peek(), Some("b"));
    for text in ["{ x { y } z", "{", ""] {
        let mut cursor = TokenCursor::new("d", tokenize(text));
        assert_eq!(
            cursor.skip_braced_block().expect_err("end").to_string(),
            "unexpected EOF in d"
        );
        assert_eq!(cursor.peek(), None);
    }
    let mut cursor = TokenCursor::new("d", tokenize("{ x { y } z"));
    assert!(cursor.skip_value_or_block().is_err());
    assert_eq!(cursor.peek(), None);
    let mut cursor = TokenCursor::new("d", tokenize("{ x } ; z"));
    assert!(cursor.skip_value_or_block().is_ok());
    assert_eq!(cursor.peek(), Some(";"));
    let mut cursor = TokenCursor::new("d", tokenize("x (y ; z) ; w"));
    assert!(cursor.skip_value_or_block().is_ok());
    assert_eq!(cursor.peek(), Some("w"));
}

#[test]
fn writes_json_strings() {
    let mut out = "[".to_string();
    write_json_string(&mut out, "a\u{1}\u{7f}\r/");
    assert_eq!(out, "[\"a\\u0001\\u007f\\r/\"");
    assert_eq!(string_text(""), "\"\"");
}

#[test]
fn joins_lines() {
    let mut list = TextList::new();
    list.add("a");
    list.blank();
    list.push("b".to_string());
    assert_eq!(list.as_lines(), "a\n\nb\n");
    assert_eq!(list.joined("-"), "a--b");
}

#[test]
fn shows_counts_as_double_precision_numbers_do() {
    assert_eq!(rounded_text(0), "0");
    assert_eq!(rounded_text(12), "12");
    assert_eq!(rounded_text(9_007_199_254_740_991), "9007199254740991");
    assert_eq!(rounded_text(9_007_199_254_740_993), "9007199254740992");
    assert_eq!(rounded_text(9_007_199_254_740_995), "9007199254740996");
    assert_eq!(rounded_text(18_446_744_073_709_551_615), "18446744073709552000");
    let check = |n: u64| assert_eq!(rounded_text(n as usize), (n as f64).to_string(), "{n}");
    for bits in 0..64u32 {
        let power = 1u64 << bits;
        for offset in 0..3000u64 {
            check(power.wrapping_sub(offset));
            check(power.wrapping_add(offset));
        }
    }
    let mut tens = 1u64;
    for _ in 0..20 {
        for digit in 1..10u64 {
            for offset in 0..1500u64 {
                check(tens.wrapping_mul(digit).wrapping_sub(offset));
                check(tens.wrapping_mul(digit).wrapping_add(offset));
            }
        }
        tens = tens.wrapping_mul(10);
    }
    let mut state = 1u64;
    for _ in 0..400_000 {
        state = state.wrapping_mul(6_364_136_223_846_793_005).wrapping_add(1_442_695_040_888_963_407);
        let n = state ^ (state >> 29);
        check(n);
        check(n >> (n % 12));
    }
}
