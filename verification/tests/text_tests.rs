use zeroclaw::json::parse_json;
use zeroclaw::text::{
    find_exec, is_whitespace_exec, occurs_at_exec, same_text, second_word_exec, skip_until_exec,
    split_exec, to_chars, trim_exec, truncate_with_ellipsis,
};
use zeroclaw::value::StructuredValue;

fn chars(s: &str) -> Vec<char> {
    s.chars().collect()
}

#[test]
fn white_space_is_what_the_standard_library_calls_so() {
    for code in 0..=0x10FFFFu32 {
        if let Some(c) = char::from_u32(code) {
            assert_eq!(is_whitespace_exec(c), c.is_whitespace(), "{:x}", code);
        }
    }
}

#[test]
fn find_gives_the_first_place() {
    let text = chars("abcabcabc");
    assert_eq!(find_exec(&text, &chars("bc"), 0), Some(1));
    assert_eq!(find_exec(&text, &chars("bc"), 1), Some(1));
    assert_eq!(find_exec(&text, &chars("bc"), 2), Some(4));
    assert_eq!(find_exec(&text, &chars("bc"), 8), None);
    assert_eq!(find_exec(&text, &chars("bd"), 0), None);
    assert_eq!(find_exec(&text, &chars(""), 3), Some(3));
    assert_eq!(find_exec(&text, &chars(""), 9), Some(9));
    assert_eq!(find_exec(&text, &chars(""), 10), None);
    assert_eq!(find_exec(&text, &chars("abcabcabc"), 0), Some(0));
    assert_eq!(find_exec(&text, &chars("abcabcabcd"), 0), None);
    assert_eq!(find_exec(&chars(""), &chars(""), 0), Some(0));
    assert_eq!(find_exec(&chars("h\u{e9}llo"), &chars("llo"), 0), Some(2));
    for (text, pattern) in [("hello world", "o w"), ("aaa", "aa"), ("```json", "```"), ("x", "xy")] {
        let expected = text.find(pattern).map(|at| text[..at].chars().count());
        assert_eq!(find_exec(&chars(text), &chars(pattern), 0), expected);
    }
}

#[test]
fn a_pattern_stands_where_its_letters_stand() {
    let text = chars("hello");
    assert!(occurs_at_exec(&text, &chars("ell"), 1));
    assert!(!occurs_at_exec(&text, &chars("ell"), 0));
    assert!(occurs_at_exec(&text, &chars("lo"), 3));
    assert!(!occurs_at_exec(&text, &chars("lo"), 4));
    assert!(occurs_at_exec(&text, &chars(""), 5));
    assert!(!occurs_at_exec(&text, &chars(""), 6));
    assert!(!occurs_at_exec(&text, &chars("hello!"), 0));
}

#[test]
fn trim_leaves_the_white_space_at_both_ends_out() {
    for sample in ["", " ", "a", "  a b  ", "\n\t x\r\n", "\u{a0}x\u{3000}", "x\u{200b}", " \u{85} "] {
        let text = chars(sample);
        let (start, end) = trim_exec(&text, 0, text.len());
        let trimmed: String = text[start..end].iter().collect();
        assert_eq!(trimmed, sample.trim());
    }
    let text = chars("ab  cd  ef");
    assert_eq!(trim_exec(&text, 2, 8), (4, 6));
    assert_eq!(trim_exec(&text, 2, 4), (4, 4));
    assert_eq!(trim_exec(&text, 3, 3), (3, 3));
}

#[test]
fn split_gives_one_piece_more_than_there_are_separators() {
    for sample in ["", "a", "a&b", "&", "a&", "&a", "a&&b", "&&", "code=1&state=2"] {
        let text = chars(sample);
        let pieces: Vec<String> = split_exec(&text, 0, text.len(), '&')
            .into_iter()
            .map(|(start, end)| text[start..end].iter().collect())
            .collect();
        let expected: Vec<String> = sample.split('&').map(|s| s.to_string()).collect();
        assert_eq!(pieces, expected);
    }
    let text = chars("x&a&b&y");
    assert_eq!(split_exec(&text, 2, 5, '&'), vec![(2, 3), (4, 5)]);
}

#[test]
fn the_second_word_is_found_between_white_space() {
    for sample in ["", " ", "GET", "GET /x", "  GET   /x  HTTP/1.1\r\n", "a\tb", "a b c d", "\u{a0}a\u{2003}b"] {
        let text = chars(sample);
        let word: Option<String> =
            second_word_exec(&text).map(|(start, end)| text[start..end].iter().collect());
        assert_eq!(word, sample.split_whitespace().nth(1).map(|s| s.to_string()));
    }
    let text = chars("ab  cd");
    assert_eq!(skip_until_exec(&text, 0, true), 2);
    assert_eq!(skip_until_exec(&text, 2, false), 4);
    assert_eq!(skip_until_exec(&text, 4, true), 6);
    assert_eq!(skip_until_exec(&text, 6, true), 6);
}

#[test]
fn strings_are_compared_by_their_characters() {
    assert!(same_text("tool_use", "tool_use"));
    assert!(!same_text("tool_use", "tool_use "));
    assert!(!same_text("Tool", "tool"));
    assert!(same_text("", ""));
    assert_eq!(to_chars("h\u{e9}\u{1f47e}"), vec!['h', '\u{e9}', '\u{1f47e}']);
    assert!(to_chars("").is_empty());
}

#[test]
fn json_is_read_into_structured_values() {
    assert_eq!(parse_json("null"), Some(StructuredValue::Null));
    assert_eq!(parse_json(" true "), Some(StructuredValue::Bool(true)));
    assert_eq!(parse_json("12"), Some(StructuredValue::Number("12".to_string())));
    assert_eq!(parse_json("-0.5e1"), Some(StructuredValue::Number("-5.0".to_string())));
    assert_eq!(parse_json("\"a\\nb\""), Some(StructuredValue::Text("a\nb".to_string())));
    assert_eq!(
        parse_json("[1, [], {}]"),
        Some(StructuredValue::Array(vec![
            StructuredValue::Number("1".to_string()),
            StructuredValue::Array(vec![]),
            StructuredValue::Object(vec![]),
        ]))
    );
    assert_eq!(
        parse_json("{\"b\": 1, \"a\": 2, \"b\": 3}"),
        Some(StructuredValue::Object(vec![
            ("a".to_string(), StructuredValue::Number("2".to_string())),
            ("b".to_string(), StructuredValue::Number("3".to_string())),
        ]))
    );
    assert_eq!(parse_json(""), None);
    assert_eq!(parse_json("{"), None);
    assert_eq!(parse_json("null null"), None);
    assert_eq!(parse_json("{'a': 1}"), None);
    assert_eq!(parse_json("\"null\""), Some(StructuredValue::Text("null".to_string())));
}

#[test]
fn values_are_copied_whole() {
    let value = parse_json("{\"a\": [1, {\"b\": null}], \"c\": \"d\"}").unwrap();
    let copy = value.clone();
    assert_eq!(copy, value);
    assert_eq!(value.get("c").and_then(|v| v.as_str()), Some("d"));
    assert_eq!(value.get("a").and_then(|v| v.as_str()), None);
    assert_eq!(StructuredValue::empty_object(), StructuredValue::Object(vec![]));
}

#[test]
fn a_long_text_is_cut_and_marked() {
    assert_eq!(truncate_with_ellipsis("hello world", 5), "hello...");
    assert_eq!(truncate_with_ellipsis("hello world", 6), "hello...");
    assert_eq!(truncate_with_ellipsis("hello world", 11), "hello world");
    assert_eq!(truncate_with_ellipsis("hello world", 100), "hello world");
    assert_eq!(truncate_with_ellipsis("hello world", 0), "...");
    assert_eq!(truncate_with_ellipsis("", 0), "");
    assert_eq!(truncate_with_ellipsis("   x", 3), "...");
    assert_eq!(truncate_with_ellipsis("h\u{e9}llo", 2), "h\u{e9}...");
    assert_eq!(truncate_with_ellipsis("ab  ", 3), "ab...");
    assert_eq!(truncate_with_ellipsis("ab  ", 4), "ab  ");
}
