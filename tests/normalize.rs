use kaku::commas::strip_jsonc_trailing_commas;
use kaku::comments::strip_jsonc_comments;
use kaku::json::{fallback_text, parse_json_or_jsonc};

#[test]
fn strips_comments_but_keeps_comment_like_strings() {
    let input = r#"{
  "url": "https://example.com/a//b",
  "pattern": "/* keep me */",
  // remove me
  "v": 1
}"#;
    let stripped = strip_jsonc_comments(input);
    assert!(stripped.contains("https://example.com/a//b"));
    assert!(stripped.contains("/* keep me */"));
    assert!(!stripped.contains("// remove me"));
}

#[test]
fn preserves_crlf_when_stripping_line_comments() {
    let input = "{\r\n  // c\r\n  \"a\": 1\r\n}\r\n";
    let stripped = strip_jsonc_comments(input);
    assert_eq!(stripped, "{\r\n  \r\n  \"a\": 1\r\n}\r\n");
}

#[test]
fn parses_jsonc_with_comments_and_trailing_commas() {
    let input = r#"{
  // comment
  "items": [
    1,
    2,
  ],
  "obj": {
    "a": 1,
  },
}"#;
    let parsed = parse_json_or_jsonc(input).expect("parse jsonc");
    assert_eq!(parsed["items"], serde_json::Value::from(vec![1, 2]));
    assert_eq!(parsed["obj"]["a"], serde_json::Value::from(1));
}

#[test]
fn handles_eof_line_comment() {
    let input = "{ \"a\": 1 } // eof";
    let parsed = parse_json_or_jsonc(input).expect("parse jsonc");
    assert_eq!(parsed["a"], serde_json::Value::from(1));
}

#[test]
fn plain_json_passes_normalizer_unchanged() {
    let input = "{\n  \"a\": [1, 2, {\"b\": \"x, ]\"}],\n  \"c\": null\n}\n";
    let once = strip_jsonc_trailing_commas(&strip_jsonc_comments(input));
    assert_eq!(once, input);
}

#[test]
fn comment_stripping_is_idempotent() {
    let input = "{ /* a */ \"k\": \"//v\", // tail\r\n \"x\": 1 /* open";
    let once = strip_jsonc_comments(input);
    assert_eq!(once, "{  \"k\": \"//v\", \r\n \"x\": 1 ");
    assert_eq!(strip_jsonc_comments(&once), once);
}

#[test]
fn quoted_comment_and_comma_patterns_are_kept() {
    assert_eq!(strip_jsonc_comments("\"a//b\""), "\"a//b\"");
    assert_eq!(strip_jsonc_comments("[\"/* x */\", \"\\\"//\"]"), "[\"/* x */\", \"\\\"//\"]");
    assert_eq!(strip_jsonc_trailing_commas("[\"a, ]\", \"b,}\"]"), "[\"a, ]\", \"b,}\"]");
}

#[test]
fn line_comment_at_end_leaves_nothing() {
    assert_eq!(strip_jsonc_comments("{ \"a\": 1 } // tail"), "{ \"a\": 1 } ");
    assert_eq!(strip_jsonc_comments("// only"), "");
}

#[test]
fn crlf_after_line_comment_is_kept() {
    assert_eq!(strip_jsonc_comments("// c\r\n"), "\r\n");
    assert_eq!(strip_jsonc_comments("// c\rx"), "\rx");
}

#[test]
fn unterminated_block_comment_runs_to_end() {
    assert_eq!(strip_jsonc_comments("[1] /* open"), "[1] ");
    assert_eq!(strip_jsonc_comments("[1 /*/ 2] */, 3]"), "[1 , 3]");
}

#[test]
fn trailing_commas_removed_before_closers() {
    assert_eq!(
        strip_jsonc_trailing_commas("{\"items\":[1,2,],\"obj\":{\"a\":1,},}"),
        "{\"items\":[1,2],\"obj\":{\"a\":1}}"
    );
    assert_eq!(strip_jsonc_trailing_commas("[1,\n\t ]"), "[1\n\t ]");
    assert_eq!(strip_jsonc_trailing_commas("[1, 2]"), "[1, 2]");
    assert_eq!(strip_jsonc_trailing_commas("[1,"), "[1,");
}

#[test]
fn doubled_trailing_comma_keeps_the_first() {
    assert_eq!(strip_jsonc_trailing_commas("[1,,]"), "[1,]");
    assert!(parse_json_or_jsonc("[1,,]").is_err());
}

#[test]
fn normalized_document_parses() {
    let parsed = parse_json_or_jsonc("{\"items\":[1,2,],\"obj\":{\"a\":1,},}").expect("parse");
    assert_eq!(parsed["items"], serde_json::Value::from(vec![1, 2]));
    assert_eq!(parsed["obj"]["a"], serde_json::Value::from(1));
}

#[test]
fn strict_text_is_not_normalized() {
    assert_eq!(fallback_text("{\"a\": \"/* x\"}", true), None);
    assert_eq!(fallback_text("[1,] // c", false), Some("[1] ".to_string()));
    let parsed = parse_json_or_jsonc("{\"a\": \"/* x\"}").expect("parse");
    assert_eq!(parsed["a"], serde_json::Value::from("/* x"));
}

#[test]
fn malformed_text_is_an_error() {
    assert!(parse_json_or_jsonc("{\"a\": }").is_err());
    assert!(parse_json_or_jsonc("").is_err());
}

#[test]
fn error_comes_from_normalized_text() {
    let input = "{\n  // note\n  \"a\": 1,,\n}";
    let normalized = strip_jsonc_trailing_commas(&strip_jsonc_comments(input));
    let first = serde_json::from_str::<serde_json::Value>(input).unwrap_err();
    let second = serde_json::from_str::<serde_json::Value>(&normalized).unwrap_err();
    let got = parse_json_or_jsonc(input).unwrap_err();
    assert_eq!(got.to_string(), second.to_string());
    assert_ne!(got.to_string(), first.to_string());
}

#[test]
fn strict_text_gives_its_own_value() {
    let input = "{\"a\":\"/* open\",\"b\":[\"x, ]\",\"//\"]}";
    let expected: serde_json::Value = serde_json::from_str(input).expect("strict");
    assert_eq!(parse_json_or_jsonc(input).expect("parse"), expected);
}

#[test]
fn every_line_break_survives_line_comments() {
    let input = "a // x\r\nb // y\rc // z\nd\n";
    let stripped = strip_jsonc_comments(input);
    assert_eq!(stripped, "a \r\nb \rc \nd\n");
    let breaks: String = stripped.chars().filter(|c| *c == '\r' || *c == '\n').collect();
    assert_eq!(breaks, "\r\n\r\n\n");
}
