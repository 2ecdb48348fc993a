use vstd::prelude::*;

use crate::commas::{
    lemma_separator_free_unchanged, separator_free, separators_stripped,
    strip_jsonc_trailing_commas,
};
use crate::comments::{
    comment_free, comments_stripped, lemma_comment_free_unchanged, strip_jsonc_comments,
    CommentScan,
};

verus! {

#[verifier::external_type_specification]
#[verifier::external_body]
pub struct ExValue(serde_json::Value);

#[verifier::external_type_specification]
#[verifier::external_body]
pub struct ExError(serde_json::Error);

/// What serde_json's strict parser makes of `s`: the value of the one JSON
/// document it holds, or the error (category and position) that stops it.
pub uninterp spec fn json_parse(s: Seq<char>) -> Result<serde_json::Value, serde_json::Error>;

/// Whether serde_json's strict grammar accepts `s` as one JSON document.
pub open spec fn strict_json(s: Seq<char>) -> bool {
    json_parse(s) is Ok
}

/// Relies on `serde_json::from_str::<serde_json::Value>`: the value or the
/// error depends on the text alone.
#[verifier::external_body]
fn parse_strict(s: &str) -> (r: Result<serde_json::Value, serde_json::Error>)
    ensures
        r == json_parse(s@),
{
    serde_json::from_str(s)
}

/// The normalizer's output: comments removed first, then trailing separators.
pub open spec fn normalized(s: Seq<char>) -> Seq<char> {
    separators_stripped(comments_stripped(s))
}

/// The tolerant parse of `s`: its strict parse when that succeeds, else the
/// strict parse of its normalized form, error included.
pub open spec fn tolerant_parse(s: Seq<char>) -> Result<serde_json::Value, serde_json::Error> {
    if strict_json(s) {
        json_parse(s)
    } else {
        json_parse(normalized(s))
    }
}

/// Text with neither comments nor trailing separators passes the normalizer unchanged.
pub proof fn lemma_normalize_plain_unchanged(s: Seq<char>)
    requires
        comment_free(s, CommentScan::Code),
        separator_free(s, false),
    ensures
        normalized(s) == s,
{
    lemma_comment_free_unchanged(s, CommentScan::Code);
    lemma_separator_free_unchanged(s, false);
}

/// The text of the second parse attempt: none when the first, strict attempt
/// succeeded, so strict text is never normalized; else the normalized input.
pub fn fallback_text(input: &str, strict_ok: bool) -> (r: Option<String>)
    ensures
        strict_ok ==> r is None,
        !strict_ok ==> r is Some && r->0@ == normalized(input@),
{
    if strict_ok {
        None
    } else {
        let stripped = strip_jsonc_comments(input);
        Some(strip_jsonc_trailing_commas(stripped.as_str()))
    }
}

/// Parses JSON, or JSON with comments and trailing separators: the text is
/// parsed strictly as it stands, and only when that fails, once more after
/// normalization; the error is the second attempt's.
pub fn parse_json_or_jsonc(input: &str) -> (r: Result<serde_json::Value, serde_json::Error>)
    ensures
        r == tolerant_parse(input@),
        strict_json(input@) ==> r == json_parse(input@),
        !strict_json(input@) ==> r == json_parse(normalized(input@)),
{
    let first = parse_strict(input);
    match fallback_text(input, first.is_ok()) {
        None => first,
        Some(text) => parse_strict(text.as_str()),
    }
}

} // verus!
