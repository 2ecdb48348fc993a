use vstd::prelude::*;

use crate::chars::{chars_of, string_of, white_space};
use crate::json::{parse_json_or_jsonc, tolerant_parse};

verus! {

/// Options of the `init` command.
#[derive(Clone, Copy, Debug, Default)]
pub struct InitCommand {
    /// Refresh shell integration without interactive prompts.
    pub update_only: bool,
}

/// The characters that a shell reads specially inside double quotes.
pub open spec fn shell_special(c: char) -> bool {
    c == '\\' || c == '"' || c == '$' || c == '`'
}

/// `s` with a backslash before each character that is special inside double quotes.
pub open spec fn double_quote_escaped(s: Seq<char>) -> Seq<char>
    decreases s.len(),
{
    if s.len() == 0 {
        seq![]
    } else if shell_special(s[0]) {
        seq!['\\', s[0]] + double_quote_escaped(s.drop_first())
    } else {
        seq![s[0]] + double_quote_escaped(s.drop_first())
    }
}

/// Escapes `value` so that it reads literally between double quotes in a shell script.
pub fn escape_for_double_quotes(value: &str) -> (r: String)
    ensures
        r@ == double_quote_escaped(value@),
{
    let s = chars_of(value);
    let n = s.len();
    let mut out: Vec<char> = Vec::new();
    let mut i: usize = 0;
    assert(s@.subrange(0, n as int) =~= s@);
    while i < n
        invariant
            n == s@.len(),
            i <= n,
            out@ + double_quote_escaped(s@.subrange(i as int, n as int)) == double_quote_escaped(s@),
        decreases n - i,
    {
        assert(s@.subrange(i as int, n as int).drop_first() =~= s@.subrange(i + 1, n as int));
        let c = s[i];
        if c == '\\' || c == '"' || c == '$' || c == '`' {
            out.push('\\');
        }
        out.push(c);
        i += 1;
        assert(out@ + double_quote_escaped(s@.subrange(i as int, n as int)) =~= double_quote_escaped(s@));
    }
    assert(s@.subrange(n as int, n as int) =~= Seq::<char>::empty());
    assert(out@ =~= double_quote_escaped(s@));
    string_of(&out)
}

/// `s` without its leading whitespace.
pub open spec fn trimmed_start(s: Seq<char>) -> Seq<char>
    decreases s.len(),
{
    if s.len() > 0 && white_space(s[0]) {
        trimmed_start(s.drop_first())
    } else {
        s
    }
}

/// `s` without its trailing whitespace.
pub open spec fn trimmed_end(s: Seq<char>) -> Seq<char>
    decreases s.len(),
{
    if s.len() > 0 && white_space(s.last()) {
        trimmed_end(s.drop_last())
    } else {
        s
    }
}

/// `s` with leading and trailing whitespace removed.
pub open spec fn trimmed(s: Seq<char>) -> Seq<char> {
    trimmed_end(trimmed_start(s))
}

/// Relies on `str::trim`: documented to remove leading and trailing characters
/// with Unicode's White_Space property.
#[verifier::external_body]
fn trim_text(s: &str) -> (r: String)
    ensures
        r@ == trimmed(s@),
{
    s.trim().to_string()
}

/// The answers that decline a yes/no question.
pub open spec fn declining(a: Seq<char>) -> bool {
    a == "n"@ || a == "N"@ || a == "no"@ || a == "No"@ || a == "NO"@
}

/// Whether an answer, once trimmed, accepts: when empty, or when not a
/// declining word.
pub open spec fn accepts(a: Seq<char>) -> bool {
    a.len() == 0 || !declining(a)
}

/// Reads a line typed at a `[Y/n]` prompt: yes unless it is a declining word.
pub fn answer_is_yes(line: &str) -> (r: bool)
    ensures
        r == accepts(trimmed(line@)),
{
    let a = trim_text(line);
    if a.as_str().is_empty() {
        return true;
    }
    let declined = a == String::from_str("n") || a == String::from_str("N")
        || a == String::from_str("no") || a == String::from_str("No")
        || a == String::from_str("NO");
    !declined
}

/// Which OpenCode configuration file the init command rewrites.
#[derive(PartialEq, Eq, Structural, Clone, Copy, Debug)]
pub enum OpencodeConfig {
    /// `opencode.jsonc`, which is preferred when both exist.
    Jsonc,
    /// `opencode.json`.
    Json,
    /// Neither exists: a new `opencode.json` is written.
    Absent,
}

/// Picks the configuration file from which files exist.
pub fn choose_opencode_config(has_json: bool, has_jsonc: bool) -> (r: OpencodeConfig)
    ensures
        has_jsonc ==> r == OpencodeConfig::Jsonc,
        !has_jsonc && has_json ==> r == OpencodeConfig::Json,
        !has_jsonc && !has_json ==> r == OpencodeConfig::Absent,
{
    if has_jsonc {
        OpencodeConfig::Jsonc
    } else if has_json {
        OpencodeConfig::Json
    } else {
        OpencodeConfig::Absent
    }
}

/// `v` with its field `key` set to the string `value` when `v` is an object;
/// any other value as it is.
pub uninterp spec fn with_string_field(v: serde_json::Value, key: Seq<char>, value: Seq<char>) -> serde_json::Value;

/// Relies on `serde_json::Value::as_object_mut` and `serde_json::Map::insert`:
/// when `v` is an object, sets its field `key` to the string `value`; the
/// outcome depends on the value and the two texts alone.
#[verifier::external_body]
fn set_string_field(v: &mut serde_json::Value, key: &str, value: &str)
    ensures
        *final(v) == with_string_field(*old(v), key@, value@),
{
    if let Some(obj) = v.as_object_mut() {
        obj.insert(key.to_string(), serde_json::Value::String(value.to_string()));
    }
}

/// The indented JSON text that serde_json writes for `v`, if it writes one.
pub uninterp spec fn pretty_json(v: serde_json::Value) -> Option<Seq<char>>;

/// Relies on `serde_json::to_string_pretty`: the text, or the failure,
/// depends on the value alone.
#[verifier::external_body]
fn pretty_text(v: &serde_json::Value) -> (r: Result<String, serde_json::Error>)
    ensures
        r is Ok <==> pretty_json(*v) is Some,
        r is Ok ==> pretty_json(*v) == Some(r->Ok_0@),
{
    serde_json::to_string_pretty(v)
}

/// The rewritten configuration text for a parsed value `v`: `v` with field
/// `theme` set, pretty-printed, or `existing` when it cannot be printed.
pub open spec fn themed_text(v: serde_json::Value, theme: Seq<char>, existing: Seq<char>) -> Seq<char> {
    match pretty_json(with_string_field(v, "theme"@, theme)) {
        Some(t) => t,
        None => existing,
    }
}

/// Rewrites a JSON or JSON-with-comments configuration so that its field
/// `theme` names `theme`, and prints it indented; fails, with the tolerant
/// parse's error, exactly when the text does not parse. When the value cannot
/// be written back, the text is returned as it was.
pub fn themed_config(existing: &str, theme: &str) -> (r: Result<String, serde_json::Error>)
    ensures
        r is Ok <==> tolerant_parse(existing@) is Ok,
        r is Err ==> r->Err_0 == tolerant_parse(existing@)->Err_0,
        r is Ok ==> r->Ok_0@ == themed_text(tolerant_parse(existing@)->Ok_0, theme@, existing@),
{
    match parse_json_or_jsonc(existing) {
        Ok(value) => {
            let mut value = value;
            set_string_field(&mut value, "theme", theme);
            match pretty_text(&value) {
                Ok(text) => Ok(text),
                Err(_) => Ok(existing.to_string()),
            }
        },
        Err(e) => Err(e),
    }
}

} // verus!
