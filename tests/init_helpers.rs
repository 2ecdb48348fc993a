use kaku::init::{
    answer_is_yes, choose_opencode_config, escape_for_double_quotes, themed_config, OpencodeConfig,
};
use kaku::paths::{is_jsonc_extension, is_jsonc_path};
use kaku::writer::{after_phase, is_staging_phase, WriteNext, WritePhase};

#[test]
fn jsonc_paths_are_recognised() {
    assert!(is_jsonc_path("/home/u/.config/opencode/opencode.jsonc"));
    assert!(is_jsonc_path("config.JSONC"));
    assert!(!is_jsonc_path("config.json"));
    assert!(!is_jsonc_path("jsonc"));
    assert!(!is_jsonc_path(".jsonc"));
    assert!(is_jsonc_extension("JsOnC"));
    assert!(!is_jsonc_extension("jsonc5"));
    assert!(!is_jsonc_extension(""));
}

#[test]
fn escapes_shell_specials() {
    assert_eq!(escape_for_double_quotes("/usr/bin/kaku"), "/usr/bin/kaku");
    assert_eq!(escape_for_double_quotes("a\\b\"c$d`e"), "a\\\\b\\\"c\\$d\\`e");
    assert_eq!(escape_for_double_quotes(""), "");
}

#[test]
fn answers_default_to_yes() {
    assert!(answer_is_yes("\n"));
    assert!(answer_is_yes("y\n"));
    assert!(answer_is_yes("  yes "));
    assert!(!answer_is_yes("n\n"));
    assert!(!answer_is_yes(" NO\r\n"));
    assert!(!answer_is_yes("No"));
    assert!(answer_is_yes("nO"));
}

#[test]
fn jsonc_config_is_preferred() {
    assert_eq!(choose_opencode_config(true, true), OpencodeConfig::Jsonc);
    assert_eq!(choose_opencode_config(true, false), OpencodeConfig::Json);
    assert_eq!(choose_opencode_config(false, false), OpencodeConfig::Absent);
}

#[test]
fn write_phases_run_in_order() {
    let mut phase = WritePhase::ResolveParent;
    let mut seen = vec![phase];
    loop {
        match after_phase(phase, true) {
            WriteNext::Run(next) => {
                phase = next;
                seen.push(next);
            }
            WriteNext::Done => break,
            WriteNext::Fail(_) => panic!("no phase failed"),
        }
    }
    assert_eq!(
        seen,
        vec![
            WritePhase::ResolveParent,
            WritePhase::CreateTemp,
            WritePhase::CopyPermissions,
            WritePhase::WriteData,
            WritePhase::Sync,
            WritePhase::Commit,
        ]
    );
}

#[test]
fn write_failures_stop_with_their_phase() {
    assert_eq!(after_phase(WritePhase::CopyPermissions, false), WriteNext::Run(WritePhase::WriteData));
    assert_eq!(after_phase(WritePhase::ResolveParent, false), WriteNext::Fail(WritePhase::ResolveParent));
    assert_eq!(after_phase(WritePhase::WriteData, false), WriteNext::Fail(WritePhase::WriteData));
    assert_eq!(after_phase(WritePhase::Sync, false), WriteNext::Fail(WritePhase::Sync));
    assert_eq!(after_phase(WritePhase::Commit, false), WriteNext::Fail(WritePhase::Commit));
    assert!(is_staging_phase(WritePhase::Sync));
    assert!(!is_staging_phase(WritePhase::Commit));
}

#[test]
fn theme_is_set_in_commented_config() {
    let text = themed_config("{\n  // old\n  \"theme\": \"x\",\n  \"model\": \"m\",\n}", "wezterm-match")
        .expect("themed");
    let value: serde_json::Value = serde_json::from_str(&text).expect("strict output");
    assert_eq!(value["theme"], serde_json::Value::from("wezterm-match"));
    assert_eq!(value["model"], serde_json::Value::from("m"));
    assert!(!text.contains("old"));
}

#[test]
fn theme_leaves_non_objects_alone() {
    assert_eq!(themed_config("[1,]", "t").expect("themed"), "[\n  1\n]");
    assert!(themed_config("{\"a\":", "t").is_err());
}

#[test]
fn theme_rewrite_keeps_key_order() {
    let text = themed_config("{\"z\": 1, /* c */ \"a\": 2,}", "wezterm-match").expect("themed");
    assert_eq!(text, "{\n  \"z\": 1,\n  \"a\": 2,\n  \"theme\": \"wezterm-match\"\n}");
}
