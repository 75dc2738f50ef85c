use bearminder::settings::{load_settings, save_settings, EnvSettings};

fn record(
    username: Option<&str>,
    goal: Option<&str>,
    token: Option<&str>,
) -> EnvSettings {
    EnvSettings {
        beeminder_username: username.map(|s| s.to_string()),
        beeminder_goal: goal.map(|s| s.to_string()),
        beeminder_token: token.map(|s| s.to_string()),
    }
}

#[test]
fn missing_file_loads_empty() {
    let r = load_settings(None);
    assert_eq!(r.beeminder_username, None);
    assert_eq!(r.beeminder_goal, None);
    assert_eq!(r.beeminder_token, None);
}

#[test]
fn empty_content_loads_empty() {
    let r = load_settings(Some(""));
    assert_eq!(r.beeminder_username, None);
    assert_eq!(r.beeminder_goal, None);
    assert_eq!(r.beeminder_token, None);
}

#[test]
fn loads_recognized_keys() {
    let content = "BEEMINDER_USERNAME=alice\nBEEMINDER_GOAL=notes\nBEEMINDER_TOKEN=tok123\n";
    let r = load_settings(Some(content));
    assert_eq!(r.beeminder_username.as_deref(), Some("alice"));
    assert_eq!(r.beeminder_goal.as_deref(), Some("notes"));
    assert_eq!(r.beeminder_token.as_deref(), Some("tok123"));
}

#[test]
fn unrecognized_lines_are_ignored() {
    let content = "# a comment\n\nOTHER=1\nBEEMINDER_GOAL=g\n";
    let r = load_settings(Some(content));
    assert_eq!(r.beeminder_username, None);
    assert_eq!(r.beeminder_goal.as_deref(), Some("g"));
    assert_eq!(r.beeminder_token, None);
}

#[test]
fn later_assignment_wins() {
    let content = "BEEMINDER_GOAL=first\nBEEMINDER_GOAL=second\n";
    let r = load_settings(Some(content));
    assert_eq!(r.beeminder_goal.as_deref(), Some("second"));
}

#[test]
fn keys_and_values_are_trimmed() {
    let content = " BEEMINDER_GOAL = 5 \n";
    let r = load_settings(Some(content));
    assert_eq!(r.beeminder_goal.as_deref(), Some("5"));
}

#[test]
fn quote_stripping_matched_pair() {
    let r = load_settings(Some("BEEMINDER_TOKEN=\"abc123\"\n"));
    assert_eq!(r.beeminder_token.as_deref(), Some("abc123"));
}

#[test]
fn quote_stripping_one_sided_quote_retained() {
    let r = load_settings(Some("BEEMINDER_TOKEN=\"abc\n"));
    assert_eq!(r.beeminder_token.as_deref(), Some("\"abc"));
}

#[test]
fn quote_alone_is_kept() {
    let r = load_settings(Some("BEEMINDER_TOKEN=\"\n"));
    assert_eq!(r.beeminder_token.as_deref(), Some("\""));
}

#[test]
fn value_may_contain_equals_sign() {
    let r = load_settings(Some("BEEMINDER_TOKEN=a=b\n"));
    assert_eq!(r.beeminder_token.as_deref(), Some("a=b"));
}

#[test]
fn explicit_empty_value_is_set() {
    let r = load_settings(Some("BEEMINDER_GOAL=\n"));
    assert_eq!(r.beeminder_goal.as_deref(), Some(""));
    assert_eq!(r.beeminder_username, None);
}

#[test]
fn round_trip_identity() {
    let content = "BEEMINDER_USERNAME=alice\n# comment\nBEEMINDER_GOAL=notes\nOTHER=1\n";
    let r = load_settings(Some(content));
    let saved = save_settings(&r, Some(content));
    assert_eq!(saved, content);
}

#[test]
fn round_trip_adds_trailing_newline() {
    let content = "BEEMINDER_USERNAME=alice\n# comment";
    let r = load_settings(Some(content));
    let saved = save_settings(&r, Some(content));
    assert_eq!(saved, "BEEMINDER_USERNAME=alice\n# comment\n");
}

#[test]
fn selective_update_preserves_other_lines() {
    let content = "BEEMINDER_USERNAME=1\n# comment\nBEEMINDER_GOAL=2";
    let r = record(Some("9"), None, None);
    let saved = save_settings(&r, Some(content));
    assert_eq!(saved, "BEEMINDER_USERNAME=9\n# comment\nBEEMINDER_GOAL=2\n");
}

#[test]
fn append_on_absence() {
    let content = "BEEMINDER_USERNAME=1";
    let r = record(None, Some("x"), None);
    let saved = save_settings(&r, Some(content));
    assert_eq!(saved, "BEEMINDER_USERNAME=1\nBEEMINDER_GOAL=x\n");
}

#[test]
fn save_onto_missing_file_appends_all() {
    let r = record(Some("u"), Some("g"), Some("t"));
    let saved = save_settings(&r, None);
    assert_eq!(saved, "BEEMINDER_USERNAME=u\nBEEMINDER_GOAL=g\nBEEMINDER_TOKEN=t\n");
}

#[test]
fn save_empty_record_normalizes_only() {
    let r = record(None, None, None);
    assert_eq!(save_settings(&r, Some("a")), "a\n");
    assert_eq!(save_settings(&r, Some("\n")), "\n");
    assert_eq!(save_settings(&r, None), "");
    assert_eq!(save_settings(&r, Some("")), "");
}

#[test]
fn idempotent_double_save() {
    let content = "# header\nBEEMINDER_GOAL=old\nOTHER=1\n";
    let r = record(Some("u"), Some("g"), Some("t"));
    let once = save_settings(&r, Some(content));
    let twice = save_settings(&r, Some(once.as_str()));
    assert_eq!(once, twice);
    assert_eq!(once, "# header\nBEEMINDER_GOAL=g\nOTHER=1\nBEEMINDER_USERNAME=u\nBEEMINDER_TOKEN=t\n");
}

#[test]
fn save_replaces_first_prefix_match_only() {
    let content = "BEEMINDER_GOAL=a\nBEEMINDER_GOAL=b\n";
    let r = record(None, Some("c"), None);
    let saved = save_settings(&r, Some(content));
    assert_eq!(saved, "BEEMINDER_GOAL=c\nBEEMINDER_GOAL=b\n");
}

#[test]
fn save_ignores_spaced_key_line() {
    // The save path matches the literal prefix `KEY=`; a spaced line is
    // recognized by load but left alone by save, which appends instead.
    let content = " BEEMINDER_GOAL = 5\n";
    let r = record(None, Some("6"), None);
    let saved = save_settings(&r, Some(content));
    assert_eq!(saved, " BEEMINDER_GOAL = 5\nBEEMINDER_GOAL=6\n");
}
