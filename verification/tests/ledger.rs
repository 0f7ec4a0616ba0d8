use lt_ai_coach_exporter::ledger::{
    capture_current_balance_snapshot, capture_target, captured_ledger, ledger_read,
    read_balance_snapshot_ledger, valid_patch_version, CurrentBalance,
};
use serde_json::Value;

fn json(text: &str) -> Value {
    serde_json::from_str(text).unwrap()
}

fn current(version: &str, champions: &[&str], sheet: &str) -> CurrentBalance {
    CurrentBalance {
        version: version.to_string(),
        time: json("\"2026-04-01 08:00:00\""),
        available_champions: champions.iter().map(|s| s.to_string()).collect(),
        champion_info_sheet: json(sheet),
    }
}

#[test]
fn patch_versions_begin_with_a_year() {
    assert!(valid_patch_version("2000"));
    assert!(valid_patch_version("2026.1.0"));
    assert!(valid_patch_version("+2026.1"));
    assert!(valid_patch_version("18446744073709551615.0"));
    assert!(!valid_patch_version("1999.12.31"));
    assert!(!valid_patch_version("1970.0.0"));
    assert!(!valid_patch_version(""));
    assert!(!valid_patch_version(".2026"));
    assert!(!valid_patch_version("v2026.1"));
    assert!(!valid_patch_version("-2026.1"));
    assert!(!valid_patch_version("2026 .1"));
    assert!(!valid_patch_version("18446744073709551616.0"));
}

#[test]
fn missing_or_broken_ledgers_are_empty() {
    let empty = json("{\"snapshots\":{}}");
    assert_eq!(read_balance_snapshot_ledger(None), empty);
    assert_eq!(read_balance_snapshot_ledger(Some("")), empty);
    assert_eq!(read_balance_snapshot_ledger(Some("{\"snapshots\":")), empty);
    assert_eq!(ledger_read(None), empty);
}

#[test]
fn ledgers_are_read_as_they_are() {
    assert_eq!(read_balance_snapshot_ledger(Some("[1, 2]")), json("[1,2]"));
    assert_eq!(
        read_balance_snapshot_ledger(Some("{\"snapshots\":{\"2026.1.0\":null}}")),
        json("{\"snapshots\":{\"2026.1.0\":null}}")
    );
    assert_eq!(ledger_read(Some(json("7"))), json("7"));
}

#[test]
fn captures_go_to_the_ledger_of_the_campaign() {
    let roster = vec!["archer".to_string()];
    assert_eq!(
        capture_target("2026.1.0", &roster, Some("dir"), "key").unwrap(),
        "dir/balance_snapshots/key/ledger.json"
    );
    assert_eq!(capture_target("2026.1.0", &roster, None, "key"), None);
    assert_eq!(capture_target("1970.0.0", &roster, Some("dir"), "key"), None);
    assert_eq!(capture_target("2026.1.0", &vec![], Some("dir"), "key"), None);
}

#[test]
fn first_capture_makes_a_ledger() {
    let text = capture_current_balance_snapshot(
        &current("2026.1.0", &["archer", "knight"], "{\"archer\":{\"attack\":12}}"),
        None,
    );
    assert_eq!(
        json(&text.unwrap()),
        json(
            "{\"snapshots\":{\"2026.1.0\":{\"capturedAt\":\"2026-04-01 08:00:00\",\
             \"availableChampions\":[\"archer\",\"knight\"],\
             \"championInfoSheet\":{\"archer\":{\"attack\":12}}}}}"
        )
    );
}

#[test]
fn captures_leave_other_versions_and_replace_their_own() {
    let before = "{\"note\":[1],\"snapshots\":{\"2026.1.0\":1,\"2026.2.0\":2}}";
    let text = capture_current_balance_snapshot(&current("2026.2.0", &["a"], "[]"), Some(before));
    assert_eq!(
        json(&text.unwrap()),
        json(
            "{\"note\":[1],\"snapshots\":{\"2026.1.0\":1,\"2026.2.0\":{\
             \"capturedAt\":\"2026-04-01 08:00:00\",\"availableChampions\":[\"a\"],\
             \"championInfoSheet\":[]}}}"
        )
    );
}

#[test]
fn the_later_capture_stands() {
    let first = capture_current_balance_snapshot(&current("2026.1.0", &["a"], "1"), None).unwrap();
    let second =
        capture_current_balance_snapshot(&current("2026.1.0", &["b"], "2"), Some(&first)).unwrap();
    let alone = capture_current_balance_snapshot(&current("2026.1.0", &["b"], "2"), None).unwrap();
    assert_eq!(second, alone);
}

#[test]
fn unsettled_games_are_not_captured() {
    assert_eq!(capture_current_balance_snapshot(&current("1970.0.0", &["a"], "{}"), None), None);
    assert_eq!(capture_current_balance_snapshot(&current("2026.1.0", &[], "{}"), None), None);
    assert_eq!(captured_ledger(&current("boot", &["a"], "{}"), json("{\"snapshots\":{}}")), None);
}

#[test]
fn documents_without_snapshots_take_no_captures() {
    let settled = current("2026.1.0", &["a"], "{}");
    for ledger in ["{}", "{\"snapshots\":[]}", "{\"snapshots\":null}", "[]", "3"] {
        assert_eq!(capture_current_balance_snapshot(&settled, Some(ledger)), None);
        assert_eq!(captured_ledger(&settled, json(ledger)), None);
    }
}

#[test]
fn what_is_written_is_read_back() {
    let sheet = "{\"a\":{\"hp\":-12,\"rate\":0.75,\"big\":18446744073709551615,\"name\":\"\\\"\\u0000é\\n\"}}";
    let text = capture_current_balance_snapshot(&current("2026.1.0", &["a"], sheet), None).unwrap();
    let ledger = read_balance_snapshot_ledger(Some(&text));
    assert_eq!(ledger["snapshots"]["2026.1.0"]["championInfoSheet"], json(sheet));
    assert_eq!(
        captured_ledger(&current("2026.1.0", &["a"], sheet), json("{\"snapshots\":{}}")).unwrap(),
        ledger
    );
}

#[test]
fn documents_are_read_to_a_depth_of_127() {
    let nested = |n: usize| "[".repeat(n) + &"]".repeat(n);
    assert!(read_balance_snapshot_ledger(Some(&nested(127))).is_array());
    assert!(read_balance_snapshot_ledger(Some(&nested(128))).is_object());
}

#[test]
fn short_numbers_are_read_back() {
    let numbers = [
        "0", "-1", "9223372036854775807", "-9223372036854775808", "18446744073709551615", "0.1",
        "-0.0", "123456789.123456", "99999999999999.9", "0.00000000000001", "-3.14159265358979",
        "1e-7", "-2.5e-10", "1.25e20", "1e22", "0.800000011920929", "0.9007199254740992",
    ];
    for number in numbers {
        let value = read_balance_snapshot_ledger(Some(number));
        let printed = serde_json::to_string(&value).unwrap();
        assert_eq!(read_balance_snapshot_ledger(Some(&printed)), value, "{number}");
    }
}

#[test]
fn fractions_of_a_sheet_are_read_back() {
    let mut current = current("2026.1.0", &["a"], "{}");
    current.champion_info_sheet =
        Value::from(vec![Value::from(1e-7_f64), Value::from(0.8_f32), Value::from(12.5_f64)]);
    let text = capture_current_balance_snapshot(&current, None).unwrap();
    assert!(text.contains("[1e-7,0.800000011920929,12.5]"));
    let ledger = read_balance_snapshot_ledger(Some(&text));
    assert_eq!(ledger["snapshots"]["2026.1.0"]["championInfoSheet"], current.champion_info_sheet);
}

#[test]
fn every_number_is_read_and_captures_are_read_alone() {
    // What is read of each number is what its own text is read as, whatever stands
    // beside it.
    let numbers = [f64::MAX, -f64::MAX, f64::MIN_POSITIVE, 5e-324, 1.0 / 3.0, 2.0 / 3e40, 0.1 + 0.2];
    let mut current = current("2026.2.0", &["a"], "{}");
    current.champion_info_sheet = Value::from(numbers.to_vec());
    let before = "{\"note\":0.5,\"snapshots\":{\"2026.1.0\":{\"championInfoSheet\":[0.25,\"x\"]}}}";
    let text = capture_current_balance_snapshot(&current, Some(before)).unwrap();
    let ledger = read_balance_snapshot_ledger(Some(&text));
    assert_eq!(ledger["note"], json("0.5"));
    assert_eq!(ledger["snapshots"]["2026.1.0"]["championInfoSheet"], json("[0.25,\"x\"]"));
    let sheet = &ledger["snapshots"]["2026.2.0"]["championInfoSheet"];
    for (i, number) in numbers.iter().enumerate() {
        let alone = json(&serde_json::to_string(&Value::from(*number)).unwrap());
        assert!(alone.is_number());
        assert_eq!(sheet[i], alone);
    }
}

#[test]
fn captures_leave_124_levels_to_a_sheet() {
    let nested = |n: usize| "[".repeat(n) + &"]".repeat(n);
    let deep = capture_current_balance_snapshot(&current("2026.1.0", &["a"], &nested(124)), None);
    let ledger = read_balance_snapshot_ledger(deep.as_deref());
    assert_eq!(ledger["snapshots"]["2026.1.0"]["championInfoSheet"], json(&nested(124)));
    let deeper = capture_current_balance_snapshot(&current("2026.1.0", &["a"], &nested(125)), None);
    assert_eq!(read_balance_snapshot_ledger(deeper.as_deref()), json("{\"snapshots\":{}}"));
}
