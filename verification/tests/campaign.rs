use lt_ai_coach_exporter::campaign::{campaign_ledger_key, SoloRankMatch};
use lt_ai_coach_exporter::paths::balance_snapshot_ledger_path;

fn row(id: u64, version: &str, date: &str) -> SoloRankMatch {
    SoloRankMatch { id, version: version.to_string(), date: date.to_string(), day: 0 }
}

fn expected(seed: &str) -> String {
    let hash = seed.bytes().fold(0xcbf29ce484222325_u64, |hash, byte| {
        (hash ^ u64::from(byte)).wrapping_mul(0x100000001b3)
    });
    format!("v2-{hash:016x}")
}

#[test]
fn key_covers_save_team_and_earliest_match() {
    let rows = vec![
        row(12, "2026.2.0", "2026-03-01 10:00:00"),
        row(7, "2026.1.0", "2026-02-01 18:30:00"),
        row(30, "2026.2.0", "2026-03-09 12:00:00"),
    ];
    assert_eq!(
        campaign_ledger_key(3, 14, &rows),
        expected("3|14|7:2026.1.0:2026-02-01 18:30:00")
    );
}

#[test]
fn key_without_matches() {
    assert_eq!(campaign_ledger_key(0, 0, &vec![]), expected("0|0|no-solo-match"));
    assert_eq!(
        campaign_ledger_key(u64::MAX, 5, &vec![]),
        expected("18446744073709551615|5|no-solo-match")
    );
}

#[test]
fn key_of_a_known_hash() {
    // The FNV-1a hash of 64 bits of "0|0|no-solo-match".
    assert_eq!(campaign_ledger_key(0, 0, &vec![]), "v2-2d90fc04d038e586");
}

#[test]
fn key_hashes_the_bytes_of_a_text() {
    let rows = vec![row(1, "2026.1.0-β", "火曜日")];
    assert_eq!(campaign_ledger_key(1, 2, &rows), expected("1|2|1:2026.1.0-β:火曜日"));
}

#[test]
fn first_of_equal_ids_counts() {
    let rows = vec![row(5, "a", "x"), row(5, "b", "y")];
    assert_eq!(campaign_ledger_key(1, 1, &rows), expected("1|1|5:a:x"));
}

#[test]
fn later_matches_keep_the_key() {
    let mut rows = vec![row(5, "a", "x")];
    let key = campaign_ledger_key(1, 1, &rows);
    rows.push(row(6, "b", "y"));
    rows.push(row(5, "c", "z"));
    assert_eq!(campaign_ledger_key(1, 1, &rows), key);
    rows.push(row(4, "d", "w"));
    assert_ne!(campaign_ledger_key(1, 1, &rows), key);
}

#[test]
fn campaigns_that_reuse_an_id_stay_apart() {
    let rows = vec![row(1, "a", "x")];
    let one = campaign_ledger_key(1, 1, &rows);
    let other_team = campaign_ledger_key(1, 2, &rows);
    let shifted = campaign_ledger_key(11, 1, &vec![]);
    let unshifted = campaign_ledger_key(1, 11, &vec![]);
    assert_ne!(one, other_team);
    assert_ne!(shifted, unshifted);
    assert_ne!(
        balance_snapshot_ledger_path(Some("d"), &one),
        balance_snapshot_ledger_path(Some("d"), &other_team)
    );
}

#[test]
fn keys_are_short_plain_names() {
    let key = campaign_ledger_key(9, 9, &vec![]);
    assert_eq!(key.len(), 19);
    assert!(key.chars().all(|c| c.is_ascii_digit() || c.is_ascii_lowercase() || c == '-'));
}

#[test]
fn matches_show_in_the_key() {
    assert_ne!(campaign_ledger_key(1, 1, &vec![row(0, "", "")]), campaign_ledger_key(1, 1, &vec![]));
}

#[test]
fn campaigns_whose_hashes_collide_share_a_key() {
    let date = "2025-01-02 00:00:00";
    let one = campaign_ledger_key(7, 3, &vec![row(1, "2025.wf235AIBIzULHhhV5Qxw", date)]);
    let other = campaign_ledger_key(7, 3, &vec![row(1, "2025.rb663COCGDS9Kko02Vzh", date)]);
    assert_eq!(one, "v2-8a86e62e3955aaf9");
    assert_eq!(other, one);
}

#[test]
fn one_digit_tells_campaigns_apart() {
    let rows = vec![row(1, "2026.1.0", "2026-02-01")];
    let key = campaign_ledger_key(340, 127, &rows);
    for digit in [0, 1, 3, 4, 5, 6, 7, 8, 9] {
        assert_ne!(campaign_ledger_key(340, 107 + 10 * digit, &rows), key);
        assert_ne!(campaign_ledger_key(341 + digit as u64 % 9, 127, &rows), key);
    }
}
