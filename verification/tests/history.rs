use lt_ai_coach_exporter::campaign::SoloRankMatch;
use lt_ai_coach_exporter::history::{
    champion_balance_history, plan_balance_history, GameVersions, PatchState, PlannedSnapshot,
    ResolvedSnapshot, SnapshotSource,
};
use lt_ai_coach_exporter::ledger::{
    capture_current_balance_snapshot, read_balance_snapshot_ledger, CurrentBalance,
};
use serde_json::Value;

fn json(text: &str) -> Value {
    serde_json::from_str(text).unwrap()
}

fn row(id: u64, version: &str, day: u64) -> SoloRankMatch {
    SoloRankMatch { id, version: version.to_string(), date: String::new(), day }
}

fn state(version: &str, sheet: &str, roster: &str) -> PatchState {
    PatchState {
        version: version.to_string(),
        champion_info_sheet: json(sheet),
        available_champions: json(roster),
    }
}

fn game(champions: &[&str], matches: Vec<SoloRankMatch>, states: Vec<PatchState>) -> GameVersions {
    GameVersions {
        current_version: "2026.3.0".to_string(),
        current_day: 90,
        time: json("\"2026-04-01\""),
        champion_info_sheet: json("{\"live\":true}"),
        available_champions: champions.iter().map(|s| s.to_string()).collect(),
        solo_rank_matches: matches,
        pre_patch_data: states,
    }
}

fn sorted(plan: Vec<PlannedSnapshot>) -> Vec<(String, u64, SnapshotSource)> {
    let mut all: Vec<_> = plan.into_iter().map(|p| (p.version, p.day, p.source)).collect();
    all.sort_by(|a, b| a.0.cmp(&b.0));
    all
}

fn resolved(version: &str, date: &str, sheet: Option<&str>) -> ResolvedSnapshot {
    ResolvedSnapshot {
        version: version.to_string(),
        date: json(date),
        historical_sheet: sheet.map(json),
    }
}

#[test]
fn versions_come_from_matches_save_and_ledger() {
    let game = game(
        &["archer"],
        vec![row(1, "2026.1.0", 5), row(2, "2026.1.0", 9), row(3, "2026.1.0", 7), row(4, "2026.3.0", 80)],
        vec![state("2026.0.0", "{}", "[]"), state("2026.3.0", "{}", "[]")],
    );
    let captured = json(
        "{\"snapshots\":{\"2026.2.0\":{},\"1970.0.0\":{},\"2026.0.0\":{},\"2026.3.0\":{},\"2026.1.0\":{}}}",
    );
    let plan = sorted(plan_balance_history(&game, &captured));
    assert_eq!(
        plan,
        vec![
            ("2026.0.0".to_string(), 90, SnapshotSource::Save),
            ("2026.1.0".to_string(), 9, SnapshotSource::Captured),
            ("2026.2.0".to_string(), 90, SnapshotSource::Captured),
            ("2026.3.0".to_string(), 90, SnapshotSource::Current),
        ]
    );
}

#[test]
fn last_day_of_a_version_stands_for_it() {
    let game = game(&["a"], vec![row(1, "2026.1.0", 9), row(2, "2026.1.0", 3)], vec![]);
    let plan = sorted(plan_balance_history(&game, &json("{\"snapshots\":{}}")));
    assert_eq!(plan[0], ("2026.1.0".to_string(), 9, SnapshotSource::HistoricalUntrusted));
}

#[test]
fn a_saved_version_that_was_played_keeps_its_day() {
    let game =
        game(&["a"], vec![row(1, "2026.1.0", 9)], vec![state("2026.1.0", "{\"s\":1}", "[\"x\"]")]);
    let plan = sorted(plan_balance_history(&game, &json("{}")));
    assert_eq!(plan[0], ("2026.1.0".to_string(), 9, SnapshotSource::Save));
}

#[test]
fn without_champions_the_game_cannot_be_asked() {
    let game = game(&[], vec![row(1, "2026.1.0", 9)], vec![]);
    let plan = sorted(plan_balance_history(&game, &json("null")));
    assert_eq!(plan, vec![("2026.3.0".to_string(), 90, SnapshotSource::Current)]);
    let history =
        champion_balance_history(&game, &json("null"), &vec![resolved("2026.1.0", "1", Some("{}"))]);
    assert_eq!(history["snapshots"], json("{}"));
}

#[test]
fn played_boot_versions_use_their_capture() {
    let game = game(&["a"], vec![row(1, "1970.0.0", 2)], vec![]);
    let plan = sorted(plan_balance_history(&game, &json("{\"snapshots\":{\"1970.0.0\":{}}}")));
    assert_eq!(plan[0], ("1970.0.0".to_string(), 2, SnapshotSource::Captured));
}

#[test]
fn history_holds_the_sheet_of_each_source() {
    let game = game(
        &["archer", "knight"],
        vec![row(1, "2026.1.0", 5), row(2, "2025.9.0", 1)],
        vec![state("2026.0.0", "{\"saved\":1}", "[\"archer\"]")],
    );
    let captured = json(
        "{\"snapshots\":{\"2026.1.0\":{\"championInfoSheet\":{\"captured\":1},\
         \"availableChampions\":[\"knight\"]},\"2026.0.0\":{\"championInfoSheet\":{\"stale\":1}},\
         \"2026.2.0\":{\"capturedAt\":0}}}",
    );
    let history = champion_balance_history(
        &game,
        &captured,
        &vec![
            resolved("2026.3.0", "\"d3\"", Some("{\"unused\":1}")),
            resolved("2026.0.0", "\"d0\"", None),
            resolved("2026.1.0", "\"d1\"", None),
            resolved("2026.2.0", "\"d2\"", None),
            resolved("2025.9.0", "\"d9\"", Some("{\"asked\":1}")),
        ],
    );
    assert_eq!(
        history,
        json(
            "{\"currentVersion\":\"2026.3.0\",\"generatedAt\":\"2026-04-01\",\"snapshots\":{\
             \"2026.3.0\":{\"date\":\"d3\",\"source\":\"current\",\
             \"availableChampions\":[\"archer\",\"knight\"],\"championInfoSheet\":{\"live\":true}},\
             \"2026.0.0\":{\"date\":\"d0\",\"source\":\"save\",\
             \"availableChampions\":[\"archer\"],\"championInfoSheet\":{\"saved\":1}},\
             \"2026.1.0\":{\"date\":\"d1\",\"source\":\"captured\",\
             \"availableChampions\":[\"knight\"],\"championInfoSheet\":{\"captured\":1}},\
             \"2026.2.0\":{\"date\":\"d2\",\"source\":\"captured\",\
             \"availableChampions\":null,\"championInfoSheet\":null},\
             \"2025.9.0\":{\"date\":\"d9\",\"source\":\"historical-untrusted\",\
             \"availableChampions\":null,\"championInfoSheet\":{\"asked\":1}}}}"
        )
    );
}

#[test]
fn a_sheet_that_cannot_be_written_is_null() {
    let game = game(&["a"], vec![row(1, "2026.1.0", 5)], vec![]);
    let history =
        champion_balance_history(&game, &json("{}"), &vec![resolved("2026.1.0", "1", None)]);
    assert_eq!(history["snapshots"]["2026.1.0"]["championInfoSheet"], Value::Null);
    assert_eq!(history["snapshots"]["2026.1.0"]["source"], json("\"historical-untrusted\""));
}

#[test]
fn captures_show_in_the_history_after_the_next_patch() {
    let earlier = CurrentBalance {
        version: "2026.2.0".to_string(),
        time: json("1"),
        available_champions: vec!["archer".to_string()],
        champion_info_sheet: json("{\"archer\":{\"attack\":9}}"),
    };
    let text = capture_current_balance_snapshot(&earlier, None).unwrap();
    let captured = read_balance_snapshot_ledger(Some(&text));
    let game = game(&["archer", "knight"], vec![], vec![]);
    let plan = sorted(plan_balance_history(&game, &captured));
    assert_eq!(plan[0], ("2026.2.0".to_string(), 90, SnapshotSource::Captured));
    let history =
        champion_balance_history(&game, &captured, &vec![resolved("2026.2.0", "\"d\"", None)]);
    assert_eq!(
        history["snapshots"]["2026.2.0"],
        json(
            "{\"date\":\"d\",\"source\":\"captured\",\"availableChampions\":[\"archer\"],\
             \"championInfoSheet\":{\"archer\":{\"attack\":9}}}"
        )
    );
}

#[test]
fn the_game_is_asked_for_its_first_champion() {
    let game = game(
        &["archer", "knight"],
        vec![row(1, "2026.1.0", 5)],
        vec![state("2026.0.0", "{}", "[]")],
    );
    let plan = plan_balance_history(&game, &json("{\"snapshots\":{\"2026.2.0\":{}}}"));
    assert_eq!(plan.len(), 4);
    for planned in plan {
        let asked = planned.version == "2026.1.0";
        assert_eq!(planned.anchor, if asked { Some("archer".to_string()) } else { None });
    }
}

#[test]
fn the_order_of_the_matches_leaves_the_history() {
    let rows = [(1, "2026.1.0", 5), (2, "2026.1.0", 9), (3, "2025.9.0", 2), (4, "2026.1.0", 7)];
    let orders = [[0, 1, 2, 3], [3, 2, 1, 0], [1, 3, 0, 2], [2, 0, 3, 1]];
    let captured = json("{\"snapshots\":{\"2025.9.0\":{\"championInfoSheet\":1}}}");
    let histories: Vec<Value> = orders
        .iter()
        .map(|order| {
            let matches = order.iter().map(|i| row(rows[*i].0, rows[*i].1, rows[*i].2)).collect();
            let game = game(&["archer"], matches, vec![state("2026.0.0", "{}", "[]")]);
            let answers = plan_balance_history(&game, &captured)
                .into_iter()
                .map(|planned| ResolvedSnapshot {
                    version: planned.version,
                    date: Value::from(planned.day),
                    historical_sheet: planned.anchor.map(|name| Value::from(format!("{name}{}", planned.day))),
                })
                .collect();
            champion_balance_history(&game, &captured, &answers)
        })
        .collect();
    assert_eq!(histories[0]["snapshots"]["2026.1.0"]["championInfoSheet"], json("\"archer9\""));
    for history in &histories {
        assert_eq!(*history, histories[0]);
    }
}

#[test]
fn sources_have_names() {
    assert_eq!(SnapshotSource::Current.name(), "current");
    assert_eq!(SnapshotSource::Save.name(), "save");
    assert_eq!(SnapshotSource::Captured.name(), "captured");
    assert_eq!(SnapshotSource::HistoricalUntrusted.name(), "historical-untrusted");
}
