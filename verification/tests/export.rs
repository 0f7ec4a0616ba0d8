use lt_ai_coach_exporter::export::{
    document_text, export_plan, manifest, text_or_null, ExportFile, ExportStep, ManifestInfo,
};
use lt_ai_coach_exporter::tables::{NameTable, NamedRow};
use serde_json::Value;

fn info() -> ManifestInfo {
    ManifestInfo {
        save_id: 5,
        campaign_key: "v2-0123456789abcdef".to_string(),
        player_team: Some("My\tTeam".to_string()),
        player_team_id: 2,
        exported_at_unix: Some(1_781_000_000),
        champions: 40,
        match_replays: 7,
        solo_rank_matches: 100,
    }
}

fn table(n: u64) -> NameTable {
    let rows = (0..n).map(|id| Some(NamedRow { id, name: "t".to_string() })).collect();
    NameTable::new(&rows)
}

#[test]
fn manifest_names_the_game_and_counts_the_data() {
    assert_eq!(
        manifest(&info(), &table(3), &table(12)),
        "mod\tlt_ai_coach_exporter\nsave_id\t5\nsave_id_source\tclient_database_id\n\
         campaign_key\tv2-0123456789abcdef\nplayer_team\tMy Team\nplayer_team_id\t2\n\
         exported_at_unix\t1781000000\nchampions\t40\nteams\t3\nplayers\t12\nmatch_replays\t7\n\
         solo_rank_matches\t100\n"
    );
}

#[test]
fn manifest_without_a_team_or_a_clock() {
    let mut bare = info();
    bare.player_team = None;
    bare.exported_at_unix = None;
    let contents = manifest(&bare, &table(0), &table(0));
    assert!(contents.contains("\nplayer_team\t\n"));
    assert!(contents.contains("\nexported_at_unix\t0\n"));
    assert!(contents.contains("\nteams\t0\nplayers\t0\n"));
}

#[test]
fn manifest_splits_into_entries_of_two_cells() {
    let mut odd = info();
    odd.player_team = Some("a\nb\tc\r".to_string());
    let contents = manifest(&odd, &table(1), &table(1));
    let lines: Vec<&str> = contents.split('\n').collect();
    assert_eq!(lines.len(), 13);
    assert_eq!(lines[12], "");
    assert!(lines[..12].iter().all(|line| line.split('\t').count() == 2));
}

#[test]
fn stages_are_those_of_the_export() {
    let stages: Vec<&str> = export_plan(true).iter().filter_map(|step| step.stage()).collect();
    assert_eq!(
        stages,
        vec![
            "capture_balance_snapshot",
            "write_champions",
            "serialize_champion_metadata",
            "write_champion_metadata",
            "write_teams",
            "write_players",
            "serialize_athletes",
            "write_athletes",
            "serialize_match_replays",
            "write_match_replays",
            "serialize_solo_matches",
            "write_solo_matches",
            "serialize_patch_data",
            "write_patch_data",
            "build_balance_history",
            "serialize_balance_history",
            "write_balance_history",
            "prepare_manifest",
        ]
    );
}

#[test]
fn manifest_is_written_last() {
    for traced in [false, true] {
        let plan = export_plan(traced);
        assert_eq!(*plan.last().unwrap(), ExportStep::Write(ExportFile::Manifest));
        assert_eq!(plan[plan.len() - 2] == ExportStep::FinishTrace, traced);
        let files = [
            ExportFile::Champions,
            ExportFile::ChampionMetadata,
            ExportFile::Teams,
            ExportFile::Players,
            ExportFile::AthleteMastery,
            ExportFile::MatchReplays,
            ExportFile::SoloRankMatches,
            ExportFile::PrePatchData,
            ExportFile::BalanceHistory,
            ExportFile::Manifest,
        ];
        for file in files {
            assert_eq!(plan.iter().filter(|&&step| step == ExportStep::Write(file)).count(), 1);
        }
    }
}

#[test]
fn files_have_their_names() {
    let names: Vec<&str> = export_plan(false)
        .iter()
        .filter_map(|step| match step {
            ExportStep::Write(file) => Some(file.name()),
            _ => None,
        })
        .collect();
    assert_eq!(
        names,
        vec![
            "champions.tsv",
            "champion_metadata.json",
            "teams.tsv",
            "players.tsv",
            "athlete_mastery.json",
            "match_replays.json",
            "solo_rank_matches.json",
            "pre_patch_data.json",
            "champion_balance_history.json",
            "manifest.tsv",
        ]
    );
}

#[test]
fn documents_are_printed_compactly() {
    let value: Value = serde_json::from_str("{ \"b\": [1, 2.50], \"a\": null }").unwrap();
    assert_eq!(document_text(&value), "{\"a\":null,\"b\":[1,2.5]}");
}

#[test]
fn what_cannot_be_written_is_null() {
    assert_eq!(text_or_null(None), "null");
    assert_eq!(text_or_null(Some("[]".to_string())), "[]");
}

#[test]
fn files_are_prepared_before_they_are_written() {
    let plan = export_plan(true);
    for (i, step) in plan.iter().enumerate() {
        if let ExportStep::Prepare(file) = step {
            let written = plan.iter().position(|&s| s == ExportStep::Write(*file)).unwrap();
            assert!(i < written);
        }
    }
}

#[test]
fn the_game_is_captured_before_its_history_is_built() {
    let plan = export_plan(false);
    assert_eq!(plan[0], ExportStep::Capture);
    let built = plan.iter().position(|&s| s == ExportStep::BuildHistory).unwrap();
    let written =
        plan.iter().position(|&s| s == ExportStep::Write(ExportFile::BalanceHistory)).unwrap();
    assert!(0 < built && built < written);
    assert!(!plan.contains(&ExportStep::FinishTrace));
}

#[test]
fn documents_are_read_back_from_their_text() {
    let numbers = vec![1e22_f64, 1.25e20, 1e16, 9e-9, 0.5, -3e18];
    let value = Value::from(vec![Value::from(numbers), Value::from("a\n\"b\""), Value::Null]);
    let text = document_text(&value);
    assert_eq!(text, "[[1e+22,1.25e+20,1e+16,9e-9,0.5,-3e+18],\"a\\n\\\"b\\\"\",null]");
    assert_eq!(serde_json::from_str::<Value>(&text).unwrap(), value);
}

#[test]
fn a_document_that_is_nested_too_deep_is_not_read() {
    let mut value = Value::Null;
    for _ in 0..127 {
        value = Value::from(vec![value]);
    }
    assert_eq!(serde_json::from_str::<Value>(&document_text(&value)).unwrap(), value);
    assert!(serde_json::from_str::<Value>(&document_text(&Value::from(vec![value]))).is_err());
}
