use lt_ai_coach_exporter::athletes::{athlete_mastery_export, AthleteRecord};
use serde_json::Value;

fn json(text: &str) -> Value {
    serde_json::from_str(text).unwrap()
}

#[test]
fn athletes_are_listed_and_missing_ones_left_out() {
    let athlete = AthleteRecord {
        id: 17,
        name: "Ann\tB".to_string(),
        contract: json("{\"team\":3}"),
        stats: json("[1,2]"),
        recent_champions: json("[\"archer\"]"),
        champion_proficiency: json("{\"archer\":0.5}"),
    };
    let document = athlete_mastery_export(vec![None, Some(athlete), None]);
    assert_eq!(
        document,
        json(
            "{\"schemaVersion\":2,\"athletes\":[{\"id\":17,\"name\":\"Ann\\tB\",\
             \"contract\":{\"team\":3},\"stats\":[1,2],\"recentChampions\":[\"archer\"],\
             \"championProficiency\":{\"archer\":0.5}}]}"
        )
    );
    assert_eq!(athlete_mastery_export(vec![]), json("{\"schemaVersion\":2,\"athletes\":[]}"));
}
