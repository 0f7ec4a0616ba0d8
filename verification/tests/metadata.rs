use lt_ai_coach_exporter::metadata::champion_metadata_export;
use serde_json::Value;

fn json(text: &str) -> Value {
    serde_json::from_str(text).unwrap()
}

fn strings(items: &[&str]) -> Vec<String> {
    items.iter().map(|s| s.to_string()).collect()
}

#[test]
fn metadata_covers_game_and_mod_champions() {
    let sheet = json(
        "{\"archer\":{\"category\":\"Range\",\"tags\":[\"AD\",7,\"CC\"]},\
         \"mod_champions\":[{\"id\":\"dragon\",\"category\":\"Melee\",\"tags\":[\"Tank\"]},\
         {\"id\":\"dragon\",\"category\":\"Second\"},{\"id\":\"archer\",\"category\":\"Shadowed\"}]}",
    );
    let document = champion_metadata_export(&sheet, &strings(&["archer", "dragon", "nobody"]));
    // archer: 45, 60, 45, 90 and 55 points; dragon: 75, 55, 20, 20 and 45.
    assert_eq!(
        document,
        json(
            "{\"schemaVersion\":1,\"champions\":[\
             {\"id\":\"archer\",\"category\":\"Range\",\"rawTags\":[\"AD\",\"CC\"],\
             \"roleFit\":{\"top\":50.0,\"jungle\":66.7,\"mid\":50.0,\"bot\":100.0,\"support\":61.1}},\
             {\"id\":\"dragon\",\"category\":\"Melee\",\"rawTags\":[\"Tank\"],\
             \"roleFit\":{\"top\":100.0,\"jungle\":73.3,\"mid\":26.7,\"bot\":26.7,\"support\":60.0}},\
             {\"id\":\"nobody\",\"category\":\"Unknown\",\"rawTags\":[],\
             \"roleFit\":{\"top\":100.0,\"jungle\":100.0,\"mid\":100.0,\"bot\":100.0,\"support\":100.0}}]}"
        )
    );
}

#[test]
fn odd_sheets_give_unknown_champions() {
    for sheet in ["null", "[]", "{}", "{\"mod_champions\":{}}", "{\"x\":null}", "{\"x\":{\"category\":1,\"tags\":\"AD\"}}"] {
        let document = champion_metadata_export(&json(sheet), &strings(&["x"]));
        assert_eq!(document["champions"][0]["category"], json("\"Unknown\""), "{sheet}");
        assert_eq!(document["champions"][0]["rawTags"], json("[]"), "{sheet}");
    }
}

#[test]
fn the_games_own_entry_comes_before_that_of_a_mod() {
    let sheet = json("{\"x\":{},\"mod_champions\":[{\"id\":\"x\",\"category\":\"Melee\"}]}");
    let document = champion_metadata_export(&sheet, &strings(&["x"]));
    assert_eq!(document["champions"][0]["category"], json("\"Unknown\""));
}

#[test]
fn no_champions_give_an_empty_list() {
    let document = champion_metadata_export(&json("{}"), &vec![]);
    assert_eq!(document, json("{\"schemaVersion\":1,\"champions\":[]}"));
}
