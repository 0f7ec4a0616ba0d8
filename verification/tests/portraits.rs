use lt_ai_coach_exporter::portraits::{
    champion_names, has_png_signature, mod_champion_names, mod_sprites, portrait_assets,
    LoadedAsset, ModSprite, PortraitArt, PortraitAssets, PortraitProbe, RegisteredAnimations,
    SourceArt, PORTRAIT_PROBE_FILE,
};
use serde_json::Value;

const PNG: [u8; 9] = [0x89, b'P', b'N', b'G', b'\r', b'\n', 0x1a, b'\n', 7];

fn json(text: &str) -> Value {
    serde_json::from_str(text).unwrap()
}

fn no_art() -> PortraitArt {
    PortraitArt { retained: None, from_file: None, sheet: None, registered: None }
}

fn assets() -> PortraitAssets {
    portrait_assets("archer", &vec![ModSprite { id: "archer".to_string(), sprite: "mod/archer".to_string() }])
}

fn loaded(name: &str, path: Option<&str>, raw: Option<usize>) -> LoadedAsset {
    LoadedAsset {
        name: name.to_string(),
        tag: json("\"Ase\""),
        file_path: path.map(|p| p.to_string()),
        raw_bytes: raw,
    }
}

/// What is said of one champion, and the picture that is to be written.
fn probe(art: PortraitArt, assets_loaded: Vec<LoadedAsset>) -> (Value, Option<(String, Vec<u8>)>) {
    let mut probe = PortraitProbe::new();
    let picture =
        probe.add_champion("archer", &assets(), art, json("{\"en\":\"Archer\"}"), &assets_loaded);
    let document = json(&probe.finish());
    assert_eq!(document["schemaVersion"], json("2"));
    assert_eq!(document["champions"].as_array().unwrap().len(), 1);
    (document["champions"][0].clone(), picture.map(|file| (file.name, file.bytes)))
}

#[test]
fn the_last_sprite_of_a_mod_counts() {
    let sheet = json(
        "{\"mod_champions\":[{\"id\":\"a\",\"sprite\":\"one\"},{\"id\":\"a\",\"sprite\":\"two\"},\
         {\"id\":\"a\",\"sprite\":3},{\"id\":\"b\"},{\"sprite\":\"x\"},5]}",
    );
    let sprites = mod_sprites(&sheet);
    assert_eq!(portrait_assets("a", &sprites).asset, "two");
    assert_eq!(portrait_assets("b", &sprites).asset, "asset/base/aseprite_resources/champions/b");
    assert!(mod_sprites(&json("{}")).is_empty());
    assert!(mod_sprites(&json("{\"mod_champions\":{}}")).is_empty());
}

#[test]
fn art_is_registered_under_three_names() {
    let assets = portrait_assets("knight", &vec![]);
    assert_eq!(assets.asset, "asset/base/aseprite_resources/champions/knight");
    assert_eq!(assets.animation_asset, "asset/base/aseprite_resources/champions/knight#anim");
    assert_eq!(assets.sheet_asset, "asset/base/aseprite_resources/champions/knight#sheet");
}

#[test]
fn png_files_are_recognised() {
    assert!(has_png_signature(&PNG.to_vec()));
    assert!(has_png_signature(&PNG[..8].to_vec()));
    assert!(!has_png_signature(&PNG[..7].to_vec()));
    assert!(!has_png_signature(&vec![]));
    for i in 0..8 {
        let mut bytes = PNG.to_vec();
        bytes[i] ^= 1;
        assert!(!has_png_signature(&bytes));
    }
}

#[test]
fn names_are_read_by_language() {
    let text = "{\"en\":{\"description\":{\"archer\":{\"name\":\"Archer\"}}},\
                \"de\":{\"description\":{\"archer\":{\"name\":\"  \"}}},\
                \"fr\":{\"description\":{\"archer\":{\"name\":5}}},\
                \"ja\":{\"description\":{\"archer\":{\"name\":\" 弓手 \"}}},\"xx\":null}";
    let expected = json("{\"en\":\"Archer\",\"ja\":\" 弓手 \"}");
    assert_eq!(mod_champion_names(Some(text), "archer"), expected);
    assert_eq!(champion_names(&json(text), "archer"), expected);
    assert_eq!(mod_champion_names(Some(text), "knight"), json("{}"));
    assert_eq!(mod_champion_names(Some("{"), "archer"), json("{}"));
    assert_eq!(mod_champion_names(Some("[1]"), "archer"), json("{}"));
    assert_eq!(mod_champion_names(None, "archer"), json("{}"));
}

#[test]
fn names_are_found_as_json_pointers_lead() {
    let doc = |description: &str| json(&format!("{{\"en\":{{\"description\":{description}}}}}"));
    let named = json("{\"en\":\"N\"}");
    assert_eq!(champion_names(&doc("{\"a\":{\"b\":{\"name\":\"N\"}}}"), "a/b"), named);
    assert_eq!(champion_names(&doc("{\"a/b\":{\"name\":\"N\"}}"), "a~1b"), named);
    assert_eq!(champion_names(&doc("{\"a~b\":{\"name\":\"N\"}}"), "a~0b"), named);
    assert_eq!(champion_names(&doc("{\"a~1\":{\"name\":\"N\"}}"), "a~01"), named);
    assert_eq!(champion_names(&doc("[0,{\"name\":\"N\"}]"), "1"), named);
    for id in ["01", "+1", "2", "-1", "", "one", "18446744073709551616"] {
        assert_eq!(champion_names(&doc("[0,{\"name\":\"N\"}]"), id), json("{}"), "{id}");
    }
    assert_eq!(champion_names(&doc("{\"\":{\"name\":\"N\"}}"), ""), named);
}

#[test]
fn nothing_found_is_not_resolved() {
    let others = vec![
        loaded("mod/archer", Some("C:/a.ase"), None),
        loaded("mod/archer#sheet", None, Some(12)),
        loaded("mod/archer2", None, Some(1)),
        loaded("x", None, None),
    ];
    let (entry, picture) = probe(no_art(), others);
    assert_eq!(
        entry,
        json(
            "{\"championId\":\"archer\",\"asset\":\"mod/archer\",\"status\":\"not-resolved\",\
             \"animationAsset\":\"mod/archer#anim\",\"sheetAsset\":\"mod/archer#sheet\",\
             \"relatedAssets\":[{\"name\":\"mod/archer\",\"tag\":\"Ase\",\"filePath\":\"C:/a.ase\",\"rawBytes\":0},\
             {\"name\":\"mod/archer#sheet\",\"tag\":\"Ase\",\"filePath\":null,\"rawBytes\":12}],\
             \"names\":{\"en\":\"Archer\"}}"
        )
    );
    assert_eq!(picture, None);
}

#[test]
fn animations_without_a_picture() {
    let mut art = no_art();
    art.registered = Some(RegisteredAnimations { json: None });
    art.sheet = Some(b"GIF89a".to_vec());
    let (entry, picture) = probe(art, vec![]);
    assert_eq!(entry["status"], json("\"animation-only\""));
    assert_eq!(entry["relatedAssets"], json("[]"));
    assert_eq!(picture, None);
}

#[test]
fn a_picture_without_animations() {
    let mut art = no_art();
    art.sheet = Some(PNG.to_vec());
    let (entry, picture) = probe(art, vec![]);
    assert_eq!(
        entry,
        json(
            "{\"championId\":\"archer\",\"asset\":\"mod/archer\",\"status\":\"sheet-only\",\
             \"pngBytes\":9,\"relatedAssets\":[],\"names\":{\"en\":\"Archer\"}}"
        )
    );
    assert_eq!(picture, None);
}

#[test]
fn registered_art_resolves() {
    let mut art = no_art();
    art.sheet = Some(PNG.to_vec());
    art.registered = Some(RegisteredAnimations { json: Some(json("{\"idle\":[1]}")) });
    let (entry, picture) = probe(art, vec![loaded("mod/archer", None, None)]);
    assert_eq!(
        entry,
        json(
            "{\"championId\":\"archer\",\"asset\":\"mod/archer\",\"status\":\"resolved\",\
             \"pngFile\":\"portrait_probe/archer.png\",\"pngBytes\":9,\"animations\":{\"idle\":[1]},\
             \"names\":{\"en\":\"Archer\"}}"
        )
    );
    assert_eq!(picture, Some(("portrait_probe/archer.png".to_string(), PNG.to_vec())));
}

#[test]
fn source_art_comes_before_registered_art() {
    let art = PortraitArt {
        retained: Some(SourceArt { png: vec![1], animations: Some(json("1")) }),
        from_file: Some(SourceArt { png: vec![2, 2], animations: Some(json("2")) }),
        sheet: Some(PNG.to_vec()),
        registered: Some(RegisteredAnimations { json: Some(json("3")) }),
    };
    let (entry, picture) = probe(art, vec![]);
    assert_eq!(entry["animations"], json("1"));
    assert_eq!(picture.unwrap().1, vec![1]);

    let art = PortraitArt {
        retained: None,
        from_file: Some(SourceArt { png: vec![2, 2], animations: Some(json("2")) }),
        sheet: Some(PNG.to_vec()),
        registered: Some(RegisteredAnimations { json: Some(json("3")) }),
    };
    let (entry, picture) = probe(art, vec![]);
    assert_eq!(entry["animations"], json("2"));
    assert_eq!(entry["pngBytes"], json("2"));
    assert_eq!(picture.unwrap().1, vec![2, 2]);
}

#[test]
fn source_art_whose_animations_cannot_be_written_is_a_sheet_only() {
    let art = PortraitArt {
        retained: Some(SourceArt { png: vec![1], animations: None }),
        from_file: None,
        sheet: None,
        registered: Some(RegisteredAnimations { json: Some(json("3")) }),
    };
    let (entry, picture) = probe(art, vec![]);
    assert_eq!(entry["status"], json("\"sheet-only\""));
    assert_eq!(picture, None);
}

#[test]
fn the_document_of_portraits_is_indented() {
    assert_eq!(
        PortraitProbe::new().finish(),
        "{\n  \"champions\": [],\n  \"schemaVersion\": 2\n}"
    );
    assert_eq!(PORTRAIT_PROBE_FILE, "portrait_probe.json");
}

#[test]
fn champions_have_their_own_pictures() {
    let mut probe = PortraitProbe::new();
    let mut files = Vec::new();
    for id in ["a", "b"] {
        let art = PortraitArt {
            retained: Some(SourceArt { png: vec![1], animations: Some(json("1")) }),
            from_file: None,
            sheet: None,
            registered: None,
        };
        let assets = portrait_assets(id, &vec![]);
        files.push(probe.add_champion(id, &assets, art, json("{}"), &vec![]).unwrap().name);
    }
    assert_eq!(files, vec!["portrait_probe/a.png", "portrait_probe/b.png"]);
    let document = json(&probe.finish());
    assert_eq!(document["champions"][0]["championId"], json("\"a\""));
    assert_eq!(document["champions"][1]["championId"], json("\"b\""));
}

#[test]
fn art_and_what_is_made_from_it_are_related() {
    let others = vec![
        loaded("mod/archer#anim", None, None),
        loaded("mod/archer#sheet", None, None),
        loaded("mod/archer", None, None),
        loaded("mod/arche#r", None, None),
    ];
    let (entry, _) = probe(no_art(), others);
    let names: Vec<&str> = entry["relatedAssets"]
        .as_array()
        .unwrap()
        .iter()
        .map(|asset| asset["name"].as_str().unwrap())
        .collect();
    assert_eq!(names, vec!["mod/archer#anim", "mod/archer#sheet", "mod/archer"]);
}

#[test]
fn the_document_is_read_back_from_its_text() {
    let animations = json("{\"idle\":[[0.5,1e+20,-2],[],{}],\"b \\\"\\n\":\" x \"}");
    let art = PortraitArt {
        retained: Some(SourceArt { png: PNG.to_vec(), animations: Some(animations.clone()) }),
        ..no_art()
    };
    let (entry, _) = probe(art, vec![]);
    assert_eq!(entry["animations"], animations);
}
