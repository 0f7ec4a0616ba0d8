//! Portraits: which art of a champion the game has loaded, and what it resolves to.

use crate::json::{
    field, fields_of, from_str, get_list, get_str, json_of, jsons_of, list_field, map_insert,
    map_keys, map_new, no_fields, or_null, parsed, pointed, pointer_step, pointer_walk, pretty_text,
    put, replaced_escape, reread, text_field, text_value, to_string_pretty, value_as_object,
    value_as_str, value_clone, value_default, value_from_list, value_from_map, value_from_u64,
    value_get, value_is_null, value_or_null, value_pointer, whole, Json, READ_LEVELS,
};
use crate::text::{
    blank, is_blank, is_white_space, lemma_before_all, lemma_push_contains, lemma_split, same_text,
    split_on, starts_with, texts,
};
use vstd::prelude::*;

verus! {

/// The sprite that a mod gives to a champion.
pub struct ModSprite {
    pub id: String,
    pub sprite: String,
}

/// The names under which the art of a champion is registered.
pub struct PortraitAssets {
    /// The source art.
    pub asset: String,
    /// The animation rectangles made from it.
    pub animation_asset: String,
    /// The sprite sheet made from it.
    pub sheet_asset: String,
}

/// An asset that the game has loaded.
pub struct LoadedAsset {
    pub name: String,
    pub tag: serde_json::Value,
    pub file_path: Option<String>,
    /// How many raw bytes are kept of it, if any are.
    pub raw_bytes: Option<usize>,
}

/// Art read from its source: the sheet as PNG, and the animations where they could be
/// written.
pub struct SourceArt {
    pub png: Vec<u8>,
    pub animations: Option<serde_json::Value>,
}

/// Animations that are registered with the game, where they could be written.
pub struct RegisteredAnimations {
    pub json: Option<serde_json::Value>,
}

/// All art of a champion that was found.
pub struct PortraitArt {
    /// The source art, where the game still holds it.
    pub retained: Option<SourceArt>,
    /// The source art read again from its file.
    pub from_file: Option<SourceArt>,
    /// The raw bytes of the registered sheet.
    pub sheet: Option<Vec<u8>>,
    /// The registered animations.
    pub registered: Option<RegisteredAnimations>,
}

/// A picture to be written.
pub struct PngFile {
    pub name: String,
    pub bytes: Vec<u8>,
}

/// The bytes that every PNG file begins with.
pub open spec fn png_signature() -> Seq<u8> {
    seq![0x89u8, 0x50u8, 0x4eu8, 0x47u8, 0x0du8, 0x0au8, 0x1au8, 0x0au8]
}

/// Whether bytes begin as a PNG file does.
pub open spec fn is_png(bytes: Seq<u8>) -> bool {
    png_signature().is_prefix_of(bytes)
}

/// The sprite that the last entry for a champion gives, of those with an id and a
/// sprite.
pub open spec fn sprite_in(entries: Seq<Json>, id: Seq<char>) -> Option<Seq<char>>
    decreases entries.len(),
{
    if entries.len() == 0 {
        None
    } else if text_field(entries.last(), "id"@) == Some(id) && text_field(
        entries.last(),
        "sprite"@,
    ) is Some {
        text_field(entries.last(), "sprite"@)
    } else {
        sprite_in(entries.drop_last(), id)
    }
}

/// The sprite that the mods of a balance sheet give to a champion.
pub open spec fn sprite_of(sheet: Json, id: Seq<char>) -> Option<Seq<char>> {
    match list_field(sheet, "mod_champions"@) {
        Some(entries) => sprite_in(entries, id),
        None => None,
    }
}

/// The sprite that a list of sprites gives to a champion: that of its last entry.
pub open spec fn listed_sprite(sprites: Seq<ModSprite>, id: Seq<char>) -> Option<Seq<char>>
    decreases sprites.len(),
{
    if sprites.len() == 0 {
        None
    } else if sprites.last().id@ == id {
        Some(sprites.last().sprite@)
    } else {
        listed_sprite(sprites.drop_last(), id)
    }
}

/// The name of a champion's source art: its mod's sprite, or the game's own art.
pub open spec fn asset_name(sprite: Option<Seq<char>>, id: Seq<char>) -> Seq<char> {
    match sprite {
        Some(name) => name,
        None => "asset/base/aseprite_resources/champions/"@ + id,
    }
}

/// Whether an asset is the art of the given name, or was made from it.
pub open spec fn is_related(name: Seq<char>, asset: Seq<char>) -> bool {
    name == asset || (asset + "#"@).is_prefix_of(name)
}

/// How a loaded asset is listed.
pub open spec fn loaded_json(loaded: LoadedAsset) -> Json {
    Json::Object(
        no_fields().insert("name"@, Json::Text(loaded.name@)).insert(
            "tag"@,
            json_of(loaded.tag),
        ).insert(
            "filePath"@,
            match loaded.file_path {
                Some(path) => Json::Text(path@),
                None => Json::Null,
            },
        ).insert(
            "rawBytes"@,
            whole(
                match loaded.raw_bytes {
                    Some(n) => n as nat,
                    None => 0,
                },
            ),
        ),
    )
}

/// The assets related to an art, in the order in which they are loaded.
pub open spec fn related(loaded: Seq<LoadedAsset>, asset: Seq<char>) -> Seq<Json>
    decreases loaded.len(),
{
    if loaded.len() == 0 {
        Seq::empty()
    } else if is_related(loaded.last().name@, asset) {
        related(loaded.drop_last(), asset).push(loaded_json(loaded.last()))
    } else {
        related(loaded.drop_last(), asset)
    }
}

/// The name of a champion in one language of a text file. A blank name counts as
/// none.
pub open spec fn name_in(language: Json, id: Seq<char>) -> Option<Seq<char>> {
    match pointed(language, "/description/"@ + id + "/name"@) {
        Some(Json::Text(name)) => if is_blank(name) {
            None
        } else {
            Some(name)
        },
        _ => None,
    }
}

/// The name of a champion in a language of a document.
pub open spec fn name_of(document: Json, id: Seq<char>, language: Seq<char>) -> Option<Seq<char>> {
    match field(document, language) {
        Some(entry) => name_in(entry, id),
        None => None,
    }
}

/// The names of a champion by language.
pub open spec fn names_json(document: Json, id: Seq<char>) -> Json {
    Json::Object(
        Map::new(
            |language: Seq<char>| name_of(document, id, language) is Some,
            |language: Seq<char>| Json::Text(name_of(document, id, language)->0),
        ),
    )
}

/// The sprites that the mods of a balance sheet give to champions.
pub fn mod_sprites(sheet: &serde_json::Value) -> (sprites: Vec<ModSprite>)
    ensures
        forall|id: Seq<char>| #[trigger]
            listed_sprite(sprites@, id) == sprite_of(json_of(*sheet), id),
{
    let mut sprites: Vec<ModSprite> = Vec::new();
    let Some(entries) = get_list(sheet, "mod_champions") else {
        return sprites;
    };
    let mut i: usize = 0;
    let ghost list = jsons_of(entries@);
    while i < entries.len()
        invariant
            i <= entries.len(),
            list == jsons_of(entries@),
            forall|id: Seq<char>| #[trigger]
                listed_sprite(sprites@, id) == sprite_in(list.take(i as int), id),
        decreases entries.len() - i,
    {
        let entry = &entries[i];
        assert(list.take(i + 1).drop_last() == list.take(i as int));
        assert(list.take(i + 1).last() == json_of(*entry));
        let ghost before = sprites@;
        if let (Some(id), Some(sprite)) = (get_str(entry, "id"), get_str(entry, "sprite")) {
            sprites.push(ModSprite { id: id.to_string(), sprite: sprite.to_string() });
            assert(sprites@.drop_last() == before);
        }
        assert forall|id: Seq<char>| #[trigger] listed_sprite(sprites@, id) == sprite_in(
            list.take(i + 1),
            id,
        ) by {
            assert(listed_sprite(before, id) == sprite_in(list.take(i as int), id));
        }
        i += 1;
    }
    assert(list.take(i as int) == list);
    sprites
}

/// The names under which the art of a champion is registered.
pub fn portrait_assets(champion_id: &str, sprites: &Vec<ModSprite>) -> (assets: PortraitAssets)
    ensures
        assets.asset@ == asset_name(listed_sprite(sprites@, champion_id@), champion_id@),
        assets.animation_asset@ == assets.asset@ + "#anim"@,
        assets.sheet_asset@ == assets.asset@ + "#sheet"@,
{
    let mut i: usize = sprites.len();
    let mut asset: Option<String> = None;
    assert(sprites@.take(i as int) == sprites@);
    while i > 0 && asset.is_none()
        invariant
            i <= sprites.len(),
            match asset {
                Some(name) => listed_sprite(sprites@, champion_id@) == Some(name@),
                None => listed_sprite(sprites@, champion_id@) == listed_sprite(
                    sprites@.take(i as int),
                    champion_id@,
                ),
            },
        decreases i,
    {
        i -= 1;
        assert(sprites@.take(i + 1).drop_last() == sprites@.take(i as int));
        if same_text(sprites[i].id.as_str(), champion_id) {
            asset = Some(sprites[i].sprite.clone());
        }
    }
    let asset = match asset {
        Some(name) => name,
        None => {
            let mut name = "asset/base/aseprite_resources/champions/".to_string();
            name.append(champion_id);
            name
        },
    };
    let mut animation_asset = asset.clone();
    animation_asset.append("#anim");
    let mut sheet_asset = asset.clone();
    sheet_asset.append("#sheet");
    PortraitAssets { asset, animation_asset, sheet_asset }
}

/// Whether bytes begin as a PNG file does.
pub fn has_png_signature(bytes: &Vec<u8>) -> (png: bool)
    ensures
        png == is_png(bytes@),
{
    if bytes.len() < 8 {
        return false;
    }
    let png = bytes[0] == 0x89 && bytes[1] == 0x50 && bytes[2] == 0x4e && bytes[3] == 0x47
        && bytes[4] == 0x0d && bytes[5] == 0x0a && bytes[6] == 0x1a && bytes[7] == 0x0a;
    proof {
        let start = bytes@.subrange(0, 8);
        if png {
            assert(png_signature() =~= start);
        }
        if is_png(bytes@) {
            assert(forall|i: int| 0 <= i < 8 ==> start[i] == bytes@[i]);
            assert(png_signature()[0] == start[0]);
            assert(png_signature()[1] == start[1]);
            assert(png_signature()[2] == start[2]);
            assert(png_signature()[3] == start[3]);
            assert(png_signature()[4] == start[4]);
            assert(png_signature()[5] == start[5]);
            assert(png_signature()[6] == start[6]);
            assert(png_signature()[7] == start[7]);
        }
    }
    png
}

/// The names of a champion by language, from the text file of its mod.
pub fn champion_names(document: &serde_json::Value, champion_id: &str) -> (names: serde_json::Value)
    ensures
        json_of(names) == names_json(json_of(*document), champion_id@),
{
    let mut names = map_new();
    let ghost doc = json_of(*document);
    let mut path = "/description/".to_string();
    path.append(champion_id);
    path.append("/name");
    let Some(languages) = value_as_object(document) else {
        assert(fields_of(names) =~= names_json(doc, champion_id@)->Object_0);
        return value_from_map(names);
    };
    let keys = map_keys(languages);
    let ghost all = texts(keys@);
    let mut i: usize = 0;
    while i < keys.len()
        invariant
            i <= keys.len(),
            all == texts(keys@),
            doc == json_of(*document),
            path@ == "/description/"@ + champion_id@ + "/name"@,
            forall|v: Seq<char>| #[trigger]
                fields_of(names).contains_key(v) <==> all.take(i as int).contains(v) && name_of(
                    doc,
                    champion_id@,
                    v,
                ) is Some,
            forall|v: Seq<char>| #[trigger]
                fields_of(names).contains_key(v) ==> fields_of(names)[v] == Json::Text(
                    name_of(doc, champion_id@, v)->0,
                ),
        decreases keys.len() - i,
    {
        let language = &keys[i];
        assert(all.take(i + 1) == all.take(i as int).push(language@));
        if let Some(entry) = value_get(document, language.as_str()) {
            if let Some(target) = value_pointer(entry, path.as_str()) {
                if let Some(name) = value_as_str(target) {
                    if !blank(name) {
                        map_insert(&mut names, language.clone(), text_value(name));
                    }
                }
            }
        }
        proof {
            lemma_push_contains(all.take(i as int), language@);
        }
        i += 1;
    }
    assert(all.take(i as int) == all);
    assert(fields_of(names) =~= names_json(doc, champion_id@)->Object_0);
    value_from_map(names)
}

/// The names of a champion by language, from the contents of its mod's text file. A
/// file that is missing or that holds no document gives no names.
pub fn mod_champion_names(text: Option<&str>, champion_id: &str) -> (names: serde_json::Value)
    ensures
        json_of(names) == (match text {
            Some(contents) => match parsed(contents@) {
                Some(document) => names_json(document, champion_id@),
                None => Json::Object(no_fields()),
            },
            None => Json::Object(no_fields()),
        }),
{
    if let Some(contents) = text {
        if let Ok(document) = from_str(contents) {
            return champion_names(&document, champion_id);
        }
    }
    value_from_map(map_new())
}

fn related_assets(loaded: &Vec<LoadedAsset>, asset: &str) -> (list: serde_json::Value)
    ensures
        json_of(list) == Json::Array(related(loaded@, asset@)),
{
    let mut start = asset.to_string();
    start.append("#");
    let mut list: Vec<serde_json::Value> = Vec::new();
    let mut i: usize = 0;
    while i < loaded.len()
        invariant
            i <= loaded.len(),
            start@ == asset@ + "#"@,
            jsons_of(list@) == related(loaded@.take(i as int), asset@),
        decreases loaded.len() - i,
    {
        let item = &loaded[i];
        assert(loaded@.take(i + 1).drop_last() == loaded@.take(i as int));
        if same_text(item.name.as_str(), asset) || starts_with(item.name.as_str(), start.as_str()) {
            let path = match &item.file_path {
                Some(path) => text_value(path.as_str()),
                None => value_default(),
            };
            let raw_bytes: usize = match item.raw_bytes {
                Some(n) => n,
                None => 0,
            };
            let mut entry = map_new();
            put(&mut entry, "name", text_value(item.name.as_str()));
            put(&mut entry, "tag", value_clone(&item.tag));
            put(&mut entry, "filePath", path);
            put(&mut entry, "rawBytes", value_from_u64(raw_bytes as u64));
            let ghost before = list@;
            let value = value_from_map(entry);
            list.push(value);
            assert(jsons_of(list@) =~= jsons_of(before).push(json_of(value)));
        }
        i += 1;
    }
    assert(loaded@.take(i as int) == loaded@);
    value_from_list(list)
}

impl SourceArt {
    /// The animations as they are written; null where they could not be.
    pub open spec fn animation(self) -> Json {
        or_null(
            match self.animations {
                Some(value) => Some(json_of(value)),
                None => None,
            },
        )
    }
}

impl PortraitArt {
    /// The source art: what the game still holds, else what was read from the file.
    pub open spec fn source(self) -> Option<SourceArt> {
        match self.retained {
            Some(art) => Some(art),
            None => self.from_file,
        }
    }

    /// The picture: the sheet of the source art, else the registered sheet where it is
    /// a PNG file.
    pub open spec fn picture(self) -> Option<Seq<u8>> {
        match self.source() {
            Some(art) => Some(art.png@),
            None => match self.sheet {
                Some(bytes) => if is_png(bytes@) {
                    Some(bytes@)
                } else {
                    None
                },
                None => None,
            },
        }
    }

    /// The animations of the picture: those of the source art, else the registered
    /// ones.
    pub open spec fn animation(self) -> Json {
        match self.source() {
            Some(art) => art.animation(),
            None => match self.registered {
                Some(animations) => or_null(
                    match animations.json {
                        Some(value) => Some(json_of(value)),
                        None => None,
                    },
                ),
                None => Json::Null,
            },
        }
    }

    /// Whether the portrait resolves: there is a picture, and its animations.
    pub open spec fn resolves(self) -> bool {
        self.picture() is Some && !(self.animation() is Null)
    }

    /// How far the art of a champion goes.
    pub open spec fn status(self) -> Seq<char> {
        if self.picture() is None {
            if self.registered is Some {
                "animation-only"@
            } else {
                "not-resolved"@
            }
        } else if self.animation() is Null {
            "sheet-only"@
        } else {
            "resolved"@
        }
    }
}

/// The file that the picture of a champion is written to.
pub open spec fn picture_file(id: Seq<char>) -> Seq<char> {
    "portrait_probe/"@ + id + ".png"@
}

/// What is said of a champion's portrait.
pub open spec fn portrait_json(
    id: Seq<char>,
    assets: PortraitAssets,
    art: PortraitArt,
    names: Json,
    loaded: Seq<LoadedAsset>,
) -> Json {
    let start = no_fields().insert("championId"@, Json::Text(id)).insert(
        "asset"@,
        Json::Text(assets.asset@),
    ).insert("status"@, Json::Text(art.status()));
    let others = Json::Array(related(loaded, assets.asset@));
    Json::Object(
        if art.picture() is None {
            start.insert("animationAsset"@, Json::Text(assets.animation_asset@)).insert(
                "sheetAsset"@,
                Json::Text(assets.sheet_asset@),
            ).insert("relatedAssets"@, others).insert("names"@, names)
        } else if art.animation() is Null {
            start.insert("pngBytes"@, whole(art.picture()->0.len())).insert(
                "relatedAssets"@,
                others,
            ).insert("names"@, names)
        } else {
            start.insert("pngFile"@, Json::Text(picture_file(id))).insert(
                "pngBytes"@,
                whole(art.picture()->0.len()),
            ).insert("animations"@, art.animation()).insert("names"@, names)
        },
    )
}

/// The portraits as a document.
pub open spec fn probe_json(portraits: Seq<Json>) -> Json {
    Json::Object(
        no_fields().insert("schemaVersion"@, whole(2)).insert(
            "champions"@,
            Json::Array(portraits),
        ),
    )
}

/// The file that the document of all portraits is written to.
pub const PORTRAIT_PROBE_FILE: &'static str = "portrait_probe.json";

/// The portraits gathered so far.
pub struct PortraitProbe {
    results: Vec<serde_json::Value>,
}

impl PortraitProbe {
    /// What is said of each champion's portrait, in order.
    pub closed spec fn portraits(self) -> Seq<Json> {
        jsons_of(self.results@)
    }

    /// No portraits yet.
    pub fn new() -> (probe: Self)
        ensures
            probe.portraits() == Seq::<Json>::empty(),
    {
        let probe = PortraitProbe { results: Vec::new() };
        assert(probe.portraits() =~= Seq::<Json>::empty());
        probe
    }

    /// Adds what is to be said of a champion's portrait. A portrait that resolves
    /// comes with a picture to be written; no other does.
    pub fn add_champion(
        &mut self,
        champion_id: &str,
        assets: &PortraitAssets,
        art: PortraitArt,
        names: serde_json::Value,
        loaded: &Vec<LoadedAsset>,
    ) -> (picture: Option<PngFile>)
        ensures
            final(self).portraits() == old(self).portraits().push(
                portrait_json(champion_id@, *assets, art, json_of(names), loaded@),
            ),
            match picture {
                Some(file) => art.resolves() && file.name@ == picture_file(champion_id@)
                    && art.picture() == Some(file.bytes@),
                None => !art.resolves(),
            },
    {
        let others = related_assets(loaded, assets.asset.as_str());
        let registered = art.registered.is_some();
        let (png, animation) = chosen_art(art);
        let mut entry = map_new();
        put(&mut entry, "championId", text_value(champion_id));
        put(&mut entry, "asset", text_value(assets.asset.as_str()));
        let mut picture: Option<PngFile> = None;
        match png {
            None => {
                let status = if registered {
                    "animation-only"
                } else {
                    "not-resolved"
                };
                put(&mut entry, "status", text_value(status));
                put(&mut entry, "animationAsset", text_value(assets.animation_asset.as_str()));
                put(&mut entry, "sheetAsset", text_value(assets.sheet_asset.as_str()));
                put(&mut entry, "relatedAssets", others);
            },
            Some(bytes) => {
                if value_is_null(&animation) {
                    put(&mut entry, "status", text_value("sheet-only"));
                    put(&mut entry, "pngBytes", value_from_u64(bytes.len() as u64));
                    put(&mut entry, "relatedAssets", others);
                } else {
                    let mut name = "portrait_probe/".to_string();
                    name.append(champion_id);
                    name.append(".png");
                    put(&mut entry, "status", text_value("resolved"));
                    put(&mut entry, "pngFile", text_value(name.as_str()));
                    put(&mut entry, "pngBytes", value_from_u64(bytes.len() as u64));
                    put(&mut entry, "animations", animation);
                    picture = Some(PngFile { name, bytes });
                }
            },
        }
        put(&mut entry, "names", names);
        let value = value_from_map(entry);
        let ghost before = self.results@;
        self.results.push(value);
        assert(jsons_of(self.results@) =~= jsons_of(before).push(json_of(value)));
        picture
    }

    /// The document of all portraits, as it is written. What is read in it is the
    /// document, each number as it is read ([`reread`]).
    pub fn finish(self) -> (contents: String)
        ensures
            contents@ == pretty_text(probe_json(self.portraits())),
            parsed(contents@) == reread(probe_json(self.portraits()), READ_LEVELS as nat),
    {
        let mut payload = map_new();
        put(&mut payload, "schemaVersion", value_from_u64(2));
        put(&mut payload, "champions", value_from_list(self.results));
        match to_string_pretty(&value_from_map(payload)) {
            Ok(text) => text,
            Err(_) => String::new(),
        }
    }
}

/// The picture and the animations that stand for a champion.
fn chosen_art(art: PortraitArt) -> (chosen: (Option<Vec<u8>>, serde_json::Value))
    ensures
        match chosen.0 {
            Some(bytes) => art.picture() == Some(bytes@),
            None => art.picture() is None,
        },
        json_of(chosen.1) == art.animation(),
{
    let source = match art.retained {
        Some(retained) => Some(retained),
        None => art.from_file,
    };
    match source {
        Some(found) => (Some(found.png), value_or_null(found.animations)),
        None => {
            let png = match art.sheet {
                Some(bytes) => if has_png_signature(&bytes) {
                    Some(bytes)
                } else {
                    None
                },
                None => None,
            };
            let animation = match art.registered {
                Some(registered) => value_or_null(registered.json),
                None => value_default(),
            };
            (png, animation)
        },
    }
}

/// A text without tildes holds no escapes to replace.
proof fn lemma_nothing_escaped(s: Seq<char>, mark: char, by: char)
    requires
        !s.contains('~'),
    ensures
        replaced_escape(s, mark, by) == s,
    decreases s.len(),
{
    if s.len() > 0 {
        assert(s[0] != '~');
        assert forall|c: char| s.skip(1).contains(c) implies s.contains(c) by {
            let i = choose|i: int| 0 <= i < s.skip(1).len() && s.skip(1)[i] == c;
            assert(s[i + 1] == c);
        }
        lemma_nothing_escaped(s.skip(1), mark, by);
        assert(seq![s[0]] + s.skip(1) =~= s);
    }
}

/// The name of a champion whose id holds neither a slash nor a tilde stands, in each
/// language, in the entry `name` of the entry of the champion of the entry
/// `description`.
pub proof fn law_names_stand_under_the_id(language: Json, id: Seq<char>)
    requires
        !id.contains('/'),
        !id.contains('~'),
    ensures
        pointed(language, "/description/"@ + id + "/name"@) == (match pointer_step(
            language,
            "description"@,
        ) {
            Some(descriptions) => match pointer_step(descriptions, id) {
                Some(champion) => pointer_step(champion, "name"@),
                None => None,
            },
            None => None,
        }),
{
    reveal_strlit("/description/");
    reveal_strlit("description");
    reveal_strlit("/name");
    reveal_strlit("name");
    let path = "/description/"@ + id + "/name"@;
    let slash = seq!['/'];
    let none = Seq::<char>::empty();
    assert("/description/"@ =~= slash + "description"@ + slash);
    assert("/name"@ =~= slash + "name"@);
    assert(path =~= none + slash + ("description"@ + slash + (id + slash + "name"@)));
    assert(!"description"@.contains('/') && !"description"@.contains('~'));
    assert(!"name"@.contains('/') && !"name"@.contains('~'));
    lemma_split(none, "description"@ + slash + (id + slash + "name"@), '/');
    lemma_split("description"@, id + slash + "name"@, '/');
    lemma_split(id, "name"@, '/');
    lemma_before_all("name"@, '/');
    let tokens = split_on(path, '/').skip(1);
    assert(tokens =~= seq!["description"@, id, "name"@]);
    lemma_nothing_escaped("description"@, '1', '/');
    lemma_nothing_escaped("description"@, '0', '~');
    lemma_nothing_escaped(id, '1', '/');
    lemma_nothing_escaped(id, '0', '~');
    lemma_nothing_escaped("name"@, '1', '/');
    lemma_nothing_escaped("name"@, '0', '~');
    assert(tokens.skip(1) =~= seq![id, "name"@]);
    assert(tokens.skip(1).skip(1) =~= seq!["name"@]);
    assert(tokens.skip(1).skip(1).skip(1) =~= Seq::<Seq<char>>::empty());
    reveal_with_fuel(pointer_walk, 4);
}

/// The animations and the sheet that are made from an art are related to it, and so
/// is the art itself.
pub proof fn law_made_assets_are_related(asset: Seq<char>)
    ensures
        is_related(asset, asset),
        is_related(asset + "#anim"@, asset),
        is_related(asset + "#sheet"@, asset),
{
    reveal_strlit("#");
    reveal_strlit("#anim");
    reveal_strlit("#sheet");
    assert(asset + "#"@ =~= (asset + "#anim"@).subrange(0, asset.len() as int + 1));
    assert(asset + "#"@ =~= (asset + "#sheet"@).subrange(0, asset.len() as int + 1));
}

/// A portrait is said to be resolved exactly where it resolves, that is, where its
/// picture is written.
pub proof fn law_resolved_means_written(art: PortraitArt)
    ensures
        art.status() == "resolved"@ <==> art.resolves(),
{
    reveal_strlit("resolved");
    reveal_strlit("sheet-only");
    reveal_strlit("animation-only");
    reveal_strlit("not-resolved");
    assert("resolved"@.len() == 8);
    assert("sheet-only"@.len() == 10);
    assert("animation-only"@.len() == 14);
    assert("not-resolved"@.len() == 12);
}

/// Different champions have different pictures.
pub proof fn law_pictures_have_their_own_files(one: Seq<char>, other: Seq<char>)
    requires
        one != other,
    ensures
        picture_file(one) != picture_file(other),
{
    if picture_file(one) == picture_file(other) {
        let start = "portrait_probe/"@.len() as int;
        let end = ".png"@.len() as int;
        assert(picture_file(one).len() == start + one.len() + end);
        assert(picture_file(other).len() == start + other.len() + end);
        assert(one =~= picture_file(one).subrange(start, start + one.len()));
        assert(other =~= picture_file(other).subrange(start, start + other.len()));
    }
}

/// Whether an entry of the mods' list gives a sprite to a champion: it bears the id, and
/// holds a string under `sprite`.
pub open spec fn gives_sprite(entry: Json, id: Seq<char>) -> bool {
    text_field(entry, "id"@) == Some(id) && text_field(entry, "sprite"@) is Some
}

/// A champion has a sprite exactly where some entry, at whatever place, gives it one, and
/// it is that of the last such entry. Entries for other champions change nothing.
pub proof fn law_last_entry_gives_the_sprite(entries: Seq<Json>, id: Seq<char>)
    ensures
        sprite_in(entries, id) is Some <==> exists|i: int|
            0 <= i < entries.len() && gives_sprite(#[trigger] entries[i], id),
        sprite_in(entries, id) is Some ==> exists|i: int|
            {
                &&& 0 <= i < entries.len()
                &&& gives_sprite(#[trigger] entries[i], id)
                &&& sprite_in(entries, id) == text_field(entries[i], "sprite"@)
                &&& forall|j: int|
                    i < j < entries.len() ==> !gives_sprite(#[trigger] entries[j], id)
            },
    decreases entries.len(),
{
    if entries.len() > 0 {
        let start = entries.drop_last();
        let last = entries.len() - 1;
        assert(entries[last] == entries.last());
        law_last_entry_gives_the_sprite(start, id);
        if gives_sprite(entries.last(), id) {
            assert(gives_sprite(entries[last], id));
        } else {
            assert forall|i: int| 0 <= i < entries.len() && gives_sprite(#[trigger] entries[i], id)
                implies 0 <= i < start.len() && gives_sprite(start[i], id) by {}
            if sprite_in(start, id) is Some {
                let i = choose|i: int|
                    {
                        &&& 0 <= i < start.len()
                        &&& gives_sprite(#[trigger] start[i], id)
                        &&& sprite_in(start, id) == text_field(start[i], "sprite"@)
                        &&& forall|j: int|
                            i < j < start.len() ==> !gives_sprite(#[trigger] start[j], id)
                    };
                assert(gives_sprite(entries[i], id));
                assert forall|j: int| i < j < entries.len() implies !gives_sprite(
                    #[trigger] entries[j],
                    id,
                ) by {
                    if j < last {
                        assert(!gives_sprite(start[j], id));
                    }
                }
            }
        }
    }
}

/// A list of sprites gives a champion the sprite of the last item that bears its id, at
/// whatever place, and none exactly where no item does.
pub proof fn law_last_item_gives_the_sprite(sprites: Seq<ModSprite>, id: Seq<char>)
    ensures
        listed_sprite(sprites, id) is Some <==> exists|i: int|
            0 <= i < sprites.len() && (#[trigger] sprites[i]).id@ == id,
        listed_sprite(sprites, id) is Some ==> exists|i: int|
            {
                &&& 0 <= i < sprites.len()
                &&& (#[trigger] sprites[i]).id@ == id
                &&& listed_sprite(sprites, id) == Some(sprites[i].sprite@)
                &&& forall|j: int| i < j < sprites.len() ==> (#[trigger] sprites[j]).id@ != id
            },
    decreases sprites.len(),
{
    if sprites.len() > 0 {
        let start = sprites.drop_last();
        let last = sprites.len() - 1;
        assert(sprites[last] == sprites.last());
        law_last_item_gives_the_sprite(start, id);
        if sprites.last().id@ != id {
            assert forall|i: int| 0 <= i < sprites.len() && (#[trigger] sprites[i]).id@ == id
                implies 0 <= i < start.len() && start[i].id@ == id by {}
            if listed_sprite(start, id) is Some {
                let i = choose|i: int|
                    {
                        &&& 0 <= i < start.len()
                        &&& (#[trigger] start[i]).id@ == id
                        &&& listed_sprite(start, id) == Some(start[i].sprite@)
                        &&& forall|j: int| i < j < start.len() ==> (#[trigger] start[j]).id@ != id
                    };
                assert(sprites[i].id@ == id);
                assert forall|j: int| i < j < sprites.len() implies (#[trigger] sprites[j]).id@
                    != id by {
                    if j < last {
                        assert(start[j].id@ != id);
                    }
                }
            }
        } else {
            assert(sprites[last].id@ == id);
        }
    }
}

/// The art of a champion is the sprite that the mods' list of the sheet gives it last,
/// wherever it stands in the list. Where the list gives it none, or where there is no
/// list, it is the game's own art, which lies under the id.
pub proof fn law_champions_have_their_own_art(sheet: Json, id: Seq<char>)
    ensures
        list_field(sheet, "mod_champions"@) is None ==> asset_name(sprite_of(sheet, id), id)
            == "asset/base/aseprite_resources/champions/"@ + id,
        list_field(sheet, "mod_champions"@) matches Some(entries) ==> {
            &&& forall|i: int|
                0 <= i < entries.len() && gives_sprite(#[trigger] entries[i], id) && (forall|j: int|
                    i < j < entries.len() ==> !gives_sprite(#[trigger] entries[j], id)) ==> Some(
                    asset_name(sprite_of(sheet, id), id),
                ) == text_field(entries[i], "sprite"@)
            &&& (forall|i: int|
                0 <= i < entries.len() ==> !gives_sprite(#[trigger] entries[i], id)) ==> asset_name(
                sprite_of(sheet, id),
                id,
            ) == "asset/base/aseprite_resources/champions/"@ + id
        },
{
    if let Some(entries) = list_field(sheet, "mod_champions"@) {
        law_last_entry_gives_the_sprite(entries, id);
        assert forall|i: int|
            0 <= i < entries.len() && gives_sprite(#[trigger] entries[i], id) && (forall|j: int|
                i < j < entries.len() ==> !gives_sprite(#[trigger] entries[j], id)) implies Some(
            asset_name(sprite_of(sheet, id), id),
        ) == text_field(entries[i], "sprite"@) by {
            let k = choose|k: int|
                {
                    &&& 0 <= k < entries.len()
                    &&& gives_sprite(#[trigger] entries[k], id)
                    &&& sprite_in(entries, id) == text_field(entries[k], "sprite"@)
                    &&& forall|j: int|
                        k < j < entries.len() ==> !gives_sprite(#[trigger] entries[j], id)
                };
            assert(i == k);
        }
    }
}

/// An asset is related to an art exactly where it bears its name, alone or with a hash
/// sign and more behind it.
pub proof fn law_related_names_begin_alike(name: Seq<char>, asset: Seq<char>)
    ensures
        is_related(name, asset) <==> name == asset || (name.len() > asset.len() && name.take(
            asset.len() as int,
        ) == asset && name[asset.len() as int] == '#'),
{
    reveal_strlit("#");
    let start = asset + "#"@;
    assert(start.len() == asset.len() + 1);
    if start.is_prefix_of(name) {
        assert(name.subrange(0, start.len() as int) == start);
        assert(name.take(asset.len() as int) =~= asset) by {
            assert forall|i: int| 0 <= i < asset.len() implies name[i] == asset[i] by {
                assert(name.subrange(0, start.len() as int)[i] == start[i]);
            }
        }
        assert(name.subrange(0, start.len() as int)[asset.len() as int] == '#');
    }
    if name.len() > asset.len() && name.take(asset.len() as int) == asset
        && name[asset.len() as int] == '#' {
        assert(name.subrange(0, start.len() as int) =~= start) by {
            assert forall|i: int| 0 <= i < start.len() implies name[i] == start[i] by {
                if i < asset.len() {
                    assert(name.take(asset.len() as int)[i] == asset[i]);
                }
            }
        }
    }
}

/// Every related asset is listed, once, and in order: the assets related among a list and
/// then another are those of the first and then those of the other.
pub proof fn law_related_assets_are_all_listed(
    loaded: Seq<LoadedAsset>,
    others: Seq<LoadedAsset>,
    item: LoadedAsset,
    asset: Seq<char>,
)
    ensures
        related(loaded + others, asset) == related(loaded, asset) + related(others, asset),
        is_related(item.name@, asset) ==> related(seq![item], asset) == seq![loaded_json(item)],
        !is_related(item.name@, asset) ==> related(seq![item], asset) == Seq::<Json>::empty(),
        related(Seq::empty(), asset) == Seq::<Json>::empty(),
    decreases others.len(),
{
    reveal_with_fuel(related, 2);
    assert(seq![item].drop_last() =~= Seq::<LoadedAsset>::empty());
    if is_related(item.name@, asset) {
        assert(related(seq![item], asset) =~= seq![loaded_json(item)]);
    }
    if others.len() > 0 {
        law_related_assets_are_all_listed(loaded, others.drop_last(), item, asset);
        assert((loaded + others).drop_last() =~= loaded + others.drop_last());
    } else {
        assert(loaded + others =~= loaded);
    }
    assert(related(loaded + others, asset) =~= related(loaded, asset) + related(others, asset));
}

/// A loaded asset is listed with its name, its tag, its file where it has one, and how
/// many bytes are kept of it.
pub proof fn law_loaded_assets_are_told_in_full(item: LoadedAsset, key: Seq<char>)
    ensures
        field(loaded_json(item), "name"@) == Some(Json::Text(item.name@)),
        field(loaded_json(item), "tag"@) == Some(json_of(item.tag)),
        item.file_path matches Some(path) ==> field(loaded_json(item), "filePath"@) == Some(
            Json::Text(path@),
        ),
        item.file_path is None ==> field(loaded_json(item), "filePath"@) == Some(Json::Null),
        item.raw_bytes matches Some(n) ==> field(loaded_json(item), "rawBytes"@) == Some(
            whole(n as nat),
        ),
        item.raw_bytes is None ==> field(loaded_json(item), "rawBytes"@) == Some(whole(0)),
        field(loaded_json(item), key) is Some ==> key == "name"@ || key == "tag"@ || key
            == "filePath"@ || key == "rawBytes"@,
{
    reveal_strlit("name");
    reveal_strlit("tag");
    reveal_strlit("filePath");
    reveal_strlit("rawBytes");
    assert("name"@.len() == 4 && "tag"@.len() == 3);
    assert("filePath"@.len() == 8 && "rawBytes"@.len() == 8);
    assert("filePath"@[0] == 'f' && "rawBytes"@[0] == 'r');
}

/// A champion has a name in a language exactly where the document holds that language,
/// and in it a string under the champion's name that is not blank. The name is then that
/// string as it is.
pub proof fn law_names_are_taken_over(document: Json, id: Seq<char>, language: Seq<char>)
    ensures
        names_json(document, id) is Object,
        field(names_json(document, id), language) is Some <==> {
            &&& field(document, language) is Some
            &&& pointed(
                field(document, language)->0,
                "/description/"@ + id + "/name"@,
            ) matches Some(Json::Text(name)) && exists|i: int|
                0 <= i < name.len() && !is_white_space(#[trigger] name[i])
        },
        field(names_json(document, id), language) is Some ==> field(
            names_json(document, id),
            language,
        ) == pointed(field(document, language)->0, "/description/"@ + id + "/name"@),
{
}

/// Bytes begin as a PNG file does exactly where the first eight are its signature.
pub proof fn law_png_files_bear_the_signature(bytes: Seq<u8>)
    ensures
        is_png(bytes) <==> bytes.len() >= 8 && bytes.take(8) == seq![
            137u8, 80u8, 78u8, 71u8, 13u8, 10u8, 26u8, 10u8,
        ],
{
    let signature = seq![137u8, 80u8, 78u8, 71u8, 13u8, 10u8, 26u8, 10u8];
    assert(png_signature() =~= signature);
    if bytes.len() >= 8 {
        assert(bytes.take(8) =~= bytes.subrange(0, 8));
    }
}

/// What stands for a champion: the art that the game still holds; else that of the file;
/// else the registered sheet, where it is a PNG file, with the registered animations.
pub proof fn law_the_best_art_is_taken(art: PortraitArt)
    ensures
        art.retained matches Some(source) ==> art.picture() == Some(source.png@) && art.animation()
            == (match source.animations {
            Some(value) => json_of(value),
            None => Json::Null,
        }),
        art.retained is None ==> (art.from_file matches Some(source) ==> art.picture() == Some(
            source.png@,
        ) && art.animation() == (match source.animations {
            Some(value) => json_of(value),
            None => Json::Null,
        })),
        art.retained is None && art.from_file is None ==> {
            &&& art.sheet is None ==> art.picture() is None
            &&& (art.sheet matches Some(bytes) ==> {
                &&& is_png(bytes@) ==> art.picture() == Some(bytes@)
                &&& !is_png(bytes@) ==> art.picture() is None
            })
            &&& art.registered is None ==> art.animation() == Json::Null
            &&& (art.registered matches Some(animations) ==> art.animation() == (
            match animations.json {
                Some(value) => json_of(value),
                None => Json::Null,
            }))
        },
{
}

/// The four outcomes: with a picture and animations a portrait resolves; with a picture
/// alone there is the sheet only; without a picture there are the registered animations
/// only, or nothing.
pub proof fn law_outcomes_go_by_picture_and_animation(art: PortraitArt)
    ensures
        art.picture() is Some && art.animation() != Json::Null ==> art.status() == "resolved"@
            && art.resolves(),
        art.picture() is Some && art.animation() == Json::Null ==> art.status() == "sheet-only"@
            && !art.resolves(),
        art.picture() is None && art.registered is Some ==> art.status() == "animation-only"@
            && !art.resolves(),
        art.picture() is None && art.registered is None ==> art.status() == "not-resolved"@
            && !art.resolves(),
{
}

/// A picture lies in the folder of the pictures, under the id of its champion.
pub proof fn law_pictures_lie_under_the_id(id: Seq<char>)
    ensures
        picture_file(id).len() == id.len() + 19,
        picture_file(id).take(15) == "portrait_probe/"@,
        picture_file(id).subrange(15, 15 + id.len() as int) == id,
        picture_file(id).skip(15 + id.len() as int) == seq!['.', 'p', 'n', 'g'],
{
    reveal_strlit("portrait_probe/");
    reveal_strlit(".png");
    assert(picture_file(id).take(15) =~= "portrait_probe/"@);
    assert(picture_file(id).subrange(15, 15 + id.len() as int) =~= id);
    assert(picture_file(id).skip(15 + id.len() as int) =~= seq!['.', 'p', 'n', 'g']);
}

/// What is said of a portrait: always the champion, its art, the outcome and its names.
/// Where it resolves, also the picture's file and size and the animations. Otherwise the
/// related assets, and the size of the sheet or the assets that were looked for. Nothing
/// else is said.
pub proof fn law_portraits_are_told_in_full(
    id: Seq<char>,
    assets: PortraitAssets,
    art: PortraitArt,
    names: Json,
    loaded: Seq<LoadedAsset>,
    key: Seq<char>,
)
    ensures
        ({
            let told = portrait_json(id, assets, art, names, loaded);
            let others = Some(Json::Array(related(loaded, assets.asset@)));
            &&& field(told, key) is Some ==> key == "championId"@ || key == "asset"@ || key
                == "status"@ || key == "names"@ || key == "pngFile"@ || key == "pngBytes"@ || key
                == "animations"@ || key == "relatedAssets"@ || key == "animationAsset"@ || key
                == "sheetAsset"@
            &&& field(told, "championId"@) == Some(Json::Text(id))
            &&& field(told, "asset"@) == Some(Json::Text(assets.asset@))
            &&& field(told, "status"@) == Some(Json::Text(art.status()))
            &&& field(told, "names"@) == Some(names)
            &&& art.resolves() ==> {
                &&& field(told, "pngFile"@) == Some(Json::Text(picture_file(id)))
                &&& field(told, "pngBytes"@) == Some(whole(art.picture()->0.len()))
                &&& field(told, "animations"@) == Some(art.animation())
                &&& field(told, "relatedAssets"@) is None
            }
            &&& !art.resolves() ==> {
                &&& field(told, "relatedAssets"@) == others
                &&& field(told, "pngFile"@) is None
                &&& field(told, "animations"@) is None
            }
            &&& !art.resolves() && art.picture() is Some ==> field(told, "pngBytes"@) == Some(
                whole(art.picture()->0.len()),
            )
            &&& art.picture() is None ==> {
                &&& field(told, "animationAsset"@) == Some(Json::Text(assets.animation_asset@))
                &&& field(told, "sheetAsset"@) == Some(Json::Text(assets.sheet_asset@))
                &&& field(told, "pngBytes"@) is None
            }
            &&& art.picture() is Some ==> field(told, "animationAsset"@) is None && field(
                told,
                "sheetAsset"@,
            ) is None
        }),
{
    reveal_strlit("championId");
    reveal_strlit("asset");
    reveal_strlit("status");
    reveal_strlit("names");
    reveal_strlit("pngFile");
    reveal_strlit("pngBytes");
    reveal_strlit("animations");
    reveal_strlit("relatedAssets");
    reveal_strlit("animationAsset");
    reveal_strlit("sheetAsset");
    assert("championId"@.len() == 10 && "sheetAsset"@.len() == 10 && "animations"@.len() == 10);
    assert("championId"@[0] == 'c' && "sheetAsset"@[0] == 's' && "animations"@[0] == 'a');
    assert("asset"@.len() == 5 && "names"@.len() == 5);
    assert("asset"@[0] == 'a' && "names"@[0] == 'n');
    assert("status"@.len() == 6 && "pngFile"@.len() == 7 && "pngBytes"@.len() == 8);
    assert("relatedAssets"@.len() == 13 && "animationAsset"@.len() == 14);
}

/// The document of all portraits holds what is said of each, in order.
pub proof fn law_the_document_holds_all_portraits(portraits: Seq<Json>, key: Seq<char>)
    ensures
        field(probe_json(portraits), "schemaVersion"@) == Some(whole(2)),
        list_field(probe_json(portraits), "champions"@) == Some(portraits),
        field(probe_json(portraits), key) is Some ==> key == "schemaVersion"@ || key
            == "champions"@,
{
    reveal_strlit("schemaVersion");
    reveal_strlit("champions");
    assert("schemaVersion"@.len() == 13 && "champions"@.len() == 9);
}

} // verus!
