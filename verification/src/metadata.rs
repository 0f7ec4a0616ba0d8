//! Champion metadata: category, tags and the role fit derived from them.

use crate::json::{
    field, from_str, get_list, get_str, json_of, jsons_of, list_field, map_new, no_fields, put,
    tenths_text, text_array, text_field, text_in, text_list, text_value, value_as_str,
    value_default, value_from_list, value_from_map, value_from_u64, value_get, whole, Json,
};
use crate::roles::{derive_role_fit, share, traits_of, RoleFit};
use crate::text::{decimal_text, same_text, texts};
use vstd::prelude::*;

verus! {

/// The first entry of a mod list for a champion.
pub open spec fn mod_entry(entries: Seq<Json>, id: Seq<char>) -> Option<Json>
    decreases entries.len(),
{
    if entries.len() == 0 {
        None
    } else {
        match mod_entry(entries.drop_last(), id) {
            Some(entry) => Some(entry),
            None => if text_field(entries.last(), "id"@) == Some(id) {
                Some(entries.last())
            } else {
                None
            },
        }
    }
}

/// What a balance sheet says of a champion: the game's own entry, else that of a mod.
pub open spec fn info_of(sheet: Json, id: Seq<char>) -> Option<Json> {
    match field(sheet, id) {
        Some(info) => Some(info),
        None => match list_field(sheet, "mod_champions"@) {
            Some(entries) => mod_entry(entries, id),
            None => None,
        },
    }
}

/// The category of a champion.
pub open spec fn category_of(info: Option<Json>) -> Seq<char> {
    match info {
        Some(value) => match text_field(value, "category"@) {
            Some(category) => category,
            None => "Unknown"@,
        },
        None => "Unknown"@,
    }
}

/// The strings of a list, in order.
pub open spec fn strings_in(items: Seq<Json>) -> Seq<Seq<char>>
    decreases items.len(),
{
    if items.len() == 0 {
        Seq::empty()
    } else {
        match items.last() {
            Json::Text(text) => strings_in(items.drop_last()).push(text),
            _ => strings_in(items.drop_last()),
        }
    }
}

/// The tags of a champion.
pub open spec fn tags_of(info: Option<Json>) -> Seq<Seq<char>> {
    match info {
        Some(value) => match list_field(value, "tags"@) {
            Some(items) => strings_in(items),
            None => Seq::empty(),
        },
        None => Seq::empty(),
    }
}

/// A role fit as it is written: percentages with one digit after the point.
pub open spec fn fit_json(fit: RoleFit) -> Json {
    Json::Object(
        no_fields().insert("top"@, Json::Number(tenths_text(fit.top as nat))).insert(
            "jungle"@,
            Json::Number(tenths_text(fit.jungle as nat)),
        ).insert("mid"@, Json::Number(tenths_text(fit.mid as nat))).insert(
            "bot"@,
            Json::Number(tenths_text(fit.bot as nat)),
        ).insert("support"@, Json::Number(tenths_text(fit.support as nat))),
    )
}

/// What is said of a champion.
pub open spec fn champion_json(sheet: Json, id: Seq<char>) -> Json {
    let category = category_of(info_of(sheet, id));
    let tags = tags_of(info_of(sheet, id));
    Json::Object(
        no_fields().insert("id"@, Json::Text(id)).insert("category"@, Json::Text(category)).insert(
            "rawTags"@,
            text_array(tags),
        ).insert("roleFit"@, fit_json(traits_of(category, tags).fit())),
    )
}

/// The metadata of champions as a document.
pub open spec fn metadata_json(sheet: Json, champions: Seq<Seq<char>>) -> Json {
    Json::Object(
        no_fields().insert("schemaVersion"@, whole(1)).insert(
            "champions"@,
            Json::Array(champions.map_values(|id: Seq<char>| champion_json(sheet, id))),
        ),
    )
}

/// A percentage given in tenths.
fn tenths_value(tenths: u32) -> (value: serde_json::Value)
    requires
        tenths <= 1000,
    ensures
        json_of(value) == Json::Number(tenths_text(tenths as nat)),
{
    let mut text = decimal_text((tenths / 10) as u128);
    text.append(".");
    let last = decimal_text((tenths % 10) as u128);
    text.append(last.as_str());
    proof {
        reveal_strlit(".");
        assert("."@ =~= seq!['.']);
        assert(text@ == tenths_text(tenths as nat));
    }
    match from_str(text.as_str()) {
        Ok(value) => value,
        Err(_) => value_default(),
    }
}

fn fit_value(fit: &RoleFit) -> (value: serde_json::Value)
    requires
        fit.top <= 1000,
        fit.jungle <= 1000,
        fit.mid <= 1000,
        fit.bot <= 1000,
        fit.support <= 1000,
    ensures
        json_of(value) == fit_json(*fit),
{
    let mut roles = map_new();
    put(&mut roles, "top", tenths_value(fit.top));
    put(&mut roles, "jungle", tenths_value(fit.jungle));
    put(&mut roles, "mid", tenths_value(fit.mid));
    put(&mut roles, "bot", tenths_value(fit.bot));
    put(&mut roles, "support", tenths_value(fit.support));
    value_from_map(roles)
}

/// What a balance sheet says of a champion.
fn find_info<'a>(sheet: &'a serde_json::Value, id: &str) -> (info: Option<&'a serde_json::Value>)
    ensures
        match info {
            Some(found) => info_of(json_of(*sheet), id@) == Some(json_of(*found)),
            None => info_of(json_of(*sheet), id@) is None,
        },
{
    if let Some(info) = value_get(sheet, id) {
        return Some(info);
    }
    let Some(entries) = get_list(sheet, "mod_champions") else {
        return None;
    };
    let ghost list = jsons_of(entries@);
    let mut found: Option<&'a serde_json::Value> = None;
    let mut i: usize = 0;
    while i < entries.len()
        invariant
            i <= entries.len(),
            list == jsons_of(entries@),
            match found {
                Some(entry) => mod_entry(list.take(i as int), id@) == Some(json_of(*entry)),
                None => mod_entry(list.take(i as int), id@) is None,
            },
        decreases entries.len() - i,
    {
        assert(list.take(i + 1).drop_last() == list.take(i as int));
        assert(list.take(i + 1).last() == json_of(entries[i as int]));
        if found.is_none() {
            if let Some(name) = get_str(&entries[i], "id") {
                if same_text(name, id) {
                    found = Some(&entries[i]);
                }
            }
        }
        i += 1;
    }
    assert(list.take(i as int) == list);
    found
}

/// The tags of a champion.
fn raw_tags(info: Option<&serde_json::Value>) -> (tags: Vec<String>)
    ensures
        texts(tags@) == tags_of(
            match info {
                Some(value) => Some(json_of(*value)),
                None => None,
            },
        ),
{
    let mut tags: Vec<String> = Vec::new();
    assert(texts(tags@) =~= Seq::<Seq<char>>::empty());
    let Some(value) = info else {
        return tags;
    };
    let Some(items) = get_list(value, "tags") else {
        return tags;
    };
    let ghost list = jsons_of(items@);
    let mut i: usize = 0;
    while i < items.len()
        invariant
            i <= items.len(),
            list == jsons_of(items@),
            texts(tags@) == strings_in(list.take(i as int)),
        decreases items.len() - i,
    {
        assert(list.take(i + 1).drop_last() == list.take(i as int));
        assert(list.take(i + 1).last() == json_of(items[i as int]));
        if let Some(tag) = value_as_str(&items[i]) {
            let ghost before = tags@;
            tags.push(tag.to_string());
            assert(texts(tags@) =~= texts(before).push(tag@));
        }
        i += 1;
    }
    assert(list.take(i as int) == list);
    tags
}

/// What is said of a champion.
fn champion_metadata(sheet: &serde_json::Value, id: &str) -> (value: serde_json::Value)
    ensures
        json_of(value) == champion_json(json_of(*sheet), id@),
{
    let info = find_info(sheet, id);
    let category = match info {
        Some(found) => match get_str(found, "category") {
            Some(category) => category,
            None => "Unknown",
        },
        None => "Unknown",
    };
    let tags = raw_tags(info);
    let fit = derive_role_fit(category, &tags);
    let mut entry = map_new();
    put(&mut entry, "id", text_value(id));
    put(&mut entry, "category", text_value(category));
    put(&mut entry, "rawTags", text_list(&tags));
    put(&mut entry, "roleFit", fit_value(&fit));
    value_from_map(entry)
}

/// The metadata of the enabled champions, from the balance sheet of the open game.
/// Champions of mods are covered too.
pub fn champion_metadata_export(sheet: &serde_json::Value, available_champions: &Vec<String>) -> (document:
    serde_json::Value)
    ensures
        json_of(document) == metadata_json(json_of(*sheet), texts(available_champions@)),
{
    let mut champions: Vec<serde_json::Value> = Vec::new();
    let mut i: usize = 0;
    while i < available_champions.len()
        invariant
            i <= available_champions.len(),
            champions.len() == i,
            forall|j: int|
                0 <= j < i ==> json_of(#[trigger] champions[j]) == champion_json(
                    json_of(*sheet),
                    available_champions[j]@,
                ),
        decreases available_champions.len() - i,
    {
        champions.push(champion_metadata(sheet, available_champions[i].as_str()));
        i += 1;
    }
    assert(jsons_of(champions@) =~= texts(available_champions@).map_values(
        |id: Seq<char>| champion_json(json_of(*sheet), id),
    ));
    let mut document = map_new();
    put(&mut document, "schemaVersion", value_from_u64(1));
    put(&mut document, "champions", value_from_list(champions));
    value_from_map(document)
}

/// A champion that the balance sheet says nothing of has no tags and fits every role in
/// full.
pub proof fn law_unknown_champions_fit_everywhere(sheet: Json, id: Seq<char>)
    requires
        info_of(sheet, id) is None,
    ensures
        champion_json(sheet, id) == Json::Object(
            no_fields().insert("id"@, Json::Text(id)).insert(
                "category"@,
                Json::Text("Unknown"@),
            ).insert("rawTags"@, text_array(Seq::empty())).insert(
                "roleFit"@,
                fit_json(
                    RoleFit { top: 1000, jungle: 1000, mid: 1000, bot: 1000, support: 1000 },
                ),
            ),
        ),
{
    reveal_strlit("Unknown");
    reveal_strlit("melee");
    reveal_strlit("range");
    reveal_strlit("ranged");
    let none = Seq::<Seq<char>>::empty();
    let traits = traits_of("Unknown"@, none);
    assert(!traits.melee && !traits.ranged && !traits.attack && !traits.magic && !traits.tank
        && !traits.control && !traits.heal && !traits.shield);
    assert(traits.peak() == 20);
    assert(share(20, 20) == 1000) by (nonlinear_arith);
    assert(traits.fit() == RoleFit { top: 1000, jungle: 1000, mid: 1000, bot: 1000, support: 1000 });
}

/// What a mod says of a champion is the first entry of its id.
pub proof fn law_first_mod_entry_counts(entries: Seq<Json>, id: Seq<char>)
    ensures
        mod_entry(entries, id) is Some <==> exists|i: int|
            0 <= i < entries.len() && text_field(#[trigger] entries[i], "id"@) == Some(id),
        mod_entry(entries, id) is Some ==> exists|i: int|
            {
                &&& 0 <= i < entries.len()
                &&& mod_entry(entries, id) == Some(#[trigger] entries[i])
                &&& text_field(entries[i], "id"@) == Some(id)
                &&& forall|j: int|
                    0 <= j < i ==> text_field(#[trigger] entries[j], "id"@) != Some(id)
            },
    decreases entries.len(),
{
    if entries.len() > 0 {
        let start = entries.drop_last();
        let last = entries.len() - 1;
        law_first_mod_entry_counts(start, id);
        assert forall|i: int| 0 <= i < start.len() implies start[i] == entries[i] by {}
        assert(entries[last] == entries.last());
        if mod_entry(start, id) is Some {
            let i = choose|i: int|
                {
                    &&& 0 <= i < start.len()
                    &&& mod_entry(start, id) == Some(#[trigger] start[i])
                    &&& text_field(start[i], "id"@) == Some(id)
                    &&& forall|j: int|
                        0 <= j < i ==> text_field(#[trigger] start[j], "id"@) != Some(id)
                };
            assert(entries[i] == start[i]);
            assert forall|j: int| 0 <= j < i implies text_field(#[trigger] entries[j], "id"@) != Some(
                id,
            ) by {
                assert(start[j] == entries[j]);
            }
        } else {
            assert forall|j: int| 0 <= j < last implies text_field(
                #[trigger] entries[j],
                "id"@,
            ) != Some(id) by {
                assert(start[j] == entries[j]);
            }
        }
    }
}

/// What is known of a champion: the entry of the sheet under its id, wherever there is
/// one. Else the first item of the mods' list that bears the id, at whatever place, and
/// nothing exactly where no item does.
pub proof fn law_every_listed_champion_is_known(sheet: Json, id: Seq<char>)
    ensures
        field(sheet, id) is Some ==> info_of(sheet, id) == field(sheet, id),
        field(sheet, id) is None && list_field(sheet, "mod_champions"@) is None ==> info_of(
            sheet,
            id,
        ) is None,
        field(sheet, id) is None ==> (list_field(sheet, "mod_champions"@) matches Some(entries)
            ==> {
            &&& info_of(sheet, id) is Some <==> exists|i: int|
                0 <= i < entries.len() && text_field(#[trigger] entries[i], "id"@) == Some(id)
            &&& info_of(sheet, id) is Some ==> exists|i: int|
                {
                    &&& 0 <= i < entries.len()
                    &&& info_of(sheet, id) == Some(#[trigger] entries[i])
                    &&& text_field(entries[i], "id"@) == Some(id)
                    &&& forall|j: int|
                        0 <= j < i ==> text_field(#[trigger] entries[j], "id"@) != Some(id)
                }
        }),
{
    if let Some(entries) = list_field(sheet, "mod_champions"@) {
        law_first_mod_entry_counts(entries, id);
    }
}

/// The strings of a list and then of another are those of the first and then those of
/// the other. A string counts, and nothing else does.
pub proof fn law_strings_keep_their_order(
    items: Seq<Json>,
    others: Seq<Json>,
    text: Seq<char>,
    item: Json,
)
    ensures
        strings_in(items + others) == strings_in(items) + strings_in(others),
        strings_in(seq![Json::Text(text)]) == seq![text],
        !(item is Text) ==> strings_in(seq![item]) == Seq::<Seq<char>>::empty(),
        strings_in(items) == items.filter_map(|one: Json| text_in(one)),
    decreases items.len() + others.len(),
{
    reveal_with_fuel(strings_in, 2);
    let none = Seq::<Json>::empty();
    let one = seq![Json::Text(text)];
    assert(one.drop_last() =~= none);
    assert(seq![item].drop_last() =~= none);
    assert(strings_in(one) =~= seq![text]);
    if others.len() > 0 {
        law_strings_keep_their_order(items, others.drop_last(), text, item);
        assert((items + others).drop_last() =~= items + others.drop_last());
    } else {
        assert(items + others =~= items);
        if items.len() > 0 {
            law_strings_keep_their_order(items.drop_last(), others, text, item);
        }
    }
    assert(strings_in(items + others) =~= strings_in(items) + strings_in(others));
    assert(strings_in(items) =~= items.filter_map(|one: Json| text_in(one)));
}

/// The category of a champion is the string under `category`, and its tags are the
/// strings in the list under `tags`. Where there is no such string the category is
/// unknown, and where there is no such list there are no tags.
pub proof fn law_category_and_tags_are_taken_over(info: Json)
    ensures
        field(info, "category"@) matches Some(Json::Text(text)) ==> category_of(Some(info)) == text,
        !(field(info, "category"@) matches Some(Json::Text(_))) ==> category_of(Some(info))
            == "Unknown"@,
        category_of(None) == "Unknown"@,
        field(info, "tags"@) matches Some(Json::Array(items)) ==> tags_of(Some(info)) == strings_in(
            items,
        ),
        !(field(info, "tags"@) matches Some(Json::Array(_))) ==> tags_of(Some(info)) == Seq::<
            Seq<char>,
        >::empty(),
        tags_of(None) == Seq::<Seq<char>>::empty(),
{
}

/// The document has one entry for each enabled champion, in order. Each tells the id, the
/// category, the tags, and how well the champion fits each role.
pub proof fn law_champions_are_told_in_full(sheet: Json, champions: Seq<Seq<char>>, i: int)
    requires
        0 <= i < champions.len(),
    ensures
        field(metadata_json(sheet, champions), "schemaVersion"@) == Some(whole(1)),
        list_field(metadata_json(sheet, champions), "champions"@) is Some,
        ({
            let list = list_field(metadata_json(sheet, champions), "champions"@)->0;
            let info = info_of(sheet, champions[i]);
            let fit = traits_of(category_of(info), tags_of(info)).fit();
            &&& list.len() == champions.len()
            &&& field(list[i], "id"@) == Some(Json::Text(champions[i]))
            &&& field(list[i], "category"@) == Some(Json::Text(category_of(info)))
            &&& field(list[i], "rawTags"@) == Some(text_array(tags_of(info)))
            &&& field(list[i], "roleFit"@) is Some
            &&& field(field(list[i], "roleFit"@)->0, "top"@) == Some(
                Json::Number(tenths_text(fit.top as nat)),
            )
            &&& field(field(list[i], "roleFit"@)->0, "jungle"@) == Some(
                Json::Number(tenths_text(fit.jungle as nat)),
            )
            &&& field(field(list[i], "roleFit"@)->0, "mid"@) == Some(
                Json::Number(tenths_text(fit.mid as nat)),
            )
            &&& field(field(list[i], "roleFit"@)->0, "bot"@) == Some(
                Json::Number(tenths_text(fit.bot as nat)),
            )
            &&& field(field(list[i], "roleFit"@)->0, "support"@) == Some(
                Json::Number(tenths_text(fit.support as nat)),
            )
        }),
{
    reveal_strlit("schemaVersion");
    reveal_strlit("champions");
    reveal_strlit("id");
    reveal_strlit("category");
    reveal_strlit("rawTags");
    reveal_strlit("roleFit");
    reveal_strlit("top");
    reveal_strlit("jungle");
    reveal_strlit("mid");
    reveal_strlit("bot");
    reveal_strlit("support");
    assert("schemaVersion"@.len() == 13 && "champions"@.len() == 9);
    assert("id"@.len() == 2 && "category"@.len() == 8);
    assert("rawTags"@.len() == 7 && "roleFit"@.len() == 7);
    assert("rawTags"@[1] == 'a' && "roleFit"@[1] == 'o');
    assert("top"@.len() == 3 && "mid"@.len() == 3 && "bot"@.len() == 3);
    assert("top"@[0] == 't' && "mid"@[0] == 'm' && "bot"@[0] == 'b');
    assert("jungle"@.len() == 6 && "support"@.len() == 7);
}

/// The metadata of a champion says nothing else, and neither does the document.
pub proof fn law_champions_are_told_no_more(
    sheet: Json,
    champions: Seq<Seq<char>>,
    id: Seq<char>,
    fit: RoleFit,
    key: Seq<char>,
)
    ensures
        field(fit_json(fit), key) is Some ==> key == "top"@ || key == "jungle"@ || key == "mid"@
            || key == "bot"@ || key == "support"@,
        field(champion_json(sheet, id), key) is Some ==> key == "id"@ || key == "category"@ || key
            == "rawTags"@ || key == "roleFit"@,
        field(metadata_json(sheet, champions), key) is Some ==> key == "schemaVersion"@ || key
            == "champions"@,
{
}

} // verus!
