//! Athletes and how well they master champions.

use crate::json::{
    field, json_of, jsons_of, map_new, no_fields, put, value_from_list, value_from_map,
    value_from_string, value_from_u64, whole, Json,
};
use vstd::prelude::*;

verus! {

/// An athlete, with what the game writes of it.
pub struct AthleteRecord {
    pub id: u64,
    pub name: String,
    pub contract: serde_json::Value,
    pub stats: serde_json::Value,
    pub recent_champions: serde_json::Value,
    pub champion_proficiency: serde_json::Value,
}

/// What is said of an athlete.
pub open spec fn athlete_json(athlete: AthleteRecord) -> Json {
    Json::Object(
        no_fields().insert("id"@, whole(athlete.id as nat)).insert(
            "name"@,
            Json::Text(athlete.name@),
        ).insert("contract"@, json_of(athlete.contract)).insert(
            "stats"@,
            json_of(athlete.stats),
        ).insert("recentChampions"@, json_of(athlete.recent_champions)).insert(
            "championProficiency"@,
            json_of(athlete.champion_proficiency),
        ),
    )
}

/// What is said of the athletes that were found, in order.
pub open spec fn athlete_list(rows: Seq<Option<AthleteRecord>>) -> Seq<Json>
    decreases rows.len(),
{
    if rows.len() == 0 {
        Seq::empty()
    } else {
        match rows.last() {
            Some(athlete) => athlete_list(rows.drop_last()).push(athlete_json(athlete)),
            None => athlete_list(rows.drop_last()),
        }
    }
}

/// The athletes as a document.
pub open spec fn mastery_json(rows: Seq<Option<AthleteRecord>>) -> Json {
    Json::Object(
        no_fields().insert("schemaVersion"@, whole(2)).insert(
            "athletes"@,
            Json::Array(athlete_list(rows)),
        ),
    )
}

fn athlete_value(athlete: AthleteRecord) -> (value: serde_json::Value)
    ensures
        json_of(value) == athlete_json(athlete),
{
    let mut entry = map_new();
    put(&mut entry, "id", value_from_u64(athlete.id));
    put(&mut entry, "name", value_from_string(athlete.name));
    put(&mut entry, "contract", athlete.contract);
    put(&mut entry, "stats", athlete.stats);
    put(&mut entry, "recentChampions", athlete.recent_champions);
    put(&mut entry, "championProficiency", athlete.champion_proficiency);
    value_from_map(entry)
}

/// The mastery of all athletes. An id under which the game has no athlete is left
/// out.
pub fn athlete_mastery_export(athletes: Vec<Option<AthleteRecord>>) -> (document: serde_json::Value)
    ensures
        json_of(document) == mastery_json(athletes@),
{
    let ghost rows = athletes@;
    let mut list: Vec<serde_json::Value> = Vec::new();
    assert(jsons_of(list@) =~= athlete_list(rows.take(0)));
    for row in it: athletes
        invariant
            it.seq() == rows,
            jsons_of(list@) == athlete_list(rows.take(it.index() as int)),
    {
        let ghost k = it.index() as int;
        assert(rows.take(k + 1).drop_last() == rows.take(k));
        if let Some(athlete) = row {
            let ghost before = list@;
            let value = athlete_value(athlete);
            list.push(value);
            assert(jsons_of(list@) =~= jsons_of(before).push(json_of(value)));
        }
    }
    assert(rows.take(rows.len() as int) == rows);
    let mut document = map_new();
    put(&mut document, "schemaVersion", value_from_u64(2));
    put(&mut document, "athletes", value_from_list(list));
    value_from_map(document)
}

/// Every athlete that was found is listed, once, and in order: the list is what was
/// found, and each of it is said of its athlete.
pub proof fn law_every_athlete_is_listed(rows: Seq<Option<AthleteRecord>>)
    ensures
        athlete_list(rows) == rows.filter_map(
            |row: Option<AthleteRecord>|
                match row {
                    Some(athlete) => Some(athlete_json(athlete)),
                    None => None,
                },
        ),
        athlete_list(rows).len() == rows.filter(|row: Option<AthleteRecord>| row is Some).len(),
        (forall|i: int| 0 <= i < rows.len() ==> #[trigger] rows[i] is Some) ==> athlete_list(
            rows,
        ).len() == rows.len(),
    decreases rows.len(),
{
    reveal(Seq::filter);
    if rows.len() > 0 {
        let start = rows.drop_last();
        law_every_athlete_is_listed(start);
        if forall|i: int| 0 <= i < rows.len() ==> #[trigger] rows[i] is Some {
            assert forall|i: int| 0 <= i < start.len() implies #[trigger] start[i] is Some by {
                assert(rows[i] is Some);
            }
            assert(rows[rows.len() - 1] is Some);
        }
    }
}

/// To list athletes and then others is to list the first and then the others. An
/// athlete that was found is listed, and one that was not is left out.
pub proof fn law_athletes_are_listed_in_order(
    rows: Seq<Option<AthleteRecord>>,
    others: Seq<Option<AthleteRecord>>,
    athlete: AthleteRecord,
)
    ensures
        athlete_list(rows + others) == athlete_list(rows) + athlete_list(others),
        athlete_list(seq![Some(athlete)]) == seq![athlete_json(athlete)],
        athlete_list(seq![None]) == Seq::<Json>::empty(),
    decreases others.len(),
{
    reveal_with_fuel(athlete_list, 2);
    let one = seq![Some(athlete)];
    let none = seq![None::<AthleteRecord>];
    assert(one.drop_last() =~= Seq::<Option<AthleteRecord>>::empty());
    assert(none.drop_last() =~= Seq::<Option<AthleteRecord>>::empty());
    assert(athlete_list(one) =~= seq![athlete_json(athlete)]);
    if others.len() > 0 {
        law_athletes_are_listed_in_order(rows, others.drop_last(), athlete);
        assert((rows + others).drop_last() =~= rows + others.drop_last());
    } else {
        assert(rows + others =~= rows);
    }
    assert(athlete_list(rows + others) =~= athlete_list(rows) + athlete_list(others));
}

/// An athlete that was found stands in the list behind those found before it.
pub proof fn law_each_athlete_has_its_place(
    rows: Seq<Option<AthleteRecord>>,
    k: int,
    athlete: AthleteRecord,
)
    requires
        0 <= k < rows.len(),
        rows[k] == Some(athlete),
    ensures
        athlete_list(rows.take(k)).len() < athlete_list(rows).len(),
        athlete_list(rows)[athlete_list(rows.take(k)).len() as int] == athlete_json(athlete),
{
    let front = rows.take(k);
    let single = seq![Some(athlete)];
    let back = rows.skip(k + 1);
    assert(rows =~= front + (single + back));
    law_athletes_are_listed_in_order(front, single + back, athlete);
    law_athletes_are_listed_in_order(single, back, athlete);
}

/// What the document says: of each athlete its id, its name, its contract, its stats, its
/// recent champions and how well it masters champions, and nothing else.
pub proof fn law_athletes_are_told_in_full(
    rows: Seq<Option<AthleteRecord>>,
    athlete: AthleteRecord,
    key: Seq<char>,
)
    ensures
        field(mastery_json(rows), "schemaVersion"@) == Some(whole(2)),
        field(mastery_json(rows), "athletes"@) == Some(Json::Array(athlete_list(rows))),
        field(athlete_json(athlete), "id"@) == Some(whole(athlete.id as nat)),
        field(athlete_json(athlete), "name"@) == Some(Json::Text(athlete.name@)),
        field(athlete_json(athlete), "contract"@) == Some(json_of(athlete.contract)),
        field(athlete_json(athlete), "stats"@) == Some(json_of(athlete.stats)),
        field(athlete_json(athlete), "recentChampions"@) == Some(json_of(athlete.recent_champions)),
        field(athlete_json(athlete), "championProficiency"@) == Some(
            json_of(athlete.champion_proficiency),
        ),
        field(athlete_json(athlete), key) is Some ==> key == "id"@ || key == "name"@ || key
            == "contract"@ || key == "stats"@ || key == "recentChampions"@ || key
            == "championProficiency"@,
        field(mastery_json(rows), key) is Some ==> key == "schemaVersion"@ || key == "athletes"@,
{
    reveal_strlit("schemaVersion");
    reveal_strlit("athletes");
    reveal_strlit("id");
    reveal_strlit("name");
    reveal_strlit("contract");
    reveal_strlit("stats");
    reveal_strlit("recentChampions");
    reveal_strlit("championProficiency");
    assert("schemaVersion"@.len() == 13 && "athletes"@.len() == 8);
    assert("id"@.len() == 2 && "name"@.len() == 4 && "contract"@.len() == 8);
    assert("stats"@.len() == 5 && "recentChampions"@.len() == 15);
    assert("championProficiency"@.len() == 19);
}

} // verus!
