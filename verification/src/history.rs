//! The history of balance sheets by game version.
//!
//! A save does not keep every sheet. The versions are gathered from the matches, the
//! save and the ledger, and each gets the best sheet there is: the live one, the
//! save's own, a captured one, or what the game answers for a day of that version.

use crate::campaign::SoloRankMatch;
use crate::json::{
    field, fields_of, json_of, law_documents_are_read_back, map_insert, map_keys, map_new,
    no_fields, or_null, put, reads_back, reread, text_array, text_list, text_value,
    value_as_object, value_clone, value_default, value_from_map, value_get, Json, READ_LEVELS,
};
use crate::ledger::{
    capture, is_patch_version, law_captures_are_read, ledger_in, ledger_or_empty, snapshot_in,
    valid_patch_version, with_capture, CAPTURE_LEVELS,
};
use crate::text::{lemma_push_contains, texts};
use vstd::prelude::*;

verus! {

/// The balance that a save keeps of an earlier version.
pub struct PatchState {
    pub version: String,
    pub champion_info_sheet: serde_json::Value,
    pub available_champions: serde_json::Value,
}

/// What the open game says of its versions.
pub struct GameVersions {
    /// The version of the current date.
    pub current_version: String,
    /// The current day, counted as the days of the matches are.
    pub current_day: u64,
    /// The date and time in the game.
    pub time: serde_json::Value,
    /// The live balance sheet.
    pub champion_info_sheet: serde_json::Value,
    /// The champions that are enabled.
    pub available_champions: Vec<String>,
    /// The solo-rank matches of the save.
    pub solo_rank_matches: Vec<SoloRankMatch>,
    /// The balance of earlier versions that the save keeps.
    pub pre_patch_data: Vec<PatchState>,
}

/// Where the sheet of a version comes from.
#[derive(Debug, Clone, Copy, PartialEq, Eq, Structural)]
pub enum SnapshotSource {
    /// The live sheet.
    Current,
    /// The save's own sheet.
    Save,
    /// A capture in the ledger.
    Captured,
    /// The game's answer for a day of the version, which may be another version's.
    HistoricalUntrusted,
}

/// A version of the history, the day that stands for it, and where its sheet comes
/// from.
pub struct PlannedSnapshot {
    pub version: String,
    pub day: u64,
    pub source: SnapshotSource,
    /// The champion that the game is asked for, where it is to be asked for the sheet of
    /// the day.
    pub anchor: Option<String>,
}

impl PlannedSnapshot {
    /// The champion that the game is asked for.
    pub open spec fn asks_for(self) -> Option<Seq<char>> {
        match self.anchor {
            Some(champion) => Some(champion@),
            None => None,
        }
    }
}

/// What the game adds to a planned version: the day as it is written, and the sheet
/// that the game gives for that day.
pub struct ResolvedSnapshot {
    pub version: String,
    pub date: serde_json::Value,
    pub historical_sheet: Option<serde_json::Value>,
}

/// The last day on which a version was played: the last day of a patch is within it,
/// while on its first day the game can already answer with the next sheet.
pub open spec fn last_seen(rows: Seq<SoloRankMatch>, version: Seq<char>) -> Option<u64>
    decreases rows.len(),
{
    if rows.len() == 0 {
        None
    } else {
        let earlier = last_seen(rows.drop_last(), version);
        if rows.last().version@ == version {
            match earlier {
                Some(day) => if rows.last().day > day {
                    Some(rows.last().day)
                } else {
                    Some(day)
                },
                None => Some(rows.last().day),
            }
        } else {
            earlier
        }
    }
}

/// What a save keeps of a version.
pub open spec fn saved_state(states: Seq<PatchState>, version: Seq<char>) -> Option<PatchState>
    decreases states.len(),
{
    if states.len() == 0 {
        None
    } else {
        match saved_state(states.drop_last(), version) {
            Some(state) => Some(state),
            None => if states.last().version@ == version {
                Some(states.last())
            } else {
                None
            },
        }
    }
}

impl GameVersions {
    /// Whether a version is known: it is the current one, it was played, the save
    /// keeps it, or the ledger holds a capture of it and it is that of a real patch.
    pub open spec fn knows(self, captured: Json, version: Seq<char>) -> bool {
        ||| version == self.current_version@
        ||| last_seen(self.solo_rank_matches@, version) is Some
        ||| saved_state(self.pre_patch_data@, version) is Some
        ||| snapshot_in(captured, version) is Some && is_patch_version(version)
    }

    /// The day that stands for a version: the current day for the current version,
    /// the last day on which an earlier one was played, and the current day for one
    /// that was never played.
    pub open spec fn day_of(self, version: Seq<char>) -> u64 {
        if version == self.current_version@ {
            self.current_day
        } else {
            match last_seen(self.solo_rank_matches@, version) {
                Some(day) => day,
                None => self.current_day,
            }
        }
    }

    /// Where the sheet of a version comes from. The save wins over the ledger, which
    /// may hold what was captured while the save was loading. The game can be asked
    /// only where there is a champion to ask for.
    pub open spec fn source_of(self, captured: Json, version: Seq<char>) -> Option<SnapshotSource> {
        if version == self.current_version@ {
            Some(SnapshotSource::Current)
        } else if saved_state(self.pre_patch_data@, version) is Some {
            Some(SnapshotSource::Save)
        } else if snapshot_in(captured, version) is Some {
            Some(SnapshotSource::Captured)
        } else if self.available_champions.len() > 0 {
            Some(SnapshotSource::HistoricalUntrusted)
        } else {
            None
        }
    }

    /// The champion that the game is asked for to give the sheet of a version: the first
    /// that is enabled, where the sheet is not known otherwise.
    pub open spec fn anchor_of(self, captured: Json, version: Seq<char>) -> Option<Seq<char>> {
        if self.source_of(captured, version) == Some(SnapshotSource::HistoricalUntrusted) {
            Some(self.available_champions[0]@)
        } else {
            None
        }
    }

    /// Whether a version is in the history.
    pub open spec fn exports(self, captured: Json, version: Seq<char>) -> bool {
        self.knows(captured, version) && self.source_of(captured, version) is Some
    }
}

/// Versions with a day each, none of them twice.
struct VersionDays {
    entries: Vec<(String, u64)>,
}

impl VersionDays {
    spec fn wf(self) -> bool {
        forall|i: int, j: int|
            0 <= i < j < self.entries.len() ==> (#[trigger] self.entries[i]).0@ != (
            #[trigger] self.entries[j]).0@
    }

    spec fn lists(self, version: Seq<char>) -> bool {
        exists|i: int| 0 <= i < self.entries.len() && (#[trigger] self.entries[i]).0@ == version
    }

    /// The day of a version that is listed.
    spec fn day(self, version: Seq<char>) -> u64 {
        let i = choose|i: int|
            0 <= i < self.entries.len() && (#[trigger] self.entries[i]).0@ == version;
        self.entries[i].1
    }

    fn new() -> (days: Self)
        ensures
            days.wf(),
            forall|v: Seq<char>| !days.lists(v),
    {
        VersionDays { entries: Vec::new() }
    }

    fn position(&self, version: &String) -> (position: Option<usize>)
        requires
            self.wf(),
        ensures
            match position {
                Some(i) => i < self.entries.len() && self.entries[i as int].0@ == version@
                    && self.lists(version@) && self.day(version@) == self.entries[i as int].1,
                None => !self.lists(version@),
            },
    {
        let mut i: usize = 0;
        while i < self.entries.len()
            invariant
                self.wf(),
                i <= self.entries.len(),
                forall|j: int| 0 <= j < i ==> (#[trigger] self.entries[j]).0@ != version@,
            decreases self.entries.len() - i,
        {
            if self.entries[i].0 == *version {
                return Some(i);
            }
            i += 1;
        }
        None
    }

    /// Sets the day of a version, listed or not.
    fn set(&mut self, version: &String, day: u64)
        requires
            old(self).wf(),
        ensures
            final(self).wf(),
            forall|v: Seq<char>| #[trigger]
                final(self).lists(v) <==> (old(self).lists(v) || v == version@),
            forall|v: Seq<char>| #[trigger]
                final(self).lists(v) ==> final(self).day(v) == (if v == version@ {
                    day
                } else {
                    old(self).day(v)
                }),
    {
        let ghost before = *self;
        match self.position(version) {
            Some(i) => {
                self.entries.set(i, (version.clone(), day));
                assert(self.entries[i as int].0@ == version@);
            },
            None => {
                self.entries.push((version.clone(), day));
                assert(self.entries[self.entries.len() - 1].0@ == version@);
            },
        }
        proof {
            before.lemma_set(*self, version@, day);
        }
    }

    /// Lists that differ in the day of one version, or by that version.
    proof fn lemma_set(self, after: Self, version: Seq<char>, day: u64)
        requires
            self.wf(),
            after.wf(),
            after.entries.len() >= self.entries.len(),
            after.entries.len() <= self.entries.len() + 1,
            after.entries.len() > self.entries.len() ==> after.entries[self.entries.len() as int].0@
                == version,
            forall|i: int|
                0 <= i < self.entries.len() ==> (#[trigger] after.entries[i]).0@
                    == self.entries[i].0@,
            forall|i: int|
                0 <= i < after.entries.len() ==> (#[trigger] after.entries[i]).1 == (
                if after.entries[i].0@ == version {
                    day
                } else {
                    self.entries[i].1
                }),
            after.lists(version),
        ensures
            forall|v: Seq<char>| #[trigger] after.lists(v) <==> (self.lists(v) || v == version),
            forall|v: Seq<char>| #[trigger]
                after.lists(v) ==> after.day(v) == (if v == version {
                    day
                } else {
                    self.day(v)
                }),
    {
        assert forall|v: Seq<char>| #[trigger] after.lists(v) <==> (self.lists(v) || v
            == version) by {
            if after.lists(v) && v != version {
                let i = choose|i: int|
                    0 <= i < after.entries.len() && (#[trigger] after.entries[i]).0@ == v;
                assert(self.entries[i].0@ == v);
            }
            if self.lists(v) {
                let i = choose|i: int|
                    0 <= i < self.entries.len() && (#[trigger] self.entries[i]).0@ == v;
                assert(after.entries[i].0@ == v);
            }
        }
        assert forall|v: Seq<char>| #[trigger] after.lists(v) implies after.day(v) == (if v
            == version {
            day
        } else {
            self.day(v)
        }) by {
            let i = choose|i: int|
                0 <= i < after.entries.len() && (#[trigger] after.entries[i]).0@ == v;
            if v != version {
                assert(self.entries[i].0@ == v);
                let j = choose|j: int|
                    0 <= j < self.entries.len() && (#[trigger] self.entries[j]).0@ == v;
                assert(i == j);
            }
        }
    }
}

/// The days on which the versions of the matches were last played.
fn played_versions(rows: &Vec<SoloRankMatch>) -> (days: VersionDays)
    ensures
        days.wf(),
        forall|v: Seq<char>| #[trigger] days.lists(v) <==> last_seen(rows@, v) is Some,
        forall|v: Seq<char>| #[trigger] days.lists(v) ==> last_seen(rows@, v) == Some(days.day(v)),
{
    let mut days = VersionDays::new();
    let mut i: usize = 0;
    while i < rows.len()
        invariant
            i <= rows.len(),
            days.wf(),
            forall|v: Seq<char>| #[trigger]
                days.lists(v) <==> last_seen(rows@.take(i as int), v) is Some,
            forall|v: Seq<char>| #[trigger]
                days.lists(v) ==> last_seen(rows@.take(i as int), v) == Some(days.day(v)),
        decreases rows.len() - i,
    {
        let row = &rows[i];
        assert(rows@.take(i + 1).drop_last() == rows@.take(i as int));
        let ghost before = days;
        assert(before.lists(row.version@) || !before.lists(row.version@));
        let day = match days.position(&row.version) {
            Some(k) => {
                let known = days.entries[k].1;
                if row.day > known {
                    row.day
                } else {
                    known
                }
            },
            None => row.day,
        };
        days.set(&row.version, day);
        assert forall|v: Seq<char>| #[trigger] days.lists(v) <==> last_seen(
            rows@.take(i + 1),
            v,
        ) is Some by {
            assert(before.lists(v) || !before.lists(v));
        }
        assert forall|v: Seq<char>| #[trigger] days.lists(v) implies last_seen(rows@.take(i + 1), v)
            == Some(days.day(v)) by {
            assert(before.lists(v) || !before.lists(v));
        }
        i += 1;
    }
    assert(rows@.take(i as int) == rows@);
    days
}

/// What a save keeps of a version, by position.
fn find_state(states: &Vec<PatchState>, version: &String) -> (found: Option<usize>)
    ensures
        match found {
            Some(i) => i < states.len() && saved_state(states@, version@) == Some(states[i as int]),
            None => saved_state(states@, version@) is None,
        },
{
    let mut found: Option<usize> = None;
    let mut i: usize = 0;
    while i < states.len()
        invariant
            i <= states.len(),
            match found {
                Some(k) => k < i && saved_state(states@.take(i as int), version@) == Some(
                    states[k as int],
                ),
                None => saved_state(states@.take(i as int), version@) is None,
            },
        decreases states.len() - i,
    {
        assert(states@.take(i + 1).drop_last() == states@.take(i as int));
        if found.is_none() && states[i].version == *version {
            found = Some(i);
        }
        i += 1;
    }
    assert(states@.take(i as int) == states@);
    found
}

/// The capture of a version that a ledger holds.
fn find_capture<'a>(captured: &'a serde_json::Value, version: &String) -> (found: Option<
    &'a serde_json::Value,
>)
    ensures
        match found {
            Some(entry) => snapshot_in(json_of(*captured), version@) == Some(json_of(*entry)),
            None => snapshot_in(json_of(*captured), version@) is None,
        },
{
    match value_get(captured, "snapshots") {
        Some(snapshots) => value_get(snapshots, version.as_str()),
        None => None,
    }
}

impl GameVersions {
    /// Where the sheet of a version comes from.
    fn source(&self, captured: &serde_json::Value, version: &String) -> (source: Option<
        SnapshotSource,
    >)
        ensures
            source == self.source_of(json_of(*captured), version@),
    {
        if *version == self.current_version {
            Some(SnapshotSource::Current)
        } else if find_state(&self.pre_patch_data, version).is_some() {
            Some(SnapshotSource::Save)
        } else if find_capture(captured, version).is_some() {
            Some(SnapshotSource::Captured)
        } else if self.available_champions.len() > 0 {
            Some(SnapshotSource::HistoricalUntrusted)
        } else {
            None
        }
    }
}

/// Every version that is known, with the day that stands for it.
#[verifier::loop_isolation(false)]
fn known_versions(game: &GameVersions, captured: &serde_json::Value) -> (days: VersionDays)
    ensures
        days.wf(),
        forall|v: Seq<char>| #[trigger] days.lists(v) <==> game.knows(json_of(*captured), v),
        forall|v: Seq<char>| #[trigger] days.lists(v) ==> days.day(v) == game.day_of(v),
{
    let mut days = played_versions(&game.solo_rank_matches);
    let ghost rows = game.solo_rank_matches@;
    let ghost states = game.pre_patch_data@;
    let ghost played = days;
    days.set(&game.current_version, game.current_day);
    assert forall|v: Seq<char>| #[trigger] days.lists(v) <==> (v == game.current_version@
        || last_seen(rows, v) is Some) by {
        assert(played.lists(v) || !played.lists(v));
    }
    assert forall|v: Seq<char>| #[trigger] days.lists(v) implies days.day(v) == game.day_of(v) by {
        assert(played.lists(v) || !played.lists(v));
    }

    let mut i: usize = 0;
    while i < game.pre_patch_data.len()
        invariant
            i <= states.len(),
            days.wf(),
            forall|v: Seq<char>| #[trigger]
                days.lists(v) <==> (v == game.current_version@ || last_seen(rows, v) is Some
                    || saved_state(states.take(i as int), v) is Some),
            forall|v: Seq<char>| #[trigger] days.lists(v) ==> days.day(v) == game.day_of(v),
        decreases states.len() - i,
    {
        let ghost before = days;
        let version = &game.pre_patch_data[i].version;
        assert(states.take(i + 1).drop_last() == states.take(i as int));
        if days.position(version).is_none() {
            days.set(version, game.current_day);
        }
        assert forall|v: Seq<char>| #[trigger] days.lists(v) <==> (v == game.current_version@
            || last_seen(rows, v) is Some || saved_state(states.take(i + 1), v) is Some) by {
            assert(before.lists(v) || !before.lists(v));
        }
        assert forall|v: Seq<char>| #[trigger] days.lists(v) implies days.day(v)
            == game.day_of(v) by {
            assert(before.lists(v) || !before.lists(v));
        }
        i += 1;
    }
    assert(states.take(i as int) == states);

    let keys = captured_versions(captured);
    let mut k: usize = 0;
    while k < keys.len()
        invariant
            k <= keys.len(),
            days.wf(),
            forall|v: Seq<char>| #[trigger]
                days.lists(v) <==> (v == game.current_version@ || last_seen(rows, v) is Some
                    || saved_state(states, v) is Some || is_patch_version(v) && texts(
                    keys@,
                ).take(k as int).contains(v)),
            forall|v: Seq<char>| #[trigger] days.lists(v) ==> days.day(v) == game.day_of(v),
        decreases keys.len() - k,
    {
        let ghost before = days;
        let version = &keys[k];
        let ghost so_far = texts(keys@).take(k as int);
        assert(texts(keys@).take(k + 1) == so_far.push(version@));
        if valid_patch_version(version.as_str()) && days.position(version).is_none() {
            days.set(version, game.current_day);
        }
        proof {
            lemma_push_contains(so_far, version@);
        }
        assert forall|v: Seq<char>| #[trigger] days.lists(v) <==> (v == game.current_version@
            || last_seen(rows, v) is Some || saved_state(states, v) is Some || is_patch_version(v)
            && so_far.push(version@).contains(v)) by {
            assert(before.lists(v) || !before.lists(v));
        }
        assert forall|v: Seq<char>| #[trigger] days.lists(v) implies days.day(v)
            == game.day_of(v) by {
            assert(before.lists(v) || !before.lists(v));
        }
        k += 1;
    }
    assert(texts(keys@).take(k as int) == texts(keys@));
    days
}

/// The versions of which a ledger holds a capture.
fn captured_versions(captured: &serde_json::Value) -> (versions: Vec<String>)
    ensures
        forall|v: Seq<char>| #[trigger]
            texts(versions@).contains(v) <==> snapshot_in(json_of(*captured), v) is Some,
{
    match value_get(captured, "snapshots") {
        Some(snapshots) => match value_as_object(snapshots) {
            Some(entries) => {
                let versions = map_keys(entries);
                assert forall|v: Seq<char>| #[trigger] texts(versions@).contains(v) implies fields_of(
                    *entries,
                ).contains_key(v) by {
                    let i = choose|i: int|
                        0 <= i < texts(versions@).len() && texts(versions@)[i] == v;
                    assert(versions[i]@ == v);
                }
                versions
            },
            None => Vec::new(),
        },
        None => Vec::new(),
    }
}

/// Whether a list of planned versions is the plan of a history: every version that
/// is exported, once, with its day, its source, and the champion to ask for.
pub open spec fn is_plan(
    game: GameVersions,
    captured: Json,
    plan: Seq<PlannedSnapshot>,
) -> bool {
    &&& forall|i: int, j: int|
        0 <= i < j < plan.len() ==> (#[trigger] plan[i]).version@ != (#[trigger] plan[j]).version@
    &&& forall|i: int|
        0 <= i < plan.len() ==> {
            &&& game.exports(captured, (#[trigger] plan[i]).version@)
            &&& plan[i].day == game.day_of(plan[i].version@)
            &&& Some(plan[i].source) == game.source_of(captured, plan[i].version@)
            &&& plan[i].asks_for() == game.anchor_of(captured, plan[i].version@)
        }
    &&& forall|v: Seq<char>| #[trigger]
        game.exports(captured, v) ==> exists|i: int|
            0 <= i < plan.len() && (#[trigger] plan[i]).version@ == v
}

/// Plans the history: which versions it holds, the day that stands for each, where the
/// sheet of each comes from, and which champion the game is to be asked for.
pub fn plan_balance_history(game: &GameVersions, captured: &serde_json::Value) -> (plan: Vec<
    PlannedSnapshot,
>)
    ensures
        is_plan(*game, json_of(*captured), plan@),
{
    let days = known_versions(game, captured);
    let ghost ledger = json_of(*captured);
    let mut plan: Vec<PlannedSnapshot> = Vec::new();
    let ghost mut from: Seq<int> = Seq::empty();
    let mut i: usize = 0;
    while i < days.entries.len()
        invariant
            ledger == json_of(*captured),
            i <= days.entries.len(),
            days.wf(),
            forall|v: Seq<char>| #[trigger] days.lists(v) <==> game.knows(ledger, v),
            forall|v: Seq<char>| #[trigger] days.lists(v) ==> days.day(v) == game.day_of(v),
            from.len() == plan.len(),
            forall|a: int|
                0 <= a < from.len() ==> 0 <= #[trigger] from[a] < i && plan[a].version@
                    == days.entries[from[a]].0@,
            forall|a: int, b: int| 0 <= a < b < from.len() ==> from[a] < from[b],
            forall|a: int|
                0 <= a < plan.len() ==> {
                    &&& game.exports(ledger, (#[trigger] plan[a]).version@)
                    &&& plan[a].day == game.day_of(plan[a].version@)
                    &&& Some(plan[a].source) == game.source_of(ledger, plan[a].version@)
                    &&& plan[a].asks_for() == game.anchor_of(ledger, plan[a].version@)
                },
            forall|j: int|
                0 <= j < i && game.source_of(ledger, (#[trigger] days.entries[j]).0@) is Some
                    ==> exists|a: int|
                    0 <= a < plan.len() && (#[trigger] plan[a]).version@ == days.entries[j].0@,
        decreases days.entries.len() - i,
    {
        let version = &days.entries[i].0;
        let day = days.entries[i].1;
        let ghost before = plan@;
        proof {
            assert(days.lists(version@));
            let k = choose|k: int|
                0 <= k < days.entries.len() && (#[trigger] days.entries[k]).0@ == version@;
            assert(k == i);
        }
        match game.source(captured, version) {
            Some(source) => {
                let anchor = match source {
                    SnapshotSource::HistoricalUntrusted => Some(
                        game.available_champions[0].clone(),
                    ),
                    _ => None,
                };
                plan.push(PlannedSnapshot { version: version.clone(), day, source, anchor });
                proof {
                    from = from.push(i as int);
                    assert(plan[plan.len() - 1].version@ == version@);
                }
            },
            None => {},
        }
        assert forall|j: int|
            0 <= j < i + 1 && game.source_of(ledger, (#[trigger] days.entries[j]).0@) is Some
            implies exists|a: int|
            0 <= a < plan.len() && (#[trigger] plan[a]).version@ == days.entries[j].0@ by {
            if j < i {
                let a = choose|a: int|
                    0 <= a < before.len() && (#[trigger] before[a]).version@ == days.entries[j].0@;
                assert(plan[a].version@ == days.entries[j].0@);
            }
        }
        i += 1;
    }
    assert forall|a: int, b: int| 0 <= a < b < plan.len() implies (#[trigger] plan[a]).version@ != (
    #[trigger] plan[b]).version@ by {
        assert(from[a] < from[b]);
    }
    assert forall|v: Seq<char>| #[trigger] game.exports(ledger, v) implies exists|a: int|
        0 <= a < plan.len() && (#[trigger] plan[a]).version@ == v by {
        assert(days.lists(v));
        let j = choose|j: int|
            0 <= j < days.entries.len() && (#[trigger] days.entries[j]).0@ == v;
        assert(game.source_of(ledger, days.entries[j].0@) is Some);
    }
    plan
}

impl SnapshotSource {
    /// How a source is written in the history.
    pub open spec fn text(self) -> Seq<char> {
        match self {
            SnapshotSource::Current => "current"@,
            SnapshotSource::Save => "save"@,
            SnapshotSource::Captured => "captured"@,
            SnapshotSource::HistoricalUntrusted => "historical-untrusted"@,
        }
    }

    /// How a source is written in the history.
    pub fn name(&self) -> (name: &'static str)
        ensures
            name@ == self.text(),
    {
        match self {
            SnapshotSource::Current => "current",
            SnapshotSource::Save => "save",
            SnapshotSource::Captured => "captured",
            SnapshotSource::HistoricalUntrusted => "historical-untrusted",
        }
    }
}

impl ResolvedSnapshot {
    /// The sheet that the game gives for the day.
    pub open spec fn historical(self) -> Option<Json> {
        match self.historical_sheet {
            Some(sheet) => Some(json_of(sheet)),
            None => None,
        }
    }
}

/// An entry of the history.
pub open spec fn snapshot_json(date: Json, source: Seq<char>, roster: Json, sheet: Json) -> Json {
    Json::Object(
        no_fields().insert("date"@, date).insert("source"@, Json::Text(source)).insert(
            "availableChampions"@,
            roster,
        ).insert("championInfoSheet"@, sheet),
    )
}

impl GameVersions {
    /// The sheet of a version.
    pub open spec fn sheet_of(
        self,
        captured: Json,
        version: Seq<char>,
        historical: Option<Json>,
    ) -> Json {
        match self.source_of(captured, version) {
            Some(SnapshotSource::Current) => json_of(self.champion_info_sheet),
            Some(SnapshotSource::Save) => json_of(
                saved_state(self.pre_patch_data@, version)->0.champion_info_sheet,
            ),
            Some(SnapshotSource::Captured) => or_null(
                field(snapshot_in(captured, version)->0, "championInfoSheet"@),
            ),
            Some(SnapshotSource::HistoricalUntrusted) => or_null(historical),
            None => Json::Null,
        }
    }

    /// The roster of a version. Where it is not known it is null, since the sheet can
    /// name champions that were added later.
    pub open spec fn roster_of(self, captured: Json, version: Seq<char>) -> Json {
        match self.source_of(captured, version) {
            Some(SnapshotSource::Current) => text_array(texts(self.available_champions@)),
            Some(SnapshotSource::Save) => json_of(
                saved_state(self.pre_patch_data@, version)->0.available_champions,
            ),
            Some(SnapshotSource::Captured) => or_null(
                field(snapshot_in(captured, version)->0, "availableChampions"@),
            ),
            Some(SnapshotSource::HistoricalUntrusted) => Json::Null,
            None => Json::Null,
        }
    }

    /// The entry of a version in the history.
    pub open spec fn snapshot_of(
        self,
        captured: Json,
        version: Seq<char>,
        date: Json,
        historical: Option<Json>,
    ) -> Json {
        snapshot_json(
            date,
            self.source_of(captured, version)->0.text(),
            self.roster_of(captured, version),
            self.sheet_of(captured, version, historical),
        )
    }

    /// The entries of the history, by version.
    pub open spec fn snapshots_of(self, captured: Json, resolved: Seq<ResolvedSnapshot>) -> Map<
        Seq<char>,
        Json,
    >
        decreases resolved.len(),
    {
        if resolved.len() == 0 {
            no_fields()
        } else {
            let entries = self.snapshots_of(captured, resolved.drop_last());
            let last = resolved.last();
            if self.source_of(captured, last.version@) is Some {
                entries.insert(
                    last.version@,
                    self.snapshot_of(
                        captured,
                        last.version@,
                        json_of(last.date),
                        last.historical(),
                    ),
                )
            } else {
                entries
            }
        }
    }

    /// The history as a document.
    pub open spec fn history_json(self, captured: Json, resolved: Seq<ResolvedSnapshot>) -> Json {
        Json::Object(
            no_fields().insert("currentVersion"@, Json::Text(self.current_version@)).insert(
                "generatedAt"@,
                json_of(self.time),
            ).insert("snapshots"@, Json::Object(self.snapshots_of(captured, resolved))),
        )
    }
}

/// The entry of a version in the history. A version without a source has none.
fn snapshot(
    game: &GameVersions,
    captured: &serde_json::Value,
    resolved: &ResolvedSnapshot,
) -> (entry: Option<serde_json::Value>)
    ensures
        match entry {
            Some(value) => game.source_of(json_of(*captured), resolved.version@) is Some && json_of(
                value,
            ) == game.snapshot_of(
                json_of(*captured),
                resolved.version@,
                json_of(resolved.date),
                resolved.historical(),
            ),
            None => game.source_of(json_of(*captured), resolved.version@) is None,
        },
{
    let version = &resolved.version;
    let Some(source) = game.source(captured, version) else {
        return None;
    };
    let (roster, sheet) = match source {
        SnapshotSource::Current => (
            text_list(&game.available_champions),
            value_clone(&game.champion_info_sheet),
        ),
        SnapshotSource::Save => match find_state(&game.pre_patch_data, version) {
            Some(i) => (
                value_clone(&game.pre_patch_data[i].available_champions),
                value_clone(&game.pre_patch_data[i].champion_info_sheet),
            ),
            None => (value_default(), value_default()),
        },
        SnapshotSource::Captured => match find_capture(captured, version) {
            Some(entry) => (
                cloned_or_null(value_get(entry, "availableChampions")),
                cloned_or_null(value_get(entry, "championInfoSheet")),
            ),
            None => (value_default(), value_default()),
        },
        SnapshotSource::HistoricalUntrusted => (
            value_default(),
            cloned_or_null(resolved.historical_sheet.as_ref()),
        ),
    };
    let mut entry = map_new();
    put(&mut entry, "date", value_clone(&resolved.date));
    put(&mut entry, "source", text_value(source.name()));
    put(&mut entry, "availableChampions", roster);
    put(&mut entry, "championInfoSheet", sheet);
    Some(value_from_map(entry))
}

/// A copy of a value that may be missing: nothing becomes null.
fn cloned_or_null(value: Option<&serde_json::Value>) -> (copy: serde_json::Value)
    ensures
        json_of(copy) == or_null(
            match value {
                Some(found) => Some(json_of(*found)),
                None => None,
            },
        ),
{
    match value {
        Some(found) => value_clone(found),
        None => value_default(),
    }
}

/// The history of balance sheets by game version, from the planned versions as the
/// game resolved them.
pub fn champion_balance_history(
    game: &GameVersions,
    captured: &serde_json::Value,
    resolved: &Vec<ResolvedSnapshot>,
) -> (history: serde_json::Value)
    ensures
        json_of(history) == game.history_json(json_of(*captured), resolved@),
{
    let mut snapshots = map_new();
    let mut i: usize = 0;
    while i < resolved.len()
        invariant
            i <= resolved.len(),
            fields_of(snapshots) == game.snapshots_of(
                json_of(*captured),
                resolved@.take(i as int),
            ),
        decreases resolved.len() - i,
    {
        assert(resolved@.take(i + 1).drop_last() == resolved@.take(i as int));
        match snapshot(game, captured, &resolved[i]) {
            Some(entry) => {
                map_insert(&mut snapshots, resolved[i].version.clone(), entry);
            },
            None => {},
        }
        i += 1;
    }
    assert(resolved@.take(i as int) == resolved@);
    let mut history = map_new();
    put(&mut history, "currentVersion", text_value(game.current_version.as_str()));
    put(&mut history, "generatedAt", value_clone(&game.time));
    put(&mut history, "snapshots", value_from_map(snapshots));
    value_from_map(history)
}

/// The day that stands for a version that was played is a day on which it was played,
/// and no match of the version was played later.
pub proof fn law_last_seen_is_the_last_day(rows: Seq<SoloRankMatch>, version: Seq<char>)
    ensures
        last_seen(rows, version) is Some <==> exists|i: int|
            0 <= i < rows.len() && (#[trigger] rows[i]).version@ == version,
        forall|i: int|
            0 <= i < rows.len() && (#[trigger] rows[i]).version@ == version ==> last_seen(
                rows,
                version,
            ) is Some && rows[i].day <= last_seen(rows, version)->0,
        last_seen(rows, version) is Some ==> exists|i: int|
            0 <= i < rows.len() && (#[trigger] rows[i]).version@ == version && rows[i].day
                == last_seen(rows, version)->0,
    decreases rows.len(),
{
    if rows.len() > 0 {
        let start = rows.drop_last();
        law_last_seen_is_the_last_day(start, version);
        assert forall|i: int| 0 <= i < start.len() implies start[i] == rows[i] by {}
        let last = rows.len() - 1;
        assert(rows[last] == rows.last());
        if last_seen(start, version) is Some {
            let k = choose|k: int|
                0 <= k < start.len() && (#[trigger] start[k]).version@ == version && start[k].day
                    == last_seen(start, version)->0;
            assert(rows[k].version@ == version);
        }
        assert forall|i: int|
            0 <= i < rows.len() && (#[trigger] rows[i]).version@ == version implies last_seen(
            rows,
            version,
        ) is Some && rows[i].day <= last_seen(rows, version)->0 by {
            if i < last {
                assert(start[i].version@ == version);
            }
        }
    }
}

/// What a save keeps of a version bears that version; it is found wherever there is
/// any.
pub proof fn law_saved_state_is_found(states: Seq<PatchState>, version: Seq<char>)
    ensures
        saved_state(states, version) is Some <==> exists|i: int|
            0 <= i < states.len() && (#[trigger] states[i]).version@ == version,
        saved_state(states, version) is Some ==> saved_state(states, version)->0.version@ == version
            && states.contains(saved_state(states, version)->0),
    decreases states.len(),
{
    if states.len() > 0 {
        let start = states.drop_last();
        law_saved_state_is_found(start, version);
        assert forall|i: int| 0 <= i < start.len() implies start[i] == states[i] by {}
        let last = states.len() - 1;
        assert(states[last] == states.last());
        if saved_state(start, version) is Some {
            let state = saved_state(start, version)->0;
            let k = choose|k: int| 0 <= k < start.len() && start[k] == state;
            assert(states[k] == state);
        }
        assert forall|i: int|
            0 <= i < states.len() && (#[trigger] states[i]).version@ == version implies saved_state(
            states,
            version,
        ) is Some by {
            if i < last {
                assert(start[i].version@ == version);
            }
        }
    }
}

/// The current version is always in the history, on the current day, with the live
/// sheet and the live roster, whatever the save and the ledger hold of it.
pub proof fn law_current_version_is_live(
    game: GameVersions,
    captured: Json,
    date: Json,
    historical: Option<Json>,
)
    ensures
        game.exports(captured, game.current_version@),
        game.day_of(game.current_version@) == game.current_day,
        game.snapshot_of(captured, game.current_version@, date, historical) == snapshot_json(
            date,
            "current"@,
            text_array(texts(game.available_champions@)),
            json_of(game.champion_info_sheet),
        ),
{
}

/// What the save keeps of an earlier version wins over what the ledger holds of it.
pub proof fn law_save_wins_over_ledger(
    game: GameVersions,
    captured: Json,
    version: Seq<char>,
    date: Json,
    historical: Option<Json>,
)
    requires
        version != game.current_version@,
        saved_state(game.pre_patch_data@, version) is Some,
    ensures
        game.exports(captured, version),
        game.snapshot_of(captured, version, date, historical) == snapshot_json(
            date,
            "save"@,
            json_of(saved_state(game.pre_patch_data@, version)->0.available_champions),
            json_of(saved_state(game.pre_patch_data@, version)->0.champion_info_sheet),
        ),
{
}

/// What was captured under a version is what the history later shows of it, once the
/// version is no longer current and as long as the save keeps nothing of it.
pub proof fn law_history_shows_captures(
    game: GameVersions,
    ledger: Json,
    version: Seq<char>,
    captured_at: Json,
    champions: Seq<Seq<char>>,
    sheet: Json,
    date: Json,
    historical: Option<Json>,
)
    requires
        with_capture(ledger, version, capture(captured_at, champions, sheet)) is Some,
        is_patch_version(version),
        version != game.current_version@,
        saved_state(game.pre_patch_data@, version) is None,
    ensures
        ({
            let captured = with_capture(ledger, version, capture(captured_at, champions, sheet))->0;
            &&& game.exports(captured, version)
            &&& game.snapshot_of(captured, version, date, historical) == snapshot_json(
                date,
                "captured"@,
                text_array(champions),
                sheet,
            )
        }),
{
    let captured = with_capture(ledger, version, capture(captured_at, champions, sheet))->0;
    assert(snapshot_in(captured, version) == Some(capture(captured_at, champions, sheet)));
    reveal_strlit("capturedAt");
    reveal_strlit("availableChampions");
    reveal_strlit("championInfoSheet");
    assert("capturedAt"@.len() == 10);
    assert("availableChampions"@.len() == 18);
    assert("championInfoSheet"@.len() == 17);
}

/// A version of which neither the save nor the ledger holds a sheet gets what the
/// game gives for its day, marked as untrusted, and no roster.
pub proof fn law_unknown_rosters_stay_null(
    game: GameVersions,
    captured: Json,
    version: Seq<char>,
    date: Json,
    historical: Option<Json>,
)
    requires
        version != game.current_version@,
        saved_state(game.pre_patch_data@, version) is None,
        snapshot_in(captured, version) is None,
        game.source_of(captured, version) is Some,
    ensures
        game.snapshot_of(captured, version, date, historical) == snapshot_json(
            date,
            "historical-untrusted"@,
            Json::Null,
            or_null(historical),
        ),
{
}

/// A version that is not that of a real patch is not in the history on the strength
/// of a capture alone.
pub proof fn law_captures_of_boot_versions_are_ignored(
    game: GameVersions,
    captured: Json,
    version: Seq<char>,
)
    requires
        !is_patch_version(version),
        version != game.current_version@,
        last_seen(game.solo_rank_matches@, version) is None,
        saved_state(game.pre_patch_data@, version) is None,
    ensures
        !game.exports(captured, version),
{
}

/// The history that is made of a plan holds the versions that are exported and no
/// others, each as the game resolved it.
pub proof fn law_history_is_complete(
    game: GameVersions,
    captured: Json,
    plan: Seq<PlannedSnapshot>,
    resolved: Seq<ResolvedSnapshot>,
)
    requires
        is_plan(game, captured, plan),
        resolved.len() == plan.len(),
        forall|i: int|
            0 <= i < plan.len() ==> (#[trigger] resolved[i]).version@ == plan[i].version@,
    ensures
        forall|v: Seq<char>| #[trigger]
            game.snapshots_of(captured, resolved).contains_key(v) <==> game.exports(captured, v),
        forall|i: int|
            0 <= i < resolved.len() ==> game.snapshots_of(captured, resolved)[(
            #[trigger] resolved[i]).version@] == game.snapshot_of(
                captured,
                resolved[i].version@,
                json_of(resolved[i].date),
                resolved[i].historical(),
            ),
{
    assert forall|i: int, j: int| 0 <= i < j < resolved.len() implies (#[trigger] resolved[i]).version@
        != (#[trigger] resolved[j]).version@ by {
        assert(plan[i].version@ != plan[j].version@);
    }
    assert forall|i: int| 0 <= i < resolved.len() implies game.source_of(
        captured,
        (#[trigger] resolved[i]).version@,
    ) is Some by {
        assert(game.exports(captured, plan[i].version@));
    }
    lemma_snapshots(game, captured, resolved);
    let entries = game.snapshots_of(captured, resolved);
    assert forall|v: Seq<char>| #[trigger] entries.contains_key(v) <==> game.exports(captured, v) by {
        if entries.contains_key(v) {
            let i = choose|i: int|
                0 <= i < resolved.len() && (#[trigger] resolved[i]).version@ == v;
            assert(plan[i].version@ == v);
        }
        if game.exports(captured, v) {
            let i = choose|i: int| 0 <= i < plan.len() && (#[trigger] plan[i]).version@ == v;
            assert(resolved[i].version@ == v);
        }
    }
}

/// The entries of versions that differ and that all have a source.
proof fn lemma_snapshots(game: GameVersions, captured: Json, resolved: Seq<ResolvedSnapshot>)
    requires
        forall|i: int, j: int|
            0 <= i < j < resolved.len() ==> (#[trigger] resolved[i]).version@ != (
            #[trigger] resolved[j]).version@,
        forall|i: int|
            0 <= i < resolved.len() ==> game.source_of(
                captured,
                (#[trigger] resolved[i]).version@,
            ) is Some,
    ensures
        forall|v: Seq<char>| #[trigger]
            game.snapshots_of(captured, resolved).contains_key(v) <==> exists|i: int|
                0 <= i < resolved.len() && (#[trigger] resolved[i]).version@ == v,
        forall|i: int|
            0 <= i < resolved.len() ==> game.snapshots_of(captured, resolved)[(
            #[trigger] resolved[i]).version@] == game.snapshot_of(
                captured,
                resolved[i].version@,
                json_of(resolved[i].date),
                resolved[i].historical(),
            ),
    decreases resolved.len(),
{
    if resolved.len() > 0 {
        let start = resolved.drop_last();
        let last = resolved.len() - 1;
        assert forall|i: int| 0 <= i < start.len() implies start[i] == resolved[i] by {}
        lemma_snapshots(game, captured, start);
        let entries = game.snapshots_of(captured, resolved);
        let earlier = game.snapshots_of(captured, start);
        assert(resolved[last] == resolved.last());
        assert forall|v: Seq<char>| #[trigger] entries.contains_key(v) <==> exists|i: int|
            0 <= i < resolved.len() && (#[trigger] resolved[i]).version@ == v by {
            if entries.contains_key(v) && v != resolved[last].version@ {
                assert(earlier.contains_key(v));
                let i = choose|i: int| 0 <= i < start.len() && (#[trigger] start[i]).version@ == v;
                assert(resolved[i].version@ == v);
            }
            if exists|i: int| 0 <= i < resolved.len() && (#[trigger] resolved[i]).version@ == v {
                let i = choose|i: int|
                    0 <= i < resolved.len() && (#[trigger] resolved[i]).version@ == v;
                if i < last {
                    assert(start[i].version@ == v);
                    assert(earlier.contains_key(v));
                }
            }
        }
        assert forall|i: int| 0 <= i < resolved.len() implies entries[(
        #[trigger] resolved[i]).version@] == game.snapshot_of(
            captured,
            resolved[i].version@,
            json_of(resolved[i].date),
            resolved[i].historical(),
        ) by {
            if i < last {
                assert(start[i].version@ == resolved[i].version@);
                assert(resolved[i].version@ != resolved[last].version@);
            }
        }
    }
}

/// Whether the game resolved each planned version, and answered by the day and by the
/// champion that it was asked for alone.
pub open spec fn answers(
    plan: Seq<PlannedSnapshot>,
    resolved: Seq<ResolvedSnapshot>,
    dates: spec_fn(u64) -> Json,
    sheets: spec_fn(u64, Option<Seq<char>>) -> Option<Json>,
) -> bool {
    &&& resolved.len() == plan.len()
    &&& forall|i: int|
        0 <= i < plan.len() ==> {
            &&& (#[trigger] resolved[i]).version@ == plan[i].version@
            &&& json_of(resolved[i].date) == dates(plan[i].day)
            &&& resolved[i].historical() == sheets(plan[i].day, plan[i].asks_for())
        }
}

/// The order of the matches leaves the last day on which a version was played.
proof fn lemma_last_seen_in_any_order(
    rows: Seq<SoloRankMatch>,
    others: Seq<SoloRankMatch>,
    version: Seq<char>,
)
    requires
        rows.to_multiset() == others.to_multiset(),
    ensures
        last_seen(rows, version) == last_seen(others, version),
{
    rows.to_multiset_ensures();
    others.to_multiset_ensures();
    law_last_seen_is_the_last_day(rows, version);
    law_last_seen_is_the_last_day(others, version);
    if let Some(day) = last_seen(rows, version) {
        let i = choose|i: int|
            0 <= i < rows.len() && (#[trigger] rows[i]).version@ == version && rows[i].day == day;
        assert(others.to_multiset().count(rows[i]) > 0);
        let j = choose|j: int| 0 <= j < others.len() && others[j] == rows[i];
        assert(others[j].version@ == version);
    }
    if let Some(day) = last_seen(others, version) {
        let j = choose|j: int|
            0 <= j < others.len() && (#[trigger] others[j]).version@ == version && others[j].day
                == day;
        assert(rows.to_multiset().count(others[j]) > 0);
        let i = choose|i: int| 0 <= i < rows.len() && rows[i] == others[j];
        assert(rows[i].version@ == version);
    }
}

/// The order of the matches leaves the history as it is: two games that differ in
/// nothing else have the same history, where the answers of the game go by the day and
/// by the champion that it is asked for.
pub proof fn law_match_order_leaves_the_history(
    game: GameVersions,
    other: GameVersions,
    captured: Json,
    plan: Seq<PlannedSnapshot>,
    other_plan: Seq<PlannedSnapshot>,
    resolved: Seq<ResolvedSnapshot>,
    other_resolved: Seq<ResolvedSnapshot>,
    dates: spec_fn(u64) -> Json,
    sheets: spec_fn(u64, Option<Seq<char>>) -> Option<Json>,
)
    requires
        other == (GameVersions { solo_rank_matches: other.solo_rank_matches, ..game }),
        game.solo_rank_matches@.to_multiset() == other.solo_rank_matches@.to_multiset(),
        is_plan(game, captured, plan),
        is_plan(other, captured, other_plan),
        answers(plan, resolved, dates, sheets),
        answers(other_plan, other_resolved, dates, sheets),
    ensures
        game.snapshots_of(captured, resolved) == other.snapshots_of(captured, other_resolved),
        game.history_json(captured, resolved) == other.history_json(captured, other_resolved),
{
    law_history_is_complete(game, captured, plan, resolved);
    law_history_is_complete(other, captured, other_plan, other_resolved);
    let entries = game.snapshots_of(captured, resolved);
    let other_entries = other.snapshots_of(captured, other_resolved);
    assert forall|v: Seq<char>| #[trigger] entries.contains_key(v) <==> other_entries.contains_key(
        v,
    ) by {
        lemma_last_seen_in_any_order(game.solo_rank_matches@, other.solo_rank_matches@, v);
        assert(game.exports(captured, v) <==> other.exports(captured, v));
    }
    assert forall|v: Seq<char>| #[trigger] entries.contains_key(v) implies entries[v]
        == other_entries[v] by {
        lemma_last_seen_in_any_order(game.solo_rank_matches@, other.solo_rank_matches@, v);
        assert(game.exports(captured, v));
        assert(other.exports(captured, v));
        let i = choose|i: int| 0 <= i < plan.len() && (#[trigger] plan[i]).version@ == v;
        let j = choose|j: int|
            0 <= j < other_plan.len() && (#[trigger] other_plan[j]).version@ == v;
        assert(resolved[i].version@ == v);
        assert(other_resolved[j].version@ == v);
        assert(plan[i].day == other_plan[j].day);
        assert(plan[i].asks_for() == other_plan[j].asks_for());
    }
    assert(entries =~= other_entries);
}

/// What was captured, written and read again is what the history later shows: the text
/// of a ledger with a capture put in gives the version its captured roster, and its
/// captured sheet as it is read.
pub proof fn law_history_shows_written_captures(
    game: GameVersions,
    ledger: Json,
    text: Seq<char>,
    version: Seq<char>,
    captured_at: Json,
    champions: Seq<Seq<char>>,
    sheet: Json,
    date: Json,
    historical: Option<Json>,
)
    requires
        with_capture(ledger, version, capture(captured_at, champions, sheet)) is Some,
        ledger_in(Some(text)) == ledger_or_empty(
            reread(
                with_capture(ledger, version, capture(captured_at, champions, sheet))->0,
                READ_LEVELS as nat,
            ),
        ),
        reread(ledger, READ_LEVELS as nat) is Some,
        reread(captured_at, CAPTURE_LEVELS as nat) is Some,
        reread(sheet, CAPTURE_LEVELS as nat) is Some,
        is_patch_version(version),
        version != game.current_version@,
        saved_state(game.pre_patch_data@, version) is None,
    ensures
        game.exports(ledger_in(Some(text)), version),
        game.snapshot_of(ledger_in(Some(text)), version, date, historical) == snapshot_json(
            date,
            "captured"@,
            text_array(champions),
            reread(sheet, CAPTURE_LEVELS as nat)->0,
        ),
        reads_back(sheet, CAPTURE_LEVELS as nat) ==> reread(sheet, CAPTURE_LEVELS as nat) == Some(
            sheet,
        ),
{
    law_captures_are_read(ledger, version, captured_at, champions, sheet);
    if reads_back(sheet, CAPTURE_LEVELS as nat) {
        law_documents_are_read_back(sheet, CAPTURE_LEVELS as nat);
    }
    law_history_shows_captures(
        game,
        reread(ledger, READ_LEVELS as nat)->0,
        version,
        reread(captured_at, CAPTURE_LEVELS as nat)->0,
        champions,
        reread(sheet, CAPTURE_LEVELS as nat)->0,
        date,
        historical,
    );
}

/// Whether some match bears a version.
pub open spec fn was_played(game: GameVersions, version: Seq<char>) -> bool {
    exists|i: int|
        0 <= i < game.solo_rank_matches@.len() && (
        #[trigger] game.solo_rank_matches@[i]).version@ == version
}

/// Whether the save keeps something of a version.
pub open spec fn is_saved(game: GameVersions, version: Seq<char>) -> bool {
    exists|i: int|
        0 <= i < game.pre_patch_data@.len() && (#[trigger] game.pre_patch_data@[i]).version@
            == version
}

/// No version is lost: the history holds the current version, every version that the
/// save keeps, every version of a real patch that was captured, and every version that
/// was played, at whatever time, as long as a sheet can be had for it. One that was
/// played and is neither saved nor captured is left out only where there is no champion
/// to ask the game for. It holds no other version.
pub proof fn law_no_version_is_lost(game: GameVersions, captured: Json, version: Seq<char>)
    ensures
        version == game.current_version@ ==> game.exports(captured, version),
        is_saved(game, version) ==> game.exports(captured, version),
        snapshot_in(captured, version) is Some && is_patch_version(version) ==> game.exports(
            captured,
            version,
        ),
        was_played(game, version) && snapshot_in(captured, version) is Some ==> game.exports(
            captured,
            version,
        ),
        was_played(game, version) && game.available_champions@.len() > 0 ==> game.exports(
            captured,
            version,
        ),
        game.exports(captured, version) ==> {
            ||| version == game.current_version@
            ||| is_saved(game, version)
            ||| snapshot_in(captured, version) is Some && (is_patch_version(version) || was_played(
                game,
                version,
            ))
            ||| was_played(game, version) && game.available_champions@.len() > 0
        },
{
    law_last_seen_is_the_last_day(game.solo_rank_matches@, version);
    law_saved_state_is_found(game.pre_patch_data@, version);
}

/// Each version has the best source there is: the live sheet for the current version,
/// else what the save keeps, else what was captured, else what the game answers. There is
/// no source only where there is none of these and no champion to ask for.
pub proof fn law_each_version_has_the_best_source(
    game: GameVersions,
    captured: Json,
    version: Seq<char>,
)
    ensures
        game.source_of(captured, version) == Some(SnapshotSource::Current) <==> version
            == game.current_version@,
        game.source_of(captured, version) == Some(SnapshotSource::Save) <==> version
            != game.current_version@ && is_saved(game, version),
        game.source_of(captured, version) == Some(SnapshotSource::Captured) <==> version
            != game.current_version@ && !is_saved(game, version) && snapshot_in(
            captured,
            version,
        ) is Some,
        game.source_of(captured, version) == Some(SnapshotSource::HistoricalUntrusted) <==> version
            != game.current_version@ && !is_saved(game, version) && snapshot_in(
            captured,
            version,
        ) is None && game.available_champions@.len() > 0,
        game.source_of(captured, version) is None ==> game.available_champions@.len() == 0,
        game.anchor_of(captured, version) is Some <==> version != game.current_version@
            && !is_saved(game, version) && snapshot_in(captured, version) is None
            && game.available_champions@.len() > 0,
        game.anchor_of(captured, version) is Some ==> game.anchor_of(captured, version) == Some(
            game.available_champions@[0]@,
        ),
{
    law_saved_state_is_found(game.pre_patch_data@, version);
}

/// The current day stands for the current version and for a version that was never
/// played. For an earlier version that was played stands a day on which it was played,
/// and it was not played later.
pub proof fn law_the_last_day_stands_for_a_version(game: GameVersions, version: Seq<char>)
    ensures
        version == game.current_version@ || !was_played(game, version) ==> game.day_of(version)
            == game.current_day,
        version != game.current_version@ && was_played(game, version) ==> {
            &&& exists|i: int|
                0 <= i < game.solo_rank_matches@.len() && (
                #[trigger] game.solo_rank_matches@[i]).version@ == version
                    && game.solo_rank_matches@[i].day == game.day_of(version)
            &&& forall|i: int|
                0 <= i < game.solo_rank_matches@.len() && (
                #[trigger] game.solo_rank_matches@[i]).version@ == version
                    ==> game.solo_rank_matches@[i].day <= game.day_of(version)
        },
{
    law_last_seen_is_the_last_day(game.solo_rank_matches@, version);
}

/// A plan holds every version that is exported, once, and no other. Each stands in it
/// with its day, its source and the champion to ask for.
pub proof fn law_plans_are_complete(
    game: GameVersions,
    captured: Json,
    plan: Seq<PlannedSnapshot>,
    version: Seq<char>,
)
    requires
        is_plan(game, captured, plan),
    ensures
        game.exports(captured, version) <==> exists|i: int|
            0 <= i < plan.len() && (#[trigger] plan[i]).version@ == version,
        forall|i: int, j: int|
            0 <= i < plan.len() && 0 <= j < plan.len() && (#[trigger] plan[i]).version@ == version
                && (#[trigger] plan[j]).version@ == version ==> i == j,
        forall|i: int|
            0 <= i < plan.len() && (#[trigger] plan[i]).version@ == version ==> {
                &&& plan[i].day == game.day_of(version)
                &&& Some(plan[i].source) == game.source_of(captured, version)
                &&& plan[i].anchor is Some <==> game.anchor_of(captured, version) is Some
                &&& plan[i].anchor is Some ==> plan[i].anchor->0@ == game.available_champions@[0]@
            },
{
    law_each_version_has_the_best_source(game, captured, version);
}

/// A version of any match is planned, on the last day of it, as long as there is a
/// champion: it is never lost for its age.
pub proof fn law_played_versions_are_planned(
    game: GameVersions,
    captured: Json,
    plan: Seq<PlannedSnapshot>,
    k: int,
)
    requires
        is_plan(game, captured, plan),
        0 <= k < game.solo_rank_matches@.len(),
        game.available_champions@.len() > 0,
    ensures
        exists|i: int|
            {
                &&& 0 <= i < plan.len()
                &&& (#[trigger] plan[i]).version@ == game.solo_rank_matches@[k].version@
                &&& plan[i].version@ != game.current_version@ ==> plan[i].day
                    >= game.solo_rank_matches@[k].day
            },
{
    let version = game.solo_rank_matches@[k].version@;
    assert(was_played(game, version));
    law_no_version_is_lost(game, captured, version);
    law_plans_are_complete(game, captured, plan, version);
    law_the_last_day_stands_for_a_version(game, version);
    let i = choose|i: int| 0 <= i < plan.len() && (#[trigger] plan[i]).version@ == version;
    assert(plan[i].day == game.day_of(version));
}

/// What was captured of a version is shown of it where the version is neither current nor
/// saved: its roster and its sheet, and null for what the capture lacks.
pub proof fn law_captured_entries_are_shown(
    game: GameVersions,
    captured: Json,
    version: Seq<char>,
    entry: Json,
    date: Json,
    historical: Option<Json>,
)
    requires
        version != game.current_version@,
        !is_saved(game, version),
        snapshot_in(captured, version) == Some(entry),
    ensures
        game.snapshot_of(captured, version, date, historical) == snapshot_json(
            date,
            "captured"@,
            match field(entry, "availableChampions"@) {
                Some(roster) => roster,
                None => Json::Null,
            },
            match field(entry, "championInfoSheet"@) {
                Some(sheet) => sheet,
                None => Json::Null,
            },
        ),
{
    law_saved_state_is_found(game.pre_patch_data@, version);
}

/// An entry of the history tells its date, its source, its roster and its sheet, and
/// nothing else. The history tells the current version, when it was made, and the entries.
pub proof fn law_histories_are_told_in_full(
    game: GameVersions,
    captured: Json,
    resolved: Seq<ResolvedSnapshot>,
    date: Json,
    source: Seq<char>,
    roster: Json,
    sheet: Json,
    key: Seq<char>,
)
    ensures
        field(snapshot_json(date, source, roster, sheet), "date"@) == Some(date),
        field(snapshot_json(date, source, roster, sheet), "source"@) == Some(Json::Text(source)),
        field(snapshot_json(date, source, roster, sheet), "availableChampions"@) == Some(roster),
        field(snapshot_json(date, source, roster, sheet), "championInfoSheet"@) == Some(sheet),
        field(snapshot_json(date, source, roster, sheet), key) is Some ==> key == "date"@ || key
            == "source"@ || key == "availableChampions"@ || key == "championInfoSheet"@,
        field(game.history_json(captured, resolved), "currentVersion"@) == Some(
            Json::Text(game.current_version@),
        ),
        field(game.history_json(captured, resolved), "generatedAt"@) == Some(json_of(game.time)),
        field(game.history_json(captured, resolved), "snapshots"@) == Some(
            Json::Object(game.snapshots_of(captured, resolved)),
        ),
        field(game.history_json(captured, resolved), key) is Some ==> key == "currentVersion"@
            || key == "generatedAt"@ || key == "snapshots"@,
{
    reveal_strlit("date");
    reveal_strlit("source");
    reveal_strlit("availableChampions");
    reveal_strlit("championInfoSheet");
    reveal_strlit("currentVersion");
    reveal_strlit("generatedAt");
    reveal_strlit("snapshots");
    assert("date"@.len() == 4 && "source"@.len() == 6);
    assert("availableChampions"@.len() == 18 && "championInfoSheet"@.len() == 17);
    assert("currentVersion"@.len() == 14 && "generatedAt"@.len() == 11);
    assert("snapshots"@.len() == 9);
}

/// What the save keeps of an earlier version is shown of it, wherever in the save it
/// stands, where the save keeps one state of that version.
pub proof fn law_saved_entries_are_shown(
    game: GameVersions,
    captured: Json,
    k: int,
    date: Json,
    historical: Option<Json>,
)
    requires
        0 <= k < game.pre_patch_data@.len(),
        game.pre_patch_data@[k].version@ != game.current_version@,
        forall|i: int|
            0 <= i < game.pre_patch_data@.len() && i != k ==> (
            #[trigger] game.pre_patch_data@[i]).version@ != game.pre_patch_data@[k].version@,
    ensures
        game.exports(captured, game.pre_patch_data@[k].version@),
        game.snapshot_of(captured, game.pre_patch_data@[k].version@, date, historical)
            == snapshot_json(
            date,
            "save"@,
            json_of(game.pre_patch_data@[k].available_champions),
            json_of(game.pre_patch_data@[k].champion_info_sheet),
        ),
{
    let states = game.pre_patch_data@;
    let version = states[k].version@;
    law_saved_state_is_found(states, version);
    let found = saved_state(states, version)->0;
    let i = choose|i: int| 0 <= i < states.len() && states[i] == found;
    assert(i == k);
    law_save_wins_over_ledger(game, captured, version, date, historical);
}

} // verus!
