//! The ledger of captured balance sheets.
//!
//! Each campaign has a ledger: a document whose entry `snapshots` holds, by game
//! version, the balance sheet and the roster that were in force when the coach
//! asked for an export.

use crate::json::{
    compact_text, field, from_str, json_of, law_documents_are_read_back, law_entries_are_read_alone,
    map_insert, map_new, no_fields, parsed, put, reads_back, reread, text_array, text_list,
    to_string, value_as_object_mut, value_clone, value_from_map, value_get_mut, Json, READ_LEVELS,
};
use crate::paths::{balance_snapshot_ledger_path, ledger_path};
use crate::text::{
    before, decimal, digits_value, law_decimal_reads_back, law_numbers_are_read, lemma_before,
    lemma_before_all, lemma_digits_hold_no_other, parse_u64, parsed_number, part_before, texts,
};
use vstd::prelude::*;

verus! {

/// The first year that the version of a real patch can bear.
pub const FIRST_PATCH_YEAR: u64 = 2000;

/// Whether a game version is that of a real patch: it begins with a year, up to the
/// first point, that is not before the first patch year.
pub open spec fn is_patch_version(version: Seq<char>) -> bool {
    match parsed_number(before(version, '.'), u64::MAX as nat) {
        Some(year) => year >= FIRST_PATCH_YEAR,
        None => false,
    }
}

/// Whether a game of this version and this roster is far enough loaded for its sheet to
/// be captured. While a save is loading, the game briefly reports boot versions and an
/// empty roster.
pub open spec fn is_settled(version: Seq<char>, champions: Seq<Seq<char>>) -> bool {
    is_patch_version(version) && champions.len() > 0
}

/// The ledger of a campaign without captures.
pub open spec fn empty_ledger() -> Json {
    Json::Object(no_fields().insert("snapshots"@, Json::Object(no_fields())))
}

/// The ledger that was read, or an empty one where none could be read.
pub open spec fn ledger_or_empty(read: Option<Json>) -> Json {
    match read {
        Some(ledger) => ledger,
        None => empty_ledger(),
    }
}

/// What the text of a ledger holds, if there is a text.
pub open spec fn ledger_in(text: Option<Seq<char>>) -> Json {
    ledger_or_empty(
        match text {
            Some(contents) => parsed(contents),
            None => None,
        },
    )
}

/// The capture of a version that a ledger holds.
pub open spec fn snapshot_in(ledger: Json, version: Seq<char>) -> Option<Json> {
    match field(ledger, "snapshots"@) {
        Some(snapshots) => field(snapshots, version),
        None => None,
    }
}

/// A capture: when it was made, the roster and the balance sheet.
pub open spec fn capture(captured_at: Json, champions: Seq<Seq<char>>, sheet: Json) -> Json {
    Json::Object(
        no_fields().insert("capturedAt"@, captured_at).insert(
            "availableChampions"@,
            text_array(champions),
        ).insert("championInfoSheet"@, sheet),
    )
}

/// A ledger with a capture put in under a version. A document whose entry
/// `snapshots` is no object takes no capture.
pub open spec fn with_capture(ledger: Json, version: Seq<char>, entry: Json) -> Option<Json> {
    match field(ledger, "snapshots"@) {
        Some(Json::Object(snapshots)) => Some(
            Json::Object(
                ledger->Object_0.insert(
                    "snapshots"@,
                    Json::Object(snapshots.insert(version, entry)),
                ),
            ),
        ),
        _ => None,
    }
}

/// The number of levels of nesting that a ledger leaves to the time and to the sheet of
/// a capture.
pub const CAPTURE_LEVELS: u64 = 124;

/// A capture as it is read after it was written.
pub open spec fn capture_read(captured_at: Json, champions: Seq<Seq<char>>, sheet: Json) -> Json {
    capture(
        reread(captured_at, CAPTURE_LEVELS as nat)->0,
        champions,
        reread(sheet, CAPTURE_LEVELS as nat)->0,
    )
}

/// What is in force in the open game.
pub struct CurrentBalance {
    /// The game version of the current date.
    pub version: String,
    /// The date and time in the game.
    pub time: serde_json::Value,
    /// The champions that are enabled.
    pub available_champions: Vec<String>,
    /// The balance sheet.
    pub champion_info_sheet: serde_json::Value,
}

impl CurrentBalance {
    /// Whether the game is far enough loaded for its sheet to be captured.
    pub open spec fn is_settled(self) -> bool {
        is_settled(self.version@, texts(self.available_champions@))
    }

    /// The capture of what is in force.
    pub open spec fn as_capture(self) -> Json {
        capture(
            json_of(self.time),
            texts(self.available_champions@),
            json_of(self.champion_info_sheet),
        )
    }
}

/// Whether the game is far enough loaded for its sheet to be captured.
fn settled(version: &str, available_champions: &Vec<String>) -> (settled: bool)
    ensures
        settled == is_settled(version@, texts(available_champions@)),
{
    valid_patch_version(version) && available_champions.len() > 0
}

/// Whether a game version is that of a real patch.
pub fn valid_patch_version(version: &str) -> (valid: bool)
    ensures
        valid == is_patch_version(version@),
{
    let part = part_before(version, '.');
    match parse_u64(&part) {
        Some(year) => year >= FIRST_PATCH_YEAR,
        None => false,
    }
}

/// The ledger that was read, or an empty one.
pub fn ledger_read(read: Option<serde_json::Value>) -> (ledger: serde_json::Value)
    ensures
        json_of(ledger) == ledger_or_empty(
            match read {
                Some(value) => Some(json_of(value)),
                None => None,
            },
        ),
{
    match read {
        Some(value) => value,
        None => {
            let mut ledger = map_new();
            put(&mut ledger, "snapshots", value_from_map(map_new()));
            value_from_map(ledger)
        },
    }
}

/// Reads a ledger from the contents of its file. A file that is missing or that
/// holds no document counts as an empty ledger.
pub fn read_balance_snapshot_ledger(text: Option<&str>) -> (ledger: serde_json::Value)
    ensures
        json_of(ledger) == ledger_in(
            match text {
                Some(contents) => Some(contents@),
                None => None,
            },
        ),
        reread(json_of(ledger), READ_LEVELS as nat) is Some,
{
    proof {
        lemma_empty_ledger_is_read();
    }
    let read = match text {
        Some(contents) => match from_str(contents) {
            Ok(value) => Some(value),
            Err(_) => None,
        },
        None => None,
    };
    ledger_read(read)
}

/// The path of the ledger that a capture of the open game goes to. There is none
/// where the game is not far enough loaded, or where there is no export folder.
pub fn capture_target(
    version: &str,
    available_champions: &Vec<String>,
    dir: Option<&str>,
    campaign_key: &str,
) -> (path: Option<String>)
    ensures
        match path {
            Some(p) => is_settled(version@, texts(available_champions@)) && dir is Some && p@
                == ledger_path(dir->0@, campaign_key@),
            None => !is_settled(version@, texts(available_champions@)) || dir is None,
        },
{
    if !settled(version, available_champions) {
        return None;
    }
    balance_snapshot_ledger_path(dir, campaign_key)
}

/// Puts a capture of the open game into a ledger. Nothing comes of it where the game
/// is not far enough loaded, or where the ledger takes no captures.
pub fn captured_ledger(current: &CurrentBalance, ledger: serde_json::Value) -> (updated: Option<
    serde_json::Value,
>)
    ensures
        match updated {
            Some(value) => current.is_settled() && with_capture(
                json_of(ledger),
                current.version@,
                current.as_capture(),
            ) == Some(json_of(value)),
            None => !current.is_settled() || with_capture(
                json_of(ledger),
                current.version@,
                current.as_capture(),
            ) is None,
        },
{
    if !settled(current.version.as_str(), &current.available_champions) {
        return None;
    }
    let mut ledger = ledger;
    {
        let Some(entry) = value_get_mut(&mut ledger, "snapshots") else {
            return None;
        };
        let Some(snapshots) = value_as_object_mut(entry) else {
            return None;
        };
        let mut taken = map_new();
        put(&mut taken, "capturedAt", value_clone(&current.time));
        put(&mut taken, "availableChampions", text_list(&current.available_champions));
        put(&mut taken, "championInfoSheet", value_clone(&current.champion_info_sheet));
        map_insert(snapshots, current.version.clone(), value_from_map(taken));
    }
    Some(ledger)
}

/// Captures the balance sheet of the open game: the new contents of the ledger's
/// file, given its contents until now. Nothing is to be written where the game is
/// not far enough loaded, or where the ledger takes no captures.
///
/// What is read in the new contents is the ledger with the capture put in, each number
/// as it is read ([`reread`]), as long as neither the time nor the sheet is nested
/// deeper than [`CAPTURE_LEVELS`]. Where all numbers are read back, it is the ledger with
/// the capture put in as it was.
pub fn capture_current_balance_snapshot(
    current: &CurrentBalance,
    ledger_text: Option<&str>,
) -> (contents: Option<String>)
    ensures
        ({
            let ledger = ledger_in(
                match ledger_text {
                    Some(text) => Some(text@),
                    None => None,
                },
            );
            let updated = with_capture(ledger, current.version@, current.as_capture());
            match contents {
                Some(text) => {
                    &&& current.is_settled()
                    &&& updated is Some
                    &&& text@ == compact_text(updated->0)
                    &&& ledger_in(Some(text@)) == ledger_or_empty(
                        reread(updated->0, READ_LEVELS as nat),
                    )
                    &&& reread(json_of(current.time), CAPTURE_LEVELS as nat) is Some && reread(
                        json_of(current.champion_info_sheet),
                        CAPTURE_LEVELS as nat,
                    ) is Some ==> Some(ledger_in(Some(text@))) == with_capture(
                        reread(ledger, READ_LEVELS as nat)->0,
                        current.version@,
                        capture_read(
                            json_of(current.time),
                            texts(current.available_champions@),
                            json_of(current.champion_info_sheet),
                        ),
                    )
                    &&& reads_back(updated->0, READ_LEVELS as nat) ==> ledger_in(Some(text@))
                        == updated->0
                },
                None => !current.is_settled() || updated is None,
            }
        }),
{
    if !settled(current.version.as_str(), &current.available_champions) {
        return None;
    }
    let ledger = read_balance_snapshot_ledger(ledger_text);
    let ghost before = json_of(ledger);
    match captured_ledger(current, ledger) {
        Some(updated) => {
            proof {
                let time = json_of(current.time);
                let sheet = json_of(current.champion_info_sheet);
                if reread(time, CAPTURE_LEVELS as nat) is Some && reread(
                    sheet,
                    CAPTURE_LEVELS as nat,
                ) is Some {
                    law_captures_are_read(
                        before,
                        current.version@,
                        time,
                        texts(current.available_champions@),
                        sheet,
                    );
                }
                if reads_back(json_of(updated), READ_LEVELS as nat) {
                    law_documents_are_read_back(json_of(updated), READ_LEVELS as nat);
                }
            }
            match to_string(&updated) {
                Ok(text) => Some(text),
                Err(_) => None,
            }
        },
        None => None,
    }
}

/// The ledger holds a capture after it was put in, whatever it held before.
pub proof fn law_capture_is_kept(ledger: Json, version: Seq<char>, entry: Json)
    requires
        with_capture(ledger, version, entry) is Some,
    ensures
        snapshot_in(with_capture(ledger, version, entry)->0, version) == Some(entry),
{
}

/// A capture leaves the captures of all other versions, and all else that the ledger
/// holds, as they were.
pub proof fn law_capture_leaves_the_rest(
    ledger: Json,
    version: Seq<char>,
    entry: Json,
    other: Seq<char>,
    key: Seq<char>,
)
    requires
        with_capture(ledger, version, entry) is Some,
        other != version,
        key != "snapshots"@,
    ensures
        snapshot_in(with_capture(ledger, version, entry)->0, other) == snapshot_in(ledger, other),
        field(with_capture(ledger, version, entry)->0, key) == field(ledger, key),
{
}

/// A ledger takes captures again after each one, and of two captures under one
/// version the later stands.
pub proof fn law_later_capture_stands(ledger: Json, version: Seq<char>, entry: Json, later: Json)
    requires
        with_capture(ledger, version, entry) is Some,
    ensures
        with_capture(with_capture(ledger, version, entry)->0, version, later) == with_capture(
            ledger,
            version,
            later,
        ),
{
    let snapshots = field(ledger, "snapshots"@)->0->Object_0;
    let fields = ledger->Object_0;
    assert(snapshots.insert(version, entry).insert(version, later) =~= snapshots.insert(
        version,
        later,
    ));
    assert(fields.insert("snapshots"@, Json::Object(snapshots.insert(version, entry))).insert(
        "snapshots"@,
        Json::Object(snapshots.insert(version, later)),
    ) =~= fields.insert("snapshots"@, Json::Object(snapshots.insert(version, later))));
}

/// A campaign without a ledger takes its first capture.
pub proof fn law_empty_ledger_takes_captures(version: Seq<char>, entry: Json)
    ensures
        with_capture(empty_ledger(), version, entry) is Some,
        reads_back(empty_ledger(), READ_LEVELS as nat),
        forall|other: Seq<char>| snapshot_in(empty_ledger(), other) is None,
{
    let inner = Json::Object(no_fields());
    assert(reads_back(inner, (READ_LEVELS - 1) as nat));
}

/// An empty ledger is read.
proof fn lemma_empty_ledger_is_read()
    ensures
        reread(empty_ledger(), READ_LEVELS as nat) is Some,
{
    let inner = Json::Object(no_fields());
    assert(reread(inner, (READ_LEVELS - 1) as nat) is Some);
}

/// A ledger that was written and read again holds the captures of the same versions, and
/// each is what is read of it alone: what becomes of the numbers of one capture says
/// nothing of another.
pub proof fn law_each_capture_is_read_alone(ledger: Json, version: Seq<char>)
    requires
        reread(ledger, READ_LEVELS as nat) is Some,
    ensures
        snapshot_in(reread(ledger, READ_LEVELS as nat)->0, version) == (match snapshot_in(
            ledger,
            version,
        ) {
            Some(entry) => reread(entry, (READ_LEVELS - 2) as nat),
            None => None,
        }),
{
    law_entries_are_read_alone(ledger, READ_LEVELS as nat, "snapshots"@);
    if let Some(snapshots) = field(ledger, "snapshots"@) {
        assert(reread(snapshots, (READ_LEVELS - 1) as nat) is Some) by {
            assert(ledger->Object_0.contains_key("snapshots"@));
        }
        law_entries_are_read_alone(snapshots, (READ_LEVELS - 1) as nat, version);
    }
}

/// To write a ledger with a capture put in and to read it again is the same as to read
/// the ledger and the capture each alone and to put the one into the other.
pub proof fn law_captures_are_read(
    ledger: Json,
    version: Seq<char>,
    captured_at: Json,
    champions: Seq<Seq<char>>,
    sheet: Json,
)
    requires
        with_capture(ledger, version, capture(captured_at, champions, sheet)) is Some,
        reread(ledger, READ_LEVELS as nat) is Some,
        reread(captured_at, CAPTURE_LEVELS as nat) is Some,
        reread(sheet, CAPTURE_LEVELS as nat) is Some,
    ensures
        reread(
            with_capture(ledger, version, capture(captured_at, champions, sheet))->0,
            READ_LEVELS as nat,
        ) == with_capture(
            reread(ledger, READ_LEVELS as nat)->0,
            version,
            capture_read(captured_at, champions, sheet),
        ),
        with_capture(
            reread(ledger, READ_LEVELS as nat)->0,
            version,
            capture_read(captured_at, champions, sheet),
        ) is Some,
{
    let entry = capture(captured_at, champions, sheet);
    let fields = ledger->Object_0;
    let snapshots = fields["snapshots"@]->Object_0;
    assert(fields.contains_key("snapshots"@));
    let snapshots_read = reread(fields["snapshots"@], (READ_LEVELS - 1) as nat)->0->Object_0;
    assert(reread(fields["snapshots"@], (READ_LEVELS - 1) as nat) is Some);
    lemma_capture_is_read(captured_at, champions, sheet);

    let kept = snapshots.insert(version, entry);
    assert forall|key: Seq<char>| #[trigger] kept.contains_key(key) implies reread(
        kept[key],
        (READ_LEVELS - 2) as nat,
    ) is Some by {
        if key != version {
            assert(snapshots.contains_key(key));
        }
    }
    let kept_read = reread(Json::Object(kept), (READ_LEVELS - 1) as nat)->0->Object_0;
    assert(kept_read =~= snapshots_read.insert(
        version,
        capture_read(captured_at, champions, sheet),
    ));

    let all = fields.insert("snapshots"@, Json::Object(kept));
    assert forall|key: Seq<char>| #[trigger] all.contains_key(key) implies reread(
        all[key],
        (READ_LEVELS - 1) as nat,
    ) is Some by {
        if key != "snapshots"@ {
            assert(fields.contains_key(key));
        }
    }
    let fields_read = reread(ledger, READ_LEVELS as nat)->0->Object_0;
    assert(reread(Json::Object(all), READ_LEVELS as nat)->0->Object_0 =~= fields_read.insert(
        "snapshots"@,
        Json::Object(kept_read),
    ));
}

/// A capture is read with its roster as it was.
proof fn lemma_capture_is_read(captured_at: Json, champions: Seq<Seq<char>>, sheet: Json)
    requires
        reread(captured_at, CAPTURE_LEVELS as nat) is Some,
        reread(sheet, CAPTURE_LEVELS as nat) is Some,
    ensures
        reread(capture(captured_at, champions, sheet), (READ_LEVELS - 2) as nat) == Some(
            capture_read(captured_at, champions, sheet),
        ),
{
    let roster = text_array(champions);
    let items = roster->Array_0;
    assert forall|i: int| 0 <= i < items.len() implies reads_back(
        #[trigger] items[i],
        (CAPTURE_LEVELS - 1) as nat,
    ) by {
        assert(items[i] == Json::Text(champions[i]));
    }
    law_documents_are_read_back(roster, CAPTURE_LEVELS as nat);
    let fields = capture(captured_at, champions, sheet)->Object_0;
    assert forall|key: Seq<char>| #[trigger] fields.contains_key(key) implies reread(
        fields[key],
        CAPTURE_LEVELS as nat,
    ) is Some by {}
    assert(reread(capture(captured_at, champions, sheet), (READ_LEVELS - 2) as nat)->0->Object_0
        =~= capture_read(captured_at, champions, sheet)->Object_0);
}

/// A ledger that is read back is still read back with a capture put in, as long as
/// the time and the sheet are read back and leave room for the levels above them.
pub proof fn law_captures_keep_the_ledger_readable(
    ledger: Json,
    version: Seq<char>,
    captured_at: Json,
    champions: Seq<Seq<char>>,
    sheet: Json,
)
    requires
        with_capture(ledger, version, capture(captured_at, champions, sheet)) is Some,
        reads_back(ledger, READ_LEVELS as nat),
        reads_back(captured_at, CAPTURE_LEVELS as nat),
        reads_back(sheet, CAPTURE_LEVELS as nat),
    ensures
        reads_back(
            with_capture(ledger, version, capture(captured_at, champions, sheet))->0,
            READ_LEVELS as nat,
        ),
{
    let entry = capture(captured_at, champions, sheet);
    let fields = ledger->Object_0;
    let snapshots = fields["snapshots"@]->Object_0;
    let roster = text_array(champions);
    assert(fields.contains_key("snapshots"@));
    assert(reads_back(fields["snapshots"@], (READ_LEVELS - 1) as nat));
    assert(reads_back(roster, (READ_LEVELS - 3) as nat)) by {
        let items = roster->Array_0;
        assert forall|i: int| 0 <= i < items.len() implies reads_back(
            #[trigger] items[i],
            (READ_LEVELS - 4) as nat,
        ) by {
            assert(items[i] == Json::Text(champions[i]));
        }
    }
    assert(reads_back(entry, (READ_LEVELS - 2) as nat));
    let kept = snapshots.insert(version, entry);
    assert forall|key: Seq<char>| #[trigger] kept.contains_key(key) implies reads_back(
        kept[key],
        (READ_LEVELS - 2) as nat,
    ) by {
        if key != version {
            assert(snapshots.contains_key(key));
        }
    }
    assert(reads_back(Json::Object(kept), (READ_LEVELS - 1) as nat));
    let all = fields.insert("snapshots"@, Json::Object(kept));
    assert forall|key: Seq<char>| #[trigger] all.contains_key(key) implies reads_back(
        all[key],
        (READ_LEVELS - 1) as nat,
    ) by {
        if key != "snapshots"@ {
            assert(fields.contains_key(key));
        }
    }
}

/// A version that begins with a year and a point is that of a real patch exactly
/// where the year is not before the first patch year.
pub proof fn law_patch_version_goes_by_year(year: nat, rest: Seq<char>)
    requires
        year <= u64::MAX,
    ensures
        is_patch_version(decimal(year) + seq!['.'] + rest) <==> year >= FIRST_PATCH_YEAR,
{
    law_decimal_reads_back(year);
    lemma_digits_hold_no_other(decimal(year), '.');
    lemma_before(decimal(year), rest, '.');
    assert(crate::text::is_digit(decimal(year)[0]));
}

/// What stands behind the first point of a version does not matter. What stands before it
/// makes it that of a real patch exactly where it holds digits and nothing else, and they
/// denote a year that is not before the first patch year and that 64 bits can hold. A
/// plus sign in front changes nothing.
pub proof fn law_patch_versions_are_told_by_their_first_part(head: Seq<char>, rest: Seq<char>)
    requires
        !head.contains('.'),
        head.len() > 0 ==> head[0] != '+',
    ensures
        is_patch_version(head) <==> head.len() > 0 && (forall|i: int|
            0 <= i < head.len() ==> '0' <= #[trigger] head[i] && head[i] <= '9') && 2000
            <= digits_value(head) <= u64::MAX,
        is_patch_version(head + seq!['.'] + rest) == is_patch_version(head),
        is_patch_version(seq!['+'] + head) == is_patch_version(head),
        is_patch_version(seq!['+'] + head + seq!['.'] + rest) == is_patch_version(head),
{
    let signed = seq!['+'] + head;
    if signed.contains('.') {
        let i = choose|i: int| 0 <= i < signed.len() && signed[i] == '.';
        assert(head[i - 1] == '.');
    }
    lemma_before_all(head, '.');
    lemma_before(head, rest, '.');
    lemma_before_all(signed, '.');
    lemma_before(signed, rest, '.');
    law_numbers_are_read(head, u64::MAX as nat);
}

/// A ledger takes a capture exactly where its entry `snapshots` is an object, whatever
/// the version, and whatever it holds of it.
pub proof fn law_ledgers_take_every_capture(ledger: Json, version: Seq<char>, entry: Json)
    ensures
        with_capture(ledger, version, entry) is Some <==> (field(ledger, "snapshots"@) matches Some(
            Json::Object(_),
        )),
        with_capture(ledger, version, entry) is Some ==> with_capture(
            ledger,
            version,
            entry,
        )->0 is Object,
{
}

/// The capture of a version is the entry of the object `snapshots` under that version.
pub proof fn law_captures_stand_under_their_version(
    ledger: Json,
    snapshots: Map<Seq<char>, Json>,
    version: Seq<char>,
)
    ensures
        field(ledger, "snapshots"@) == Some(Json::Object(snapshots)) ==> {
            &&& snapshots.contains_key(version) ==> snapshot_in(ledger, version) == Some(
                snapshots[version],
            )
            &&& !snapshots.contains_key(version) ==> snapshot_in(ledger, version) is None
        },
        !(field(ledger, "snapshots"@) matches Some(Json::Object(_))) ==> snapshot_in(
            ledger,
            version,
        ) is None,
{
}

/// A capture tells when it was made, the roster and the balance sheet, and nothing else.
pub proof fn law_captures_are_told_in_full(
    captured_at: Json,
    champions: Seq<Seq<char>>,
    sheet: Json,
    key: Seq<char>,
)
    ensures
        field(capture(captured_at, champions, sheet), "capturedAt"@) == Some(captured_at),
        field(capture(captured_at, champions, sheet), "availableChampions"@) == Some(
            text_array(champions),
        ),
        field(capture(captured_at, champions, sheet), "championInfoSheet"@) == Some(sheet),
        field(capture(captured_at, champions, sheet), key) is Some ==> key == "capturedAt"@ || key
            == "availableChampions"@ || key == "championInfoSheet"@,
{
    reveal_strlit("capturedAt");
    reveal_strlit("availableChampions");
    reveal_strlit("championInfoSheet");
    assert("capturedAt"@.len() == 10);
    assert("availableChampions"@.len() == 18);
    assert("championInfoSheet"@.len() == 17);
}

/// What is captured of the open game is its time, its whole roster and its sheet, and it
/// is captured exactly where the version is that of a real patch and there are champions.
pub proof fn law_the_open_game_is_captured(current: CurrentBalance)
    ensures
        field(current.as_capture(), "capturedAt"@) == Some(json_of(current.time)),
        field(current.as_capture(), "availableChampions"@) == Some(
            text_array(texts(current.available_champions@)),
        ),
        field(current.as_capture(), "championInfoSheet"@) == Some(
            json_of(current.champion_info_sheet),
        ),
        current.is_settled() <==> is_patch_version(current.version@)
            && current.available_champions@.len() > 0,
{
    law_captures_are_told_in_full(
        json_of(current.time),
        texts(current.available_champions@),
        json_of(current.champion_info_sheet),
        Seq::empty(),
    );
}

/// A ledger that can be read is used as it is. Otherwise it is an object that holds an
/// empty object under `snapshots`, and nothing else.
pub proof fn law_ledgers_are_used_as_they_are(text: Seq<char>, key: Seq<char>)
    ensures
        parsed(text) is Some ==> Some(ledger_in(Some(text))) == parsed(text),
        parsed(text) is None ==> ledger_in(Some(text)) == ledger_in(None),
        field(ledger_in(None), "snapshots"@) == Some(Json::Object(Map::empty())),
        field(ledger_in(None), key) is Some ==> key == "snapshots"@,
{
}

} // verus!
