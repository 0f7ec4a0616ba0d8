//! The export: its files, the order in which they are written, and its manifest.

use crate::json::{compact_text, json_of, parsed, reread, to_string, READ_LEVELS};
use crate::paths::{law_export_files_spare_the_ledgers, ledger_path, path_in, MOD_ID};
use crate::portraits::{picture_file, PORTRAIT_PROBE_FILE};
use crate::tables::{law_sanitized_names_are_safe, lemma_lines_split, lines_text, NameTable};
use crate::text::{
    decimal, decimal_text, join, law_decimal_reads_back, lemma_before_all,
    lemma_digits_hold_no_other, lemma_split, sanitize, sanitized, split_on, texts,
};
use crate::trace::PERFORMANCE_FILE;
use vstd::prelude::*;

verus! {

/// A file of the export.
#[derive(Debug, Clone, Copy, PartialEq, Eq, Structural)]
pub enum ExportFile {
    Champions,
    ChampionMetadata,
    Teams,
    Players,
    AthleteMastery,
    MatchReplays,
    SoloRankMatches,
    PrePatchData,
    BalanceHistory,
    Manifest,
}

/// A step of the export.
#[derive(Debug, Clone, Copy, PartialEq, Eq, Structural)]
pub enum ExportStep {
    /// Capture the balance sheet of the open game in the ledger.
    Capture,
    /// Gather the history of balance sheets.
    BuildHistory,
    /// Make the contents of a file.
    Prepare(ExportFile),
    /// Write a file.
    Write(ExportFile),
    /// Write the performance trace.
    FinishTrace,
}

impl ExportFile {
    /// The name of the file.
    pub open spec fn file_name(self) -> Seq<char> {
        match self {
            ExportFile::Champions => "champions.tsv"@,
            ExportFile::ChampionMetadata => "champion_metadata.json"@,
            ExportFile::Teams => "teams.tsv"@,
            ExportFile::Players => "players.tsv"@,
            ExportFile::AthleteMastery => "athlete_mastery.json"@,
            ExportFile::MatchReplays => "match_replays.json"@,
            ExportFile::SoloRankMatches => "solo_rank_matches.json"@,
            ExportFile::PrePatchData => "pre_patch_data.json"@,
            ExportFile::BalanceHistory => "champion_balance_history.json"@,
            ExportFile::Manifest => "manifest.tsv"@,
        }
    }

    /// The name of the file.
    pub fn name(&self) -> (name: &'static str)
        ensures
            name@ == self.file_name(),
    {
        match self {
            ExportFile::Champions => "champions.tsv",
            ExportFile::ChampionMetadata => "champion_metadata.json",
            ExportFile::Teams => "teams.tsv",
            ExportFile::Players => "players.tsv",
            ExportFile::AthleteMastery => "athlete_mastery.json",
            ExportFile::MatchReplays => "match_replays.json",
            ExportFile::SoloRankMatches => "solo_rank_matches.json",
            ExportFile::PrePatchData => "pre_patch_data.json",
            ExportFile::BalanceHistory => "champion_balance_history.json",
            ExportFile::Manifest => "manifest.tsv",
        }
    }
}

impl ExportStep {
    /// The stage of the performance trace that ends with the step, if one does.
    pub open spec fn stage_name(self) -> Option<Seq<char>> {
        match self {
            ExportStep::Capture => Some("capture_balance_snapshot"@),
            ExportStep::BuildHistory => Some("build_balance_history"@),
            ExportStep::Prepare(file) => match file {
                ExportFile::ChampionMetadata => Some("serialize_champion_metadata"@),
                ExportFile::AthleteMastery => Some("serialize_athletes"@),
                ExportFile::MatchReplays => Some("serialize_match_replays"@),
                ExportFile::SoloRankMatches => Some("serialize_solo_matches"@),
                ExportFile::PrePatchData => Some("serialize_patch_data"@),
                ExportFile::BalanceHistory => Some("serialize_balance_history"@),
                ExportFile::Manifest => Some("prepare_manifest"@),
                _ => None,
            },
            ExportStep::Write(file) => match file {
                ExportFile::Champions => Some("write_champions"@),
                ExportFile::ChampionMetadata => Some("write_champion_metadata"@),
                ExportFile::Teams => Some("write_teams"@),
                ExportFile::Players => Some("write_players"@),
                ExportFile::AthleteMastery => Some("write_athletes"@),
                ExportFile::MatchReplays => Some("write_match_replays"@),
                ExportFile::SoloRankMatches => Some("write_solo_matches"@),
                ExportFile::PrePatchData => Some("write_patch_data"@),
                ExportFile::BalanceHistory => Some("write_balance_history"@),
                ExportFile::Manifest => None,
            },
            ExportStep::FinishTrace => None,
        }
    }

    /// The stage of the performance trace that ends with the step, if one does.
    pub fn stage(&self) -> (stage: Option<&'static str>)
        ensures
            match stage {
                Some(name) => self.stage_name() == Some(name@),
                None => self.stage_name() is None,
            },
    {
        match self {
            ExportStep::Capture => Some("capture_balance_snapshot"),
            ExportStep::BuildHistory => Some("build_balance_history"),
            ExportStep::Prepare(file) => match file {
                ExportFile::ChampionMetadata => Some("serialize_champion_metadata"),
                ExportFile::AthleteMastery => Some("serialize_athletes"),
                ExportFile::MatchReplays => Some("serialize_match_replays"),
                ExportFile::SoloRankMatches => Some("serialize_solo_matches"),
                ExportFile::PrePatchData => Some("serialize_patch_data"),
                ExportFile::BalanceHistory => Some("serialize_balance_history"),
                ExportFile::Manifest => Some("prepare_manifest"),
                _ => None,
            },
            ExportStep::Write(file) => match file {
                ExportFile::Champions => Some("write_champions"),
                ExportFile::ChampionMetadata => Some("write_champion_metadata"),
                ExportFile::Teams => Some("write_teams"),
                ExportFile::Players => Some("write_players"),
                ExportFile::AthleteMastery => Some("write_athletes"),
                ExportFile::MatchReplays => Some("write_match_replays"),
                ExportFile::SoloRankMatches => Some("write_solo_matches"),
                ExportFile::PrePatchData => Some("write_patch_data"),
                ExportFile::BalanceHistory => Some("write_balance_history"),
                ExportFile::Manifest => None,
            },
            ExportStep::FinishTrace => None,
        }
    }
}

/// The steps of an export before the trace is finished.
pub open spec fn data_steps() -> Seq<ExportStep> {
    seq![
        ExportStep::Capture,
        ExportStep::Write(ExportFile::Champions),
        ExportStep::Prepare(ExportFile::ChampionMetadata),
        ExportStep::Write(ExportFile::ChampionMetadata),
        ExportStep::Write(ExportFile::Teams),
        ExportStep::Write(ExportFile::Players),
        ExportStep::Prepare(ExportFile::AthleteMastery),
        ExportStep::Write(ExportFile::AthleteMastery),
        ExportStep::Prepare(ExportFile::MatchReplays),
        ExportStep::Write(ExportFile::MatchReplays),
        ExportStep::Prepare(ExportFile::SoloRankMatches),
        ExportStep::Write(ExportFile::SoloRankMatches),
        ExportStep::Prepare(ExportFile::PrePatchData),
        ExportStep::Write(ExportFile::PrePatchData),
        ExportStep::BuildHistory,
        ExportStep::Prepare(ExportFile::BalanceHistory),
        ExportStep::Write(ExportFile::BalanceHistory),
        ExportStep::Prepare(ExportFile::Manifest),
    ]
}

/// The steps of an export, in order.
pub open spec fn export_steps(traced: bool) -> Seq<ExportStep> {
    if traced {
        data_steps().push(ExportStep::FinishTrace).push(ExportStep::Write(ExportFile::Manifest))
    } else {
        data_steps().push(ExportStep::Write(ExportFile::Manifest))
    }
}

/// The steps of an export, in order.
///
/// The manifest comes last: its fresh time is the coach's sign that all of the export,
/// and the performance trace, is complete.
pub fn export_plan(traced: bool) -> (plan: Vec<ExportStep>)
    ensures
        plan@ == export_steps(traced),
{
    let mut plan: Vec<ExportStep> = Vec::new();
    plan.push(ExportStep::Capture);
    plan.push(ExportStep::Write(ExportFile::Champions));
    plan.push(ExportStep::Prepare(ExportFile::ChampionMetadata));
    plan.push(ExportStep::Write(ExportFile::ChampionMetadata));
    plan.push(ExportStep::Write(ExportFile::Teams));
    plan.push(ExportStep::Write(ExportFile::Players));
    plan.push(ExportStep::Prepare(ExportFile::AthleteMastery));
    plan.push(ExportStep::Write(ExportFile::AthleteMastery));
    plan.push(ExportStep::Prepare(ExportFile::MatchReplays));
    plan.push(ExportStep::Write(ExportFile::MatchReplays));
    plan.push(ExportStep::Prepare(ExportFile::SoloRankMatches));
    plan.push(ExportStep::Write(ExportFile::SoloRankMatches));
    plan.push(ExportStep::Prepare(ExportFile::PrePatchData));
    plan.push(ExportStep::Write(ExportFile::PrePatchData));
    plan.push(ExportStep::BuildHistory);
    plan.push(ExportStep::Prepare(ExportFile::BalanceHistory));
    plan.push(ExportStep::Write(ExportFile::BalanceHistory));
    plan.push(ExportStep::Prepare(ExportFile::Manifest));
    assert(plan@ =~= data_steps());
    if traced {
        plan.push(ExportStep::FinishTrace);
    }
    plan.push(ExportStep::Write(ExportFile::Manifest));
    plan
}

/// The text of a document, as it is written. What is read in it is the document, each
/// number as it is read ([`reread`]).
pub fn document_text(document: &serde_json::Value) -> (contents: String)
    ensures
        contents@ == compact_text(json_of(*document)),
        parsed(contents@) == reread(json_of(*document), READ_LEVELS as nat),
{
    match to_string(document) {
        Ok(text) => text,
        Err(_) => "null".to_string(),
    }
}

/// The text that the game's own data was written as, or `null` where it could not be
/// written.
pub fn text_or_null(text: Option<String>) -> (contents: String)
    ensures
        contents@ == (match text {
            Some(written) => written@,
            None => "null"@,
        }),
{
    match text {
        Some(written) => written,
        None => "null".to_string(),
    }
}

/// What the manifest says of an export.
pub struct ManifestInfo {
    pub save_id: u64,
    pub campaign_key: String,
    /// The name of the player's team, where there is one.
    pub player_team: Option<String>,
    pub player_team_id: usize,
    /// The seconds since the start of 1970, where the clock is not before it.
    pub exported_at_unix: Option<u64>,
    pub champions: usize,
    pub match_replays: usize,
    pub solo_rank_matches: usize,
}

impl ManifestInfo {
    /// The name of the player's team as it is written.
    pub open spec fn team_text(self) -> Seq<char> {
        match self.player_team {
            Some(name) => sanitized(name@),
            None => Seq::empty(),
        }
    }

    /// The time of the export as it is written.
    pub open spec fn time_text(self) -> Seq<char> {
        decimal(
            match self.exported_at_unix {
                Some(seconds) => seconds as nat,
                None => 0,
            },
        )
    }

    /// The entries of the manifest, in order. Teams and players are counted as they
    /// stand in their tables.
    pub open spec fn cells(self, teams: nat, players: nat) -> Seq<(Seq<char>, Seq<char>)> {
        seq![
            ("mod"@, MOD_ID@),
            ("save_id"@, decimal(self.save_id as nat)),
            ("save_id_source"@, "client_database_id"@),
            ("campaign_key"@, self.campaign_key@),
            ("player_team"@, self.team_text()),
            ("player_team_id"@, decimal(self.player_team_id as nat)),
            ("exported_at_unix"@, self.time_text()),
            ("champions"@, decimal(self.champions as nat)),
            ("teams"@, decimal(teams)),
            ("players"@, decimal(players)),
            ("match_replays"@, decimal(self.match_replays as nat)),
            ("solo_rank_matches"@, decimal(self.solo_rank_matches as nat)),
        ]
    }

    /// The lines of the manifest.
    pub open spec fn lines(self, teams: nat, players: nat) -> Seq<Seq<char>> {
        self.cells(teams, players).map_values(|cell: (Seq<char>, Seq<char>)| entry_line(cell))
    }
}

/// A line of the manifest.
pub open spec fn entry_line(cell: (Seq<char>, Seq<char>)) -> Seq<char> {
    cell.0 + "\t"@ + cell.1
}

fn push_entry(lines: &mut Vec<String>, key: &str, value: &str)
    ensures
        texts(final(lines)@) == texts(old(lines)@).push(entry_line((key@, value@))),
{
    let mut line = key.to_string();
    line.append("\t");
    line.append(value);
    let ghost text = line@;
    lines.push(line);
    assert(texts(lines@) =~= texts(old(lines)@).push(text));
}

fn push_number(lines: &mut Vec<String>, key: &str, value: u64)
    ensures
        texts(final(lines)@) == texts(old(lines)@).push(entry_line((key@, decimal(value as nat)))),
{
    let text = decimal_text(value as u128);
    push_entry(lines, key, text.as_str());
}

/// The manifest of an export: which game it is from, when it was written, and how much
/// it holds.
pub fn manifest(info: &ManifestInfo, teams: &NameTable, players: &NameTable) -> (contents: String)
    ensures
        contents@ == lines_text(
            info.lines((teams.lines().len() - 1) as nat, (players.lines().len() - 1) as nat),
        ),
{
    let team = match &info.player_team {
        Some(name) => sanitize(name.as_str()),
        None => String::new(),
    };
    let seconds: u64 = match info.exported_at_unix {
        Some(seconds) => seconds,
        None => 0,
    };
    let mut lines: Vec<String> = Vec::new();
    push_entry(&mut lines, "mod", MOD_ID);
    push_number(&mut lines, "save_id", info.save_id);
    push_entry(&mut lines, "save_id_source", "client_database_id");
    push_entry(&mut lines, "campaign_key", info.campaign_key.as_str());
    push_entry(&mut lines, "player_team", team.as_str());
    push_number(&mut lines, "player_team_id", info.player_team_id as u64);
    push_number(&mut lines, "exported_at_unix", seconds);
    push_number(&mut lines, "champions", info.champions as u64);
    push_number(&mut lines, "teams", teams.count() as u64);
    push_number(&mut lines, "players", players.count() as u64);
    push_number(&mut lines, "match_replays", info.match_replays as u64);
    push_number(&mut lines, "solo_rank_matches", info.solo_rank_matches as u64);
    assert(texts(lines@) =~= info.lines(
        (teams.lines().len() - 1) as nat,
        (players.lines().len() - 1) as nat,
    ));
    let mut contents = join(&lines, "\n");
    contents.append("\n");
    contents
}

/// The manifest is the last that is written, and it is written once. Where the export
/// is traced, the trace is finished just before it.
pub proof fn law_manifest_is_last(traced: bool)
    ensures
        export_steps(traced).last() == ExportStep::Write(ExportFile::Manifest),
        forall|i: int|
            0 <= i < export_steps(traced).len() - 1 ==> #[trigger] export_steps(traced)[i]
                != ExportStep::Write(ExportFile::Manifest),
        traced ==> export_steps(traced)[export_steps(traced).len() - 2] == ExportStep::FinishTrace,
        !traced ==> !export_steps(traced).contains(ExportStep::FinishTrace),
{
}

/// Where in the export a file is written.
pub open spec fn write_position(file: ExportFile, traced: bool) -> int {
    match file {
        ExportFile::Champions => 1,
        ExportFile::ChampionMetadata => 3,
        ExportFile::Teams => 4,
        ExportFile::Players => 5,
        ExportFile::AthleteMastery => 7,
        ExportFile::MatchReplays => 9,
        ExportFile::SoloRankMatches => 11,
        ExportFile::PrePatchData => 13,
        ExportFile::BalanceHistory => 16,
        ExportFile::Manifest => export_steps(traced).len() - 1,
    }
}

/// Every file of the export is written, and only once.
pub proof fn law_each_file_is_written_once(file: ExportFile, traced: bool)
    ensures
        forall|i: int|
            0 <= i < export_steps(traced).len() ==> (#[trigger] export_steps(traced)[i]
                == ExportStep::Write(file) <==> i == write_position(file, traced)),
        0 <= write_position(file, traced) < export_steps(traced).len(),
{
}

/// A file whose contents are made in a step of their own is written after that step.
pub proof fn law_files_are_prepared_first(file: ExportFile, traced: bool, i: int)
    requires
        0 <= i < export_steps(traced).len(),
        export_steps(traced)[i] == ExportStep::Prepare(file),
    ensures
        i < write_position(file, traced),
{
}

/// No file of an export or of a portrait request is the ledger of a campaign: the
/// ledgers outlive the files of an export.
pub proof fn law_exports_never_touch_ledgers(
    dir: Seq<char>,
    campaign_key: Seq<char>,
    file: ExportFile,
    champion_id: Seq<char>,
)
    ensures
        path_in(dir, file.file_name()) != ledger_path(dir, campaign_key),
        path_in(dir, PERFORMANCE_FILE@) != ledger_path(dir, campaign_key),
        path_in(dir, PORTRAIT_PROBE_FILE@) != ledger_path(dir, campaign_key),
        path_in(dir, picture_file(champion_id)) != ledger_path(dir, campaign_key),
{
    reveal_strlit("balance_snapshots/");
    reveal_strlit("champions.tsv");
    reveal_strlit("champion_metadata.json");
    reveal_strlit("teams.tsv");
    reveal_strlit("players.tsv");
    reveal_strlit("athlete_mastery.json");
    reveal_strlit("match_replays.json");
    reveal_strlit("solo_rank_matches.json");
    reveal_strlit("pre_patch_data.json");
    reveal_strlit("champion_balance_history.json");
    reveal_strlit("manifest.tsv");
    reveal_strlit("performance_export.tsv");
    reveal_strlit("portrait_probe.json");
    reveal_strlit("portrait_probe/");
    lemma_other_folder(file.file_name());
    lemma_other_folder(PERFORMANCE_FILE@);
    lemma_other_folder(PORTRAIT_PROBE_FILE@);
    lemma_other_folder(picture_file(champion_id));
    law_export_files_spare_the_ledgers(dir, file.file_name(), campaign_key);
    law_export_files_spare_the_ledgers(dir, PERFORMANCE_FILE@, campaign_key);
    law_export_files_spare_the_ledgers(dir, PORTRAIT_PROBE_FILE@, campaign_key);
    law_export_files_spare_the_ledgers(dir, picture_file(champion_id), campaign_key);
}

/// A name that begins otherwise does not lead into the ledgers' folder.
proof fn lemma_other_folder(name: Seq<char>)
    requires
        name.len() > 0,
        name[0] != 'b',
    ensures
        !("balance_snapshots/"@).is_prefix_of(name),
{
    reveal_strlit("balance_snapshots/");
    if ("balance_snapshots/"@).is_prefix_of(name) {
        assert(name.subrange(0, 18)[0] == name[0]);
        assert("balance_snapshots/"@[0] == 'b');
    }
}

/// Whatever the name of the team, the manifest splits into its entries, and each entry
/// into its two cells.
pub proof fn law_manifest_splits_into_entries(info: ManifestInfo, teams: nat, players: nat)
    requires
        !info.campaign_key@.contains('\n'),
        !info.campaign_key@.contains('\t'),
    ensures
        split_on(lines_text(info.lines(teams, players)), '\n') == info.lines(teams, players).push(
            Seq::empty(),
        ),
        forall|i: int|
            0 <= i < info.lines(teams, players).len() ==> split_on(
                #[trigger] info.lines(teams, players)[i],
                '\t',
            ) == seq![info.cells(teams, players)[i].0, info.cells(teams, players)[i].1],
{
    let lines = info.lines(teams, players);
    let cells = info.cells(teams, players);
    reveal_strlit("mod");
    reveal_strlit("lt_ai_coach_exporter");
    reveal_strlit("save_id");
    reveal_strlit("save_id_source");
    reveal_strlit("client_database_id");
    reveal_strlit("campaign_key");
    reveal_strlit("player_team");
    reveal_strlit("player_team_id");
    reveal_strlit("exported_at_unix");
    reveal_strlit("champions");
    reveal_strlit("teams");
    reveal_strlit("players");
    reveal_strlit("match_replays");
    reveal_strlit("solo_rank_matches");
    if let Some(name) = info.player_team {
        law_sanitized_names_are_safe(name@);
    }
    lemma_number_is_plain(info.save_id as nat);
    lemma_number_is_plain(info.player_team_id as nat);
    lemma_number_is_plain(
        match info.exported_at_unix {
            Some(seconds) => seconds as nat,
            None => 0,
        },
    );
    lemma_number_is_plain(info.champions as nat);
    lemma_number_is_plain(teams);
    lemma_number_is_plain(players);
    lemma_number_is_plain(info.match_replays as nat);
    lemma_number_is_plain(info.solo_rank_matches as nat);
    assert forall|i: int| 0 <= i < cells.len() implies is_plain((#[trigger] cells[i]).0)
        && is_plain(cells[i].1) by {
        assert(is_plain("mod"@) && is_plain(MOD_ID@));
        assert(is_plain("save_id"@) && is_plain("save_id_source"@));
        assert(is_plain("client_database_id"@) && is_plain("campaign_key"@));
        assert(is_plain("player_team"@) && is_plain("player_team_id"@));
        assert(is_plain("exported_at_unix"@) && is_plain("champions"@));
        assert(is_plain("teams"@) && is_plain("players"@));
        assert(is_plain("match_replays"@) && is_plain("solo_rank_matches"@));
    }
    assert forall|i: int| 0 <= i < lines.len() implies !(#[trigger] lines[i]).contains('\n')
        && split_on(lines[i], '\t') == seq![cells[i].0, cells[i].1] by {
        lemma_entry(cells[i]);
    }
    lemma_lines_split(lines);
}

/// Whether a text can be a cell of a table: it holds neither tabs nor line feeds.
spec fn is_plain(s: Seq<char>) -> bool {
    !s.contains('\t') && !s.contains('\n')
}

proof fn lemma_number_is_plain(n: nat)
    ensures
        is_plain(decimal(n)),
{
    law_decimal_reads_back(n);
    lemma_digits_hold_no_other(decimal(n), '\t');
    lemma_digits_hold_no_other(decimal(n), '\n');
}

proof fn lemma_entry(cell: (Seq<char>, Seq<char>))
    requires
        is_plain(cell.0),
        is_plain(cell.1),
    ensures
        !entry_line(cell).contains('\n'),
        split_on(entry_line(cell), '\t') == seq![cell.0, cell.1],
{
    reveal_strlit("\t");
    assert("\t"@ =~= seq!['\t']);
    lemma_split(cell.0, cell.1, '\t');
    lemma_before_all(cell.1, '\t');
    assert(split_on(entry_line(cell), '\t') =~= seq![cell.0, cell.1]);
    let line = entry_line(cell);
    if line.contains('\n') {
        let k = choose|k: int| 0 <= k < line.len() && line[k] == '\n';
        if k < cell.0.len() {
            assert(cell.0[k] == '\n');
        } else if k > cell.0.len() {
            assert(cell.1[k - cell.0.len() - 1] == '\n');
        } else {
            assert(line[k] == '\t');
        }
    }
}

/// The open game is captured before anything else is done, and so before the history
/// is gathered from the ledger.
pub proof fn law_capture_comes_first(traced: bool)
    ensures
        export_steps(traced)[0] == ExportStep::Capture,
        forall|i: int|
            0 <= i < export_steps(traced).len() ==> (#[trigger] export_steps(traced)[i]
                == ExportStep::Capture <==> i == 0),
        exists|i: int|
            0 < i < write_position(ExportFile::BalanceHistory, traced)
                && #[trigger] export_steps(traced)[i] == ExportStep::BuildHistory,
{
    assert(export_steps(traced)[14] == ExportStep::BuildHistory);
}

/// What the manifest tells, whatever the names and the numbers: split into lines and each
/// line into cells, it names the mod, the save, the campaign, the player's team and the
/// time, and counts champions, teams, players and matches, and nothing else. Without a
/// team its name is empty, and without a clock the time is zero.
pub proof fn law_the_manifest_tells_the_export(info: ManifestInfo, teams: nat, players: nat)
    requires
        !info.campaign_key@.contains('\n'),
        !info.campaign_key@.contains('\t'),
    ensures
        ({
            let lines = split_on(lines_text(info.lines(teams, players)), '\n');
            &&& lines.len() == 13
            &&& split_on(lines[0], '\t') == seq!["mod"@, "lt_ai_coach_exporter"@]
            &&& split_on(lines[1], '\t') == seq!["save_id"@, decimal(info.save_id as nat)]
            &&& split_on(lines[2], '\t') == seq!["save_id_source"@, "client_database_id"@]
            &&& split_on(lines[3], '\t') == seq!["campaign_key"@, info.campaign_key@]
            &&& (info.player_team matches Some(name) ==> split_on(lines[4], '\t') == seq![
                "player_team"@,
                sanitized(name@),
            ])
            &&& info.player_team is None ==> split_on(lines[4], '\t') == seq![
                "player_team"@,
                Seq::empty(),
            ]
            &&& split_on(lines[5], '\t') == seq![
                "player_team_id"@,
                decimal(info.player_team_id as nat),
            ]
            &&& (info.exported_at_unix matches Some(seconds) ==> split_on(lines[6], '\t') == seq![
                "exported_at_unix"@,
                decimal(seconds as nat),
            ])
            &&& info.exported_at_unix is None ==> split_on(lines[6], '\t') == seq![
                "exported_at_unix"@,
                decimal(0),
            ]
            &&& split_on(lines[7], '\t') == seq!["champions"@, decimal(info.champions as nat)]
            &&& split_on(lines[8], '\t') == seq!["teams"@, decimal(teams)]
            &&& split_on(lines[9], '\t') == seq!["players"@, decimal(players)]
            &&& split_on(lines[10], '\t') == seq![
                "match_replays"@,
                decimal(info.match_replays as nat),
            ]
            &&& split_on(lines[11], '\t') == seq![
                "solo_rank_matches"@,
                decimal(info.solo_rank_matches as nat),
            ]
            &&& lines[12] == Seq::<char>::empty()
        }),
{
    law_manifest_splits_into_entries(info, teams, players);
    let lines = split_on(lines_text(info.lines(teams, players)), '\n');
    let cells = info.cells(teams, players);
    assert(cells.len() == 12);
    assert forall|i: int| 0 <= i < 12 implies split_on(#[trigger] lines[i], '\t') == seq![
        cells[i].0,
        cells[i].1,
    ] by {
        assert(lines[i] == info.lines(teams, players)[i]);
    }
}

/// A traced export does what one that is not traced does, and finishes the trace before
/// the manifest is written.
pub proof fn law_a_trace_adds_one_step()
    ensures
        export_steps(true) == export_steps(false).insert(
            export_steps(false).len() - 1,
            ExportStep::FinishTrace,
        ),
{
    assert(export_steps(true) =~= export_steps(false).insert(
        export_steps(false).len() - 1,
        ExportStep::FinishTrace,
    ));
}

/// The contents of each document are made in the step just before the one that writes
/// it, and those of the manifest before the trace is finished. The history is gathered
/// just before its document is made. The tables need no step of their own.
pub proof fn law_documents_are_made_just_in_time(file: ExportFile, traced: bool, i: int)
    requires
        0 <= i < export_steps(traced).len(),
        export_steps(traced)[i] == ExportStep::Write(file),
    ensures
        file != ExportFile::Champions && file != ExportFile::Teams && file != ExportFile::Players
            && file != ExportFile::Manifest ==> 0 < i && export_steps(traced)[i - 1]
            == ExportStep::Prepare(file),
        file == ExportFile::Manifest ==> 1 < i && export_steps(traced)[if traced {
            i - 2
        } else {
            i - 1
        }] == ExportStep::Prepare(file),
        file == ExportFile::BalanceHistory ==> 1 < i && export_steps(traced)[i - 2]
            == ExportStep::BuildHistory,
        file == ExportFile::Champions || file == ExportFile::Teams || file == ExportFile::Players
            ==> !export_steps(traced).contains(ExportStep::Prepare(file)),
{
    law_each_file_is_written_once(file, traced);
    assert(i == write_position(file, traced));
}

} // verus!
