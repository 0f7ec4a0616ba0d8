//! Where the coach and the exporter leave files for each other.

use vstd::prelude::*;

verus! {

/// The name of the mod.
pub const MOD_ID: &'static str = "lt_ai_coach_exporter";

/// The file that the coach drops in the export folder to ask for an export.
pub const REQUEST_FILE: &'static str = "request.txt";

/// The file that the coach drops in the export folder to ask for portraits.
pub const PORTRAIT_REQUEST_FILE: &'static str = "portrait_request.txt";

/// The file, below the local application data, that turns the performance trace on.
pub const PERFORMANCE_MARKER: &'static str = "com.lttools.lt-ai-coach/performance.enabled";

/// The export folder below the local application data.
pub open spec fn export_dir(local_app_data: Seq<char>) -> Seq<char> {
    local_app_data + "/com.lttools.lt-ai-coach/exporter"@
}

/// The path of a file in a folder.
pub open spec fn path_in(dir: Seq<char>, file: Seq<char>) -> Seq<char> {
    dir + "/"@ + file
}

/// The path of the balance ledger of a campaign.
pub open spec fn ledger_path(dir: Seq<char>, campaign_key: Seq<char>) -> Seq<char> {
    dir + "/balance_snapshots/"@ + campaign_key + "/ledger.json"@
}

/// The LT AI Coach data folder, where the coach drops its request and reads the
/// export. There is none without local application data.
pub fn coach_export_dir(local_app_data: Option<&str>) -> (dir: Option<String>)
    ensures
        match local_app_data {
            Some(root) => dir is Some && dir->0@ == export_dir(root@),
            None => dir is None,
        },
{
    match local_app_data {
        Some(root) => {
            let mut dir = root.to_string();
            dir.append("/com.lttools.lt-ai-coach/exporter");
            Some(dir)
        },
        None => None,
    }
}

/// The path of a file of the export folder: a request, or a file that is written.
pub fn export_path(dir: Option<&str>, file_name: &str) -> (path: Option<String>)
    ensures
        match dir {
            Some(folder) => path is Some && path->0@ == path_in(folder@, file_name@),
            None => path is None,
        },
{
    match dir {
        Some(folder) => {
            let mut path = folder.to_string();
            path.append("/");
            path.append(file_name);
            Some(path)
        },
        None => None,
    }
}

/// The path of the balance ledger of a campaign.
///
/// Captures of different campaigns are kept apart for good. The ledgers outlive the
/// files of a single export, so that returning to a campaign restores its own
/// history.
pub fn balance_snapshot_ledger_path(dir: Option<&str>, campaign_key: &str) -> (path: Option<String>)
    ensures
        match dir {
            Some(folder) => path is Some && path->0@ == ledger_path(folder@, campaign_key@),
            None => path is None,
        },
{
    match dir {
        Some(folder) => {
            let mut path = folder.to_string();
            path.append("/balance_snapshots/");
            path.append(campaign_key);
            path.append("/ledger.json");
            Some(path)
        },
        None => None,
    }
}

/// Campaigns with different keys have different ledgers.
pub proof fn law_ledgers_are_separate(dir: Seq<char>, one: Seq<char>, other: Seq<char>)
    requires
        one != other,
    ensures
        ledger_path(dir, one) != ledger_path(dir, other),
{
    if ledger_path(dir, one) == ledger_path(dir, other) {
        let start = (dir + "/balance_snapshots/"@).len() as int;
        let end = "/ledger.json"@.len() as int;
        assert(ledger_path(dir, one).len() == start + one.len() + end);
        assert(ledger_path(dir, other).len() == start + other.len() + end);
        assert(one =~= ledger_path(dir, one).subrange(start, start + one.len()));
        assert(other =~= ledger_path(dir, other).subrange(start, start + other.len()));
    }
}

/// A file of the export folder is never the ledger of a campaign, as long as its
/// name does not lead into the ledgers' folder.
pub proof fn law_export_files_spare_the_ledgers(
    dir: Seq<char>,
    file: Seq<char>,
    campaign_key: Seq<char>,
)
    requires
        !("balance_snapshots/"@).is_prefix_of(file),
    ensures
        path_in(dir, file) != ledger_path(dir, campaign_key),
{
    reveal_strlit("/");
    reveal_strlit("balance_snapshots/");
    reveal_strlit("/balance_snapshots/");
    assert("/balance_snapshots/"@ =~= "/"@ + "balance_snapshots/"@);
    let path = ledger_path(dir, campaign_key);
    if path_in(dir, file) == path {
        let start = dir.len() + 1;
        assert(file =~= path.skip(start as int));
        assert("balance_snapshots/"@ =~= path.skip(start as int).subrange(0, 18));
    }
}

/// The path of a file is the folder, a slash and the name of the file.
pub proof fn law_paths_lead_into_the_folder(dir: Seq<char>, file: Seq<char>)
    ensures
        path_in(dir, file).len() == dir.len() + 1 + file.len(),
        path_in(dir, file).take(dir.len() as int) == dir,
        path_in(dir, file)[dir.len() as int] == '/',
        path_in(dir, file).skip(dir.len() as int + 1) == file,
{
    reveal_strlit("/");
    let path = path_in(dir, file);
    assert(path.take(dir.len() as int) =~= dir);
    assert(path.skip(dir.len() as int + 1) =~= file);
}

/// The export folder is the folder `exporter` in the coach's own folder, in which the
/// file lies that turns the trace on.
pub proof fn law_the_export_folder_is_the_coachs(local_app_data: Seq<char>)
    ensures
        export_dir(local_app_data) == path_in(
            path_in(local_app_data, "com.lttools.lt-ai-coach"@),
            "exporter"@,
        ),
        path_in(local_app_data, PERFORMANCE_MARKER@) == path_in(
            path_in(local_app_data, "com.lttools.lt-ai-coach"@),
            "performance.enabled"@,
        ),
{
    reveal_strlit("/");
    reveal_strlit("/com.lttools.lt-ai-coach/exporter");
    reveal_strlit("com.lttools.lt-ai-coach");
    reveal_strlit("exporter");
    reveal_strlit("com.lttools.lt-ai-coach/performance.enabled");
    reveal_strlit("performance.enabled");
    assert("/com.lttools.lt-ai-coach/exporter"@ =~= "/"@ + "com.lttools.lt-ai-coach"@ + "/"@
        + "exporter"@);
    assert(PERFORMANCE_MARKER@ =~= "com.lttools.lt-ai-coach"@ + "/"@ + "performance.enabled"@);
    assert(export_dir(local_app_data) =~= path_in(
        path_in(local_app_data, "com.lttools.lt-ai-coach"@),
        "exporter"@,
    ));
    assert(path_in(local_app_data, PERFORMANCE_MARKER@) =~= path_in(
        path_in(local_app_data, "com.lttools.lt-ai-coach"@),
        "performance.enabled"@,
    ));
}

/// A ledger is the file `ledger.json` in a folder that bears the key of its campaign, in
/// the folder of the ledgers.
pub proof fn law_ledgers_lie_under_their_key(dir: Seq<char>, campaign_key: Seq<char>)
    ensures
        ledger_path(dir, campaign_key) == path_in(
            path_in(path_in(dir, "balance_snapshots"@), campaign_key),
            "ledger.json"@,
        ),
{
    reveal_strlit("/");
    reveal_strlit("/balance_snapshots/");
    reveal_strlit("balance_snapshots");
    reveal_strlit("/ledger.json");
    reveal_strlit("ledger.json");
    assert("/balance_snapshots/"@ =~= "/"@ + "balance_snapshots"@ + "/"@);
    assert("/ledger.json"@ =~= "/"@ + "ledger.json"@);
    assert(ledger_path(dir, campaign_key) =~= path_in(
        path_in(path_in(dir, "balance_snapshots"@), campaign_key),
        "ledger.json"@,
    ));
}

} // verus!
