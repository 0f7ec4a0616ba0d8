use lt_ai_coach_exporter::paths::{
    balance_snapshot_ledger_path, coach_export_dir, export_path, MOD_ID, PERFORMANCE_MARKER,
    PORTRAIT_REQUEST_FILE, REQUEST_FILE,
};

#[test]
fn export_dir_is_below_local_app_data() {
    assert_eq!(
        coach_export_dir(Some("C:/Users/me/AppData/Local")).unwrap(),
        "C:/Users/me/AppData/Local/com.lttools.lt-ai-coach/exporter"
    );
    assert_eq!(coach_export_dir(None), None);
}

#[test]
fn files_lie_in_the_export_dir() {
    assert_eq!(export_path(Some("d"), REQUEST_FILE).unwrap(), "d/request.txt");
    assert_eq!(export_path(Some("d"), PORTRAIT_REQUEST_FILE).unwrap(), "d/portrait_request.txt");
    assert_eq!(export_path(None, REQUEST_FILE), None);
}

#[test]
fn ledgers_lie_in_a_folder_per_campaign() {
    assert_eq!(
        balance_snapshot_ledger_path(Some("d"), "v2-0123456789abcdef").unwrap(),
        "d/balance_snapshots/v2-0123456789abcdef/ledger.json"
    );
    assert_eq!(balance_snapshot_ledger_path(None, "k"), None);
    assert_ne!(
        balance_snapshot_ledger_path(Some("d"), "a"),
        balance_snapshot_ledger_path(Some("d"), "b")
    );
}

#[test]
fn fixed_names() {
    assert_eq!(MOD_ID, "lt_ai_coach_exporter");
    assert_eq!(PERFORMANCE_MARKER, "com.lttools.lt-ai-coach/performance.enabled");
}

#[test]
fn files_of_an_export_are_no_ledgers() {
    let ledger = balance_snapshot_ledger_path(Some("d"), "k");
    for file in ["champions.tsv", "manifest.tsv", "portrait_probe.json", "portrait_probe/x.png"] {
        assert_ne!(export_path(Some("d"), file), ledger);
    }
    // A name that leads into the ledgers' folder is the exception.
    assert_eq!(export_path(Some("d"), "balance_snapshots/k/ledger.json"), ledger);
}
