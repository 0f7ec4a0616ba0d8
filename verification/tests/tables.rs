use lt_ai_coach_exporter::tables::{champion_table, NameTable, NamedRow};

fn row(id: u64, name: &str) -> Option<NamedRow> {
    Some(NamedRow { id, name: name.to_string() })
}

#[test]
fn champions_are_listed_one_per_line() {
    let ids = vec!["archer".to_string(), "knight".to_string()];
    assert_eq!(champion_table(&ids), "archer\nknight\n");
    assert_eq!(champion_table(&vec![]), "\n");
}

#[test]
fn tables_have_a_header_and_rows() {
    let table = NameTable::new(&vec![row(3, "Red"), row(10, "Blue Moon")]);
    assert_eq!(table.contents(), "id\tname\n3\tRed\n10\tBlue Moon\n");
    assert_eq!(table.count(), 2);
}

#[test]
fn missing_entries_are_left_out() {
    let table = NameTable::new(&vec![None, row(1, "A"), None]);
    assert_eq!(table.contents(), "id\tname\n1\tA\n");
    assert_eq!(table.count(), 1);
    let empty = NameTable::new(&vec![]);
    assert_eq!(empty.contents(), "id\tname\n");
    assert_eq!(empty.count(), 0);
}

#[test]
fn stray_names_cannot_break_a_row() {
    let table = NameTable::new(&vec![row(1, "a\tb"), row(2, "c\nd\r")]);
    let contents = table.contents();
    let lines: Vec<&str> = contents.split('\n').collect();
    assert_eq!(lines, vec!["id\tname", "1\ta b", "2\tc d ", ""]);
    let cells: Vec<&str> = lines[1].split('\t').collect();
    assert_eq!(cells, vec!["1", "a b"]);
}

#[test]
fn the_champions_file_splits_into_ids() {
    let ids = vec!["a".to_string(), "b c".to_string()];
    let contents = champion_table(&ids);
    assert_eq!(contents.split('\n').collect::<Vec<_>>(), vec!["a", "b c", ""]);
}
