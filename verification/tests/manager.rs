use std::str::FromStr;

use rust_decimal::Decimal;
use uuid::Uuid;

use flatdb::db::field_type::Type;
use flatdb::db::line::Line;
use flatdb::db::table::Table;
use flatdb::table_manager::table_manager_v1::{encode_then_decode, TableManagerV1};
use flatdb::table_manager::{get_table_manager, TableManagerVersion};

fn manager(tbl: &str) -> TableManagerV1 {
    TableManagerV1::new("/tmp/store", tbl).unwrap()
}

#[test]
fn test_detect_format() {
    // A nonexistent file is not of this format.
    assert_eq!(TableManagerV1::is_of_type(None), false);
    // Nor an empty file.
    assert_eq!(TableManagerV1::is_of_type(Some(&vec![])), false);
    // A file whose first line is exactly the version marker is.
    assert_eq!(TableManagerV1::is_of_type(Some(&vec!["#v1.0#".to_owned()])), true);
    // With or without following records.
    assert_eq!(
        TableManagerV1::is_of_type(Some(&vec![
            "#v1.0#".to_owned(),
            "line1".to_owned(),
            "line2".to_owned(),
        ])),
        true
    );
    // Any other first line is not.
    assert_eq!(TableManagerV1::is_of_type(Some(&vec!["V2.1".to_owned()])), false);
}

#[test]
fn test_get_fullpath() {
    assert_eq!(TableManagerV1::get_fullpath("/tmp", "test").unwrap(), "/tmp/test.dt");
    assert_eq!(TableManagerV1::get_fullpath("/tmp/", "test").unwrap(), "/tmp/test.dt");
    assert_eq!(TableManagerV1::get_fullpath("", "test").unwrap(), "test.dt");
    let m = TableManagerV1::new("/tmp", "test").unwrap();
    assert_eq!(m.get_path(), "/tmp/test.dt");
}

#[test]
fn test_get_table_manager_picks_v1() {
    let v = get_table_manager("/tmp", "test").unwrap();
    match v {
        TableManagerVersion::V1(m) => assert_eq!(m.get_path(), "/tmp/test.dt"),
    }
}

#[test]
fn test_read_missing_and_empty_file() {
    let m = manager("test");
    let t = m.read(None).unwrap();
    assert_eq!(t.get_name(), "test");
    assert_eq!(t.get_lines().len(), 0);
    let t = m.read(Some(&vec![])).unwrap();
    assert_eq!(t.get_lines().len(), 0);
}

#[test]
fn test_write_layout() {
    let m = manager("test");
    let mut table = Table::new("test", vec![]).unwrap();
    let mut line = Line::new();
    line.add("col1", Type::from_str("123")).unwrap();
    table.insert(line);
    let lines = m.write(&table);
    assert_eq!(lines.len(), 2);
    assert_eq!(lines[0], "#v1.0#");
    assert!(lines[1].starts_with("[_id:\""));
    assert!(lines[1].ends_with(" col1:\"123\":string]"));
}

#[test]
fn test_end_to_end() {
    // Write a table named `test` with one record, reopen it from the written
    // lines, find the record, read a field, then drop and reopen empty.
    let m = manager("test");
    let mut table = Table::new("test", vec![]).unwrap();
    let mut line = Line::new();
    line.add("firstname", Type::from_str("Mike")).unwrap();
    line.add("favorite_number", Type::from_str("1245")).unwrap();
    let id = line.get_id();
    table.insert(line);

    let file_lines = m.write(&table);

    // Close and reopen: rebuild the table from the file's lines.
    let mut reopened = m.read(Some(&file_lines)).unwrap();
    assert_eq!(reopened.get_name(), "test");
    let found = reopened.find_by_id(id).unwrap();
    assert_eq!(found.get("firstname").unwrap().get().to_string(), "Mike");
    assert_eq!(found.get("favorite_number").unwrap().get().to_string(), "1245");

    // Dropping the table removes the file; reopening yields an empty table.
    let reopened = m.read(None).unwrap();
    assert_eq!(reopened.get_lines().len(), 0);
}

#[test]
fn test_round_trip_every_type() {
    // A table with every field type, including values holding `"`, `[`, `]`
    // and `#`, reads back equal after encoding.
    let m = manager("all_types");
    let mut table = Table::new("all_types", vec![]).unwrap();
    let mut line = Line::new();
    line.add("text", Type::from_str("Using \" in a text")).unwrap();
    line.add("brackets", Type::from_str("odd [ text ] with # and :")).unwrap();
    line.add("quotes", Type::from_str("\"\"")).unwrap();
    line.add("empty", Type::from_str("")).unwrap();
    line.add("int", Type::from_int(i64::MIN)).unwrap();
    line.add("dec", Type::from_decimal(Decimal::from_str("-1.230555531").unwrap())).unwrap();
    line.add("flag", Type::from_bool(true)).unwrap();
    line.add("when", Type::from_datetime(1639588699000).unwrap()).unwrap();
    let id1 = line.get_id();
    table.insert(line);
    let mut line2 = Line::new();
    line2.add("text", Type::from_str("second")).unwrap();
    let id2 = line2.get_id();
    table.insert(line2);

    let t2 = encode_then_decode(&m, &table).unwrap();
    assert_eq!(t2.get_lines().len(), 2);
    let mut t2 = t2;
    let r1 = t2.find_by_id(id1).unwrap();
    assert_eq!(r1.get("text").unwrap().get().to_string(), "Using \" in a text");
    assert_eq!(
        r1.get("brackets").unwrap().get().to_string(),
        "odd [ text ] with # and :"
    );
    assert_eq!(r1.get("quotes").unwrap().get().to_string(), "\"\"");
    assert_eq!(r1.get("empty").unwrap().get().to_string(), "");
    assert_eq!(r1.get("int").unwrap().get().to_int().unwrap(), i64::MIN);
    assert_eq!(r1.get("dec").unwrap().get().to_string(), "-1.230555531");
    assert_eq!(r1.get("flag").unwrap().get().to_bool().unwrap(), true);
    assert_eq!(r1.get("when").unwrap().get().to_datetime().unwrap().millis(), 1639588699000);
    // Field order survives.
    assert_eq!(r1.get_index("int").unwrap(), 4);
    assert!(t2.find_by_id(id2).is_some());
}

#[test]
fn test_read_rejects_duplicate_ids() {
    let m = manager("dups");
    let id = Uuid::new_v4();
    let rec = format!("[_id:\"{}\" a:\"1\":string]", id);
    let content = vec!["#v1.0#".to_owned(), rec.clone(), rec];
    let err = m.read(Some(&content)).unwrap_err();
    match err {
        flatdb::db::db_error::DbError::DuplicateId(msg) => {
            assert_eq!(msg, format!("The id [{}] is used multiple times", id));
        },
        _ => panic!("wrong error kind"),
    }
}

#[test]
fn test_read_joins_physical_lines() {
    // A record split across physical lines still parses: the reader joins
    // all lines before tokenizing.
    let m = manager("split");
    let content = vec![
        "#v1.0#[_id:\"5435c914-a918".to_owned(),
        "-4cc7-8354-e55ff04d9e25\" col1:\"12".to_owned(),
        "3\":string]".to_owned(),
    ];
    let t = m.read(Some(&content)).unwrap();
    let lines = t.get_lines();
    assert_eq!(lines.len(), 1);
    assert_eq!(lines[0].get("col1").unwrap().get().to_string(), "123");
}

#[test]
fn test_write_is_deterministic() {
    // Re-encoding an unchanged table produces identical content, so a
    // rewrite of the same table writes a byte-identical file.
    let m = manager("same");
    let mut table = Table::new("same", vec![]).unwrap();
    let mut line = Line::new();
    line.add("col1", Type::from_str("123")).unwrap();
    table.insert(line);
    assert_eq!(m.write(&table), m.write(&table));
}

#[test]
fn test_read_single_empty_line_is_an_error() {
    // A file holding one empty line is not empty content: it parses, and
    // parsing fails at the missing version marker.
    let m = manager("blank");
    let err = m.read(Some(&vec![String::new()])).unwrap_err();
    match err {
        flatdb::db::db_error::DbError::UnexpectedToken(msg) => {
            assert_eq!(msg, "Expected [#], but received []");
        },
        _ => panic!("wrong error kind"),
    }
}
