use std::str::FromStr;

use rust_decimal::Decimal;
use uuid::Uuid;

use flatdb::db::field::Field;
use flatdb::db::line::Line;
use flatdb::table_manager::line_to_str::{escape_str, line_to_str};

#[test]
fn test_ln_to_str() {
    let uid = "e88954bd-3ae5-4cc5-a1c5-839926790dda";
    let line = Line::new_with_id(
        Uuid::parse_str(uid).unwrap().as_u128(),
        vec![Field::new_str("col1", "1"), Field::new_str("col2", "2")],
    );
    let expect = "[_id:\"".to_owned() + uid + "\" col1:\"1\":string col2:\"2\":string]";

    assert_eq!(line_to_str(&line), expect);
}

#[test]
fn test_ln_str_with_type() {
    let uid = Uuid::new_v4();
    let line = Line::new_with_id(
        uid.as_u128(),
        vec![
            Field::new_str("str", "SuperString"),
            Field::new_int("int", 123),
            Field::new_decimal("dec", Decimal::from_str("1.230555531").unwrap()),
        ],
    );
    let expect = "[_id:\"".to_owned() + &uid.to_string()
        + "\" str:\"SuperString\":string int:\"123\":integer dec:\"1.230555531\":decimal]";

    assert_eq!(line_to_str(&line), expect);
}

#[test]
fn test_escape_doubles_quotes() {
    // `Using " in a text` encodes to `Using "" in a text`.
    assert_eq!(escape_str("Using \" in a text"), "Using \"\" in a text");
    assert_eq!(escape_str(""), "");
    assert_eq!(escape_str("\"\""), "\"\"\"\"");
    assert_eq!(escape_str("no quotes"), "no quotes");
}

#[test]
fn test_encode_quoted_value() {
    let uid = "e88954bd-3ae5-4cc5-a1c5-839926790dda";
    let line = Line::new_with_id(
        Uuid::parse_str(uid).unwrap().as_u128(),
        vec![Field::new_str("col3", "Using \" in a text")],
    );
    let expect =
        "[_id:\"".to_owned() + uid + "\" col3:\"Using \"\" in a text\":string]";
    assert_eq!(line_to_str(&line), expect);
}

#[test]
fn test_encode_empty_record_has_no_trailing_space() {
    let uid = "e88954bd-3ae5-4cc5-a1c5-839926790dda";
    let line = Line::new_with_id(Uuid::parse_str(uid).unwrap().as_u128(), vec![]);
    let expect = "[_id:\"".to_owned() + uid + "\"]";
    assert_eq!(line_to_str(&line), expect);
}
