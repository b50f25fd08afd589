use uuid::Uuid;

use flatdb::db::db_error::DbError;
use flatdb::table_manager::lexer::Lexer;
use flatdb::table_manager::parser::Parser;

#[test]
fn test_parser() {
    let to_parser = String::from(
        "#v1.0#[_id:\"5435c914-a918-4cc7-8354-e55ff04d9e25\" col1:\"123\":integer col2:\"456\":integer col3:\"789.2333\":decimal]",
    )
        + "[_id:\"3b3f4537-1b8b-4577-999f-e650ea76e190\" name:\"client\":string full:\"Mike Mike\":string col3:\"Using \"\" in a text\":string]"
        + "[_id:\"7810da2f-84c7-4897-a0e1-8d92ecefadb4\" name:\"Brackets in a value []\":string full:\"\":string]";

    let mut l = Lexer::new(&to_parser);
    let p = Parser::new(&mut l).unwrap();
    let lines = p.lines;

    assert_eq!(p.version, "v1.0");

    assert_eq!(
        lines[0].get_id(),
        Uuid::parse_str("5435c914-a918-4cc7-8354-e55ff04d9e25").unwrap().as_u128()
    );
    assert_eq!(lines[0].get_fields()[0].get_name(), "col1");
    assert_eq!(lines[0].get_fields()[0].get().to_string(), "123");
    assert_eq!(lines[0].get_fields()[2].get().to_string(), "789.2333");

    assert_eq!(lines[1].get_fields()[0].get_name(), "name");
    assert_eq!(lines[1].get_fields()[0].get().to_string(), "client");
    assert_eq!(lines[1].get_fields()[1].get().to_string(), "Mike Mike");
    assert_eq!(lines[1].get_fields()[2].get_name(), "col3");
    assert_eq!(lines[1].get_fields()[2].get().to_string(), "Using \" in a text");

    assert_eq!(lines[2].get_fields()[0].get().to_string(), "Brackets in a value []");
}

#[test]
fn test_invalid_format() {
    // Missing version
    let parser = _get_parser_from_str("##[_id:\"5435c914-a918-4cc7-8354-e55ff04d9e25\" col1:\"123\":string col2:\"456\":string col3:\"789\":string]");
    assert_eq!(parser.is_err(), true);
    assert_eq!(_unwrap_error(&parser.unwrap_err()), "Expected [v1.0], but received [#]");

    // Missing first [
    let parser = _get_parser_from_str("#v1.0#_id:\"5435c914-a918-4cc7-8354-e55ff04d9e25\" col1:\"123\" col2:\"456\" col3:\"789\"]");
    assert_eq!(parser.is_err(), true);
    assert_eq!(_unwrap_error(&parser.unwrap_err()), "Unexpected token! [_id]");

    // Missing last ]
    let parser = _get_parser_from_str("#v1.0#[_id:\"5435c914-a918-4cc7-8354-e55ff04d9e25\"");
    assert_eq!(parser.is_err(), true);
    assert_eq!(_unwrap_error(&parser.unwrap_err()), "Expected []], but received []");

    // Missing first " (on id)
    let parser = _get_parser_from_str("#v1.0#[_id:5435c914-a918-4cc7-8354-e55ff04d9e25\" col1:\"123\"]:string");
    assert_eq!(parser.is_err(), true);
    assert_eq!(
        _unwrap_error(&parser.unwrap_err()),
        "Expected [\"], but received [5435c914-a918-4cc7-8354-e55ff04d9e25]"
    );

    // Missing first " (on field)
    let parser = _get_parser_from_str("#v1.0#[_id:\"5435c914-a918-4cc7-8354-e55ff04d9e25\" col1:123\"]:string");
    assert_eq!(parser.is_err(), true);
    assert_eq!(_unwrap_error(&parser.unwrap_err()), "Expected [\"], but received [123]");

    // Missing last " (on id)
    let parser = _get_parser_from_str("#v1.0#[_id:\"5435c914-a918-4cc7-8354-e55ff04d9e25 col1:\"123\"]:string");
    assert_eq!(parser.is_err(), true);
    assert_eq!(_unwrap_error(&parser.unwrap_err()), "Expected [\"], but received [ ]");

    // Missing last " (on field)
    let parser = _get_parser_from_str("#v1.0#[_id:\"5435c914-a918-4cc7-8354-e55ff04d9e25\" col1:\"123]:string");
    assert_eq!(parser.is_err(), true);
    assert_eq!(
        _unwrap_error(&parser.unwrap_err()),
        "Could not find the end of the value [123]:]"
    );

    // Missing :
    let parser = _get_parser_from_str("#v1.0#[_id:\"5435c914-a918-4cc7-8354-e55ff04d9e25\" col1 \"123\":string col2:\"456\":string col3:\"789\":string][_id:\"3b3f4537-1b8b-4577-999f-e650ea76e190\" name:\"client\":string full:\"Mike Mike\":string col3:\"Using \"\" in a text\":string]");
    assert_eq!(parser.is_err(), true);
    assert_eq!(_unwrap_error(&parser.unwrap_err()), "Expected [:], but received [ ]");

    // Using ; instead of :
    let parser = _get_parser_from_str("#v1.0#[_id;\"5435c914-a918-4cc7-8354-e55ff04d9e25\" col1:\"123\":string col2:\"456\":string col3:\"789\":string]");
    assert_eq!(parser.is_err(), true);
    assert_eq!(_unwrap_error(&parser.unwrap_err()), "Expected [_id], but received [_id;]");

    // Using : before type
    let parser = _get_parser_from_str("#v1.0#[_id:\"5435c914-a918-4cc7-8354-e55ff04d9e25\" col1:\"123\" string col2:\"456\":string col3:\"789\":string]");
    assert_eq!(parser.is_err(), true);
    assert_eq!(_unwrap_error(&parser.unwrap_err()), "Expected [:], but received [ ]");

    // Using unsupported type
    let parser = _get_parser_from_str("#v1.0#[_id:\"5435c914-a918-4cc7-8354-e55ff04d9e25\" col1:\"123\":ssstringg col2:\"456\":string col3:\"789\":string]");
    assert_eq!(parser.is_err(), true);
    assert_eq!(_unwrap_error(&parser.unwrap_err()), "The type [ssstringg] is not supported");
}

#[test]
fn test_parse_typed_values() {
    // Booleans, timestamps and negative numbers come back typed.
    let text = "#v1.0#[_id:\"5435c914-a918-4cc7-8354-e55ff04d9e25\" flag:\"true\":boolean off:\"no\":boolean when:\"2021-12-15T17:18:19.000Z\":datetime n:\"-42\":integer]";
    let p = _get_parser_from_str(text).unwrap();
    let fields = p.lines[0].get_fields();
    assert_eq!(fields[0].get().to_bool().unwrap(), true);
    // Any boolean text other than `true` reads as false.
    assert_eq!(fields[1].get().to_bool().unwrap(), false);
    assert_eq!(fields[2].get().to_string(), "2021-12-15T17:18:19.000Z");
    assert_eq!(fields[3].get().to_int().unwrap(), -42);
}

#[test]
fn test_parse_bad_uuid() {
    let parser = _get_parser_from_str("#v1.0#[_id:\"oops\" col1:\"123\":string]");
    assert_eq!(parser.is_err(), true);
    assert_eq!(_unwrap_error(&parser.unwrap_err()), "The id [oops] is not a valid UUID");
}

#[test]
fn test_parse_bad_integer() {
    let parser = _get_parser_from_str(
        "#v1.0#[_id:\"5435c914-a918-4cc7-8354-e55ff04d9e25\" col1:\"12x\":integer]",
    );
    assert_eq!(parser.is_err(), true);
    assert_eq!(
        _unwrap_error(&parser.unwrap_err()),
        "The value [12x] is not a valid integer"
    );
}

#[test]
fn test_parse_bad_decimal_and_datetime() {
    let parser = _get_parser_from_str(
        "#v1.0#[_id:\"5435c914-a918-4cc7-8354-e55ff04d9e25\" col1:\"nope\":decimal]",
    );
    assert_eq!(
        _unwrap_error(&parser.unwrap_err()),
        "The value [nope] is not a valid decimal"
    );
    let parser = _get_parser_from_str(
        "#v1.0#[_id:\"5435c914-a918-4cc7-8354-e55ff04d9e25\" col1:\"2021-13-45\":datetime]",
    );
    assert_eq!(
        _unwrap_error(&parser.unwrap_err()),
        "The value [2021-13-45] is not a valid datetime"
    );
}

fn _get_parser_from_str(to_parse: &str) -> Result<Parser, DbError> {
    let mut l = Lexer::new(to_parse);

    Parser::new(&mut l)
}

fn _unwrap_error(error: &DbError) -> String {
    match error {
        DbError::Custom(msg) => msg.to_owned(),
        DbError::UnexpectedToken(msg) => msg.to_owned(),
        DbError::UnsupportedType(msg) => msg.to_owned(),
        DbError::UnterminatedValue(msg) => msg.to_owned(),
        _ => "".to_owned(),
    }
}
