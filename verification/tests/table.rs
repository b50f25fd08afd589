use uuid::Uuid;

use flatdb::db::db_error::DbError;
use flatdb::db::field::Field;
use flatdb::db::line::Line;
use flatdb::db::table::Table;

fn uid(s: &str) -> u128 {
    Uuid::parse_str(s).unwrap().as_u128()
}

#[test]
fn test_delete_line() {
    let mut tbl = _init_basic_table();
    let count = tbl.get_lines().len();
    tbl.delete(uid("00000000-0000-0000-0000-000000000000"));

    assert_eq!(count, tbl.get_lines().len());

    let found_id = uid("84e4eedf-a383-457e-aa73-d26c646762ba");
    assert_eq!(tbl.find_by_id(found_id).is_some(), true);
    tbl.delete(found_id);
    assert_eq!(count - 1, tbl.get_lines().len());
    assert_eq!(tbl.find_by_id(found_id).is_none(), true);
}

#[test]
fn test_find_by_id() {
    let mut tbl = _init_basic_table();
    let line = tbl.find_by_id(uid("00000000-0000-0000-0000-000000000000"));

    assert_eq!(line.is_none(), true);

    let line = tbl.find_by_id(uid("84e4eedf-a383-457e-aa73-d26c646762ba"));
    assert_eq!(line.is_some(), true);
    let line = line.unwrap();
    assert_eq!(
        "84e4eedf-a383-457e-aa73-d26c646762ba",
        Uuid::from_u128(line.get_id()).to_string()
    );

    let line = tbl.find_by_id(uid("a60cbdfa-4c46-438c-8ad8-45bdd2063a56"));
    assert_eq!(line.is_some(), true);
    let line = line.unwrap();
    assert_eq!(
        "a60cbdfa-4c46-438c-8ad8-45bdd2063a56",
        Uuid::from_u128(line.get_id()).to_string()
    );
}

#[test]
fn test_should_not_allow_identical_id() {
    // Using the same id value twice
    let mut lines: Vec<Line> = Vec::new();
    let id = Uuid::new_v4().as_u128();

    let fields = vec![
        Field::new_str("firstname", "Mike"),
        Field::new_str("lastname", "Johnson"),
        Field::new_str("favorite_number", "1245"),
    ];
    let line = Line::new_with_id(id, fields);
    lines.push(line);

    let fields = vec![
        Field::new_str("firstname", "Sean"),
        Field::new_str("lastname", "Smith"),
        Field::new_str("favorite_number", "256"),
    ];
    let line = Line::new_with_id(id, fields);
    lines.push(line);

    let table = Table::new("test", lines);
    assert_eq!(table.is_err(), true);

    // Using distinct parses of the same UUID text
    let id1 = uid("187de314-404d-439b-8a68-58122ea12261");
    let id2 = uid("187de314-404d-439b-8a68-58122ea12261");
    let mut lines: Vec<Line> = Vec::new();

    let fields = vec![
        Field::new_str("firstname", "Mike"),
        Field::new_str("lastname", "Johnson"),
        Field::new_str("favorite_number", "1245"),
    ];
    let line = Line::new_with_id(id1, fields);
    lines.push(line);

    let fields = vec![
        Field::new_str("firstname", "Sean"),
        Field::new_str("lastname", "Smith"),
        Field::new_str("favorite_number", "256"),
    ];
    let line = Line::new_with_id(id2, fields);
    lines.push(line);

    let table = Table::new("test", lines);
    assert_eq!(table.is_err(), true);
    match table.unwrap_err() {
        DbError::DuplicateId(m) => assert_eq!(
            m,
            "The id [187de314-404d-439b-8a68-58122ea12261] is used multiple times"
        ),
        _ => panic!("wrong error kind"),
    }
}

#[test]
fn test_find() {
    let table = _init_basic_table();

    let list = table.find(|l: &Line| l.has_with("firstname", "Simon"));
    assert_eq!(list.len(), 2);
    assert_eq!(
        Uuid::from_u128(list[0].get_id()).to_string(),
        "a60cbdfa-4c46-438c-8ad8-45bdd2063a56"
    );
    assert_eq!(
        Uuid::from_u128(list[1].get_id()).to_string(),
        "49295823-29c2-1dba-2d14-ad498654ecc2"
    );

    let list = table.find(|l: &Line| l.has_with("favorite_number", "1245"));
    assert_eq!(list.len(), 1);
    assert_eq!(
        Uuid::from_u128(list[0].get_id()).to_string(),
        "84e4eedf-a383-457e-aa73-d26c646762ba"
    );

    let list = table.find(|l: &Line| l.has_with("a_field", "some value"));
    assert_eq!(list.len(), 0);
}

#[test]
fn test_find_where() {
    let table = _init_basic_table();

    let lines = table.find(|line: &Line| {
        if let Some(field) = line.get("lastname") {
            return field.get().to_string().starts_with("S");
        }

        false
    });

    assert_eq!(lines.len(), 2);
    assert_eq!(
        Uuid::from_u128(lines[0].get_id()).to_string(),
        String::from("187de314-404d-439b-8a68-58122ea12261")
    );
    assert_eq!(
        Uuid::from_u128(lines[1].get_id()).to_string(),
        String::from("e4ee24eb-f84c-46ed-b8af-16e7891792e1")
    );

    let lines = table.find(|_| false);
    assert_eq!(lines.len(), 0);

    let lines = table.find(|_| true);
    assert_eq!(lines.len(), table.get_lines().len());
}

#[test]
fn test_insert_bypasses_duplicate_check() {
    // The duplicate check happens only at construction, not on insert.
    let mut table = Table::new("test", vec![]).unwrap();
    let id = Uuid::new_v4().as_u128();
    table.insert(Line::new_with_id(id, vec![]));
    table.insert(Line::new_with_id(id, vec![]));
    assert_eq!(table.get_lines().len(), 2);
}

fn _init_basic_table() -> Table {
    let mut table = Table::new("test", vec![]).unwrap();

    let fields = vec![
        Field::new_str("firstname", "Mike"),
        Field::new_str("lastname", "Johnson"),
        Field::new_str("favorite_number", "1245"),
    ];
    let line = Line::new_with_id(uid("84e4eedf-a383-457e-aa73-d26c646762ba"), fields);
    table.insert(line);

    let fields = vec![
        Field::new_str("firstname", "Sean"),
        Field::new_str("lastname", "Smith"),
        Field::new_str("favorite_number", "256"),
    ];
    let line = Line::new_with_id(uid("187de314-404d-439b-8a68-58122ea12261"), fields);
    table.insert(line);

    let fields = vec![
        Field::new_str("firstname", "Simon"),
        Field::new_str("lastname", "Neat"),
        Field::new_str("favorite_number", "540"),
    ];
    let line = Line::new_with_id(uid("a60cbdfa-4c46-438c-8ad8-45bdd2063a56"), fields);
    table.insert(line);

    let fields = vec![
        Field::new_str("firstname", "Simon"),
        Field::new_str("lastname", "Neat"),
        Field::new_str("favorite_number", "540"),
    ];
    let line = Line::new_with_id(uid("49295823-29c2-1dba-2d14-ad498654ecc2"), fields);
    table.insert(line);

    let fields = vec![
        Field::new_str("firstname", "Paul"),
        Field::new_str("lastname", "Silly"),
        Field::new_str("favorite_number", "12"),
    ];
    let line = Line::new_with_id(uid("e4ee24eb-f84c-46ed-b8af-16e7891792e1"), fields);
    table.insert(line);

    let fields = vec![
        Field::new_str("firstname", "Bob"),
        Field::new_str("lastname", "Bob"),
        Field::new_str("favorite_number", "760"),
    ];
    let line = Line::new_with_id(uid("9f77958d-378a-4aab-9763-c815cd74f2bd"), fields);
    table.insert(line);

    table
}
