use flatdb::db::db_error::DbError;
use flatdb::db::field_type::Type;
use flatdb::db::line::Line;

#[test]
fn test_get() {
    let line = _init_line();

    assert_eq!(line.get("firstname").unwrap().get().to_string(), "Mike");
    assert_eq!(line.get("favorite_number").unwrap().get().to_string(), "1245");
    assert_eq!(line.get("lastname").unwrap().get().to_string(), "Johnson");

    assert_eq!(line.get("other_name").is_none(), true);
    assert_eq!(line.get("").is_none(), true);

    let empty_line = Line::new();
    assert_eq!(empty_line.get("firstname").is_none(), true);
}

#[test]
fn test_get_index() {
    let line = _init_line();

    assert_eq!(line.get_index("firstname").unwrap(), 0);
    assert_eq!(line.get_index("favorite_number").unwrap(), 2);
    assert_eq!(line.get_index("lastname").unwrap(), 1);

    assert_eq!(line.get_index("does_not_exist").is_none(), true);
}

#[test]
fn test_remove() {
    let mut line = _init_line();

    let index = line.get_index("favorite_number").unwrap();
    assert_eq!(index, 2);
    assert_eq!(line.get_fields().len(), 3);

    line.remove("lastname");
    assert_eq!(line.get_fields().len(), 2);

    line.remove("does_not_exist");
    assert_eq!(line.get_fields().len(), 2);

    let index = line.get_index("favorite_number").unwrap();
    assert_eq!(index, 1);
}

#[test]
fn test_get_field() {
    let line = _init_line();

    let names = line.get_fields_name();

    assert_eq!(names.contains(&String::from("firstname")), true);
    assert_eq!(names.contains(&String::from("lastname")), true);
    assert_eq!(names.contains(&String::from("favorite_number")), true);

    assert_eq!(line.get_fields_name().contains(&String::from("other")), false);

    let line = Line::new();
    assert_eq!(line.get_fields_name().len(), 0);
}

#[test]
fn test_add_duplicate_field_fails_and_leaves_line_unchanged() {
    let mut line = _init_line();
    let err = line.add("firstname", Type::from_str("Anna")).unwrap_err();
    match err {
        DbError::FieldAlreadyExists(m) => {
            assert_eq!(m, "The field [firstname] already exists")
        },
        _ => panic!("wrong error kind"),
    }
    // The record is unchanged afterward.
    assert_eq!(line.get_fields().len(), 3);
    assert_eq!(line.get("firstname").unwrap().get().to_string(), "Mike");
}

#[test]
fn test_get_mut_and_set() {
    let mut line = _init_line();
    line.get_mut("firstname").unwrap().set(Type::from_str("Anna"));
    assert_eq!(line.get("firstname").unwrap().get().to_string(), "Anna");
    assert_eq!(line.get("firstname").unwrap().get_name(), "firstname");
    assert!(line.get_mut("nope").is_none());
}

#[test]
fn test_has_with() {
    let line = _init_line();
    assert!(line.has_with("firstname", "Mike"));
    assert!(!line.has_with("firstname", "Anna"));
    assert!(!line.has_with("nope", "Mike"));
}

fn _init_line() -> Line {
    let mut line = Line::new();
    line.add("firstname", Type::from_str("Mike")).unwrap();
    line.add("lastname", Type::from_str("Johnson")).unwrap();
    line.add("favorite_number", Type::from_str("1245")).unwrap();

    line
}
