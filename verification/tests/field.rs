use std::str::FromStr;

use rust_decimal::Decimal;

use flatdb::db::dec::Dec;
use flatdb::db::field::Field;
use flatdb::db::field_type::Type;
use flatdb::db::ts::Ts;

#[test]
fn test_field_constructors() {
    let f = Field::new("name", Type::from_str("value"));
    assert_eq!(f.get_name(), "name");
    assert_eq!(f.get().to_string(), "value");

    assert_eq!(Field::new_str("s", "x").get().to_string(), "x");
    assert_eq!(Field::new_int("i", -7).get().to_int().unwrap(), -7);
    assert_eq!(
        Field::new_decimal("d", Decimal::from_str("2.50").unwrap()).get().to_string(),
        "2.50"
    );
    assert_eq!(
        Field::new_dec("d", Dec::new(false, 250, 2).unwrap()).get().to_string(),
        "2.50"
    );
    assert_eq!(Field::new_bool("b", true).get().to_bool().unwrap(), true);
    let ts = Field::new_datetime("t", 0).unwrap();
    assert_eq!(ts.get().to_string(), "1970-01-01T00:00:00.000Z");
    assert!(Field::new_datetime("t", i64::MAX).is_none());
    let t = Ts::new(0).unwrap();
    assert_eq!(Field::new_ts("t", t).get().to_datetime().unwrap(), t);
}

#[test]
fn test_field_set_keeps_name() {
    let mut f = Field::new_str("col", "before");
    f.set(Type::from_int(5));
    assert_eq!(f.get_name(), "col");
    assert_eq!(f.get().to_int().unwrap(), 5);
}

#[test]
fn test_field_name_is() {
    let f = Field::new_str("col", "v");
    assert!(f.name_is("col"));
    assert!(!f.name_is("Col"));
}
