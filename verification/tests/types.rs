use std::str::FromStr;

use chrono::{Duration, NaiveDate, NaiveDateTime, NaiveTime, Timelike, Utc};
use rust_decimal::prelude::FromPrimitive;
use rust_decimal::Decimal;

use flatdb::db::dec::Dec;
use flatdb::db::field_type::Type;
use flatdb::db::ts::{Ts, TS_MAX_MILLIS, TS_MIN_MILLIS};

fn utc_millis(y: i32, mo: u32, d: u32, h: u32, mi: u32, s: u32) -> i64 {
    let date = NaiveDate::from_ymd_opt(y, mo, d).unwrap();
    let time = NaiveTime::from_hms_opt(h, mi, s).unwrap();
    NaiveDateTime::new(date, time).and_utc().timestamp_millis()
}

#[test]
fn test_to_string() {
    let int = Type::from_int(0);
    let str = Type::from_str("hello");
    let dec = Type::from_decimal(Decimal::from_f64(1.11).unwrap());
    let boolean = Type::from_bool(false);

    let datetime = Type::from_datetime(utc_millis(2021, 12, 15, 17, 18, 19)).unwrap();

    assert_eq!(int.to_string(), "0");
    assert_eq!(str.to_string(), "hello");
    assert_eq!(dec.to_string(), "1.11");
    assert_eq!(boolean.to_string(), "false");
    assert_eq!(datetime.to_string(), "2021-12-15T17:18:19.000Z");

    let date = NaiveDate::from_ymd_opt(2020, 11, 14).unwrap();
    let time = NaiveTime::from_hms_opt(10, 20, 30).unwrap().with_nanosecond(149294584).unwrap();
    let ms = NaiveDateTime::new(date, time).and_utc().timestamp_millis();
    let datetime = Type::from_datetime(ms).unwrap();

    assert_eq!(datetime.to_string(), "2020-11-14T10:20:30.149Z");
}

#[test]
fn test_to() {
    let int = Type::from_int(0);
    let str = Type::from_str("hello");
    let dec = Type::from_decimal(Decimal::from_f64(1.11).unwrap());
    let boolean = Type::from_bool(false);

    let millis = utc_millis(2021, 12, 15, 17, 18, 19);
    let datetime = Type::from_datetime(millis).unwrap();

    assert_eq!(int.to_int().unwrap(), 0);
    assert_eq!(int.to_str().is_ok(), false);
    assert_eq!(int.to_decimal().is_ok(), false);
    assert_eq!(int.to_bool().is_ok(), false);
    assert_eq!(int.to_datetime().is_ok(), false);

    assert_eq!(str.to_int().is_ok(), false);
    assert_eq!(str.to_str().unwrap(), "hello");
    assert_eq!(str.to_decimal().is_ok(), false);
    assert_eq!(str.to_bool().is_ok(), false);
    assert_eq!(str.to_datetime().is_ok(), false);

    assert_eq!(dec.to_int().is_ok(), false);
    assert_eq!(dec.to_str().is_ok(), false);
    assert_eq!(dec.to_decimal().unwrap(), Dec::new(false, 111, 2).unwrap());
    assert_eq!(dec.to_bool().is_ok(), false);
    assert_eq!(dec.to_datetime().is_ok(), false);

    assert_eq!(boolean.to_int().is_ok(), false);
    assert_eq!(boolean.to_str().is_ok(), false);
    assert_eq!(boolean.to_decimal().is_ok(), false);
    assert_eq!(boolean.to_bool().unwrap(), false);
    assert_eq!(boolean.to_datetime().is_ok(), false);

    assert_eq!(datetime.to_int().is_ok(), false);
    assert_eq!(datetime.to_str().is_ok(), false);
    assert_eq!(datetime.to_decimal().is_ok(), false);
    assert_eq!(datetime.to_bool().is_ok(), false);
    assert_eq!(datetime.to_datetime().unwrap().millis(), millis);
}

#[test]
fn test_mix_and_match() {
    let int = Type::from_int(0);
    let str = Type::from_str("hello");
    let dec = Type::from_decimal(Decimal::from_f64(1.11).unwrap());
    let dec1 = Type::from_decimal(Decimal::from_i64(0).unwrap());
    let boolean = Type::from_bool(false);
    let dt = Type::from_datetime(Utc::now().timestamp_millis()).unwrap();

    assert_ne!(int, str);
    assert_ne!(int, dec);
    assert_ne!(int, dec1);
    assert_ne!(int, boolean);
    assert_ne!(int, dt);

    assert_ne!(str, int);
    assert_ne!(str, dec);
    assert_ne!(str, dec1);
    assert_ne!(str, boolean);
    assert_ne!(str, boolean);

    assert_ne!(dec, int);
    assert_ne!(dec, str);
    assert_ne!(dec, dec1);
    assert_ne!(dec, boolean);
    assert_ne!(dec, dt);
}

#[test]
fn test_datetime_eq() {
    let now = Utc::now().timestamp_millis();
    let dt_now = Type::from_datetime(now).unwrap();
    let dt_now1 = Type::from_datetime(now).unwrap();

    let later = (Utc::now() + Duration::days(1)).timestamp_millis();
    let dt_later = Type::from_datetime(later).unwrap();

    assert_eq!(dt_now, dt_now);
    assert_eq!(dt_now, dt_now1);
    assert_ne!(dt_now, dt_later);
}

#[test]
fn test_bool_eq() {
    let b_true = Type::from_bool(true);
    let b_true1 = Type::from_bool(true);

    let b_false = Type::from_bool(false);

    assert_eq!(b_true, b_true);
    assert_eq!(b_true, b_true1);
    assert_ne!(b_true, b_false);
}

#[test]
fn test_int_eq() {
    let int1 = Type::from_int(1);
    let int1_1 = Type::from_int(1);

    let int2 = Type::from_int(2);

    assert_eq!(int1, int1);
    assert_eq!(int1, int1_1);
    assert_ne!(int1, int2);
}

#[test]
fn test_string_eq() {
    let hello = Type::from_str("hello");
    let hello_1 = Type::from_str("hello");

    let world = Type::from_str("world");

    assert_eq!(hello, hello);
    assert_eq!(hello, hello_1);
    assert_ne!(hello, world);
}

#[test]
fn test_decimal_eq() {
    let dec1 = Type::from_decimal(Decimal::from_f64(1.11).unwrap());
    let dec1_1 = Type::from_decimal(Decimal::from_f64(1.11).unwrap());

    let dec2 = Type::from_decimal(Decimal::from_str("2.2222").unwrap());

    assert_eq!(dec1, dec1);
    assert_eq!(dec1, dec1_1);
    assert_ne!(dec1, dec2);
}

#[test]
fn test_integer_text_round_trip() {
    for v in [0i64, 7, -1, 42, i64::MAX, i64::MIN] {
        let t = Type::from_int(v);
        let text = t.to_string();
        assert_eq!(text, v.to_string());
        assert_eq!(flatdb::db::num::parse_i64_str(&text), Some(v));
    }
    assert_eq!(flatdb::db::num::parse_i64_str("+123"), Some(123));
    assert_eq!(flatdb::db::num::parse_i64_str(""), None);
    assert_eq!(flatdb::db::num::parse_i64_str("12a"), None);
    assert_eq!(flatdb::db::num::parse_i64_str("9223372036854775808"), None);
    assert_eq!(flatdb::db::num::parse_i64_str("-9223372036854775808"), Some(i64::MIN));
}

#[test]
fn test_timestamp_bounds() {
    // The bounds are the millisecond instants of 0000-01-01T00:00:00.000Z
    // and 9999-12-31T23:59:59.999Z.
    assert_eq!(TS_MIN_MILLIS, utc_millis(0, 1, 1, 0, 0, 0));
    assert_eq!(TS_MAX_MILLIS, utc_millis(9999, 12, 31, 23, 59, 59) + 999);
    // Both ends render with a four-digit year and read back exactly.
    for ms in [TS_MIN_MILLIS, TS_MAX_MILLIS, 0] {
        let t = Ts::new(ms).unwrap();
        let text = t.to_text();
        assert_eq!(text.len(), 24);
        assert_eq!(Ts::from_text(&text), Some(t));
    }
    assert!(Ts::new(TS_MAX_MILLIS + 1).is_none());
    assert!(Ts::new(TS_MIN_MILLIS - 1).is_none());
}

#[test]
fn test_decimal_text_round_trip() {
    // The rendering keeps the scale, including trailing zeros.
    let d = Dec::new(true, 1100, 3).unwrap();
    assert_eq!(d.to_text(), "-1.100");
    assert_eq!(Dec::from_text("-1.100"), Some(d));
    let max = Dec::new(false, 79228162514264337593543950335, 0).unwrap();
    assert_eq!(max.to_text(), "79228162514264337593543950335");
    assert_eq!(Dec::from_text(&max.to_text()), Some(max));
    assert_eq!(Dec::from_text("not a number"), None);
    // Parts no decimal can carry are rejected.
    assert!(Dec::new(false, 79228162514264337593543950336, 0).is_none());
    assert!(Dec::new(false, 1, 29).is_none());
    assert!(Dec::new(true, 0, 0).is_none());
}
