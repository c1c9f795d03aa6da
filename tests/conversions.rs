use temporal_scalars::calendar::{
    DateTimeFixedOffset, DateTimeUtc, NaiveDate, NaiveDateTime, NaiveTime,
};
use temporal_scalars::scalar::WireValue;

fn wire(s: &str) -> WireValue {
    WireValue::String(s.to_string())
}

fn at(y: i32, mo: u32, d: u32, h: u32, mi: u32, s: u32, nano: u32) -> NaiveDateTime {
    NaiveDateTime {
        date: NaiveDate::from_ymd_opt(y, mo, d).unwrap(),
        time: NaiveTime::from_hms_nano_opt(h, mi, s, nano).unwrap(),
    }
}

fn datetime_fixedoffset_test(raw: &str, expected: DateTimeFixedOffset) {
    let parsed = DateTimeFixedOffset::from_input_value(&wire(raw)).unwrap();
    assert_eq!(parsed, expected);
}

#[test]
fn datetime_fixedoffset_from_input_value() {
    let expected = DateTimeFixedOffset::new(at(2014, 11, 28, 21, 0, 9, 0), 9 * 60).unwrap();
    datetime_fixedoffset_test("2014-11-28T21:00:09+09:00", expected);
}

#[test]
fn datetime_fixedoffset_from_input_value_with_z_timezone() {
    let expected = DateTimeFixedOffset::new(at(2014, 11, 28, 21, 0, 9, 0), 0).unwrap();
    datetime_fixedoffset_test("2014-11-28T21:00:09Z", expected);
}

#[test]
fn datetime_fixedoffset_from_input_value_with_fractional_seconds() {
    let expected =
        DateTimeFixedOffset::new(at(2014, 11, 28, 21, 0, 9, 50_000_000), 9 * 60).unwrap();
    datetime_fixedoffset_test("2014-11-28T21:00:09.05+09:00", expected);
}

fn datetime_utc_test(raw: &str, expected: DateTimeUtc) {
    let parsed = DateTimeUtc::from_input_value(&wire(raw)).unwrap();
    assert_eq!(parsed, expected);
    let fixed = DateTimeFixedOffset::from_input_value(&wire(raw)).unwrap();
    assert_eq!(parsed, fixed.to_utc());
}

#[test]
fn datetime_utc_from_input_value() {
    datetime_utc_test(
        "2014-11-28T21:00:09+09:00",
        DateTimeUtc { utc: at(2014, 11, 28, 12, 0, 9, 0) },
    )
}

#[test]
fn datetime_utc_from_input_value_with_z_timezone() {
    datetime_utc_test("2014-11-28T21:00:09Z", DateTimeUtc { utc: at(2014, 11, 28, 21, 0, 9, 0) })
}

#[test]
fn datetime_utc_from_input_value_with_fractional_seconds() {
    datetime_utc_test(
        "2014-11-28T21:00:09.005+09:00",
        DateTimeUtc { utc: at(2014, 11, 28, 12, 0, 9, 5_000_000) },
    );
}

#[test]
fn naivedate_from_input_value() {
    let input = wire("1996-12-19");
    let y = 1996;
    let m = 12;
    let d = 19;

    let parsed = NaiveDate::from_input_value(&input).unwrap();
    let expected = NaiveDate::from_ymd_opt(y, m, d).unwrap();

    assert_eq!(parsed, expected);

    assert_eq!(parsed.year(), y);
    assert_eq!(parsed.month(), m);
    assert_eq!(parsed.day(), d);
}

#[test]
fn naivetime_from_input_value() {
    let input = wire("21:12:19");
    let [h, m, s] = [21, 12, 19];
    let parsed = NaiveTime::from_input_value(&input).unwrap();
    let expected = NaiveTime::from_hms_opt(h, m, s).unwrap();
    assert_eq!(parsed, expected);
    assert_eq!(parsed.hour(), h);
    assert_eq!(parsed.minute(), m);
    assert_eq!(parsed.second(), s);
}

#[test]
fn naivedatetime_from_input_value() {
    let raw = 1_000_000_000_f64;
    let input = WireValue::Number(raw as i64);

    let parsed = NaiveDateTime::from_input_value(&input).unwrap();
    let expected = NaiveDateTime::from_timestamp_opt(raw as i64, 0).unwrap();

    assert_eq!(parsed, expected);
    assert_eq!(raw, expected.timestamp() as f64);
    assert_eq!(parsed, at(2001, 9, 9, 1, 46, 40, 0));
}

#[test]
fn test_serialization() {
    let date = NaiveDate::from_ymd_opt(2015, 3, 14).unwrap();
    assert_eq!(date.resolve(), wire("2015-03-14"));

    let date_time = at(2016, 7, 8, 9, 10, 11, 0);
    assert_eq!(date_time.resolve(), WireValue::Number(1_467_969_011));
    match date_time.resolve() {
        WireValue::Number(n) => assert_eq!(n as f64, 1_467_969_011.0),
        other => panic!("expected a number, got {:?}", other),
    }

    let time = NaiveTime::from_hms_opt(16, 7, 8).unwrap();
    assert_eq!(time.resolve(), wire("16:07:08"));

    let fixed = DateTimeFixedOffset::from_input_value(&wire("1996-12-19T16:39:57-08:00")).unwrap();
    assert_eq!(fixed.resolve(), wire("1996-12-19T16:39:57-08:00"));

    let utc = DateTimeUtc::from_timestamp_opt(61, 0).unwrap();
    assert_eq!(utc.resolve(), wire("1970-01-01T00:01:01+00:00"));
}
