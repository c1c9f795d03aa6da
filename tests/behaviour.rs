use temporal_scalars::calendar::{
    DateTimeFixedOffset, DateTimeUtc, NaiveDate, NaiveDateTime, NaiveTime, MAX_TIMESTAMP,
    MIN_TIMESTAMP,
};
use temporal_scalars::scalar::{
    classify, DomainValue, ParseError, ScalarKind, ScalarToken, TokenClass, WireValue,
};

fn wire(s: &str) -> WireValue {
    WireValue::String(s.to_string())
}

fn string_token(s: &str) -> ScalarToken {
    ScalarToken::String(s.to_string())
}

#[test]
fn offset_round_trip_keeps_text() {
    for raw in [
        "2014-11-28T21:00:09+09:00",
        "2014-11-28T21:00:09.050+09:00",
        "2014-11-28T21:00:09.000005-05:30",
        "2014-11-28T21:00:09.123456789+00:00",
        "0000-01-01T00:00:00+23:59",
        "9999-12-31T23:59:59-23:59",
    ] {
        let v = DateTimeFixedOffset::from_input_value(&wire(raw)).unwrap();
        assert_eq!(v.resolve(), wire(raw));
    }
}

#[test]
fn offset_round_trip_normalizes_z() {
    let v = DateTimeFixedOffset::from_input_value(&wire("2014-11-28T21:00:09Z")).unwrap();
    let text = v.resolve();
    assert_eq!(text, wire("2014-11-28T21:00:09+00:00"));
    assert_eq!(DateTimeFixedOffset::from_input_value(&text), Some(v));
}

#[test]
fn fraction_digits_beyond_nine_are_ignored() {
    let v = DateTimeFixedOffset::from_input_value(&wire("2014-11-28T21:00:09.1234567891z"))
        .unwrap();
    assert_eq!(v.local.time.nano, 123_456_789);
    assert_eq!(v.offset, 0);
}

#[test]
fn fraction_written_with_fewest_groups() {
    let v = DateTimeFixedOffset::from_input_value(&wire("2014-11-28T21:00:09.5+01:00")).unwrap();
    assert_eq!(v.local.time.nano, 500_000_000);
    assert_eq!(v.resolve(), wire("2014-11-28T21:00:09.500+01:00"));
}

#[test]
fn rfc3339_rejections() {
    for raw in [
        "",
        "2014-11-28T21:00:09",
        "2014-11-28 21:00:09+09:00",
        "2014-11-28T21:00:09.+09:00",
        "2014-11-28T24:00:09+09:00",
        "2014-11-28T21:60:09+09:00",
        "2014-11-28T21:00:60+09:00",
        "2014-11-31T21:00:09+09:00",
        "2014-11-28T21:00:09+24:00",
        "2014-11-28T21:00:09+09:60",
        "2014-11-28T21:00:09+0900",
        "14-11-28T21:00:09+09:00",
    ] {
        assert_eq!(DateTimeFixedOffset::from_input_value(&wire(raw)), None, "{}", raw);
        assert_eq!(DateTimeUtc::from_input_value(&wire(raw)), None, "{}", raw);
    }
    assert_eq!(DateTimeFixedOffset::from_input_value(&WireValue::Number(0)), None);
    assert_eq!(DateTimeUtc::from_input_value(&WireValue::Number(0)), None);
}

#[test]
fn lower_case_separators_accepted() {
    let v = DateTimeFixedOffset::from_input_value(&wire("2014-11-28t21:00:09z")).unwrap();
    assert_eq!(v.resolve(), wire("2014-11-28T21:00:09+00:00"));
}

#[test]
fn utc_always_written_at_offset_zero() {
    for (raw, expected) in [
        ("2014-11-28T21:00:09+09:00", "2014-11-28T12:00:09+00:00"),
        ("2014-11-28T21:00:09-09:30", "2014-11-29T06:30:09+00:00"),
        ("2014-11-28T21:00:09.25Z", "2014-11-28T21:00:09.250+00:00"),
        ("0000-01-01T00:30:00+01:00", "-0001-12-31T23:30:00+00:00"),
    ] {
        let u = DateTimeUtc::from_input_value(&wire(raw)).unwrap();
        assert_eq!(u.resolve(), wire(expected));
    }
}

#[test]
fn utc_to_fixed_offset_is_offset_zero() {
    let u = DateTimeUtc::from_timestamp_opt(61, 0).unwrap();
    let f = u.to_fixed_offset();
    assert_eq!(f.offset, 0);
    assert_eq!(f.to_utc(), u);
}

#[test]
fn naive_datetime_whole_seconds_round_trip() {
    for t in [0i64, 1, -1, 61, 1_000_000_000, 1_467_969_011, MIN_TIMESTAMP, MAX_TIMESTAMP] {
        let dt = NaiveDateTime::from_input_value(&WireValue::Number(t)).unwrap();
        assert_eq!(dt.resolve(), WireValue::Number(t));
    }
}

#[test]
fn naive_datetime_fraction_truncated() {
    let f = 1_000_000_000.75_f64;
    let dt = NaiveDateTime::from_input_value(&WireValue::Number(f as i64)).unwrap();
    match dt.resolve() {
        WireValue::Number(n) => assert_eq!(n as f64, 1_000_000_000.0),
        other => panic!("expected a number, got {:?}", other),
    }
}

#[test]
fn naive_datetime_before_epoch() {
    let dt = NaiveDateTime::from_input_value(&WireValue::Number(-1)).unwrap();
    assert_eq!(dt.date, NaiveDate::from_ymd_opt(1969, 12, 31).unwrap());
    assert_eq!(dt.time, NaiveTime::from_hms_opt(23, 59, 59).unwrap());
}

#[test]
fn naive_datetime_out_of_range() {
    assert_eq!(NaiveDateTime::from_input_value(&WireValue::Number(MAX_TIMESTAMP + 1)), None);
    assert_eq!(NaiveDateTime::from_input_value(&WireValue::Number(MIN_TIMESTAMP - 1)), None);
    assert_eq!(NaiveDateTime::from_input_value(&WireValue::Number(i64::MAX)), None);
    assert_eq!(NaiveDateTime::from_input_value(&wire("1000000000")), None);
}

#[test]
fn timestamp_range_ends() {
    let first = NaiveDateTime::from_timestamp_opt(MIN_TIMESTAMP, 0).unwrap();
    assert_eq!(first.date, NaiveDate::from_ymd_opt(-262144, 1, 1).unwrap());
    assert_eq!(first.time, NaiveTime::from_hms_opt(0, 0, 0).unwrap());
    let last = NaiveDateTime::from_timestamp_opt(MAX_TIMESTAMP, 0).unwrap();
    assert_eq!(last.date, NaiveDate::from_ymd_opt(262143, 12, 31).unwrap());
    assert_eq!(last.time, NaiveTime::from_hms_opt(23, 59, 59).unwrap());
}

#[test]
fn date_strict_grammar() {
    assert_eq!(NaiveDate::from_input_value(&wire("96-1-1")), None);
    assert_eq!(
        NaiveDate::from_input_value(&wire("1996-01-01")),
        NaiveDate::from_ymd_opt(1996, 1, 1)
    );
    for raw in ["", "1996/01/01", "1996-1-01", "1996-01-1", "01-01-1996", "19960-01-01", "1996-13-01", "1996-00-10", "1996-01-00"] {
        assert_eq!(NaiveDate::from_input_value(&wire(raw)), None, "{}", raw);
    }
    assert_eq!(NaiveDate::from_input_value(&WireValue::Number(19960101)), None);
}

#[test]
fn date_leap_days() {
    assert!(NaiveDate::from_input_value(&wire("2016-02-29")).is_some());
    assert!(NaiveDate::from_input_value(&wire("2000-02-29")).is_some());
    assert_eq!(NaiveDate::from_input_value(&wire("2015-02-29")), None);
    assert_eq!(NaiveDate::from_input_value(&wire("1900-02-29")), None);
}

#[test]
fn date_written_with_four_digit_year() {
    assert_eq!(NaiveDate::from_ymd_opt(7, 3, 4).unwrap().resolve(), wire("0007-03-04"));
    assert_eq!(NaiveDate::from_ymd_opt(-7, 3, 4).unwrap().resolve(), wire("-0007-03-04"));
    assert_eq!(NaiveDate::from_ymd_opt(12345, 3, 4).unwrap().resolve(), wire("+12345-03-04"));
}

#[test]
fn time_hour_unpadded() {
    let t = NaiveTime::from_hms_opt(9, 5, 3).unwrap();
    assert_eq!(t.resolve(), wire("9:05:03"));
    assert_eq!(NaiveTime::from_input_value(&wire("9:05:03")), Some(t));
    assert_eq!(NaiveTime::from_input_value(&wire("09:05:03")), Some(t));
}

#[test]
fn time_strict_grammar() {
    for raw in ["", "9:5:3", "009:05:03", "21:12", "21-12-19", "24:00:00", "21:60:00", "21:00:60", "21:12:19.5"] {
        assert_eq!(NaiveTime::from_input_value(&wire(raw)), None, "{}", raw);
    }
}

#[test]
fn kind_rejection() {
    for kind in [
        ScalarKind::DateTimeFixedOffset,
        ScalarKind::DateTimeUtc,
        ScalarKind::NaiveDate,
        ScalarKind::NaiveTime,
    ] {
        let token = ScalarToken::Number(1_000_000_000);
        assert_eq!(kind.from_literal(token.clone()), Err(ParseError::UnexpectedToken(token)));
    }
    let token = string_token("1000000000");
    assert_eq!(
        ScalarKind::NaiveDateTime.from_literal(token.clone()),
        Err(ParseError::UnexpectedToken(token))
    );
    let other = ScalarToken::Other("true".to_string());
    assert_eq!(
        ScalarKind::NaiveDate.from_literal(other.clone()),
        Err(ParseError::UnexpectedToken(other))
    );
}

#[test]
fn numeric_literal_against_offset_scalar() {
    let token = ScalarToken::Number(5);
    assert_eq!(
        DateTimeFixedOffset::from_str(token.clone()),
        Err(ParseError::UnexpectedToken(token))
    );
}

#[test]
fn literal_boxed_unchanged() {
    assert_eq!(NaiveDate::from_str(string_token("not a date")), Ok(wire("not a date")));
    assert_eq!(NaiveDateTime::from_str(ScalarToken::Number(-3)), Ok(WireValue::Number(-3)));
}

#[test]
fn literal_with_bad_content() {
    let token = string_token("1996-02-30");
    assert_eq!(
        ScalarKind::NaiveDate.from_literal(token.clone()),
        Err(ParseError::InvalidValue(token))
    );
    let token = ScalarToken::Number(i64::MIN);
    assert_eq!(
        ScalarKind::NaiveDateTime.from_literal(token.clone()),
        Err(ParseError::InvalidValue(token))
    );
}

#[test]
fn literal_and_variable_binding() {
    let d = ScalarKind::NaiveDate.from_literal(string_token("1996-12-19")).unwrap();
    assert_eq!(d, DomainValue::NaiveDate(NaiveDate::from_ymd_opt(1996, 12, 19).unwrap()));
    assert_eq!(ScalarKind::NaiveDate.from_variable(&wire("1996-12-19")), Some(d));
    assert_eq!(d.kind(), ScalarKind::NaiveDate);
    assert_eq!(d.resolve(), wire("1996-12-19"));
    let t = ScalarKind::NaiveDateTime.from_literal(ScalarToken::Number(61)).unwrap();
    assert_eq!(t.resolve(), WireValue::Number(61));
    let u = ScalarKind::DateTimeUtc.from_literal(string_token("1970-01-01T09:01:01+09:00")).unwrap();
    assert_eq!(u.resolve(), wire("1970-01-01T00:01:01+00:00"));
    let f = ScalarKind::DateTimeFixedOffset.from_variable(&wire("1970-01-01T09:01:01+09:00")).unwrap();
    assert_eq!(f.resolve(), wire("1970-01-01T09:01:01+09:00"));
    let n = ScalarKind::NaiveTime.decode(&wire("7:00:00")).unwrap();
    assert_eq!(n.resolve(), wire("7:00:00"));
}

#[test]
fn parse_literal_by_kind() {
    assert_eq!(
        ScalarKind::DateTimeUtc.parse_literal(string_token("x")),
        Ok(wire("x"))
    );
    assert_eq!(
        ScalarKind::NaiveDateTime.parse_literal(ScalarToken::Number(7)),
        Ok(WireValue::Number(7))
    );
}

#[test]
fn scalar_names_and_descriptions() {
    assert_eq!(ScalarKind::DateTimeFixedOffset.name(), "DateTimeFixedOffset");
    assert_eq!(ScalarKind::DateTimeFixedOffset.description(), "DateTime");
    assert_eq!(ScalarKind::DateTimeUtc.name(), "DateTimeUtc");
    assert_eq!(ScalarKind::DateTimeUtc.description(), "DateTime");
    assert_eq!(ScalarKind::NaiveDate.name(), "NaiveDate");
    assert_eq!(ScalarKind::NaiveTime.name(), "NaiveTime");
    assert_eq!(ScalarKind::NaiveDateTime.name(), "NaiveDateTime");
    assert_eq!(ScalarKind::NaiveDateTime.description(), "NaiveDateTime");
}

#[test]
fn token_classes() {
    assert_eq!(classify(&string_token("a")), TokenClass::String);
    assert_eq!(classify(&ScalarToken::Number(1)), TokenClass::Number);
    assert_eq!(classify(&ScalarToken::Other("null".to_string())), TokenClass::Other);
}

#[test]
fn constructors_reject_out_of_range() {
    assert_eq!(NaiveDate::from_ymd_opt(2015, 2, 29), None);
    assert_eq!(NaiveDate::from_ymd_opt(2015, 13, 1), None);
    assert_eq!(NaiveDate::from_ymd_opt(262144, 1, 1), None);
    assert_eq!(NaiveTime::from_hms_opt(24, 0, 0), None);
    assert_eq!(NaiveTime::from_hms_nano_opt(0, 0, 0, 1_000_000_000), None);
    let local = NaiveDateTime::from_timestamp_opt(0, 0).unwrap();
    assert_eq!(DateTimeFixedOffset::new(local, 1440), None);
    assert!(DateTimeFixedOffset::new(local, 1439).is_some());
    assert_eq!(NaiveDateTime::from_timestamp_opt(0, 1_000_000_000), None);
}

#[test]
fn days_since_epoch_values() {
    assert_eq!(NaiveDate::from_ymd_opt(1970, 1, 1).unwrap().days_since_epoch(), 0);
    assert_eq!(NaiveDate::from_ymd_opt(2000, 3, 1).unwrap().days_since_epoch(), 11017);
    assert_eq!(NaiveDate::from_days_since_epoch(11017), NaiveDate::from_ymd_opt(2000, 3, 1).unwrap());
    assert_eq!(NaiveDate::from_days_since_epoch(-719528), NaiveDate::from_ymd_opt(0, 1, 1).unwrap());
}

#[test]
fn validity_checks() {
    assert!(!NaiveDate { year: 2015, month: 2, day: 29 }.is_valid());
    assert!(NaiveDate { year: 2016, month: 2, day: 29 }.is_valid());
    assert!(!NaiveTime { hour: 23, minute: 59, second: 60, nano: 0 }.is_valid());
    let local = NaiveDateTime::from_timestamp_opt(0, 0).unwrap();
    assert!(!DateTimeFixedOffset { local, offset: -1440 }.is_valid());
    assert!(DomainValue::NaiveDateTime(local).is_valid());
    let bad = NaiveDateTime { date: NaiveDate { year: 1, month: 0, day: 1 }, time: local.time };
    assert!(!DomainValue::NaiveDateTime(bad).is_valid());
    assert!(!DomainValue::DateTimeUtc(DateTimeUtc { utc: bad }).is_valid());
}

#[test]
fn scalar_lookup_by_name() {
    for kind in [
        ScalarKind::DateTimeFixedOffset,
        ScalarKind::DateTimeUtc,
        ScalarKind::NaiveDate,
        ScalarKind::NaiveTime,
        ScalarKind::NaiveDateTime,
    ] {
        assert_eq!(ScalarKind::from_name(kind.name()), Some(kind));
    }
    assert_eq!(ScalarKind::from_name("DateTime"), None);
    assert_eq!(ScalarKind::from_name(""), None);
    assert_eq!(ScalarKind::from_name("naivedate"), None);
}
