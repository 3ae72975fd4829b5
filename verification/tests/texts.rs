use remap_functions::conversion::{format_has_zone, Conversion};
use remap_functions::error::Error;
use remap_functions::pattern::Regex;
use remap_functions::text::{
    bytes_precede, contains_bytes, decimal_bytes, digits_of, found_at, same_bytes, same_text,
    str_precedes,
};
use remap_functions::time::Timestamp;
use remap_functions::value::Value;

#[test]
fn decimal_notation() {
    assert_eq!(decimal_bytes(0), b"0".to_vec());
    assert_eq!(decimal_bytes(9), b"9".to_vec());
    assert_eq!(decimal_bytes(10), b"10".to_vec());
    assert_eq!(decimal_bytes(-1), b"-1".to_vec());
    assert_eq!(decimal_bytes(12345), b"12345".to_vec());
    assert_eq!(decimal_bytes(-9070), b"-9070".to_vec());
    assert_eq!(decimal_bytes(i64::MAX), i64::MAX.to_string().into_bytes());
    assert_eq!(decimal_bytes(i64::MIN), i64::MIN.to_string().into_bytes());
    assert_eq!(digits_of(u64::MAX), u64::MAX.to_string().into_bytes());
    assert_eq!(digits_of(100), b"100".to_vec());
}

#[test]
fn decimal_notation_agrees_with_std() {
    let mut n: i64 = -3;
    for step in 0..40 {
        assert_eq!(decimal_bytes(n), n.to_string().into_bytes());
        n = n.wrapping_mul(-7).wrapping_add(step);
    }
}

#[test]
fn byte_strings_in_order() {
    assert!(bytes_precede(b"", b"a"));
    assert!(!bytes_precede(b"", b""));
    assert!(!bytes_precede(b"a", b""));
    assert!(bytes_precede(b"a", b"b"));
    assert!(bytes_precede(b"a", b"ab"));
    assert!(!bytes_precede(b"ab", b"a"));
    assert!(bytes_precede(b"ab", b"b"));
    assert!(!bytes_precede(b"abc", b"abc"));
    assert!(bytes_precede(b"abc", b"abd"));
    assert!(bytes_precede(&[1, 255], &[2, 0]));
    assert!(str_precedes("Z", "a"));
    assert!(str_precedes("a", "é"));
    assert!(!str_precedes("é", "z"));
}

#[test]
fn order_agrees_with_std() {
    let words = ["", "a", "ab", "b", "ba", "é", "z", "Z", "10", "9", "file.log"];
    for a in words {
        for b in words {
            assert_eq!(str_precedes(a, b), a < b);
            assert_eq!(same_text(a, b), a == b);
            assert_eq!(same_bytes(a.as_bytes(), b.as_bytes()), a == b);
        }
    }
}

#[test]
fn searching_bytes() {
    assert!(contains_bytes(b"%Y %z", b"%z"));
    assert!(contains_bytes(b"abc", b""));
    assert!(contains_bytes(b"", b""));
    assert!(!contains_bytes(b"", b"a"));
    assert!(!contains_bytes(b"ab", b"abc"));
    assert!(contains_bytes(b"aab", b"ab"));
    assert!(!contains_bytes(b"%Y %Z", b"%z"));
    assert!(found_at(b"hello", b"llo", 2));
    assert!(!found_at(b"hello", b"llo", 1));
    assert!(found_at(b"hello", b"", 5));
    assert!(!found_at(b"hello", b"", 6));
    assert!(!found_at(b"hello", b"lo", 4));
    assert!(!found_at(b"hello", b"hello!", 0));
}

#[test]
fn formats_that_name_a_zone() {
    assert!(format_has_zone("%d/%m/%Y:%H:%M:%S %z"));
    assert!(format_has_zone("%Z"));
    assert!(format_has_zone("%H%:z"));
    assert!(format_has_zone("%#z"));
    assert!(format_has_zone("%+"));
    assert!(!format_has_zone("%Y-%m-%d %H:%M:%S"));
    assert!(!format_has_zone(""));
    assert!(!format_has_zone("z%"));
    assert!(!format_has_zone("%:Z"));
}

#[test]
fn conversion_rules_by_name() {
    assert_eq!(
        Conversion::parse("timestamp|%Y %z"),
        Ok(Conversion::TimestampTzFmt("%Y %z".to_string()))
    );
    assert_eq!(
        Conversion::parse("timestamp|%Y-%m-%d"),
        Ok(Conversion::TimestampFmt("%Y-%m-%d".to_string()))
    );
    assert_eq!(Conversion::parse("timestamp|"), Ok(Conversion::TimestampFmt("".to_string())));
    assert_eq!(
        Conversion::parse("timestamp|é%+"),
        Ok(Conversion::TimestampTzFmt("é%+".to_string()))
    );
    assert_eq!(Conversion::for_format("%s"), Conversion::TimestampFmt("%s".to_string()));
    for name in ["", "timestamp", "timestam|%Y", "Timestamp|%Y", "time", "timestamp %Y"] {
        let failure = Conversion::parse(name).unwrap_err();
        assert_eq!(failure, Error::UnknownConversion(name.to_string()));
        assert!(failure.is_conversion());
        assert_eq!(failure.message(), format!("unknown conversion name: {}", name));
    }
}

#[test]
fn conversion_rules_applied() {
    let with_zone = Conversion::parse("timestamp|%Y-%m-%d %H:%M:%S %z").unwrap();
    assert_eq!(
        with_zone.convert(b"1970-01-01 01:00:10 +0100"),
        Ok(Value::Timestamp(Timestamp::new(10, 0).unwrap()))
    );
    assert_eq!(
        with_zone.convert(b"1970-01-01 01:00:10"),
        Err(Error::InvalidTimestamp("1970-01-01 01:00:10".to_string()))
    );
    let plain = Conversion::parse("timestamp|%Y-%m-%d %H:%M:%S").unwrap();
    assert_eq!(
        plain.convert(b"1970-01-01 00:01:00"),
        Ok(Value::Timestamp(Timestamp::new(60, 0).unwrap()))
    );
    assert_eq!(
        plain.convert(&[0xff, 0x31]),
        Err(Error::InvalidTimestamp("\u{fffd}1".to_string()))
    );
}

#[test]
fn timestamps_on_the_time_line() {
    let epoch = Timestamp::new(0, 0).unwrap();
    assert_eq!(epoch.seconds(), 0);
    assert_eq!(epoch.subsec_nanos(), 0);
    assert_eq!(epoch.to_text(), "1970-01-01 00:00:00 UTC");
    let later = Timestamp::new(1571227200, 123_000_000).unwrap();
    assert_eq!(later.seconds(), 1571227200);
    assert_eq!(later.subsec_nanos(), 123_000_000);
    assert_eq!(later.to_text(), "2019-10-16 12:00:00.123 UTC");
    assert_eq!(Timestamp::new(-1, 0).unwrap().to_text(), "1969-12-31 23:59:59 UTC");
    assert!(Timestamp::new(i64::MAX, 0).is_none());
    assert!(Timestamp::new(i64::MIN, 0).is_none());
    assert!(Timestamp::new(0, 2_000_000_000).is_none());
    assert!(Timestamp::new(0, 1_000_000_000).is_none());
    assert!(Timestamp::new(59, 1_000_000_000).is_some());
}

#[test]
fn timestamps_read_from_text() {
    assert_eq!(Timestamp::read_zoned("1970-01-01 +0000", "%Y-%m-%d %z"), None);
    assert_eq!(
        Timestamp::read_zoned("1970-01-02 00:00 +0000", "%Y-%m-%d %H:%M %z"),
        Timestamp::new(86400, 0)
    );
    assert_eq!(Timestamp::read_zoned("1970-01-02 00:00", "%Y-%m-%d %H:%M"), None);
    assert_eq!(
        Timestamp::read_utc("1970-01-02 00:00", "%Y-%m-%d %H:%M"),
        Timestamp::new(86400, 0)
    );
    assert_eq!(Timestamp::read_utc("soon", "%Y-%m-%d %H:%M"), None);
    assert_eq!(Timestamp::read_utc("1970-01-02 00:00", "%Q"), None);
}

#[test]
fn regular_expressions() {
    let regex = Regex::new("^a(b|c)+$").unwrap();
    assert_eq!(regex.as_str(), "^a(b|c)+$");
    assert_eq!(regex.duplicate(), regex);
    assert!(Regex::new("").is_some());
    assert!(Regex::new("(").is_none());
    assert!(Regex::new("a{2,1}").is_none());
    assert!(Regex::new("[z-a]").is_none());
}

#[test]
fn failures_and_their_messages() {
    let failures = vec![
        (Error::MissingArgument("format".to_string()), "missing required argument: format", true, false),
        (Error::NotText, "unable to convert value to string", false, true),
        (Error::NotTimestamp, "unable to convert value to integer", false, true),
        (Error::NotBytes, "unable to convert value to bytes", false, true),
        (Error::UnknownConversion("nope".to_string()), "unknown conversion name: nope", false, true),
        (Error::InvalidTimestamp("x y".to_string()), "invalid timestamp: x y", false, true),
        (Error::UndefinedVariable("v".to_string()), "undefined variable: v", false, false),
        (Error::Target("no such place".to_string()), "no such place", false, false),
    ];
    for (failure, message, compile, conversion) in failures {
        assert_eq!(failure.message(), message);
        assert_eq!(failure.at_compile_time(), compile);
        assert_eq!(failure.is_conversion(), conversion);
        assert_eq!(failure.duplicate(), failure);
    }
}
