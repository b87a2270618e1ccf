use discord_ical::snowflake::Snowflake;
use discord_ical::time::UtcTime;

#[test]
fn decode_known_identifier() {
    let s = Snowflake::decode("175928847299117063").unwrap();
    assert_eq!(s.0, 175928847299117063);
    assert_eq!(s.worker_id(), 1);
    assert_eq!(s.process_id(), 0);
    assert_eq!(s.counter(), 7);
    assert_eq!(s.timestamp_millis(), 1462015105796);
}

#[test]
fn decimal_round_trip() {
    let values: Vec<u64> = vec![0, 1, 9, 10, 4096, 175928847299117063, u64::MAX];
    for n in values {
        let s = Snowflake(n);
        let text = s.to_decimal_string();
        let back = Snowflake::decode(text.as_str()).unwrap();
        assert_eq!(back.0, n);
        assert_eq!(back.counter(), (n & 0xFFF) as u16);
        assert_eq!(back.process_id(), ((n & 0x1F000) >> 12) as u8);
        assert_eq!(back.worker_id(), ((n & 0x3E0000) >> 17) as u8);
        assert_eq!(back.timestamp_millis(), (n >> 22) + 1420070400000);
    }
}

#[test]
fn decode_rejects_bad_literals() {
    assert!(Snowflake::decode("").is_err());
    assert!(Snowflake::decode("+").is_err());
    assert!(Snowflake::decode("abc").is_err());
    assert!(Snowflake::decode("12a3").is_err());
    assert!(Snowflake::decode("-5").is_err());
    assert!(Snowflake::decode(" 5").is_err());
    assert!(Snowflake::decode("18446744073709551616").is_err());
}

#[test]
fn decode_accepts_plus_and_max() {
    assert_eq!(Snowflake::decode("+123").unwrap().0, 123);
    assert_eq!(Snowflake::decode("18446744073709551615").unwrap().0, u64::MAX);
    assert_eq!(Snowflake::decode("000042").unwrap().0, 42);
}

#[test]
fn timestamp_is_civil_utc() {
    // (n >> 22) + 1420070400000 == 1672531200000, the first instant of 2023.
    let n: u64 = 252460800000u64 << 22;
    let t = Snowflake(n).timestamp();
    let expected = UtcTime { year: 2023, month: 1, day: 1, hour: 0, minute: 0, second: 0 };
    assert_eq!(t, expected);
}

#[test]
fn timestamp_of_epoch_identifier() {
    // Identifier 0 sits exactly at the custom epoch, 2015-01-01T00:00:00Z.
    let t = Snowflake(0).timestamp();
    let expected = UtcTime { year: 2015, month: 1, day: 1, hour: 0, minute: 0, second: 0 };
    assert_eq!(t, expected);
}
