use substreams_sink_winston::decimal::decimal_string;
use substreams_sink_winston::LoggingLevels;

const LEVELS: [LoggingLevels; 8] = [
    LoggingLevels::Emerg,
    LoggingLevels::Alert,
    LoggingLevels::Crit,
    LoggingLevels::Error,
    LoggingLevels::Warning,
    LoggingLevels::Notice,
    LoggingLevels::Info,
    LoggingLevels::Debug,
];

#[test]
fn codes_follow_the_table() {
    assert_eq!(LoggingLevels::Emerg.code(), 0);
    assert_eq!(LoggingLevels::Alert.code(), 1);
    assert_eq!(LoggingLevels::Crit.code(), 2);
    assert_eq!(LoggingLevels::Error.code(), 3);
    assert_eq!(LoggingLevels::Warning.code(), 4);
    assert_eq!(LoggingLevels::Notice.code(), 5);
    assert_eq!(LoggingLevels::Info.code(), 6);
    assert_eq!(LoggingLevels::Debug.code(), 7);
}

#[test]
fn codes_round_trip() {
    for level in LEVELS {
        assert_eq!(LoggingLevels::from_code(level.code()), Some(level));
    }
    for code in 0..8 {
        assert_eq!(LoggingLevels::from_code(code).map(|level| level.code()), Some(code));
    }
}

#[test]
fn codes_outside_the_table_stand_for_nothing() {
    assert_eq!(LoggingLevels::from_code(-1), None);
    assert_eq!(LoggingLevels::from_code(8), None);
    assert_eq!(LoggingLevels::from_code(i32::MAX), None);
    assert_eq!(LoggingLevels::from_code(i32::MIN), None);
}

#[test]
fn levels_are_ordered_by_code() {
    for a in LEVELS {
        for b in LEVELS {
            assert_eq!(a < b, a.code() < b.code());
            assert_eq!(a <= b, a.code() <= b.code());
            assert_eq!(a == b, a.code() == b.code());
            assert_eq!(a.partial_cmp(&b), Some(a.code().cmp(&b.code())));
            assert_eq!(a.cmp(&b), a.code().cmp(&b.code()));
        }
    }
    assert!(LoggingLevels::Emerg < LoggingLevels::Alert);
    assert!(LoggingLevels::Info < LoggingLevels::Debug);
    assert!(LoggingLevels::Error > LoggingLevels::Crit);
}

#[test]
fn numerals_are_decimal() {
    assert_eq!(decimal_string(0), "0");
    assert_eq!(decimal_string(7), "7");
    assert_eq!(decimal_string(9), "9");
    assert_eq!(decimal_string(10), "10");
    assert_eq!(decimal_string(11), "11");
    assert_eq!(decimal_string(100), "100");
    assert_eq!(decimal_string(12345), "12345");
    assert_eq!(decimal_string(9081726354), "9081726354");
    assert_eq!(decimal_string(usize::MAX), usize::MAX.to_string());
}

#[test]
fn numerals_agree_with_display() {
    for n in 0..2000 {
        assert_eq!(decimal_string(n), n.to_string());
    }
}
