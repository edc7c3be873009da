use fortune_rotation::config::{parse_decimal_u64, Config, ConfigError};

#[test]
fn reads_both_settings() {
    let c = Config::parse("fortunes_path = fortunes.csv\ntime_slice_seconds = 5\n").unwrap();
    assert_eq!(c.fortunes_path, "fortunes.csv");
    assert_eq!(c.time_slice_seconds, 5);
}

#[test]
fn settings_in_a_named_section_are_not_read() {
    let text = "[server]\nfortunes_path = f.csv\ntime_slice_seconds = 5\n";
    assert_eq!(Config::parse(text).err(), Some(ConfigError::MissingFortunesPath));
}

#[test]
fn missing_time_slice() {
    assert_eq!(
        Config::parse("fortunes_path = f.csv\n").err(),
        Some(ConfigError::MissingTimeSlice)
    );
}

#[test]
fn time_slice_must_be_a_positive_integer() {
    for v in ["0", "abc", "-5", "2.5", "", "18446744073709551616"] {
        let text = format!("fortunes_path = f.csv\ntime_slice_seconds = {}\n", v);
        assert_eq!(Config::parse(&text).err(), Some(ConfigError::InvalidTimeSlice), "{}", v);
    }
}

#[test]
fn unclosed_section_is_a_syntax_error() {
    assert_eq!(Config::parse("[general\nkey = 1\n").err(), Some(ConfigError::Syntax));
}

#[test]
fn decimal_parsing() {
    assert_eq!(parse_decimal_u64("42"), Some(42));
    assert_eq!(parse_decimal_u64("+7"), Some(7));
    assert_eq!(parse_decimal_u64("007"), Some(7));
    assert_eq!(parse_decimal_u64("18446744073709551615"), Some(u64::MAX));
    assert_eq!(parse_decimal_u64("18446744073709551616"), None);
    assert_eq!(parse_decimal_u64(""), None);
    assert_eq!(parse_decimal_u64("+"), None);
    assert_eq!(parse_decimal_u64("1a"), None);
    assert_eq!(parse_decimal_u64(" 1"), None);
}
