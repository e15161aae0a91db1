use rustdesk_account_server::config::{
    parse_bool, parse_i64, session_lifetime_seconds, unix_seconds, unix_time, ConfigError,
};

#[test]
fn booleans_in_any_case() {
    for word in ["1", "true", "TRUE", "Yes", "on", "oN"] {
        assert_eq!(parse_bool(word), Ok(true), "{word}");
    }
    for word in ["0", "false", "No", "OFF"] {
        assert_eq!(parse_bool(word), Ok(false), "{word}");
    }
    assert_eq!(parse_bool("maybe"), Err(ConfigError::InvalidBoolean));
    assert_eq!(parse_bool(""), Err(ConfigError::InvalidBoolean));
}

#[test]
fn integers_parse_like_std() {
    for text in ["0", "42", "-17", "+5", "9223372036854775807", "-9223372036854775808", "007"] {
        assert_eq!(parse_i64(text), text.parse::<i64>().ok(), "{text}");
    }
    for text in ["", "-", "+", "1.5", " 3", "9223372036854775808", "-9223372036854775809", "+-1"] {
        assert_eq!(parse_i64(text), None, "{text}");
    }
}

#[test]
fn session_lifetime_is_one_to_a_year_of_days() {
    assert_eq!(session_lifetime_seconds("30"), Ok(30 * 24 * 60 * 60));
    assert_eq!(session_lifetime_seconds("1"), Ok(86400));
    assert_eq!(session_lifetime_seconds("365"), Ok(365 * 86400));
    assert_eq!(session_lifetime_seconds("0"), Err(ConfigError::SessionDaysOutOfRange));
    assert_eq!(session_lifetime_seconds("366"), Err(ConfigError::SessionDaysOutOfRange));
    assert_eq!(session_lifetime_seconds("-3"), Err(ConfigError::SessionDaysOutOfRange));
    assert_eq!(session_lifetime_seconds("thirty"), Err(ConfigError::InvalidSessionDays));
}

#[test]
fn clock_is_after_2020() {
    assert!(unix_time() > 1_577_836_800);
}

#[test]
fn clock_readings_convert_to_unix_seconds() {
    assert_eq!(unix_seconds(None), 0);
    assert_eq!(unix_seconds(Some(1_700_000_000)), 1_700_000_000);
    assert_eq!(unix_seconds(Some(u64::MAX)), -1);
}
