use wtimer_lib::config::{check_db_path, parse_log_level, port_parser, DbPathError, LogLevel, PortError};

#[test]
fn log_level_invalid() {
    assert_eq!(parse_log_level("foobar"), None);
}

#[test]
fn log_level_trace() {
    assert_eq!(parse_log_level(LogLevel::Trace.as_str()), Some(LogLevel::Trace));
}

#[test]
fn log_level_debug() {
    assert_eq!(parse_log_level(LogLevel::Debug.as_str()), Some(LogLevel::Debug));
}

#[test]
fn log_level_info() {
    assert_eq!(parse_log_level(LogLevel::Info.as_str()), Some(LogLevel::Info));
}

#[test]
fn log_level_warn() {
    assert_eq!(parse_log_level(LogLevel::Warn.as_str()), Some(LogLevel::Warn));
}

#[test]
fn log_level_error() {
    assert_eq!(parse_log_level(LogLevel::Error.as_str()), Some(LogLevel::Error));
}

#[test]
fn log_level_by_number_and_case() {
    assert_eq!(parse_log_level("trace"), Some(LogLevel::Trace));
    assert_eq!(parse_log_level("wArN"), Some(LogLevel::Warn));
    assert_eq!(parse_log_level("1"), Some(LogLevel::Error));
    assert_eq!(parse_log_level("+3"), Some(LogLevel::Info));
    assert_eq!(parse_log_level("5"), Some(LogLevel::Trace));
    assert_eq!(parse_log_level("0"), None);
    assert_eq!(parse_log_level("6"), None);
    assert_eq!(parse_log_level(""), None);
    assert_eq!(parse_log_level(" info"), None);
}

#[test]
fn port_valid() {
    assert_eq!(port_parser("3000"), Ok(3000));
    assert_eq!(port_parser("1"), Ok(1));
    assert_eq!(port_parser("65535"), Ok(65535));
    assert_eq!(port_parser("+1234"), Ok(1234));
}

#[test]
fn port_invalid_less_min() {
    assert_eq!(port_parser("0"), Err(PortError::OutOfRange));
}

#[test]
fn port_invalid_greater_min() {
    assert_eq!(port_parser("65537"), Err(PortError::OutOfRange));
}

#[test]
fn port_not_a_number() {
    assert_eq!(port_parser("abc"), Err(PortError::NotANumber));
    assert_eq!(port_parser(""), Err(PortError::NotANumber));
    assert_eq!(port_parser("-1"), Err(PortError::NotANumber));
    assert_eq!(port_parser("99999999999999999999999"), Err(PortError::NotANumber));
}

#[test]
fn db_path_invalid_parent_not_a_dir() {
    assert_eq!(check_db_path(true, false, false, false), Err(DbPathError::ParentNotDir));
}

#[test]
fn db_path_invalid_is_a_dir() {
    assert_eq!(check_db_path(true, true, true, true), Err(DbPathError::IsDir));
}

#[test]
fn db_path_valid() {
    assert_eq!(check_db_path(true, true, false, false), Ok(()));
    assert_eq!(check_db_path(false, false, false, false), Ok(()));
    assert_eq!(check_db_path(true, true, true, false), Ok(()));
}
