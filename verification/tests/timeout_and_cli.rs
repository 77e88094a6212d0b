use brooks_cli::cli::{CliError, DebugLevel};
use brooks_cli::timeout::{
    parse_decimal_i64, parse_timeout_duration, seconds_in_range, timeout_seconds,
    TimeoutParseError,
};

#[test]
fn decimal_parsing_follows_std() {
    for text in [
        "0", "7", "+7", "-7", "300", "-0", "+", "-", "", "12a", "a12", "1 2", " 1", "1_000",
        "9223372036854775807", "9223372036854775808", "-9223372036854775808",
        "-9223372036854775809", "00042", "٣", "99999999999999999999999",
    ] {
        assert_eq!(parse_decimal_i64(text), text.parse::<i64>().ok(), "input {:?}", text);
    }
}

#[test]
fn timeout_in_seconds_is_accepted() {
    assert_eq!(timeout_seconds("300s"), Ok(300));
    assert_eq!(timeout_seconds("-5s"), Ok(-5));
    assert_eq!(parse_timeout_duration("300s"), Ok(chrono::Duration::seconds(300)));
    assert_eq!(parse_timeout_duration("0s"), Ok(chrono::Duration::zero()));
}

#[test]
fn timeout_without_unit_is_refused() {
    assert_eq!(timeout_seconds("300"), Err(TimeoutParseError::MissingUnit));
    assert_eq!(parse_timeout_duration("300"), Err(TimeoutParseError::MissingUnit));
    assert_eq!(parse_timeout_duration(""), Err(TimeoutParseError::MissingUnit));
    assert_eq!(parse_timeout_duration("5m"), Err(TimeoutParseError::MissingUnit));
}

#[test]
fn timeout_in_nanoseconds_is_refused() {
    assert_eq!(timeout_seconds("10ns"), Err(TimeoutParseError::InvalidNumber));
    assert_eq!(parse_timeout_duration("10ns"), Err(TimeoutParseError::InvalidNumber));
}

#[test]
fn timeout_with_bad_number_is_refused() {
    assert_eq!(parse_timeout_duration("s"), Err(TimeoutParseError::InvalidNumber));
    assert_eq!(parse_timeout_duration("1.5s"), Err(TimeoutParseError::InvalidNumber));
    assert_eq!(
        parse_timeout_duration("9223372036854775808s"),
        Err(TimeoutParseError::InvalidNumber)
    );
}

#[test]
fn timeout_at_the_edge_of_chrono_range() {
    let max = i64::MAX / 1000;
    let text = format!("{}s", max);
    assert_eq!(timeout_seconds(&text), Ok(max));
    assert_eq!(parse_timeout_duration(&text), Ok(chrono::Duration::seconds(max)));
    let text = format!("{}s", -max);
    assert_eq!(parse_timeout_duration(&text), Ok(chrono::Duration::seconds(-max)));
}

#[test]
fn debug_flags_select_levels() {
    assert_eq!(DebugLevel::from(0u8), DebugLevel::Error);
    assert_eq!(DebugLevel::from(1u8), DebugLevel::Warn);
    assert_eq!(DebugLevel::from(2u8), DebugLevel::Info);
    assert_eq!(DebugLevel::from(3u8), DebugLevel::Debug);
    assert_eq!(DebugLevel::from(200u8), DebugLevel::Debug);
}

#[test]
fn cli_errors_are_described() {
    assert_eq!(CliError::BadPath("./not-found/".to_string()).describe(), "Bad path: ./not-found/");
    assert_eq!(CliError::AnalysisError("x".to_string()).describe(), "Analysis error: x");
    assert_eq!(CliError::InterpreterError("x".to_string()).describe(), "Interpreter error: x");
    assert_eq!(
        CliError::VerificationError("x".to_string()).describe(),
        "Processing Stages verification error: x"
    );
    assert_eq!(CliError::ParseError("x".to_string()).describe(), "Parsing error: x");
    assert_eq!(CliError::ServerError("x".to_string()).describe(), "Server error: x");
    assert_eq!(CliError::SocketError("x".to_string()).describe(), "UNIX Socket error: x");
}

#[test]
fn chrono_range_of_seconds() {
    assert!(seconds_in_range(0));
    assert!(seconds_in_range(i64::MAX / 1000));
    assert!(seconds_in_range(-(i64::MAX / 1000)));
    assert!(!seconds_in_range(i64::MAX / 1000 + 1));
    assert!(!seconds_in_range(i64::MIN));
    assert!(chrono::Duration::try_seconds(i64::MAX / 1000 + 1).is_none());
    assert!(chrono::Duration::try_seconds(-(i64::MAX / 1000) - 1).is_none());
}
