use rustmeter::defmt_log_level::DefmtLogLevel;
use rustmeter::log_line::LogLevel;
use rustmeter::log_line::LogLine;
use rustmeter::log_line::LogParseError;

#[test]
fn test_log_line_parsing() {
    let log_str = "0.438284 [DEBUG ] pop - New prio level: 0 (esp_rtos esp-rtos-0.2.0/src/run_queue.rs:292)";
    let log_line = LogLine::from_str(log_str).expect("Failed to parse log line");

    assert_eq!(log_line.timestamp.as_micros(), 438284);
    assert_eq!(log_line.level, LogLevel::Debug);
    assert_eq!(
        log_line.message,
        "pop - New prio level: 0 (esp_rtos esp-rtos-0.2.0/src/run_queue.rs:292)"
    );
}

#[test]
fn test_log_line_whole_seconds() {
    let log_line = LogLine::from_str("12 [info] boot").unwrap();
    assert_eq!(log_line.timestamp.as_micros(), 12_000_000);
    assert_eq!(log_line.level, LogLevel::Info);
    assert_eq!(log_line.message, "boot");
}

#[test]
fn test_log_line_missing_brackets() {
    assert_eq!(
        LogLine::from_str("0.5 DEBUG no brackets"),
        Err(LogParseError::MissingOpenBracket)
    );
    assert_eq!(
        LogLine::from_str("0.5 [DEBUG no close"),
        Err(LogParseError::MissingCloseBracket)
    );
    assert_eq!(LogLine::from_str("0.5 []"), Err(LogParseError::MalformedBrackets));
}

#[test]
fn test_log_line_bad_timestamp() {
    assert_eq!(
        LogLine::from_str("x.5 [DEBUG] msg"),
        Err(LogParseError::BadTimestamp)
    );
}

#[test]
fn test_log_line_unknown_level() {
    assert_eq!(
        LogLine::from_str("0.5 [LOUD ] msg"),
        Err(LogParseError::UnknownLevel)
    );
}

#[test]
fn test_log_levels_parse_case_insensitively() {
    assert_eq!(LogLevel::from_str("TRACE"), Ok(LogLevel::Trace));
    assert_eq!(LogLevel::from_str(" warn "), Ok(LogLevel::Warn));
    assert_eq!(LogLevel::from_str("Error"), Ok(LogLevel::Error));
    assert_eq!(LogLevel::from_str("loud"), Err(LogParseError::UnknownLevel));
}

#[test]
fn test_defmt_log_level_round_trip() {
    assert_eq!(DefmtLogLevel::try_from_str("debug"), Ok(DefmtLogLevel::Debug));
    assert_eq!(DefmtLogLevel::try_from_str(" INFO "), Ok(DefmtLogLevel::Info));
    assert_eq!(DefmtLogLevel::Info.to_string(), "INFO");
    assert_eq!(DefmtLogLevel::Error.to_string(), "ERROR");
    assert_eq!(
        DefmtLogLevel::try_from_str("fatal"),
        Err(LogParseError::UnknownLevel)
    );
}
