use std::sync::Mutex;

use stateful_logger::render::{continue_lines, location, pad_number, render_line, render_prefix};
use stateful_logger::{Color, CustomStatefulLogger, Level, LevelFilter, LoggerConfig, LINE_CONTINUATION};

/// Drops every `ESC [ ... m` colour sequence, leaving the visible text.
fn strip_colors(s: &str) -> String {
    let mut out = String::new();
    let mut chars = s.chars();
    while let Some(c) = chars.next() {
        if c == '\x1b' {
            for d in chars.by_ref() {
                if d == 'm' {
                    break;
                }
            }
        } else {
            out.push(c);
        }
    }
    out
}

fn config_with_pattern(pattern: &'static str) -> LoggerConfig {
    let mut config = LoggerConfig::default();
    config.timestamp_format = pattern;
    config
}

fn is_clock_time(t: &str) -> bool {
    let b = t.as_bytes();
    b.len() == 8
        && b[2] == b':'
        && b[5] == b':'
        && [0, 1, 3, 4, 6, 7].iter().all(|&i| b[i].is_ascii_digit())
}

#[test]
fn level_tokens_are_three_letters() {
    let logger = CustomStatefulLogger::new(LoggerConfig::default());
    assert_eq!(logger.level_token(&Level::Error), "ERR");
    assert_eq!(logger.level_token(&Level::Warn), "WRN");
    assert_eq!(logger.level_token(&Level::Info), "INF");
    assert_eq!(logger.level_token(&Level::Debug), "DBG");
    assert_eq!(logger.level_token(&Level::Trace), "TRC");
}

#[test]
fn default_config_fields() {
    let c = LoggerConfig::default();
    assert!(c.module.is_none());
    assert_eq!(c.level, LevelFilter::Info);
    assert_eq!(c.num_color, Color::BrightBlack);
    assert_eq!(c.timestamp_color, Color::TrueColor { r: 50, g: 100, b: 150 });
    assert_eq!(c.timestamp_format, "%H:%M:%S");
    assert_eq!(c.file_color, Color::TrueColor { r: 100, g: 100, b: 100 });
    assert_eq!(c.line_color, Color::TrueColor { r: 50, g: 100, b: 150 });
}

#[test]
fn new_logger_starts_at_zero() {
    let logger = CustomStatefulLogger::new(LoggerConfig::default());
    assert_eq!(logger.sequence(), 0);
    assert_eq!(logger.config().level, LevelFilter::Info);
}

#[test]
fn numbers_are_padded_to_four_columns() {
    assert_eq!(pad_number(0), "   0");
    assert_eq!(pad_number(7), "   7");
    assert_eq!(pad_number(10), "  10");
    assert_eq!(pad_number(9999), "9999");
    assert_eq!(pad_number(12345), "12345");
    assert_eq!(pad_number(u64::MAX), "18446744073709551615");
}

#[test]
fn location_without_file_drops_line() {
    let (file, line) = location(None, Some(42));
    assert_eq!(file, "");
    assert_eq!(line, "");
    let (file, line) = location(None, None);
    assert_eq!(file, "");
    assert_eq!(line, "");
}

#[test]
fn location_with_file_and_no_line() {
    let (file, line) = location(Some("src/main.rs"), None);
    assert_eq!(file, "src/main.rs");
    assert_eq!(line, "");
}

#[test]
fn location_with_file_and_line() {
    let (file, line) = location(Some("app.src"), Some(42));
    assert_eq!(file, "app.src");
    assert_eq!(line, ":42");
}

#[test]
fn newlines_become_continuation() {
    assert_eq!(LINE_CONTINUATION, "\n     ");
    assert_eq!(continue_lines("a\nb", LINE_CONTINUATION), "a\n     b");
    assert_eq!(continue_lines("a\n\nb\n", " | "), "a |  | b | ");
    assert_eq!(continue_lines("", LINE_CONTINUATION), "");
    assert_eq!(continue_lines("plain", LINE_CONTINUATION), "plain");
    assert_eq!(continue_lines("é\nü", "/"), "é/ü");
}

#[test]
fn prefix_and_line_layout() {
    assert_eq!(render_prefix("   3", "10:11:12", "WRN"), "   3 10:11:12 WRN");
    assert_eq!(render_line("P", "body", "f.rs", ":9"), "P body\n     f.rs:9\n");
}

#[test]
fn sequential_records_are_numbered_from_one() {
    let mut logger = CustomStatefulLogger::new(LoggerConfig::default());
    for k in 1..=10u64 {
        let out = logger.format(&Level::Info, "m", Some("a.rs"), Some(1), LINE_CONTINUATION);
        let plain = strip_colors(&out);
        assert!(plain.starts_with(&format!("{:4} ", k)), "{plain:?}");
        assert_eq!(logger.sequence(), k);
    }
}

#[test]
fn serialized_callers_get_each_number_once() {
    let shared = Mutex::new(CustomStatefulLogger::new(LoggerConfig::default()));
    let mut seen = Vec::new();
    for round in 0..6 {
        for caller in ["first", "second", "third"] {
            let mut logger = shared.lock().unwrap();
            let out = logger.format(&Level::Warn, caller, None, None, LINE_CONTINUATION);
            let plain = strip_colors(&out);
            let number: u64 = plain[..4].trim().parse().unwrap();
            seen.push(number);
            assert!(round < 6);
        }
    }
    seen.sort();
    let expected: Vec<u64> = (1..=18).collect();
    assert_eq!(seen, expected);
}

#[test]
fn record_without_file_has_empty_location() {
    let mut logger = CustomStatefulLogger::new(config_with_pattern("T"));
    let out = strip_colors(&logger.format(&Level::Error, "boom", None, Some(42), LINE_CONTINUATION));
    assert_eq!(out, "   1 T ERR boom\n     \n");
}

#[test]
fn record_with_file_and_no_line() {
    let mut logger = CustomStatefulLogger::new(config_with_pattern("T"));
    let out = strip_colors(&logger.format(&Level::Debug, "x", Some("lib.rs"), None, LINE_CONTINUATION));
    assert_eq!(out, "   1 T DBG x\n     lib.rs\n");
}

#[test]
fn multiline_message_is_indented() {
    let mut logger = CustomStatefulLogger::new(config_with_pattern("now"));
    let out = strip_colors(&logger.format(&Level::Trace, "a\nb", Some("f"), Some(3), LINE_CONTINUATION));
    assert_eq!(out, "   1 now TRC a\n     b\n     f:3\n");
}

#[test]
fn hello_at_info_end_to_end() {
    let mut logger = CustomStatefulLogger::new(LoggerConfig::default());
    let out = logger.emit(&Level::Info, "hello", Some("app.src"), Some(42), LINE_CONTINUATION);
    let plain = strip_colors(&out.unwrap());
    let lines: Vec<&str> = plain.split('\n').collect();
    assert_eq!(lines.len(), 3);
    assert!(lines[0].starts_with("   1 "));
    assert!(is_clock_time(&lines[0][5..13]), "{plain:?}");
    assert_eq!(&lines[0][13..], " INF hello");
    assert_eq!(lines[1], "     app.src:42");
    assert_eq!(lines[2], "");
    assert_eq!(logger.sequence(), 1);
}

#[test]
fn below_threshold_is_not_rendered() {
    let mut logger = CustomStatefulLogger::new(LoggerConfig::default());
    assert!(logger.emit(&Level::Debug, "quiet", None, None, LINE_CONTINUATION).is_none());
    assert!(logger.emit(&Level::Trace, "quiet", None, None, LINE_CONTINUATION).is_none());
    assert_eq!(logger.sequence(), 0);
    assert!(logger.emit(&Level::Warn, "loud", None, None, LINE_CONTINUATION).is_some());
    assert_eq!(logger.sequence(), 1);
}

#[test]
fn threshold_off_renders_nothing() {
    let mut config = LoggerConfig::default();
    config.level = LevelFilter::Off;
    let mut logger = CustomStatefulLogger::new(config);
    assert!(logger.emit(&Level::Error, "e", None, None, LINE_CONTINUATION).is_none());
    assert_eq!(logger.sequence(), 0);
}

#[test]
fn threshold_trace_renders_everything() {
    let mut config = LoggerConfig::default();
    config.level = LevelFilter::Trace;
    let mut logger = CustomStatefulLogger::new(config);
    assert!(logger.emit(&Level::Trace, "t", None, None, LINE_CONTINUATION).is_some());
    assert_eq!(logger.sequence(), 1);
}

#[test]
fn clock_pattern_is_rendered() {
    let logger = CustomStatefulLogger::new(config_with_pattern("%H"));
    let out = strip_colors(&logger.prefix_token(&Level::Info));
    let b = out.as_bytes();
    assert_eq!(&out[..5], "   0 ");
    assert!(b[5].is_ascii_digit() && b[6].is_ascii_digit());
    assert_eq!(&out[7..], " INF");
}

#[test]
fn rejected_clock_pattern_is_shown_as_written() {
    let logger = CustomStatefulLogger::new(config_with_pattern("%Q"));
    let out = strip_colors(&logger.prefix_token(&Level::Warn));
    assert_eq!(out, "   0 %Q WRN");
}
