use std::time::Duration;
use verdant::colour::{color_for_level, color_level, color_time, CYAN, DIM, GREEN, RED, RESET, YELLOW};
use verdant::log::{
    banner_text, console_layout, format_console_line, format_file_line, padded_level, strip_ansi_codes,
    ConsoleLoggerImpl, FileLogger, FileLoggerImpl, Layout, LogWrite,
};
use verdant::status::LogLevel;
use verdant::time::{format_clock, format_duration, ProcessTimer, SystemTimer};

#[test]
fn levels_are_strictly_ordered() {
    let levels = [LogLevel::Info, LogLevel::Warn, LogLevel::Fail, LogLevel::Okay];
    for (i, a) in levels.iter().enumerate() {
        for (j, b) in levels.iter().enumerate() {
            assert_eq!(a.at_least(*b), i >= j);
            assert_eq!(a.rank_of() < b.rank_of(), i < j);
            assert_eq!(a < b, i < j);
        }
    }
}

#[test]
fn level_tags() {
    assert_eq!(LogLevel::Okay.as_str(), "OK");
    assert_eq!(LogLevel::Fail.as_str(), "FAIL");
    assert_eq!(LogLevel::Info.as_str(), "INFO");
    assert_eq!(LogLevel::Warn.as_str(), "WARN");
    assert_eq!(padded_level(LogLevel::Okay), "[  OK  ]");
    assert_eq!(padded_level(LogLevel::Fail), "[ FAIL ]");
    assert_eq!(padded_level(LogLevel::Info), "[ INFO ]");
    assert_eq!(padded_level(LogLevel::Warn), "[ WARN ]");
}

#[test]
fn colours_wrap_the_text() {
    assert_eq!(color_for_level(LogLevel::Okay), GREEN);
    assert_eq!(color_for_level(LogLevel::Fail), RED);
    assert_eq!(color_for_level(LogLevel::Warn), YELLOW);
    assert_eq!(color_for_level(LogLevel::Info), CYAN);
    assert_eq!(color_time("[ 00:00:000 ]"), format!("{}[ 00:00:000 ]{}", DIM, RESET));
    assert_eq!(color_level(LogLevel::Fail, "[ FAIL ]"), "\x1b[31m[ FAIL ]\x1b[0m");
}

#[test]
fn clock_text_pads_its_fields() {
    assert_eq!(format_clock(0, 0), "[ 00:00:000 ]");
    assert_eq!(format_clock(83, 123), "[ 01:23:123 ]");
    assert_eq!(format_clock(59, 7), "[ 00:59:007 ]");
    assert_eq!(format_clock(6000, 50), "[ 100:00:050 ]");
    assert_eq!(format_duration(Duration::from_millis(83_123)), "[ 01:23:123 ]");
    assert_eq!(format_duration(Duration::ZERO), "[ 00:00:000 ]");
    assert_eq!(format_duration(Duration::new(3599, 999_999_999)), "[ 59:59:999 ]");
}

#[test]
fn timers_measure_time() {
    let system = SystemTimer::new();
    let process = ProcessTimer::start();
    let first = process.elapsed();
    let second = process.elapsed();
    assert!(second >= first);
    assert!(system.elapsed() < Duration::from_secs(60));
    let text = system.format_elapsed();
    assert!(text.starts_with("[ 00:00:"));
    assert!(text.ends_with(" ]"));
    assert_eq!(text.len(), 13);
}

#[test]
fn ansi_codes_are_stripped() {
    assert_eq!(strip_ansi_codes("\x1b[31mred\x1b[0m plain \x1b[1;32mbold\x1b[0m"), "red plain bold");
    assert_eq!(strip_ansi_codes("no codes"), "no codes");
    assert_eq!(strip_ansi_codes(""), "");
    assert_eq!(strip_ansi_codes("\x1b[2m[ 00:00:000 ]\x1b[0m"), "[ 00:00:000 ]");
}

#[test]
fn console_line_puts_the_tag_at_the_right_edge() {
    let line = format_console_line(LogLevel::Okay, "Mounted proc", "[ 00:01:500 ]", 40, true);
    let visible = strip_ansi_codes(&line);
    assert_eq!(visible.chars().count(), 40);
    assert_eq!(visible, "[ 00:01:500 ] Mounted proc      [  OK  ]");
    assert!(line.starts_with("\x1b[2m[ 00:01:500 ]\x1b[0m Mounted proc "));
    assert!(line.ends_with("\x1b[32m[  OK  ]\x1b[0m"));
}

#[test]
fn console_line_keeps_one_space_when_the_terminal_is_narrow() {
    let line = format_console_line(LogLevel::Warn, "a long message", "[ 00:00:000 ]", 10, true);
    assert_eq!(strip_ansi_codes(&line), "[ 00:00:000 ] a long message [ WARN ]");
    let exact = format_console_line(LogLevel::Warn, "m", "[ 00:00:000 ]", 23, true);
    assert_eq!(strip_ansi_codes(&exact), "[ 00:00:000 ] m [ WARN ]");
    let one_more = format_console_line(LogLevel::Warn, "m", "[ 00:00:000 ]", 25, true);
    assert_eq!(strip_ansi_codes(&one_more), "[ 00:00:000 ] m  [ WARN ]");
}

#[test]
fn console_sink_filters_by_level() {
    let sink = ConsoleLoggerImpl::new(LogLevel::Fail);
    assert!(sink.render(LogLevel::Info, "quiet", Duration::ZERO).is_none());
    assert!(sink.render(LogLevel::Warn, "quiet", Duration::ZERO).is_none());
    let line = sink.render(LogLevel::Fail, "loud", Duration::from_millis(1500)).unwrap();
    let visible = strip_ansi_codes(&line);
    assert!(visible.starts_with("[ 00:01:500 ] loud "));
    assert!(visible.ends_with("[ FAIL ]"));
    assert!(sink.render(LogLevel::Okay, "fine", Duration::ZERO).is_some());
    let laid_out = sink.format_console(LogLevel::Info, "x", Duration::ZERO);
    assert!(strip_ansi_codes(&laid_out).ends_with("[ INFO ]"));
}

#[test]
fn banner_is_bold_green() {
    assert_eq!(banner_text("Hello", true), "\x1b[1m\x1b[32mHello\x1b[0m\n");
    assert_eq!(banner_text("Hello", false), "Hello\n");
    let shown = ConsoleLoggerImpl::new(LogLevel::Info).banner("Hello");
    assert!(shown == "Hello\n" || shown == "\x1b[1m\x1b[32mHello\x1b[0m\n");
}

#[test]
fn file_line_has_tag_stamp_message() {
    assert_eq!(
        format_file_line(LogLevel::Okay, "done", "[01-02-2026 03:04:05]"),
        "[  OK  ] [01-02-2026 03:04:05] done"
    );
}

#[test]
fn file_sink_buffers_until_it_is_initialized() {
    let mut sink = FileLoggerImpl::new(LogLevel::Warn, "/var/log/verdant/verdantd.log".to_string());
    assert!(matches!(sink.record(LogLevel::Info, "low", "[t]"), LogWrite::Dropped));
    assert!(matches!(sink.record(LogLevel::Warn, "one", "[t]"), LogWrite::Buffered));
    assert!(matches!(sink.record(LogLevel::Fail, "two", "[u]"), LogWrite::Buffered));
    assert_eq!(sink.buffer, vec!["[ WARN ] [t] one".to_string(), "[ FAIL ] [u] two".to_string()]);
    let plan = sink.start(true).unwrap();
    assert_eq!(plan.parent, Some("/var/log/verdant".to_string()));
    assert!(plan.session_header);
    assert_eq!(plan.lines, vec!["[ WARN ] [t] one".to_string(), "[ FAIL ] [u] two".to_string()]);
    assert!(sink.has_initialized);
    assert!(sink.buffer.is_empty());
    assert!(sink.start(true).is_none());
    match sink.record(LogLevel::Okay, "three", "[v]") {
        LogWrite::Append(line) => assert_eq!(line, "[  OK  ] [v] three"),
        other => panic!("unexpected: {:?}", other),
    }
    assert!(matches!(sink.record(LogLevel::Info, "low", "[t]"), LogWrite::Dropped));
    assert!(sink.buffer.is_empty());
}

#[test]
fn file_sink_writes_no_header_into_a_fresh_file() {
    let mut sink = FileLoggerImpl::new(LogLevel::Info, "log.txt".to_string());
    let plan = sink.initialize(false).unwrap();
    assert!(!plan.session_header);
    assert_eq!(plan.parent, None);
    assert!(plan.lines.is_empty());
}

#[test]
fn file_sink_takes_the_stamp_from_the_caller() {
    let mut sink = FileLoggerImpl::new(LogLevel::Info, "log.txt".to_string());
    assert!(matches!(sink.log(LogLevel::Info, "hello", "[29-10-2026 08:09:10]"), LogWrite::Buffered));
    assert_eq!(sink.buffer, vec!["[ INFO ] [29-10-2026 08:09:10] hello".to_string()]);
    sink.initialize(false);
    match sink.log(LogLevel::Fail, "late", "[s]") {
        LogWrite::Append(line) => assert_eq!(line, "[ FAIL ] [s] late"),
        other => panic!("unexpected: {:?}", other),
    }
}

#[test]
fn console_is_coloured_only_on_a_terminal() {
    assert_eq!(console_layout(Some(132)), Layout { width: 132, colour: true });
    assert_eq!(console_layout(None), Layout { width: 80, colour: false });
    let plain = format_console_line(LogLevel::Okay, "Mounted proc", "[ 00:01:500 ]", 40, false);
    assert_eq!(plain, "[ 00:01:500 ] Mounted proc      [  OK  ]");
    let tinted = format_console_line(LogLevel::Okay, "Mounted proc", "[ 00:01:500 ]", 40, true);
    assert_eq!(
        tinted,
        "\x1b[2m[ 00:01:500 ]\x1b[0m Mounted proc      \x1b[32m[  OK  ]\x1b[0m"
    );
}
