use dlog::dlog::DLog;
use dlog::level::Level;
use dlog::text::split_lines;

#[test]
fn default_console_line_for_error() {
    let d = DLog::new();
    let line = d.format_line(Level::Error, "2022/12/28 17.38.42", "boom", d.show_color_enabled);
    assert_eq!(line, "2022/12/28 17.38.42 : ERROR  : boom");
    assert!(!line.contains('\u{1B}'));
}

#[test]
fn colored_warn_line_with_custom_separator() {
    let d = DLog::new().with_color().widh_custom_separator(" | ");
    let line = d.format_line(Level::Warn, "2022/12/28 17.38.42", "low disk", d.show_color_enabled);
    assert_eq!(
        line,
        "\u{1B}[38;5;11m2022/12/28 17.38.42 | WARN   | low disk\u{1B}[0m"
    );
    assert!(line.starts_with("\u{1B}[38;5;11m"));
    assert!(line.ends_with("\u{1B}[0m"));
}

#[test]
fn formatting_is_deterministic() {
    let d = DLog::new().with_color();
    let a = d.format_line(Level::Debug, "2023/01/02 18.01.27", "Debug message", true);
    let b = d.format_line(Level::Debug, "2023/01/02 18.01.27", "Debug message", true);
    assert_eq!(a, b);
}

#[test]
fn file_line_never_holds_escape_codes() {
    let d = DLog::new().with_color();
    for level in [Level::Error, Level::Warn, Level::Info, Level::Debug, Level::Trace] {
        let line = d.format_line(level, "2022/12/28 17.38.42", "message", false);
        assert_eq!(line.chars().filter(|c| *c == '\u{1B}').count(), 0);
    }
}

#[test]
fn console_line_escape_count_is_two_or_zero() {
    let colored = DLog::new().with_color();
    let plain = DLog::new();
    for level in [Level::Error, Level::Warn, Level::Info, Level::Debug, Level::Trace] {
        let line = colored.format_line(level, "ts", "m", colored.show_color_enabled);
        assert_eq!(line.chars().filter(|c| *c == '\u{1B}').count(), 2);
        let line = plain.format_line(level, "ts", "m", plain.show_color_enabled);
        assert_eq!(line.chars().filter(|c| *c == '\u{1B}').count(), 0);
    }
}

#[test]
fn level_tags_are_fixed_width() {
    let d = DLog::new();
    assert_eq!(d.format_line(Level::Error, "T", "m", false), "T : ERROR  : m");
    assert_eq!(d.format_line(Level::Warn, "T", "m", false), "T : WARN   : m");
    assert_eq!(d.format_line(Level::Info, "T", "m", false), "T : INFO   : m");
    assert_eq!(d.format_line(Level::Debug, "T", "m", false), "T : DEBUG  : m");
    assert_eq!(d.format_line(Level::Trace, "T", "m", false), "T : TRACE  : m");
}

#[test]
fn disabled_segments_are_omitted() {
    let mut d = DLog::new();
    d.enable_timestamp_print(false);
    assert_eq!(d.format_line(Level::Error, "T", "m", false), "ERROR  : m");
    d.enable_level_print(false);
    assert_eq!(d.format_line(Level::Error, "T", "m", false), "m");
    let mut d = DLog::new();
    d.enable_level_print(false);
    assert_eq!(d.format_line(Level::Error, "T", "m", false), "T : m");
}

#[test]
fn file_sink_line_uses_timestamp_and_tag() {
    let mut d = DLog::new().widh_timestamp_format("%Y").with_file("app.log").unwrap();
    d.enable_console(false);
    d.e("boom");
    let content = d.file_content();
    assert!(content.ends_with(" : ERROR  : boom\n"));
    let year: String = content.chars().take(4).collect();
    assert!(year.chars().all(|c| c.is_ascii_digit()));
}

#[test]
fn invalid_timestamp_format_renders_placeholder() {
    let mut d = DLog::new().with_file("app.log").unwrap().widh_timestamp_format("%?");
    d.enable_console(false);
    d.e("boom");
    assert_eq!(d.file_content(), "? : ERROR  : boom\n");
}

#[test]
fn empty_message_renders_prefix_only() {
    let d = DLog::new();
    assert_eq!(d.format_line(Level::Info, "T", "", false), "T : INFO   : ");
}

#[test]
fn embedded_newline_is_written_verbatim() {
    let mut d = DLog::new().with_file("app.log").unwrap();
    d.enable_console(false);
    d.e("a\nb");
    assert_eq!(d.file_content().matches('\n').count(), 2);
    let lines = split_lines(d.file_content());
    assert_eq!(lines.len(), 2);
    assert_eq!(lines[1], "b");
}
