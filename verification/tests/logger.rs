use dlog::dlog::{DLog, DLogError};
use dlog::level::{Level, LevelFilter};
use dlog::text::split_lines;

#[test]
fn it_works() {
    let result = 2 + 2;
    assert_eq!(result, 4);
}

#[test]
fn suppressed_level_produces_no_output() {
    let mut d = DLog::new().with_file("app.log").unwrap();
    d.enable_console(false);
    d.widh_level(LevelFilter::Warn);
    let rotate = d.log(Level::Debug, "main", "hidden");
    assert!(!rotate);
    assert_eq!(d.file_content(), "");
    let rotate = d.log(Level::Info, "main", "hidden too");
    assert!(!rotate);
    assert_eq!(d.file_content(), "");
}

#[test]
fn passing_level_writes_exactly_one_line() {
    let mut d = DLog::new().with_file("app.log").unwrap();
    d.enable_console(false);
    d.widh_level(LevelFilter::Info);
    let rotate = d.log(Level::Info, "main", "kept");
    assert!(!rotate);
    let lines = split_lines(d.file_content());
    assert_eq!(lines.len(), 1);
    assert!(lines[0].ends_with("kept"));
    assert_eq!(d.file_content().matches('\n').count(), 1);
}

#[test]
fn target_filter_normalizes_hyphens() {
    let d = DLog::new().widh_target_filter("mod-a");
    assert_eq!(d.target.as_deref(), Some("mod_a"));
}

#[test]
fn target_filter_selects_by_prefix() {
    let d = DLog::new().widh_target_filter("mod_a");
    assert!(d.enabled("mod_a::sub", Level::Error));
    assert!(!d.enabled("mod_b", Level::Error));
}

#[test]
fn target_filter_suppresses_on_file_sink() {
    let mut d = DLog::new().widh_target_filter("mod_a").with_file("app.log").unwrap();
    d.enable_console(false);
    d.log(Level::Error, "mod_b", "dropped");
    assert_eq!(d.file_content(), "");
    d.log(Level::Error, "mod_a::sub", "kept");
    assert_eq!(split_lines(d.file_content()).len(), 1);
}

#[test]
fn off_filter_suppresses_everything() {
    let mut d = DLog::new();
    d.widh_level(LevelFilter::Off);
    assert!(!d.enabled("main", Level::Error));
    assert!(!d.enabled("main", Level::Trace));
}

#[test]
fn level_from_str_parses_known_names() {
    let d = DLog::new().widh_level_from_str("error").unwrap();
    assert_eq!(d.level, LevelFilter::Error);
    let d = DLog::new().widh_level_from_str("TRACE").unwrap();
    assert_eq!(d.level, LevelFilter::Trace);
    let d = DLog::new().widh_level_from_str("off").unwrap();
    assert_eq!(d.level, LevelFilter::Off);
    let d = DLog::new().widh_level_from_str("WaRn").unwrap();
    assert_eq!(d.level, LevelFilter::Warn);
}

#[test]
fn level_from_str_rejects_unknown_names() {
    let err = DLog::new().widh_level_from_str("verbose").unwrap_err();
    assert_eq!(err, DLogError::Level);
}

#[test]
fn with_file_rejects_nul_in_path() {
    let err = DLog::new().with_file("bad/\0path").unwrap_err();
    assert_eq!(err, DLogError::IoError);
    let mut d = DLog::new();
    d.enable_console(false);
    assert!(!d.log_on_file);
    d.e("boom");
    assert_eq!(d.file_content(), "");
}

#[test]
fn with_file_rejects_empty_path() {
    let err = DLog::new().with_file("").unwrap_err();
    assert_eq!(err, DLogError::IoError);
}

#[test]
fn enable_file_needs_an_open_sink() {
    let mut d = DLog::new();
    d.enable_file(true);
    assert!(!d.log_on_file);
    let mut d = DLog::new().with_file("app.log").unwrap();
    d.enable_file(false);
    assert!(!d.log_on_file);
    d.enable_file(true);
    assert!(d.log_on_file);
}

#[test]
fn defaults_match_documentation() {
    let d = DLog::new();
    assert_eq!(d.level, LevelFilter::Trace);
    assert!(d.target.is_none());
    assert!(!d.show_color_enabled);
    assert!(d.log_on_stdout);
    assert!(!d.log_on_file);
    assert!(d.file.is_none());
    assert_eq!(d.max_file_size, 0);
    assert_eq!(d.max_files_count, 0);
    assert!(d.show_timestamp_enabled);
    assert!(d.show_level_enabled);
    assert_eq!(d.timestamp_format, "%Y/%m/%d %H.%M.%S");
    assert_eq!(d.separator, " : ");
}

#[test]
fn status_report_for_defaults() {
    let d = DLog::new();
    let expected = "----------- dlog current settings -----------\n\
Show Colors       =  false\n\
Show Level        =  true\n\
Show Timestamp    =  true\n\
Timestamp Format  =  %Y/%m/%d %H.%M.%S\n\
Tags separator    =  ' : '\n\
Level             =  TRACE\n\
Log on stdout     =  true\n\
Log on file       =  false\n\
Max file size     =  no limit\n\
Max files count   =  no limit\n\
---------------------------------------------";
    assert_eq!(d.get_status(), expected);
}

#[test]
fn status_report_shows_limits_and_filename() {
    let d = DLog::new()
        .widh_max_file_size(1024)
        .widh_max_files_count(5)
        .with_file("app.log")
        .unwrap();
    let status = d.get_status();
    assert!(status.contains("Max file size     =  1024\n"));
    assert!(status.contains("Max files count   =  5\n"));
    assert!(status.contains("Current filename  =  app.log\n"));
    assert!(status.contains("Log on file       =  true\n"));
}

#[test]
fn direct_api_respects_threshold() {
    let mut d = DLog::new().with_file("app.log").unwrap();
    d.enable_console(false);
    d.widh_level(LevelFilter::Error);
    d.t("hidden");
    d.d("hidden too");
    assert_eq!(d.file_content(), "");
    d.e("shown");
    assert_eq!(split_lines(d.file_content()).len(), 1);
}
