use dlog::dlog::DLog;
use dlog::level::Level;
use dlog::text::{extension_of, sort_strings, split_lines, u64_to_string};

#[test]
fn journal_round_trip_preserves_records_in_order() {
    let mut d = DLog::new().with_file("app.log").unwrap();
    d.enable_console(false);
    d.e("first");
    d.w("second");
    d.i("third");
    let lines = split_lines(d.file_content());
    assert_eq!(lines.len(), 3);
    assert!(lines[0].ends_with("first"));
    assert!(lines[1].ends_with("second"));
    assert!(lines[2].ends_with("third"));
    assert_eq!(d.file_content().matches('\n').count(), 3);
}

#[test]
fn fresh_sink_starts_empty() {
    let d = DLog::new().with_file("app.log").unwrap();
    assert_eq!(d.file_content(), "");
    assert_eq!(split_lines(d.file_content()).len(), 0);
}

#[test]
fn size_threshold_triggers_rotation_evaluation() {
    let mut d = DLog::new()
        .widh_max_file_size(10)
        .widh_max_files_count(1)
        .with_file("t.log")
        .unwrap();
    d.enable_console(false);
    let first = d.write(Level::Info, "a message well over the threshold");
    assert!(first);
    let lines = split_lines(d.file_content());
    assert_eq!(lines.len(), 2);
    assert!(lines[1].contains("need to rotate"));
    let second = d.write(Level::Info, "another long message");
    assert!(second);
    let third = d.write(Level::Info, "and a third one");
    assert!(third);
}

#[test]
fn rotation_evaluation_names_candidate_but_rotates_nothing() {
    let mut d = DLog::new()
        .widh_max_file_size(10)
        .widh_max_files_count(1)
        .with_file("t.log")
        .unwrap();
    d.enable_console(false);
    let rotate = d.write(Level::Info, "a message well over the threshold");
    assert!(rotate);
    let before = split_lines(d.file_content()).len();
    d.rotate_files(vec![String::from("t.log")]);
    let lines = split_lines(d.file_content());
    assert_eq!(lines.len(), before + 2);
    assert!(lines[before].contains("Files that needs to be deleted:"));
    assert!(lines[before + 1].ends_with("t.log"));
    assert!(d.log_on_file);
    assert!(d.file.is_some());
    assert_eq!(d.filename, "t.log");
}

#[test]
fn rotation_below_count_writes_nothing() {
    let mut d = DLog::new().widh_max_files_count(3).with_file("t.log").unwrap();
    d.enable_console(false);
    d.rotate_files(vec![String::from("t.log")]);
    assert_eq!(d.file_content(), "");
}

#[test]
fn rotation_candidate_is_chosen_in_sorted_order() {
    let mut d = DLog::new().widh_max_files_count(2).with_file("t.log").unwrap();
    d.enable_console(false);
    d.rotate_files(vec![
        String::from("b.log"),
        String::from("c.log"),
        String::from("a.log"),
    ]);
    let lines = split_lines(d.file_content());
    assert_eq!(lines.len(), 2);
    assert!(lines[1].ends_with("b.log"));
}

#[test]
fn no_size_limit_never_triggers_rotation() {
    let mut d = DLog::new().with_file("t.log").unwrap();
    d.enable_console(false);
    let rotate = d.write(Level::Info, "a rather long message that would exceed ten bytes");
    assert!(!rotate);
    assert_eq!(split_lines(d.file_content()).len(), 1);
}

#[test]
fn sort_strings_orders_lexicographically() {
    let mut v = vec![
        String::from("delta"),
        String::from("alpha"),
        String::from("charlie"),
        String::from("bravo"),
        String::from("alpha"),
    ];
    sort_strings(&mut v);
    assert_eq!(v, vec!["alpha", "alpha", "bravo", "charlie", "delta"]);
}

#[test]
fn u64_rendering_is_exact() {
    assert_eq!(u64_to_string(0), "0");
    assert_eq!(u64_to_string(7), "7");
    assert_eq!(u64_to_string(1024), "1024");
    assert_eq!(u64_to_string(18446744073709551615), "18446744073709551615");
}

#[test]
fn split_lines_handles_edges() {
    assert_eq!(split_lines("").len(), 0);
    let lines = split_lines("abc");
    assert_eq!(lines, vec!["abc"]);
    let lines = split_lines("a\nb\n");
    assert_eq!(lines, vec!["a", "b"]);
    let lines = split_lines("a\n\nb");
    assert_eq!(lines, vec!["a", "", "b"]);
}

#[test]
fn sibling_filter_keeps_matching_extensions() {
    let d = DLog::new().with_file("logs/app.log").unwrap();
    let kept = d.filter_log_files(vec![
        String::from("logs/app.log"),
        String::from("logs/old.LOG"),
        String::from("logs/readme.txt"),
        String::from("logs/noext"),
        String::from("logs/.hidden"),
    ]);
    assert_eq!(kept, vec!["logs/app.log", "logs/old.LOG"]);
}

#[test]
fn extension_extraction_follows_path_rules() {
    assert_eq!(extension_of("dir/a.log"), Some(String::from("log")));
    assert_eq!(extension_of("a.b.c"), Some(String::from("c")));
    assert_eq!(extension_of("dir/noext"), None);
    assert_eq!(extension_of("dir/.hidden"), None);
    assert_eq!(extension_of(".."), None);
    assert_eq!(extension_of("a.b/noext"), None);
}
