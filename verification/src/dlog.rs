//! The logger: a configuration built fluently, a formatter that renders one
//! line per record, and two sinks. Console lines go to standard output
//! through a best-effort trusted wrapper; file-bound lines are appended to a
//! verified journal held by the open file sink, on which a size threshold
//! triggers the retention check.

use core::fmt::Write;
use std::io::Write as _;
use vstd::prelude::*;

use crate::level::{
    eq_ignore_case, filter_name, level_color, level_passes, level_tag, spec_color,
    spec_color_reset, spec_eq_ignore_case, spec_filter_name, spec_parse_filter,
    spec_level_passes, spec_tag, color_reset, parse_filter, Level, LevelFilter,
};
use crate::text::{
    extension_of, sort_strings, spec_decimal, spec_extension, spec_is_prefix,
    spec_normalize_target, spec_sorted_strings, starts_with, normalize_target, u64_to_string,
};

verus! {

/// Relies on `chrono::Utc::now` and on `DelayedFormat` (through its `Display`
/// impl): renders the current UTC wall-clock time under the given format
/// string, or `None` when the format string has an item that chrono cannot
/// format. The result depends on the clock, so nothing is stated of it.
#[verifier::external_body]
fn format_now(format: &str) -> Option<String> {
    let mut out = String::new();
    match write!(out, "{}", chrono::Utc::now().format(format)) {
        Ok(()) => Some(out),
        Err(_) => None,
    }
}

/// Relies on `std::io::Stdout`: writes the line and a newline to standard
/// output. Console logging is best effort, so any error is dropped.
#[verifier::external_body]
fn console_write_line(line: &str) {
    let mut out = std::io::stdout();
    let _ = writeln!(out, "{}", line);
}

/// The failures that configuration and emission can report.
#[derive(Clone, Copy, Debug, PartialEq, Eq, Structural)]
pub enum DLogError {
    /// A level name could not be parsed.
    Level,
    /// The environment variable that should name a level is absent.
    Env,
    /// The file sink could not be opened or written.
    IoError,
}

/// The open file sink: the path it was opened under, and the journal of
/// every character appended through it, in order.
#[derive(Debug)]
pub struct LogFile {
    /// The path the sink was opened under.
    pub path: String,
    /// Everything appended through the sink, oldest first.
    pub content: String,
}

/// A logger configuration: which records pass, how a record is rendered, and
/// which sinks receive the rendered line.
#[derive(Debug)]
pub struct DLog {
    /// Records more verbose than this threshold are suppressed on both sinks.
    pub level: LevelFilter,
    /// When set, only records whose target starts with this string pass.
    pub target: Option<String>,
    /// Wrap console lines in ANSI color sequences.
    pub show_color_enabled: bool,
    /// Write rendered lines to standard output.
    pub log_on_stdout: bool,
    /// Write rendered lines to the file sink.
    pub log_on_file: bool,
    /// The path of the active log file; empty while file logging is off.
    pub filename: String,
    /// The open file sink; absent while file logging is off.
    pub file: Option<LogFile>,
    /// Size in bytes above which the retention check triggers; 0 is no limit.
    pub max_file_size: u64,
    /// How many files of the log's extension to retain; 0 is no limit.
    pub max_files_count: u64,
    /// The format under which the timestamp is rendered.
    pub timestamp_format: String,
    /// Prefix each line with a timestamp.
    pub show_timestamp_enabled: bool,
    /// Prefix each line with the fixed-width level tag.
    pub show_level_enabled: bool,
    /// The separator between the timestamp, the tag, and the message.
    pub separator: String,
}

/// The number of bytes a string occupies in a file, which stores it UTF-8
/// encoded; a string is never longer than the machine's address range, so
/// the length is read within it.
pub open spec fn spec_byte_len(s: Seq<char>) -> nat {
    (vstd::utf8::encode_utf8(s).len() as usize) as nat
}

/// The message of the line the logger writes about itself when the file sink
/// has grown to `size` bytes, over the threshold `max`.
pub open spec fn spec_rotate_notice(size: int, max: int) -> Seq<char> {
    "Current log size "@ + spec_decimal(size) + " exceed "@ + spec_decimal(max)
        + ", need to rotate"@
}

impl DLog {
    /// The documented shape of a configuration: when file logging is on, the
    /// sink is open and the stored path is the non-empty path it was opened
    /// under.
    pub open spec fn wf(self) -> bool {
        self.log_on_file ==> {
            &&& self.file is Some
            &&& self.filename@.len() > 0
            &&& (match self.file {
                Some(f) => f.path@ == self.filename@,
                None => false,
            })
        }
    }

    /// The file sink receives lines: file logging is on and the sink is open.
    pub open spec fn file_active(self) -> bool {
        self.log_on_file && self.file is Some
    }

    /// Everything the file sink has received, oldest first; empty while no
    /// sink is open.
    pub open spec fn file_journal(self) -> Seq<char> {
        match self.file {
            Some(f) => f.content@,
            None => Seq::empty(),
        }
    }

    /// The two configurations differ at most in what their file sinks have
    /// received: every option, the stored path, and the presence of the open
    /// sink agree.
    pub open spec fn same_config(self, other: DLog) -> bool {
        &&& other.level == self.level
        &&& other.target == self.target
        &&& other.show_color_enabled == self.show_color_enabled
        &&& other.log_on_stdout == self.log_on_stdout
        &&& other.log_on_file == self.log_on_file
        &&& other.filename == self.filename
        &&& other.max_file_size == self.max_file_size
        &&& other.max_files_count == self.max_files_count
        &&& other.timestamp_format == self.timestamp_format
        &&& other.show_timestamp_enabled == self.show_timestamp_enabled
        &&& other.show_level_enabled == self.show_level_enabled
        &&& other.separator == self.separator
        &&& (self.file is Some <==> other.file is Some)
        &&& (match (self.file, other.file) {
            (Some(a), Some(b)) => a.path == b.path,
            (None, None) => true,
            _ => false,
        })
    }

    /// The defaults `new` establishes: log to standard output only, without
    /// color, with timestamp and level tag shown, every level passing, and
    /// no size or count limit on the file sink.
    pub open spec fn is_default(self) -> bool {
        &&& self.level == LevelFilter::Trace
        &&& self.target is None
        &&& self.show_color_enabled == false
        &&& self.log_on_stdout == true
        &&& self.log_on_file == false
        &&& self.filename@ == Seq::<char>::empty()
        &&& self.file is None
        &&& self.max_file_size == 0
        &&& self.max_files_count == 0
        &&& self.show_timestamp_enabled == true
        &&& self.timestamp_format@ == "%Y/%m/%d %H.%M.%S"@
        &&& self.show_level_enabled == true
        &&& self.separator@ == " : "@
    }

    /// Creates a configuration with the default settings: log only to
    /// standard output, color disabled, timestamp and level tag shown.
    pub fn new() -> (r: DLog)
        ensures
            r.is_default(),
            r.wf(),
    {
        DLog {
            level: LevelFilter::Trace,
            target: None,
            show_color_enabled: false,
            log_on_stdout: true,
            log_on_file: false,
            filename: String::new(),
            file: None,
            max_file_size: 0,
            max_files_count: 0,
            show_timestamp_enabled: true,
            timestamp_format: String::from_str("%Y/%m/%d %H.%M.%S"),
            show_level_enabled: true,
            separator: String::from_str(" : "),
        }
    }

    /// The one line rendered for a record: the opening color sequence when
    /// colorized, the timestamp and a separator when enabled, the fixed-width
    /// level tag and a separator when enabled, the message verbatim, and the
    /// closing color sequence when colorized.
    pub open spec fn spec_line(
        self,
        level: Level,
        ts: Seq<char>,
        msg: Seq<char>,
        colored: bool,
    ) -> Seq<char> {
        (if colored {
            spec_color(level)
        } else {
            Seq::<char>::empty()
        }) + (if self.show_timestamp_enabled {
            ts + self.separator@
        } else {
            Seq::<char>::empty()
        }) + (if self.show_level_enabled {
            spec_tag(level) + self.separator@
        } else {
            Seq::<char>::empty()
        }) + msg + (if colored {
            spec_color_reset()
        } else {
            Seq::<char>::empty()
        })
    }

    /// Renders the one line for a record, given the timestamp rendering `ts`,
    /// colorized or plain as `colored` says.
    pub fn format_line(&self, level: Level, ts: &str, msg: &str, colored: bool) -> (r: String)
        ensures
            r@ == self.spec_line(level, ts@, msg@, colored),
    {
        let mut out = String::new();
        if colored {
            out.append(level_color(level));
        }
        if self.show_timestamp_enabled {
            out.append(ts);
            out.append(self.separator.as_str());
        }
        if self.show_level_enabled {
            out.append(level_tag(level));
            out.append(self.separator.as_str());
        }
        out.append(msg);
        if colored {
            out.append(color_reset());
        }
        proof {
            assert(out@ =~= self.spec_line(level, ts@, msg@, colored));
        }
        out
    }

    /// The timestamp of this moment, rendered under the configured format; a
    /// format chrono cannot render gives the placeholder instead of failing
    /// the log call.
    fn render_timestamp(&self) -> String {
        match format_now(self.timestamp_format.as_str()) {
            Some(s) => s,
            None => String::from_str("?"),
        }
    }

    /// Appends one rendered line and a newline to the file sink, when one is
    /// open; reports whether anything was appended. Appending to the journal
    /// cannot fail; the guard that follows a write stands in `check_storage`.
    fn write_file(&mut self, line: &str) -> (appended: bool)
        ensures
            old(self).same_config(*final(self)),
            appended == (old(self).file is Some),
            appended ==> final(self).file_journal() == old(self).file_journal() + line@ + seq![
                '\n',
            ],
            !appended ==> *final(self) == *old(self),
    {
        proof {
            reveal_strlit("\n");
            assert("\n"@ =~= seq!['\n']);
        }
        match &mut self.file {
            Some(f) => {
                f.content.append(line);
                f.content.append("\n");
                true
            },
            None => false,
        }
    }

    /// The size of the file sink's journal in bytes, as the file stores it.
    fn file_size_bytes(&self) -> (r: usize)
        ensures
            r == spec_byte_len(self.file_journal()),
    {
        match &self.file {
            Some(f) => f.content.as_str().len(),
            None => {
                proof {
                    assert(vstd::utf8::encode_utf8(Seq::<char>::empty()).len() == 0);
                }
                0
            },
        }
    }

    /// What one unguarded write leaves in the file journal: the rendered line
    /// and a newline when a sink is open, nothing otherwise.
    pub open spec fn spec_plain_append(self, level: Level, msg: Seq<char>, ts: Seq<char>) -> Seq<
        char,
    > {
        if self.file_active() {
            self.spec_line(level, ts, msg, false) + seq!['\n']
        } else {
            Seq::empty()
        }
    }

    /// Writes one record to the enabled sinks without running the retention
    /// check afterwards; the internal notices of the retention check itself
    /// are written this way, so that the check cannot retrigger itself.
    fn write_unguarded(&mut self, level: Level, msg: &str)
        ensures
            old(self).same_config(*final(self)),
            exists|ts: Seq<char>|
                final(self).file_journal() == old(self).file_journal() + old(self).spec_plain_append(level, msg@, ts),
    {
        let ts = self.render_timestamp();
        if self.log_on_stdout {
            let console_line = self.format_line(level, ts.as_str(), msg, self.show_color_enabled);
            console_write_line(console_line.as_str());
        }
        if self.log_on_file {
            let file_line = self.format_line(level, ts.as_str(), msg, false);
            let appended = self.write_file(file_line.as_str());
            proof {
                if appended {
                    assert(final(self).file_journal() == old(self).file_journal() + old(self).spec_plain_append(level, msg@, ts@));
                } else {
                    assert(old(self).spec_plain_append(level, msg@, ts@) =~= Seq::<char>::empty());
                    assert(final(self).file_journal() =~= old(self).file_journal() + old(self).spec_plain_append(level, msg@, ts@));
                }
            }
        } else {
            proof {
                assert(old(self).spec_plain_append(level, msg@, ts@) =~= Seq::<char>::empty());
                assert(final(self).file_journal() =~= old(self).file_journal() + old(self).spec_plain_append(level, msg@, ts@));
            }
        }
    }

    /// What one guarded write leaves behind: the record's line and a newline
    /// in the file journal; `rotate` reports whether the journal then stood
    /// over the size threshold, in which case a notice line follows the
    /// record and the caller is expected to run the retention check.
    pub open spec fn spec_write_post(
        pre: DLog,
        post: DLog,
        level: Level,
        msg: Seq<char>,
        ts1: Seq<char>,
        ts2: Seq<char>,
        rotate: bool,
    ) -> bool {
        let grown = pre.file_journal() + pre.spec_line(level, ts1, msg, false) + seq!['\n'];
        let over = pre.max_file_size > 0 && spec_byte_len(grown) > pre.max_file_size;
        &&& pre.same_config(post)
        &&& rotate == over
        &&& (if over {
            post.file_journal() == grown + pre.spec_line(
                Level::Trace,
                ts2,
                spec_rotate_notice(spec_byte_len(grown) as int, pre.max_file_size as int),
                false,
            ) + seq!['\n']
        } else {
            post.file_journal() == grown
        })
    }

    /// Writes one record to the enabled sinks: the colorized line to standard
    /// output when console logging is on, the plain line to the file sink
    /// when file logging is on. After a file write the retention threshold is
    /// evaluated; the result says whether it was exceeded, in which case the
    /// caller holds the directory listing the retention check needs.
    pub fn write(&mut self, level: Level, msg: &str) -> (rotate: bool)
        ensures
            old(self).same_config(*final(self)),
            old(self).file_active() ==> exists|ts1: Seq<char>, ts2: Seq<char>|
                DLog::spec_write_post(*old(self), *final(self), level, msg@, ts1, ts2, rotate),
            !old(self).file_active() ==> *final(self) == *old(self) && !rotate,
    {
        let ts = self.render_timestamp();
        if self.log_on_stdout {
            let console_line = self.format_line(level, ts.as_str(), msg, self.show_color_enabled);
            console_write_line(console_line.as_str());
        }
        if !self.log_on_file {
            return false;
        }
        let file_line = self.format_line(level, ts.as_str(), msg, false);
        let appended = self.write_file(file_line.as_str());
        if !appended {
            return false;
        }
        let ghost grown = self.file_journal();
        let ghost mid = *self;
        let rotate = self.check_storage();
        proof {
            if rotate {
                let ts2 = choose|t: Seq<char>|
                    self.file_journal() == mid.file_journal() + mid.spec_plain_append(
                        Level::Trace,
                        spec_rotate_notice(
                            spec_byte_len(mid.file_journal()) as int,
                            mid.max_file_size as int,
                        ),
                        t,
                    );
                let line2 = old(self).spec_line(
                    Level::Trace,
                    ts2,
                    spec_rotate_notice(spec_byte_len(grown) as int, old(self).max_file_size as int),
                    false,
                );
                assert(mid.file_active());
                assert(mid.spec_line(
                    Level::Trace,
                    ts2,
                    spec_rotate_notice(spec_byte_len(grown) as int, old(self).max_file_size as int),
                    false,
                ) == line2);
                assert(mid.spec_plain_append(
                    Level::Trace,
                    spec_rotate_notice(spec_byte_len(grown) as int, old(self).max_file_size as int),
                    ts2,
                ) == line2 + seq!['\n']);
                assert(self.file_journal() == grown + (line2 + seq!['\n']));
                assert(grown + (line2 + seq!['\n']) =~= grown + line2 + seq!['\n']);
                assert(DLog::spec_write_post(*old(self), *self, level, msg@, ts@, ts2, true));
                assert(exists|a: Seq<char>, b: Seq<char>|
                    DLog::spec_write_post(*old(self), *self, level, msg@, a, b, true));
            } else {
                assert(DLog::spec_write_post(*old(self), *self, level, msg@, ts@, ts@, false));
            }
        }
        rotate
    }

    /// The storage guard, run after each file write: reads the journal's
    /// size, and when a size threshold is set and exceeded, writes the
    /// notice line and reports that the caller should run the retention
    /// evaluation on the directory listing.
    fn check_storage(&mut self) -> (rotate: bool)
        ensures
            old(self).same_config(*final(self)),
            rotate == (old(self).max_file_size > 0 && spec_byte_len(old(self).file_journal())
                > old(self).max_file_size),
            !rotate ==> *final(self) == *old(self),
            rotate ==> exists|ts: Seq<char>|
                final(self).file_journal() == old(self).file_journal() + old(
                    self,
                ).spec_plain_append(
                    Level::Trace,
                    spec_rotate_notice(
                        spec_byte_len(old(self).file_journal()) as int,
                        old(self).max_file_size as int,
                    ),
                    ts,
                ),
    {
        let size = self.file_size_bytes();
        if self.max_file_size > 0 && (size as u64) > self.max_file_size {
            let mut notice = String::from_str("Current log size ");
            let size_str = u64_to_string(size as u64);
            notice.append(size_str.as_str());
            notice.append(" exceed ");
            let max_str = u64_to_string(self.max_file_size);
            notice.append(max_str.as_str());
            notice.append(", need to rotate");
            proof {
                assert(notice@ =~= spec_rotate_notice(
                    spec_byte_len(old(self).file_journal()) as int,
                    old(self).max_file_size as int,
                ));
            }
            self.write_unguarded(Level::Trace, notice.as_str());
            proof {
                let t = choose|t: Seq<char>|
                    self.file_journal() == old(self).file_journal() + old(self).spec_plain_append(
                        Level::Trace,
                        notice@,
                        t,
                    );
                assert(self.file_journal() == old(self).file_journal() + old(
                    self,
                ).spec_plain_append(
                    Level::Trace,
                    spec_rotate_notice(
                        spec_byte_len(old(self).file_journal()) as int,
                        old(self).max_file_size as int,
                    ),
                    t,
                ));
            }
            true
        } else {
            false
        }
    }
}

impl Default for DLog {
    /// The default configuration is the one `new` creates.
    fn default() -> (r: Self)
        ensures
            r.is_default(),
            r.wf(),
    {
        DLog::new()
    }
}

/// The rendering of a boolean in the status report.
pub open spec fn spec_bool_str(b: bool) -> Seq<char> {
    if b {
        "true"@
    } else {
        "false"@
    }
}

/// Renders a boolean.
pub fn bool_str(b: bool) -> (r: &'static str)
    ensures
        r@ == spec_bool_str(b),
{
    if b {
        "true"
    } else {
        "false"
    }
}

/// The string holds a NUL character, which no file path may.
pub open spec fn spec_has_nul(s: Seq<char>) -> bool {
    exists|i: int| 0 <= i < s.len() && s[i] == '\0'
}

/// A path the file sink can be opened under: non-empty and free of NUL.
pub open spec fn spec_valid_path(s: Seq<char>) -> bool {
    s.len() > 0 && !spec_has_nul(s)
}

/// Decides whether the string holds a NUL character.
fn has_nul(s: &str) -> (r: bool)
    ensures
        r == spec_has_nul(s@),
{
    let len = s.unicode_len();
    let mut i: usize = 0;
    while i < len
        invariant
            len == s@.len(),
            i <= len,
            forall|j: int| 0 <= j < i ==> s@[j] != '\0',
        decreases len - i,
    {
        if s.get_char(i) == '\0' {
            return true;
        }
        i = i + 1;
    }
    false
}

impl DLog {
    /// Everything but the file sink and its path agrees between the two
    /// configurations.
    pub open spec fn same_options(self, other: DLog) -> bool {
        &&& other.level == self.level
        &&& other.target == self.target
        &&& other.show_color_enabled == self.show_color_enabled
        &&& other.log_on_stdout == self.log_on_stdout
        &&& other.max_file_size == self.max_file_size
        &&& other.max_files_count == self.max_files_count
        &&& other.timestamp_format == self.timestamp_format
        &&& other.show_timestamp_enabled == self.show_timestamp_enabled
        &&& other.show_level_enabled == self.show_level_enabled
        &&& other.separator == self.separator
    }

    /// Enables file logging and opens the file sink under `filename`. A path
    /// that cannot name a file gives `IoError`, and the failed configuration
    /// keeps no partial file state: its file fields are reset before it is
    /// dropped.
    pub fn with_file(self, filename: &str) -> (r: Result<DLog, DLogError>)
        ensures
            match r {
                Ok(d) => {
                    &&& spec_valid_path(filename@)
                    &&& self.same_options(d)
                    &&& d.log_on_file == true
                    &&& d.filename@ == filename@
                    &&& d.file_journal() == Seq::<char>::empty()
                    &&& d.file_active()
                    &&& d.wf()
                },
                Err(e) => !spec_valid_path(filename@) && e == DLogError::IoError,
            },
    {
        let mut d = self;
        if !filename.is_empty() && !has_nul(filename) {
            d.filename = String::from_str(filename);
            d.file = Some(LogFile { path: String::from_str(filename), content: String::new() });
            d.log_on_file = true;
            Ok(d)
        } else {
            d.file = None;
            d.log_on_file = false;
            d.filename = String::new();
            Err(DLogError::IoError)
        }
    }

    /// Enables colors in console output while building a configuration.
    pub fn with_color(self) -> (r: DLog)
        ensures
            r == (DLog { show_color_enabled: true, ..self }),
    {
        let mut d = self;
        d.enabled_colors(true);
        d
    }

    /// Restricts emission to records whose target starts with `target`, with
    /// every hyphen normalized to an underscore as in Rust module paths.
    pub fn widh_target_filter(self, target: &str) -> (r: DLog)
        ensures
            r == (DLog { target: r.target, ..self }),
            match r.target {
                Some(t) => t@ == spec_normalize_target(target@),
                None => false,
            },
    {
        let normalized = normalize_target(target);
        let mut d = self;
        d.target = Some(normalized);
        d
    }

    /// Sets the level threshold.
    pub fn widh_level(&mut self, level: LevelFilter) -> (r: &mut DLog)
        ensures
            *r == (DLog { level: level, ..*old(self) }),
            *final(self) == *final(r),
    {
        self.level = level;
        self
    }

    /// Sets the level threshold from a level name, without regard to ASCII
    /// case; an unknown name gives the `Level` error.
    pub fn widh_level_from_str(self, s: &str) -> (r: Result<DLog, DLogError>)
        ensures
            match r {
                Ok(d) => match spec_parse_filter(s@) {
                    Some(lv) => d == (DLog { level: lv, ..self }),
                    None => false,
                },
                Err(e) => spec_parse_filter(s@) is None && e == DLogError::Level,
            },
    {
        match parse_filter(s) {
            Some(lv) => {
                let mut d = self;
                d.level = lv;
                Ok(d)
            },
            None => Err(DLogError::Level),
        }
    }

    /// Sets the format under which the timestamp is rendered.
    pub fn widh_timestamp_format(self, format: &str) -> (r: DLog)
        ensures
            r == (DLog { timestamp_format: r.timestamp_format, ..self }),
            r.timestamp_format@ == format@,
    {
        let mut d = self;
        d.timestamp_format = String::from_str(format);
        d
    }

    /// Sets the separator placed between the timestamp, the tag, and the
    /// message.
    pub fn widh_custom_separator(self, new_sep: &str) -> (r: DLog)
        ensures
            r == (DLog { separator: r.separator, ..self }),
            r.separator@ == new_sep@,
    {
        let mut d = self;
        d.separator = String::from_str(new_sep);
        d
    }

    /// Sets the size in bytes above which the retention check triggers; 0
    /// removes the limit.
    pub fn widh_max_file_size(self, size: u64) -> (r: DLog)
        ensures
            r == (DLog { max_file_size: size, ..self }),
    {
        let mut d = self;
        d.max_file_size = size;
        d
    }

    /// Sets how many files of the log's extension the retention check
    /// retains; 0 removes the limit.
    pub fn widh_max_files_count(self, count: u64) -> (r: DLog)
        ensures
            r == (DLog { max_files_count: count, ..self }),
    {
        let mut d = self;
        d.max_files_count = count;
        d
    }

    /// Enables or disables the console sink.
    pub fn enable_console(&mut self, enabled: bool)
        ensures
            *final(self) == (DLog { log_on_stdout: enabled, ..*old(self) }),
    {
        self.log_on_stdout = enabled;
    }

    /// Enables or disables the file sink. It can only be enabled once
    /// `with_file` has opened a sink; without one the flag stays off, so that
    /// file logging is on only while a sink is open.
    pub fn enable_file(&mut self, enabled: bool)
        ensures
            *final(self) == (DLog {
                log_on_file: enabled && old(self).file is Some,
                ..*old(self)
            }),
    {
        let on = enabled && self.file.is_some();
        self.log_on_file = on;
    }

    /// Enables or disables colors on the console sink.
    pub fn enabled_colors(&mut self, enabled: bool)
        ensures
            *final(self) == (DLog { show_color_enabled: enabled, ..*old(self) }),
    {
        self.show_color_enabled = enabled;
    }

    /// Enables or disables the timestamp prefix.
    pub fn enable_timestamp_print(&mut self, enabled: bool)
        ensures
            *final(self) == (DLog { show_timestamp_enabled: enabled, ..*old(self) }),
    {
        self.show_timestamp_enabled = enabled;
    }

    /// Enables or disables the level tag prefix.
    pub fn enable_level_print(&mut self, enabled: bool)
        ensures
            *final(self) == (DLog { show_level_enabled: enabled, ..*old(self) }),
    {
        self.show_level_enabled = enabled;
    }

    /// What any one unconditional emission leaves behind: the configuration
    /// is untouched, and with an active file sink the journal grows as one
    /// guarded write says.
    pub open spec fn spec_emit_post(pre: DLog, post: DLog, level: Level, msg: Seq<char>) -> bool {
        &&& pre.same_config(post)
        &&& (pre.file_active() ==> exists|ts1: Seq<char>, ts2: Seq<char>, rot: bool|
            DLog::spec_write_post(pre, post, level, msg, ts1, ts2, rot))
        &&& (!pre.file_active() ==> post == pre)
    }

    /// Logs `msg` at the `Error` level on every enabled sink; a record more
    /// verbose than the threshold is silently suppressed.
    pub fn e(&mut self, msg: &str)
        ensures
            spec_level_passes(old(self).level, Level::Error) ==> DLog::spec_emit_post(
                *old(self),
                *final(self),
                Level::Error,
                msg@,
            ),
            !spec_level_passes(old(self).level, Level::Error) ==> *final(self) == *old(self),
    {
        if level_passes(self.level, Level::Error) {
            let rotate = self.write(Level::Error, msg);
            proof {
                self.lemma_emit_post(*old(self), Level::Error, msg@, rotate);
            }
        }
    }

    /// Logs `msg` at the `Warn` level on every enabled sink; a record more
    /// verbose than the threshold is silently suppressed.
    pub fn w(&mut self, msg: &str)
        ensures
            spec_level_passes(old(self).level, Level::Warn) ==> DLog::spec_emit_post(
                *old(self),
                *final(self),
                Level::Warn,
                msg@,
            ),
            !spec_level_passes(old(self).level, Level::Warn) ==> *final(self) == *old(self),
    {
        if level_passes(self.level, Level::Warn) {
            let rotate = self.write(Level::Warn, msg);
            proof {
                self.lemma_emit_post(*old(self), Level::Warn, msg@, rotate);
            }
        }
    }

    /// Logs `msg` at the `Info` level on every enabled sink; a record more
    /// verbose than the threshold is silently suppressed.
    pub fn i(&mut self, msg: &str)
        ensures
            spec_level_passes(old(self).level, Level::Info) ==> DLog::spec_emit_post(
                *old(self),
                *final(self),
                Level::Info,
                msg@,
            ),
            !spec_level_passes(old(self).level, Level::Info) ==> *final(self) == *old(self),
    {
        if level_passes(self.level, Level::Info) {
            let rotate = self.write(Level::Info, msg);
            proof {
                self.lemma_emit_post(*old(self), Level::Info, msg@, rotate);
            }
        }
    }

    /// Logs `msg` at the `Debug` level on every enabled sink; a record more
    /// verbose than the threshold is silently suppressed.
    pub fn d(&mut self, msg: &str)
        ensures
            spec_level_passes(old(self).level, Level::Debug) ==> DLog::spec_emit_post(
                *old(self),
                *final(self),
                Level::Debug,
                msg@,
            ),
            !spec_level_passes(old(self).level, Level::Debug) ==> *final(self) == *old(self),
    {
        if level_passes(self.level, Level::Debug) {
            let rotate = self.write(Level::Debug, msg);
            proof {
                self.lemma_emit_post(*old(self), Level::Debug, msg@, rotate);
            }
        }
    }

    /// Logs `msg` at the `Trace` level on every enabled sink; a record more
    /// verbose than the threshold is silently suppressed.
    pub fn t(&mut self, msg: &str)
        ensures
            spec_level_passes(old(self).level, Level::Trace) ==> DLog::spec_emit_post(
                *old(self),
                *final(self),
                Level::Trace,
                msg@,
            ),
            !spec_level_passes(old(self).level, Level::Trace) ==> *final(self) == *old(self),
    {
        if level_passes(self.level, Level::Trace) {
            let rotate = self.write(Level::Trace, msg);
            proof {
                self.lemma_emit_post(*old(self), Level::Trace, msg@, rotate);
            }
        }
    }

    /// Bundles one guarded write's outcome into the shape the per-level
    /// methods promise.
    proof fn lemma_emit_post(&self, pre: DLog, level: Level, msg: Seq<char>, rotate: bool)
        requires
            pre.same_config(*self),
            pre.file_active() ==> exists|ts1: Seq<char>, ts2: Seq<char>|
                DLog::spec_write_post(pre, *self, level, msg, ts1, ts2, rotate),
            !pre.file_active() ==> *self == pre,
        ensures
            DLog::spec_emit_post(pre, *self, level, msg),
    {
        if pre.file_active() {
            let (a, b): (Seq<char>, Seq<char>) = choose|a: Seq<char>, b: Seq<char>|
                DLog::spec_write_post(pre, *self, level, msg, a, b, rotate);
            assert(DLog::spec_write_post(pre, *self, level, msg, a, b, rotate));
        }
    }

    /// A record with the given target and level passes this configuration:
    /// its level is at most as verbose as the threshold (under `Off` nothing
    /// passes), and, when a target filter is set, its target starts with the
    /// filter.
    pub open spec fn spec_enabled(self, target: Seq<char>, level: Level) -> bool {
        &&& spec_level_passes(self.level, level)
        &&& (match self.target {
            Some(t) => spec_is_prefix(t@, target),
            None => true,
        })
    }

    /// Decides whether a record with the given target and level passes.
    pub fn enabled(&self, target: &str, level: Level) -> (r: bool)
        ensures
            r == self.spec_enabled(target@, level),
    {
        if !level_passes(self.level, level) {
            return false;
        }
        match &self.target {
            Some(t) => starts_with(target, t.as_str()),
            None => true,
        }
    }

    /// Emits one record through the filter: a record that does not pass
    /// leaves the logger exactly as it was; one that passes is written to
    /// every enabled sink as `write` says. The result reports whether the
    /// file sink then stood over the size threshold, in which case the caller
    /// holds the directory listing and runs `rotate_files` on it.
    pub fn log(&mut self, level: Level, target: &str, msg: &str) -> (rotate: bool)
        ensures
            old(self).same_config(*final(self)),
            !old(self).spec_enabled(target@, level) ==> *final(self) == *old(self) && !rotate,
            old(self).spec_enabled(target@, level) && old(self).file_active() ==> exists|
                ts1: Seq<char>,
                ts2: Seq<char>,
            | DLog::spec_write_post(*old(self), *final(self), level, msg@, ts1, ts2, rotate),
            old(self).spec_enabled(target@, level) && !old(self).file_active() ==> *final(self)
                == *old(self) && !rotate,
    {
        if self.enabled(target, level) {
            self.write(level, msg)
        } else {
            false
        }
    }

    /// Nothing is buffered, so there is nothing to flush.
    pub fn flush(&self) {
    }

    /// What one retention evaluation that reached the count leaves behind:
    /// `sorted` is the listing in lexicographic order, and the journal grew
    /// by two notice lines, the second naming the file at the count's
    /// position in that order — the deletion candidate. Nothing else
    /// happens: no file is deleted, renamed or reopened.
    pub open spec fn spec_rotate_post(
        pre: DLog,
        post: DLog,
        files: Seq<String>,
        sorted: Seq<String>,
        ts1: Seq<char>,
        ts2: Seq<char>,
    ) -> bool {
        &&& spec_sorted_strings(sorted)
        &&& sorted.to_multiset() == files.to_multiset()
        &&& sorted.len() == files.len()
        &&& post.file_journal() == pre.file_journal() + pre.spec_plain_append(
            Level::Trace,
            "Files that needs to be deleted:"@,
            ts1,
        ) + pre.spec_plain_append(Level::Trace, sorted[pre.max_files_count - 1]@, ts2)
    }

    /// Runs the retention evaluation on the directory listing `files`: the
    /// sibling files of the log's extension. When a retention count is set
    /// and the listing has reached it, the file at the count's position in
    /// lexicographic order is named in two notice lines written to the
    /// enabled sinks — and nothing more: no file is deleted, renamed or
    /// reopened, the policy's enforcement being left open by design.
    pub fn rotate_files(&mut self, files: Vec<String>)
        ensures
            old(self).same_config(*final(self)),
            (old(self).max_files_count == 0 || files@.len() < old(self).max_files_count)
                ==> *final(self) == *old(self),
            (old(self).max_files_count > 0 && files@.len() >= old(self).max_files_count)
                ==> exists|sorted: Seq<String>, ts1: Seq<char>, ts2: Seq<char>|
                DLog::spec_rotate_post(*old(self), *final(self), files@, sorted, ts1, ts2),
    {
        let mut fs = files;
        sort_strings(&mut fs);
        if self.max_files_count > 0 && (fs.len() as u64) >= self.max_files_count {
            let ghost pre = *self;
            self.write_unguarded(Level::Trace, "Files that needs to be deleted:");
            let ghost mid = *self;
            let ghost ts1 = choose|t: Seq<char>|
                mid.file_journal() == pre.file_journal() + pre.spec_plain_append(
                    Level::Trace,
                    "Files that needs to be deleted:"@,
                    t,
                );
            proof {
                assert(old(self).max_files_count - 1 < fs@.len());
            }
            let idx: usize = (self.max_files_count - 1) as usize;
            let candidate: &String = &fs[idx];
            self.write_unguarded(Level::Trace, candidate.as_str());
            proof {
                assert(pre == *old(self));
                assert(idx as int == old(self).max_files_count - 1);
                let ts2 = choose|t: Seq<char>|
                    self.file_journal() == mid.file_journal() + mid.spec_plain_append(
                        Level::Trace,
                        fs@[idx as int]@,
                        t,
                    );
                assert(mid.spec_plain_append(Level::Trace, fs@[idx as int]@, ts2) == pre
                    .spec_plain_append(Level::Trace, fs@[idx as int]@, ts2));
                assert(self.file_journal() == pre.file_journal() + pre.spec_plain_append(
                    Level::Trace,
                    "Files that needs to be deleted:"@,
                    ts1,
                ) + pre.spec_plain_append(Level::Trace, fs@[idx as int]@, ts2));
                assert(DLog::spec_rotate_post(*old(self), *self, files@, fs@, ts1, ts2));
            }
        }
    }

    /// The status report: every current setting rendered on a line of its
    /// own, framed by two banner lines.
    pub open spec fn spec_status(self) -> Seq<char> {
        "----------- dlog current settings -----------\nShow Colors       =  "@ + spec_bool_str(
            self.show_color_enabled,
        ) + "\nShow Level        =  "@ + spec_bool_str(self.show_level_enabled)
            + "\nShow Timestamp    =  "@ + spec_bool_str(self.show_timestamp_enabled)
            + "\nTimestamp Format  =  "@ + self.timestamp_format@ + "\nTags separator    =  '"@
            + self.separator@ + "'\nLevel             =  "@ + spec_filter_name(self.level)
            + "\nLog on stdout     =  "@ + spec_bool_str(self.log_on_stdout)
            + "\nLog on file       =  "@ + spec_bool_str(self.log_on_file) + "\n"@ + (if self.log_on_file {
            "Current filename  =  "@ + self.filename@ + "\n"@
        } else {
            Seq::<char>::empty()
        }) + "Max file size     =  "@ + (if self.max_file_size > 0 {
            spec_decimal(self.max_file_size as int)
        } else {
            "no limit"@
        }) + "\nMax files count   =  "@ + (if self.max_files_count > 0 {
            spec_decimal(self.max_files_count as int)
        } else {
            "no limit"@
        }) + "\n---------------------------------------------"@
    }

    /// Renders the status report: a human-readable snapshot of every current
    /// setting, framed by banner lines.
    #[verifier::rlimit(50)]
    pub fn get_status(&self) -> (r: String)
        ensures
            r@ == self.spec_status(),
    {
        let mut out = String::new();
        out.append("----------- dlog current settings -----------\nShow Colors       =  ");
        out.append(bool_str(self.show_color_enabled));
        out.append("\nShow Level        =  ");
        out.append(bool_str(self.show_level_enabled));
        out.append("\nShow Timestamp    =  ");
        out.append(bool_str(self.show_timestamp_enabled));
        out.append("\nTimestamp Format  =  ");
        out.append(self.timestamp_format.as_str());
        out.append("\nTags separator    =  '");
        out.append(self.separator.as_str());
        out.append("'\nLevel             =  ");
        out.append(filter_name(self.level));
        out.append("\nLog on stdout     =  ");
        out.append(bool_str(self.log_on_stdout));
        out.append("\nLog on file       =  ");
        out.append(bool_str(self.log_on_file));
        out.append("\n");
        if self.log_on_file {
            out.append("Current filename  =  ");
            out.append(self.filename.as_str());
            out.append("\n");
        }
        out.append("Max file size     =  ");
        if self.max_file_size > 0 {
            let n = u64_to_string(self.max_file_size);
            out.append(n.as_str());
        } else {
            out.append("no limit");
        }
        out.append("\nMax files count   =  ");
        if self.max_files_count > 0 {
            let n = u64_to_string(self.max_files_count);
            out.append(n.as_str());
        } else {
            out.append("no limit");
        }
        out.append("\n---------------------------------------------");
        proof {
            assert(out@ =~= self.spec_status());
        }
        out
    }

    /// The fixed-width tag printed for a record level.
    pub fn level_to_str(&self, level: Level) -> (r: &'static str)
        ensures
            r@ == spec_tag(level),
    {
        level_tag(level)
    }

    /// The ANSI color sequence that opens a colorized console line.
    pub fn level_to_color(&self, level: Level) -> (r: &'static str)
        ensures
            r@ == spec_color(level),
    {
        level_color(level)
    }

    /// The name is that of a sibling log file: it carries the same extension
    /// as the active log file, compared without regard to ASCII case.
    pub open spec fn spec_is_log_sibling(self, name: Seq<char>) -> bool {
        match (spec_extension(name), spec_extension(self.filename@)) {
            (Some(a), Some(b)) => spec_eq_ignore_case(a, b),
            _ => false,
        }
    }

    /// Decides whether `name` is a sibling log file of the active log file.
    pub fn is_log_sibling(&self, name: &str) -> (r: bool)
        ensures
            r == self.spec_is_log_sibling(name@),
    {
        let own = extension_of(self.filename.as_str());
        let other = extension_of(name);
        match (other, own) {
            (Some(a), Some(b)) => eq_ignore_case(a.as_str(), b.as_str()),
            _ => false,
        }
    }

    /// The entries of a directory listing that are sibling log files, in
    /// their listed order.
    pub open spec fn spec_keep_siblings(self, names: Seq<String>) -> Seq<String>
        decreases names.len(),
    {
        if names.len() == 0 {
            Seq::empty()
        } else {
            self.spec_keep_siblings(names.drop_last()) + (if self.spec_is_log_sibling(
                names.last()@,
            ) {
                seq![names.last()]
            } else {
                Seq::empty()
            })
        }
    }

    /// Keeps the entries of a directory listing that share the active log
    /// file's extension: the listing the retention check runs on.
    pub fn filter_log_files(&self, names: Vec<String>) -> (r: Vec<String>)
        ensures
            r@ == self.spec_keep_siblings(names@),
    {
        let mut out: Vec<String> = Vec::new();
        proof {
            assert(names@.take(0) =~= Seq::<String>::empty());
            assert(out@ =~= self.spec_keep_siblings(names@.take(0)));
        }
        let mut i: usize = 0;
        while i < names.len()
            invariant
                i <= names@.len(),
                out@ == self.spec_keep_siblings(names@.take(i as int)),
            decreases names@.len() - i,
        {
            let keep = self.is_log_sibling(names[i].as_str());
            let ghost pre = out@;
            if keep {
                out.push(names[i].clone());
            }
            proof {
                assert(names@.take(i + 1).drop_last() =~= names@.take(i as int));
                assert(names@.take(i + 1).last() == names@[i as int]);
                if keep {
                    assert(out@ =~= pre + seq![names@[i as int]]);
                } else {
                    assert(out@ =~= pre + Seq::<String>::empty());
                }
                assert(out@ =~= self.spec_keep_siblings(names@.take(i + 1)));
            }
            i = i + 1;
        }
        proof {
            assert(names@.take(names@.len() as int) =~= names@);
        }
        out
    }

    /// Everything the file sink has received, oldest first; empty while no
    /// sink is open.
    pub fn file_content(&self) -> (r: &str)
        ensures
            r@ == self.file_journal(),
    {
        match &self.file {
            Some(f) => f.content.as_str(),
            None => {
                proof {
                    reveal_strlit("");
                    assert(""@ =~= Seq::<char>::empty());
                }
                ""
            },
        }
    }
}

} // verus!
