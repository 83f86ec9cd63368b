//! Log levels, level filters, their fixed-width tags, their console colors,
//! and case-insensitive parsing of filter names.

use vstd::prelude::*;

use crate::text::{count_char, esc, lemma_count_char_one, lemma_count_char_zero};

verus! {

/// Severity of a single log record, ordered from least verbose (`Error`) to
/// most verbose (`Trace`).
#[derive(Clone, Copy, Debug, PartialEq, Eq, Structural)]
pub enum Level {
    Error,
    Warn,
    Info,
    Debug,
    Trace,
}

/// Threshold applied to log records: a record passes only when its level is
/// at most as verbose as the filter. `Off` suppresses every record.
#[derive(Clone, Copy, Debug, PartialEq, Eq, Structural)]
pub enum LevelFilter {
    Off,
    Error,
    Warn,
    Info,
    Debug,
    Trace,
}

impl Level {
    /// Verbosity rank of a record level: `Error` is 1, `Trace` is 5.
    pub open spec fn spec_verbosity(self) -> int {
        match self {
            Level::Error => 1,
            Level::Warn => 2,
            Level::Info => 3,
            Level::Debug => 4,
            Level::Trace => 5,
        }
    }

    /// Verbosity rank of a record level: `Error` is 1, `Trace` is 5.
    pub fn verbosity(self) -> (v: u8)
        ensures
            v as int == self.spec_verbosity(),
    {
        match self {
            Level::Error => 1,
            Level::Warn => 2,
            Level::Info => 3,
            Level::Debug => 4,
            Level::Trace => 5,
        }
    }
}

impl LevelFilter {
    /// Verbosity rank of a filter: `Off` is 0, so that no record level is at
    /// or under it; `Trace` is 5, so that every record level is.
    pub open spec fn spec_verbosity(self) -> int {
        match self {
            LevelFilter::Off => 0,
            LevelFilter::Error => 1,
            LevelFilter::Warn => 2,
            LevelFilter::Info => 3,
            LevelFilter::Debug => 4,
            LevelFilter::Trace => 5,
        }
    }

    /// Verbosity rank of a filter: `Off` is 0, `Trace` is 5.
    pub fn verbosity(self) -> (v: u8)
        ensures
            v as int == self.spec_verbosity(),
    {
        match self {
            LevelFilter::Off => 0,
            LevelFilter::Error => 1,
            LevelFilter::Warn => 2,
            LevelFilter::Info => 3,
            LevelFilter::Debug => 4,
            LevelFilter::Trace => 5,
        }
    }
}

/// A record at `level` passes the threshold `filter` when it is at most as
/// verbose as the threshold; under `Off` nothing passes.
pub open spec fn spec_level_passes(filter: LevelFilter, level: Level) -> bool {
    level.spec_verbosity() <= filter.spec_verbosity()
}

/// Decides whether a record at `level` passes the threshold `filter`.
pub fn level_passes(filter: LevelFilter, level: Level) -> (r: bool)
    ensures
        r == spec_level_passes(filter, level),
{
    level.verbosity() <= filter.verbosity()
}

/// The fixed-width tag printed for a record level, always six characters so
/// that columns align across levels.
pub open spec fn spec_tag(level: Level) -> Seq<char> {
    match level {
        Level::Error => "ERROR "@,
        Level::Warn => "WARN  "@,
        Level::Info => "INFO  "@,
        Level::Debug => "DEBUG "@,
        Level::Trace => "TRACE "@,
    }
}

/// The fixed-width tag printed for a record level.
pub fn level_tag(level: Level) -> (r: &'static str)
    ensures
        r@ == spec_tag(level),
{
    match level {
        Level::Error => "ERROR ",
        Level::Warn => "WARN  ",
        Level::Info => "INFO  ",
        Level::Debug => "DEBUG ",
        Level::Trace => "TRACE ",
    }
}

/// The ANSI color sequence that opens a colorized console line at the given
/// level. `Info` keeps the terminal's default color.
pub open spec fn spec_color(level: Level) -> Seq<char> {
    match level {
        Level::Error => "\x1B[38;5;196m"@,
        Level::Warn => "\x1B[38;5;11m"@,
        Level::Info => "\x1B[0m"@,
        Level::Debug => "\x1B[38;5;14m"@,
        Level::Trace => "\x1B[38;5;10m"@,
    }
}

/// The ANSI color sequence that opens a colorized console line.
pub fn level_color(level: Level) -> (r: &'static str)
    ensures
        r@ == spec_color(level),
{
    match level {
        Level::Error => "\x1B[38;5;196m",
        Level::Warn => "\x1B[38;5;11m",
        Level::Info => "\x1B[0m",
        Level::Debug => "\x1B[38;5;14m",
        Level::Trace => "\x1B[38;5;10m",
    }
}

/// The ANSI sequence that restores the terminal's default color at the end of
/// a colorized console line.
pub open spec fn spec_color_reset() -> Seq<char> {
    "\x1B[0m"@
}

/// The ANSI sequence that restores the terminal's default color.
pub fn color_reset() -> (r: &'static str)
    ensures
        r@ == spec_color_reset(),
{
    "\x1B[0m"
}

/// The name under which a filter is printed and parsed.
pub open spec fn spec_filter_name(filter: LevelFilter) -> Seq<char> {
    match filter {
        LevelFilter::Off => "OFF"@,
        LevelFilter::Error => "ERROR"@,
        LevelFilter::Warn => "WARN"@,
        LevelFilter::Info => "INFO"@,
        LevelFilter::Debug => "DEBUG"@,
        LevelFilter::Trace => "TRACE"@,
    }
}

/// The name under which a filter is printed and parsed.
pub fn filter_name(filter: LevelFilter) -> (r: &'static str)
    ensures
        r@ == spec_filter_name(filter),
{
    match filter {
        LevelFilter::Off => "OFF",
        LevelFilter::Error => "ERROR",
        LevelFilter::Warn => "WARN",
        LevelFilter::Info => "INFO",
        LevelFilter::Debug => "DEBUG",
        LevelFilter::Trace => "TRACE",
    }
}

/// The fixed-width tags are six characters wide and hold neither an ANSI
/// escape character nor a newline.
pub proof fn lemma_tag_shape(level: Level)
    ensures
        spec_tag(level).len() == 6,
        count_char(spec_tag(level), esc()) == 0,
        count_char(spec_tag(level), '\n') == 0,
{
    let t = spec_tag(level);
    match level {
        Level::Error => {
            reveal_strlit("ERROR ");
            assert(t =~= seq!['E', 'R', 'R', 'O', 'R', ' ']);
        },
        Level::Warn => {
            reveal_strlit("WARN  ");
            assert(t =~= seq!['W', 'A', 'R', 'N', ' ', ' ']);
        },
        Level::Info => {
            reveal_strlit("INFO  ");
            assert(t =~= seq!['I', 'N', 'F', 'O', ' ', ' ']);
        },
        Level::Debug => {
            reveal_strlit("DEBUG ");
            assert(t =~= seq!['D', 'E', 'B', 'U', 'G', ' ']);
        },
        Level::Trace => {
            reveal_strlit("TRACE ");
            assert(t =~= seq!['T', 'R', 'A', 'C', 'E', ' ']);
        },
    }
    assert(forall|i: int| 0 <= i < t.len() ==> t[i] != esc());
    assert(forall|i: int| 0 <= i < t.len() ==> t[i] != '\n');
    lemma_count_char_zero(t, esc());
    lemma_count_char_zero(t, '\n');
}

/// Every opening color sequence, and the closing reset, holds exactly one
/// ANSI escape character, at its start, and no newline.
pub proof fn lemma_color_shape(level: Level)
    ensures
        count_char(spec_color(level), esc()) == 1,
        count_char(spec_color(level), '\n') == 0,
        count_char(spec_color_reset(), esc()) == 1,
        count_char(spec_color_reset(), '\n') == 0,
{
    let r = spec_color_reset();
    reveal_strlit("\x1B[0m");
    assert(r =~= seq!['\x1B', '[', '0', 'm']);
    assert(r[0] == esc());
    assert(forall|i: int| 1 <= i < r.len() ==> r[i] != esc());
    lemma_count_char_one(r, esc());
    assert(forall|i: int| 0 <= i < r.len() ==> r[i] != '\n');
    lemma_count_char_zero(r, '\n');
    let t = spec_color(level);
    match level {
        Level::Error => {
            reveal_strlit("\x1B[38;5;196m");
            assert(t =~= seq!['\x1B', '[', '3', '8', ';', '5', ';', '1', '9', '6', 'm']);
        },
        Level::Warn => {
            reveal_strlit("\x1B[38;5;11m");
            assert(t =~= seq!['\x1B', '[', '3', '8', ';', '5', ';', '1', '1', 'm']);
        },
        Level::Info => {
            assert(t == r);
        },
        Level::Debug => {
            reveal_strlit("\x1B[38;5;14m");
            assert(t =~= seq!['\x1B', '[', '3', '8', ';', '5', ';', '1', '4', 'm']);
        },
        Level::Trace => {
            reveal_strlit("\x1B[38;5;10m");
            assert(t =~= seq!['\x1B', '[', '3', '8', ';', '5', ';', '1', '0', 'm']);
        },
    }
    assert(t[0] == esc());
    assert(forall|i: int| 1 <= i < t.len() ==> t[i] != esc());
    lemma_count_char_one(t, esc());
    assert(forall|i: int| 0 <= i < t.len() ==> t[i] != '\n');
    lemma_count_char_zero(t, '\n');
}

/// ASCII case folding on a single character: the code point of `c`, with the
/// upper-case letters `A` through `Z` mapped onto their lower-case forms.
pub open spec fn spec_fold(c: char) -> int {
    if 65 <= c as u32 && c as u32 <= 90 {
        c as u32 + 32
    } else {
        c as u32 as int
    }
}

/// ASCII case folding on a single character.
pub fn fold_char(c: char) -> (r: u32)
    ensures
        r as int == spec_fold(c),
{
    let u = c as u32;
    if 65 <= u && u <= 90 {
        u + 32
    } else {
        u
    }
}

/// Two strings are equal up to ASCII case when they have the same length and
/// fold to the same characters position by position.
pub open spec fn spec_eq_ignore_case(a: Seq<char>, b: Seq<char>) -> bool {
    a.len() == b.len() && (forall|i: int| 0 <= i < a.len() ==> spec_fold(a[i]) == spec_fold(b[i]))
}

/// Compares two strings for equality up to ASCII case.
pub fn eq_ignore_case(a: &str, b: &str) -> (r: bool)
    ensures
        r == spec_eq_ignore_case(a@, b@),
{
    let a_len = a.unicode_len();
    let b_len = b.unicode_len();
    if a_len != b_len {
        return false;
    }
    let mut i: usize = 0;
    while i < a_len
        invariant
            a_len == a@.len(),
            b_len == b@.len(),
            a_len == b_len,
            i <= a_len,
            forall|j: int| 0 <= j < i ==> spec_fold(a@[j]) == spec_fold(b@[j]),
        decreases a_len - i,
    {
        if fold_char(a.get_char(i)) != fold_char(b.get_char(i)) {
            return false;
        }
        i = i + 1;
    }
    true
}

/// The filter named by `s`, compared without regard to ASCII case; `None`
/// when `s` names no filter.
pub open spec fn spec_parse_filter(s: Seq<char>) -> Option<LevelFilter> {
    if spec_eq_ignore_case(s, "OFF"@) {
        Some(LevelFilter::Off)
    } else if spec_eq_ignore_case(s, "ERROR"@) {
        Some(LevelFilter::Error)
    } else if spec_eq_ignore_case(s, "WARN"@) {
        Some(LevelFilter::Warn)
    } else if spec_eq_ignore_case(s, "INFO"@) {
        Some(LevelFilter::Info)
    } else if spec_eq_ignore_case(s, "DEBUG"@) {
        Some(LevelFilter::Debug)
    } else if spec_eq_ignore_case(s, "TRACE"@) {
        Some(LevelFilter::Trace)
    } else {
        None
    }
}

/// Parses a filter name, without regard to ASCII case.
pub fn parse_filter(s: &str) -> (r: Option<LevelFilter>)
    ensures
        r == spec_parse_filter(s@),
{
    if eq_ignore_case(s, "OFF") {
        Some(LevelFilter::Off)
    } else if eq_ignore_case(s, "ERROR") {
        Some(LevelFilter::Error)
    } else if eq_ignore_case(s, "WARN") {
        Some(LevelFilter::Warn)
    } else if eq_ignore_case(s, "INFO") {
        Some(LevelFilter::Info)
    } else if eq_ignore_case(s, "DEBUG") {
        Some(LevelFilter::Debug)
    } else if eq_ignore_case(s, "TRACE") {
        Some(LevelFilter::Trace)
    } else {
        None
    }
}

} // verus!
