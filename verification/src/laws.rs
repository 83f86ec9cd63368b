//! The properties the logger is held to, stated on their own: suppression of
//! over-verbose records, one line per emitted record, target filtering,
//! deterministic rendering, the absence of color codes on the file sink, the
//! exact count of color codes on the console sink, and the round trip of the
//! file journal.

use vstd::prelude::*;

use crate::dlog::DLog;
use crate::level::{lemma_color_shape, lemma_tag_shape, spec_level_passes, Level};
use crate::text::{
    count_char, esc, lemma_count_char_concat, lemma_count_char_zero, lemma_journal_round_trip,
    lemma_lines_append, spec_is_prefix, spec_journal, spec_lines,
};

verus! {

/// A record more verbose than the configured threshold never passes the
/// filter, so `log` suppresses it on both sinks and leaves the logger
/// exactly as it was.
pub proof fn lemma_verbose_suppressed(cfg: DLog, target: Seq<char>, level: Level)
    requires
        level.spec_verbosity() > cfg.level.spec_verbosity(),
    ensures
        !cfg.spec_enabled(target, level),
{
}

/// With no target filter set, a record at or under the threshold passes the
/// filter, so `log` writes it to every enabled sink.
pub proof fn lemma_at_or_under_passes(cfg: DLog, target: Seq<char>, level: Level)
    requires
        level.spec_verbosity() <= cfg.level.spec_verbosity(),
        cfg.target is None,
    ensures
        cfg.spec_enabled(target, level),
{
}

/// With a target filter set, a record passes exactly when its level is at or
/// under the threshold and its target starts with the filter.
pub proof fn lemma_target_filter(cfg: DLog, t: String, target: Seq<char>, level: Level)
    requires
        cfg.target == Some(t),
    ensures
        cfg.spec_enabled(target, level) == (spec_level_passes(cfg.level, level) && spec_is_prefix(
            t@,
            target,
        )),
{
}

/// The file handle's lifecycle has no transition besides open and close:
/// emission never touches it. Any operation that keeps the configuration —
/// every write does — keeps a well-formed logger well-formed: the sink stays
/// open, under the same non-empty path.
pub proof fn lemma_emission_preserves_wf(pre: DLog, post: DLog)
    requires
        pre.wf(),
        pre.same_config(post),
    ensures
        post.wf(),
        post.file_active() == pre.file_active(),
{
}

/// Rendering is a function of the configuration, the level, the message and
/// the frozen timestamp alone: two renderings of the same record are
/// byte-identical.
pub proof fn lemma_format_deterministic(
    cfg: DLog,
    level: Level,
    ts: Seq<char>,
    msg: Seq<char>,
    colored: bool,
    r1: Seq<char>,
    r2: Seq<char>,
)
    requires
        r1 == cfg.spec_line(level, ts, msg, colored),
        r2 == cfg.spec_line(level, ts, msg, colored),
    ensures
        r1 == r2,
{
}

/// How many ANSI escape characters one rendered line holds: two on a
/// colorized line — the opening color and the closing reset — and none on a
/// plain line, provided the timestamp, the separator and the message bring
/// none of their own. The file sink always receives the plain rendering, so
/// file output never holds an escape character, whatever the color setting.
pub proof fn lemma_line_ansi_count(cfg: DLog, level: Level, ts: Seq<char>, msg: Seq<char>)
    requires
        count_char(ts, esc()) == 0,
        count_char(cfg.separator@, esc()) == 0,
        count_char(msg, esc()) == 0,
    ensures
        count_char(cfg.spec_line(level, ts, msg, true), esc()) == 2,
        count_char(cfg.spec_line(level, ts, msg, false), esc()) == 0,
{
    lemma_line_char_count(cfg, level, ts, msg, true, esc());
    lemma_line_char_count(cfg, level, ts, msg, false, esc());
    lemma_color_shape(level);
    lemma_tag_shape(level);
}

/// A plain rendered line holds no newline when the timestamp, the separator
/// and the message hold none, so each record closes exactly one journal
/// line.
pub proof fn lemma_line_no_newline(cfg: DLog, level: Level, ts: Seq<char>, msg: Seq<char>)
    requires
        count_char(ts, '\n') == 0,
        count_char(cfg.separator@, '\n') == 0,
        count_char(msg, '\n') == 0,
    ensures
        count_char(cfg.spec_line(level, ts, msg, false), '\n') == 0,
{
    lemma_line_char_count(cfg, level, ts, msg, false, '\n');
    lemma_tag_shape(level);
}

/// The count of any character over one rendered line is the sum of the
/// counts over its segments: the color opening and reset when colorized, the
/// timestamp and separator when enabled, the tag and separator when enabled,
/// and the message.
pub proof fn lemma_line_char_count(
    cfg: DLog,
    level: Level,
    ts: Seq<char>,
    msg: Seq<char>,
    colored: bool,
    c: char,
)
    ensures
        count_char(cfg.spec_line(level, ts, msg, colored), c) == (if colored {
            count_char(crate::level::spec_color(level), c) + count_char(
                crate::level::spec_color_reset(),
                c,
            )
        } else {
            0nat
        }) + (if cfg.show_timestamp_enabled {
            count_char(ts, c) + count_char(cfg.separator@, c)
        } else {
            0nat
        }) + (if cfg.show_level_enabled {
            count_char(crate::level::spec_tag(level), c) + count_char(cfg.separator@, c)
        } else {
            0nat
        }) + count_char(msg, c),
{
    let open_part = if colored {
        crate::level::spec_color(level)
    } else {
        Seq::<char>::empty()
    };
    let ts_part = if cfg.show_timestamp_enabled {
        ts + cfg.separator@
    } else {
        Seq::<char>::empty()
    };
    let tag_part = if cfg.show_level_enabled {
        crate::level::spec_tag(level) + cfg.separator@
    } else {
        Seq::<char>::empty()
    };
    let close_part = if colored {
        crate::level::spec_color_reset()
    } else {
        Seq::<char>::empty()
    };
    lemma_count_char_concat(open_part + ts_part + tag_part + msg, close_part, c);
    lemma_count_char_concat(open_part + ts_part + tag_part, msg, c);
    lemma_count_char_concat(open_part + ts_part, tag_part, c);
    lemma_count_char_concat(open_part, ts_part, c);
    if cfg.show_timestamp_enabled {
        lemma_count_char_concat(ts, cfg.separator@, c);
    }
    if cfg.show_level_enabled {
        lemma_count_char_concat(crate::level::spec_tag(level), cfg.separator@, c);
    }
}

/// One write that did not trip the storage guard — under no size threshold
/// it never does — appends the record's rendered line, closed by one
/// newline, and nothing else; when the line holds no newline of its own,
/// the journal then splits into exactly one more line than before — so N
/// writes from an empty journal read back as exactly N lines, in write
/// order.
pub proof fn lemma_write_appends_one_line(
    pre: DLog,
    post: DLog,
    level: Level,
    msg: Seq<char>,
    ts1: Seq<char>,
    ts2: Seq<char>,
    rotate: bool,
)
    requires
        pre.max_file_size == 0 || !rotate,
        DLog::spec_write_post(pre, post, level, msg, ts1, ts2, rotate),
        pre.file_journal().len() == 0 || pre.file_journal().last() == '\n',
        count_char(ts1, '\n') == 0,
        count_char(pre.separator@, '\n') == 0,
        count_char(msg, '\n') == 0,
    ensures
        !rotate,
        post.file_journal() == pre.file_journal() + pre.spec_line(level, ts1, msg, false) + seq![
            '\n',
        ],
        spec_lines(post.file_journal()) == spec_lines(pre.file_journal()).push(
            pre.spec_line(level, ts1, msg, false),
        ),
        post.file_journal().len() > 0 && post.file_journal().last() == '\n',
{
    let line = pre.spec_line(level, ts1, msg, false);
    lemma_line_no_newline(pre, level, ts1, msg);
    lemma_count_char_zero(line, '\n');
    lemma_lines_append(pre.file_journal(), line);
    assert(pre.file_journal() + line + seq!['\n'] == post.file_journal());
    assert(post.file_journal().last() == '\n');
}

/// Round trip of the file sink: a journal built from newline-free records
/// splits back into exactly those records, in the order they were written —
/// append-only, nothing reordered.
pub proof fn lemma_journal_reads_back(records: Seq<Seq<char>>)
    requires
        forall|k: int, i: int|
            0 <= k < records.len() && 0 <= i < records[k].len() ==> records[k][i] != '\n',
    ensures
        spec_lines(spec_journal(records)) == records,
{
    lemma_journal_round_trip(records);
}

} // verus!
