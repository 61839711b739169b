//! What goes into the log file, for debugging without corrupting the screen.
//!
//! The level is controlled by `KLAWPLY_LOG` = `off|error|warn|info|debug`
//! (default `info`). Never log secrets: pass token *lengths* or [`redact`]ed
//! values, not the tokens themselves.
use crate::config;
use crate::config::{Dir, FilePath};
use crate::decimal;
use crate::text;
use vstd::prelude::*;

verus! {

/// Nothing is logged.
pub const OFF: u8 = 0;

/// Failures.
pub const ERROR: u8 = 1;

/// Failures and what looks wrong.
pub const WARN: u8 = 2;

/// The course of events, too.
pub const INFO: u8 = 3;

/// Everything.
pub const DEBUG: u8 = 4;

/// Rotate (truncate) the log if it grows past this, so it never balloons.
pub const MAX_BYTES: u64 = 4194304;

/// Where the log is kept.
pub fn log_path<P>(data_dir: Dir<P>) -> (r: FilePath<P>)
    ensures
        r@ == (config::FilePathModel { base: data_dir, parts: seq!["klawply.log"@] }),
{
    config::file_in(data_dir, "klawply.log")
}

/// The level that a value of `KLAWPLY_LOG` asks for, whatever its case.
pub open spec fn level_of(value: Seq<char>) -> u8 {
    let v = text::ascii_lowered(value);
    if v == "off"@ || v == "none"@ {
        OFF
    } else if v == "error"@ {
        ERROR
    } else if v == "warn"@ || v == "warning"@ {
        WARN
    } else if v == "debug"@ || v == "trace"@ {
        DEBUG
    } else {
        INFO
    }
}

/// The level that the value of `KLAWPLY_LOG` asks for.
pub fn level(value: Option<String>) -> (r: u8)
    ensures
        r == match value {
            Some(v) => level_of(v@),
            None => level_of(Seq::empty()),
        },
{
    let v = match value {
        Some(v) => text::to_ascii_lower(v.as_str()),
        None => text::to_ascii_lower(String::new().as_str()),
    };
    let s = v.as_str();
    if text::same(s, "off") || text::same(s, "none") {
        OFF
    } else if text::same(s, "error") {
        ERROR
    } else if text::same(s, "warn") || text::same(s, "warning") {
        WARN
    } else if text::same(s, "debug") || text::same(s, "trace") {
        DEBUG
    } else {
        INFO
    }
}

/// Whether a log of `len` bytes has grown too large.
pub fn must_rotate(len: u64) -> (r: bool)
    ensures
        r == (len > 4194304),
{
    len > MAX_BYTES
}

/// The first message of a session. `level` is the value of `KLAWPLY_LOG`.
pub open spec fn banner(pid: nat, level: Option<Seq<char>>) -> Seq<char> {
    "──── klawply session start (pid "@ + decimal::decimal(pid) + ", log level "@ + (match level {
        Some(l) => l,
        None => "info"@,
    }) + ") ────"@
}

/// The first message of a session: the process and the value of `KLAWPLY_LOG`.
pub fn init(pid: u32, level: Option<String>) -> (r: String)
    ensures
        r@ == banner(pid as nat, text::opt_text(level)),
{
    let mut r = text::owned("──── klawply session start (pid ");
    decimal::push_decimal(&mut r, pid as u64);
    r.append(", log level ");
    match level {
        Some(l) => r.append(l.as_str()),
        None => r.append("info"),
    }
    r.append(") ────");
    r
}

/// A moment: whole seconds since the Unix epoch and the milliseconds after.
#[derive(Clone, Copy)]
pub struct Clock {
    /// Whole seconds since the Unix epoch.
    pub secs: u64,
    /// The milliseconds after that.
    pub millis: u32,
}

/// The UTC time of day as `HH:MM:SS.mmm`.
pub open spec fn time_of_day(now: Clock) -> Seq<char> {
    let day = now.secs as nat % 86400;
    decimal::padded(day / 3600, 2) + ":"@ + decimal::padded((day % 3600) / 60, 2) + ":"@
        + decimal::padded(day % 60, 2) + "."@ + decimal::padded(now.millis as nat, 3)
}

/// UTC time-of-day `HH:MM:SS.mmm`: enough to correlate events within a run.
pub fn timestamp(now: Clock) -> (r: String)
    ensures
        r@ == time_of_day(now),
{
    let day: u64 = now.secs % 86400;
    let mut r = decimal::to_padded(day / 3600, 2);
    r.append(":");
    r.append(decimal::to_padded((day % 3600) / 60, 2).as_str());
    r.append(":");
    r.append(decimal::to_padded(day % 60, 2).as_str());
    r.append(".");
    r.append(decimal::to_padded(now.millis as u64, 3).as_str());
    r
}

/// The line for a message of level `msg_level` when `level` is set: none if the
/// message is less important than that.
pub open spec fn log_line(
    level: u8,
    msg_level: u8,
    tag: Seq<char>,
    now: Clock,
    message: Seq<char>,
) -> Option<Seq<char>> {
    if msg_level > level {
        None
    } else {
        Some(time_of_day(now) + " ["@ + tag + "] "@ + message + "\n"@)
    }
}

fn write(level: u8, msg_level: u8, tag: &str, now: Clock, message: &str) -> (r: Option<String>)
    ensures
        text::opt_text(r) == log_line(level, msg_level, tag@, now, message@),
{
    if msg_level > level {
        return None;
    }
    let mut r = timestamp(now);
    r.append(" [");
    r.append(tag);
    r.append("] ");
    r.append(message);
    r.append("\n");
    Some(r)
}

/// The line to append to the log for an error.
pub fn error(level: u8, now: Clock, message: &str) -> (r: Option<String>)
    ensures
        text::opt_text(r) == log_line(level, ERROR, "ERROR"@, now, message@),
{
    write(level, ERROR, "ERROR", now, message)
}

/// The line to append to the log for a warning.
pub fn warn(level: u8, now: Clock, message: &str) -> (r: Option<String>)
    ensures
        text::opt_text(r) == log_line(level, WARN, "WARN "@, now, message@),
{
    write(level, WARN, "WARN ", now, message)
}

/// The line to append to the log for an event.
pub fn info(level: u8, now: Clock, message: &str) -> (r: Option<String>)
    ensures
        text::opt_text(r) == log_line(level, INFO, "INFO "@, now, message@),
{
    write(level, INFO, "INFO ", now, message)
}

/// The line to append to the log for a detail.
pub fn debug(level: u8, now: Clock, message: &str) -> (r: Option<String>)
    ensures
        text::opt_text(r) == log_line(level, DEBUG, "DEBUG"@, now, message@),
{
    write(level, DEBUG, "DEBUG", now, message)
}

/// A secret as it may be shown: its first four characters and its length.
pub open spec fn redacted(secret: Seq<char>) -> Seq<char> {
    if secret.len() == 0 {
        "<empty>"@
    } else {
        secret.take(
            if secret.len() < 4 {
                secret.len() as int
            } else {
                4
            },
        ) + "…<"@ + decimal::decimal(secret.len()) + " chars>"@
    }
}

/// Redacts a secret for logging: keeps the length and a four-character prefix,
/// masks the rest. Use it for anything token-shaped that a log line must
/// mention.
pub fn redact(secret: &str) -> (r: String)
    ensures
        r@ == redacted(secret@),
{
    let v = text::chars_of(secret);
    let n: usize = v.len();
    if n == 0 {
        return text::owned("<empty>");
    }
    let shown: usize = if n < 4 {
        n
    } else {
        4
    };
    let mut r = text::string_between(&v, 0, shown);
    assert(r@ =~= secret@.take(shown as int));
    r.append("…<");
    r.append(decimal::size_decimal(n).as_str());
    r.append(" chars>");
    r
}

// ---------------------------------------------------------------------------
// Laws
// ---------------------------------------------------------------------------
/// With the level `off` nothing is logged.
pub proof fn off_logs_nothing(msg_level: u8, tag: Seq<char>, now: Clock, message: Seq<char>)
    requires
        ERROR <= msg_level <= DEBUG,
    ensures
        log_line(OFF, msg_level, tag, now, message) is None,
{
}

/// What is logged at one level is logged, as it is, at every higher one.
pub proof fn higher_levels_log_more(
    low: u8,
    high: u8,
    msg_level: u8,
    tag: Seq<char>,
    now: Clock,
    message: Seq<char>,
)
    requires
        low <= high,
        log_line(low, msg_level, tag, now, message) is Some,
    ensures
        log_line(high, msg_level, tag, now, message) == log_line(low, msg_level, tag, now, message),
{
}

/// Of a secret nothing but its length and first four characters shows.
pub proof fn redaction_hides_the_rest(a: Seq<char>, b: Seq<char>)
    requires
        a.len() == b.len(),
        forall|i: int| 0 <= i < 4 && i < a.len() ==> #[trigger] a[i] == b[i],
    ensures
        redacted(a) == redacted(b),
{
    let n: int = if a.len() < 4 {
        a.len() as int
    } else {
        4
    };
    assert(a.take(n) =~= b.take(n));
}

/// A line of the log holds the time, the level and the message, and ends there.
pub proof fn lines_hold_the_message(
    level: u8,
    msg_level: u8,
    tag: Seq<char>,
    now: Clock,
    message: Seq<char>,
)
    requires
        msg_level <= level,
    ensures
        log_line(level, msg_level, tag, now, message) == Some(
            time_of_day(now) + " ["@ + tag + "] "@ + message + "\n"@,
        ),
{
}

/// The time of a line is that of the day: its digits stand for the hours, minutes,
/// seconds and milliseconds.
pub proof fn times_are_those_of_the_day(now: Clock, h: nat, m: nat, s: nat, days: nat)
    requires
        now.secs == days * 86400 + h * 3600 + m * 60 + s,
        h < 24,
        m < 60,
        s < 60,
        now.millis < 1000,
    ensures
        ({
            let t = time_of_day(now);
            &&& t.len() == 12
            &&& decimal::number_of(t.subrange(0, 2)) == h
            &&& t[2] == ':'
            &&& decimal::number_of(t.subrange(3, 5)) == m
            &&& t[5] == ':'
            &&& decimal::number_of(t.subrange(6, 8)) == s
            &&& t[8] == '.'
            &&& decimal::number_of(t.subrange(9, 12)) == now.millis
        }),
{
    reveal_strlit(":");
    reveal_strlit(".");
    let day = now.secs as nat % 86400;
    assert(day == h * 3600 + m * 60 + s);
    assert(day / 3600 == h);
    assert((day % 3600) / 60 == m);
    assert(day % 60 == s);
    decimal::padding_keeps_the_number(h, 2);
    decimal::padding_keeps_the_number(m, 2);
    decimal::padding_keeps_the_number(s, 2);
    decimal::padding_keeps_the_number(now.millis as nat, 3);
    reveal_with_fuel(decimal::decimal, 4);
    let t = time_of_day(now);
    assert(t.subrange(0, 2) =~= decimal::padded(h, 2));
    assert(t.subrange(3, 5) =~= decimal::padded(m, 2));
    assert(t.subrange(6, 8) =~= decimal::padded(s, 2));
    assert(t.subrange(9, 12) =~= decimal::padded(now.millis as nat, 3));
}

/// The first message of a session names the process and the level.
pub proof fn the_banner_names_the_session(pid: nat, level: Seq<char>)
    ensures
        banner(pid, Some(level)) == "──── klawply session start (pid "@ + decimal::decimal(pid)
            + ", log level "@ + level + ") ────"@,
        banner(pid, None) == banner(pid, Some("info"@)),
{
}

/// Each word for a level asks for that level, in any case; any other asks for the
/// events.
pub proof fn words_ask_for_levels(value: Seq<char>)
    ensures
        text::ascii_lowered(value) == "off"@ || text::ascii_lowered(value) == "none"@ ==> level_of(
            value,
        ) == 0,
        text::ascii_lowered(value) == "error"@ ==> level_of(value) == 1,
        text::ascii_lowered(value) == "warn"@ || text::ascii_lowered(value) == "warning"@
            ==> level_of(value) == 2,
        text::ascii_lowered(value) == "debug"@ || text::ascii_lowered(value) == "trace"@
            ==> level_of(value) == 4,
        level_of(Seq::empty()) == 3,
{
    reveal_strlit("off");
    reveal_strlit("none");
    reveal_strlit("error");
    reveal_strlit("warn");
    reveal_strlit("warning");
    reveal_strlit("debug");
    reveal_strlit("trace");
    assert("off"@.len() == 3 && "none"@.len() == 4 && "error"@.len() == 5 && "warn"@.len() == 4
        && "warning"@.len() == 7 && "debug"@.len() == 5 && "trace"@.len() == 5);
    assert("none"@[0] == 'n' && "warn"@[0] == 'w' && "error"@[0] == 'e' && "debug"@[0] == 'd'
        && "trace"@[0] == 't');
    assert(text::ascii_lowered(Seq::<char>::empty()).len() == 0);
}

} // verus!
