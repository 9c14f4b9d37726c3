//! The logger: owns a label, its derived color, the filter rules captured at
//! construction, and the timestamp of its last emitted line. A log call that
//! the filter admits composes one line of colorized label, message and
//! elapsed-time suffix, writes it to standard output, and advances the
//! timestamp; a suppressed call changes nothing.

use crate::color::colorize;
use crate::color::spec_color_for;
use crate::color::spec_colorize;
use crate::color::xterm_color_index_for_string;
use crate::filter::parse_filter;
use crate::filter::rule_models;
use crate::filter::spec_matches;
use crate::filter::spec_parse;
use crate::filter::FilterRule;
use crate::text::dec_rep;
use crate::text::u64_to_dec;
use std::io::Write;
use vstd::prelude::*;

verus! {

#[verifier::external_type_specification]
#[verifier::external_body]
pub struct ExInstant(std::time::Instant);

#[verifier::external_type_specification]
#[verifier::external_body]
pub struct ExArguments<'a>(core::fmt::Arguments<'a>);

/// Relies on std::time::Instant::now: an opaque reading of the monotonic
/// clock, used only as the anchor that later readings are measured from.
#[verifier::external_body]
fn instant_now() -> std::time::Instant {
    std::time::Instant::now()
}

/// Relies on std::time::Instant::elapsed and Duration::as_millis: the whole
/// milliseconds since the anchor was taken. The clock decides the value, so
/// nothing is promised of it.
#[verifier::external_body]
fn millis_since(anchor: &std::time::Instant) -> u64 {
    anchor.elapsed().as_millis() as u64
}

/// Relies on writeln and std::io::Stdout: writes the line and a newline to
/// standard output, best effort.
#[verifier::external_body]
fn emit_line(line: &str) {
    let _ = writeln!(std::io::stdout(), "{}", line);
}

/// Relies on core::fmt::write: renders the format arguments into a fresh
/// string. A formatting error is discarded, leaving the text rendered so
/// far, so the call never panics and never interrupts the caller.
#[verifier::external_body]
fn format_args_string(args: core::fmt::Arguments<'_>) -> String {
    let mut msg = String::new();
    let _ = core::fmt::write(&mut msg, args);
    msg
}

/// The elapsed-time suffix: the fixed zero marker before any line was
/// emitted, else a `+` and the whole milliseconds since the last emission
/// (zero when the clock reads earlier than the stored timestamp).
pub open spec fn spec_elapsed_suffix(last: Option<u64>, now_ms: u64) -> Seq<char> {
    match last {
        None => seq!['+', '0'],
        Some(t) => seq!['+'] + dec_rep(if now_ms >= t {
            (now_ms - t) as nat
        } else {
            0
        }),
    }
}

/// Renders the elapsed-time suffix for a log call at `now_ms`.
pub fn elapsed_suffix(last: Option<u64>, now_ms: u64) -> (s: String)
    ensures
        s@ == spec_elapsed_suffix(last, now_ms),
{
    match last {
        None => {
            let s = String::from_str("+0");
            proof {
                reveal_strlit("+0");
                assert(s@ =~= seq!['+', '0']);
            }
            s
        },
        Some(t) => {
            let d: u64 = if now_ms >= t {
                now_ms - t
            } else {
                0
            };
            let mut s = String::from_str("+");
            s.append(u64_to_dec(d).as_str());
            proof {
                reveal_strlit("+");
                assert(s@ =~= spec_elapsed_suffix(last, now_ms));
            }
            s
        },
    }
}

/// One line of output: colorized label, the message, and the colorized
/// elapsed-time suffix, separated by single spaces.
pub open spec fn spec_entry_line(
    colored_label: Seq<char>,
    message: Seq<char>,
    color: u8,
    last: Option<u64>,
    now_ms: u64,
) -> Seq<char> {
    colored_label + seq![' '] + message + seq![' '] + spec_colorize(
        color,
        spec_elapsed_suffix(last, now_ms),
    )
}

/// A label-scoped console logger.
///
/// The label and the display color are fixed at construction; the color is a
/// pure function of the label. The filter rules are parsed once, from the
/// specification string given to the constructor, and never re-read. The
/// timestamp of the last emitted line starts empty and advances only on
/// calls that emit. A `Logger` is not synchronized: concurrent `log` calls
/// on one instance need external mutual exclusion.
pub struct Logger {
    pub raw_label: String,
    pub label: String,
    pub filter: Vec<FilterRule>,
    pub color: u8,
    pub anchor: std::time::Instant,
    pub last_log: Option<u64>,
}

impl Logger {
    /// Constructs a logger for a label from a filter specification: the
    /// process-wide specification is passed in by the caller (an absent one
    /// as the empty string, which suppresses every label). Never fails.
    pub fn new(label: &str, filter_spec: &str) -> (l: Logger)
        ensures
            l.raw_label@ == label@,
            l.color == spec_color_for(label@),
            l.label@ == spec_colorize(spec_color_for(label@), label@),
            rule_models(l.filter@) == spec_parse(filter_spec@),
            l.last_log is None,
    {
        let color = xterm_color_index_for_string(label);
        Logger {
            raw_label: String::from_str(label),
            label: colorize(color, label),
            filter: parse_filter(filter_spec),
            color,
            anchor: instant_now(),
            last_log: None,
        }
    }

    /// Whether the filter rules admit this logger's label.
    pub fn should_log(&self) -> (b: bool)
        ensures
            b == spec_matches(rule_models(self.filter@), self.raw_label@),
    {
        crate::filter::matches(&self.filter, self.raw_label.as_str())
    }

    /// Composes the line a log call at `now_ms` would emit.
    pub fn compose_entry(&self, message: &str, now_ms: u64) -> (line: String)
        ensures
            line@ == spec_entry_line(self.label@, message@, self.color, self.last_log, now_ms),
    {
        let suffix = elapsed_suffix(self.last_log, now_ms);
        let colored_suffix = colorize(self.color, suffix.as_str());
        let mut line = self.label.clone();
        line.append(" ");
        line.append(message);
        line.append(" ");
        line.append(colored_suffix.as_str());
        proof {
            reveal_strlit(" ");
            assert(" "@ =~= seq![' ']);
            assert(line@ =~= spec_entry_line(
                self.label@,
                message@,
                self.color,
                self.last_log,
                now_ms,
            ));
        }
        line
    }

    /// Logs a message: a no-op when the filter suppresses the label, with no
    /// observable effect; otherwise writes one composed line to standard
    /// output and advances the last-emission timestamp. The stored timestamp
    /// is captured after the line is emitted and never moves backwards.
    pub fn log(&mut self, message: &str)
        ensures
            final(self).raw_label == old(self).raw_label,
            final(self).label == old(self).label,
            final(self).filter == old(self).filter,
            final(self).color == old(self).color,
            final(self).anchor == old(self).anchor,
            !spec_matches(rule_models(old(self).filter@), old(self).raw_label@)
                ==> *final(self) == *old(self),
            spec_matches(rule_models(old(self).filter@), old(self).raw_label@)
                ==> final(self).last_log is Some,
            spec_matches(rule_models(old(self).filter@), old(self).raw_label@)
                && old(self).last_log is Some
                ==> final(self).last_log->0 >= old(self).last_log->0,
    {
        if !self.should_log() {
            return ;
        }
        let now = millis_since(&self.anchor);
        let line = self.compose_entry(message, now);
        emit_line(line.as_str());
        let stamp = millis_since(&self.anchor);
        let floor: u64 = match self.last_log {
            Some(t0) => if stamp >= t0 {
                stamp
            } else {
                t0
            },
            None => stamp,
        };
        self.last_log = Some(floor);
    }

    /// Formats the arguments with the standard formatting facility and logs
    /// the resulting message, with the same effect as `log`.
    pub fn log_fmt(&mut self, args: core::fmt::Arguments<'_>)
        ensures
            final(self).raw_label == old(self).raw_label,
            final(self).label == old(self).label,
            final(self).filter == old(self).filter,
            final(self).color == old(self).color,
            final(self).anchor == old(self).anchor,
            !spec_matches(rule_models(old(self).filter@), old(self).raw_label@)
                ==> *final(self) == *old(self),
            spec_matches(rule_models(old(self).filter@), old(self).raw_label@)
                ==> final(self).last_log is Some,
            spec_matches(rule_models(old(self).filter@), old(self).raw_label@)
                && old(self).last_log is Some
                ==> final(self).last_log->0 >= old(self).last_log->0,
    {
        let msg = format_args_string(args);
        self.log(msg.as_str());
    }

    /// Constructs a brand-new logger whose label is this one's label, a `:`,
    /// and the suffix. This logger is unaffected and remains usable; the
    /// child re-derives its color, re-parses the given filter specification,
    /// and starts with fresh timing state.
    pub fn extend(&self, extension: &str, filter_spec: &str) -> (child: Logger)
        ensures
            child.raw_label@ == self.raw_label@ + seq![':'] + extension@,
            child.color == spec_color_for(self.raw_label@ + seq![':'] + extension@),
            child.label@ == spec_colorize(
                spec_color_for(self.raw_label@ + seq![':'] + extension@),
                self.raw_label@ + seq![':'] + extension@,
            ),
            rule_models(child.filter@) == spec_parse(filter_spec@),
            child.last_log is None,
    {
        let mut composed = self.raw_label.clone();
        composed.append(":");
        composed.append(extension);
        proof {
            reveal_strlit(":");
            assert(composed@ =~= self.raw_label@ + seq![':'] + extension@);
        }
        Logger::new(composed.as_str(), filter_spec)
    }

    /// Turns this logger into a single-message callable handle. The handle
    /// owns the logger, so repeated invocations continue the same timing
    /// state, exactly as repeated `log` calls on the logger itself would.
    pub fn to_closure(self) -> (f: LogFn)
        ensures
            f.logger == self,
    {
        LogFn { logger: self }
    }
}

/// A single-argument logging callable: invoking it logs the message through
/// the logger it owns.
pub struct LogFn {
    pub logger: Logger,
}

impl LogFn {
    /// Logs the message, with the same effect as `log` on the owned logger.
    pub fn call(&mut self, message: &str)
        ensures
            final(self).logger.raw_label == old(self).logger.raw_label,
            final(self).logger.label == old(self).logger.label,
            final(self).logger.filter == old(self).logger.filter,
            final(self).logger.color == old(self).logger.color,
            final(self).logger.anchor == old(self).logger.anchor,
            !spec_matches(
                rule_models(old(self).logger.filter@),
                old(self).logger.raw_label@,
            ) ==> final(self).logger == old(self).logger,
            spec_matches(rule_models(old(self).logger.filter@), old(self).logger.raw_label@)
                ==> final(self).logger.last_log is Some,
            spec_matches(rule_models(old(self).logger.filter@), old(self).logger.raw_label@)
                && old(self).logger.last_log is Some
                ==> final(self).logger.last_log->0 >= old(self).logger.last_log->0,
    {
        self.logger.log(message);
    }
}

} // verus!
