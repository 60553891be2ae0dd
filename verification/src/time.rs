//! Timers, and the clock text that log lines begin with.

use vstd::prelude::*;
use std::time::{Duration, Instant};
use crate::number::{decimal, decimal_chars, pad_start, pad_start_chars};
use crate::text::{append_chars, chars_of, string_of};

verus! {

/// A point in time, as the standard library's monotonic clock gives it.
#[verifier::external_type_specification]
#[verifier::external_body]
pub struct ExInstant(std::time::Instant);

/// `Instant::now` reads the clock: nothing is known of what it returns.
pub assume_specification[ std::time::Instant::now ]() -> (r: std::time::Instant)
;

/// `Instant::elapsed` measures the time since the instant: nothing is known
/// of what it returns.
pub assume_specification[ std::time::Instant::elapsed ](at: &std::time::Instant) -> (r:
    std::time::Duration)
;

/// The whole seconds of a duration: what `Duration::as_secs` gives for it.
pub uninterp spec fn whole_seconds(d: std::time::Duration) -> u64;

/// The whole milliseconds of the part of a duration that is less than a
/// second: what `Duration::subsec_millis` gives for it.
pub uninterp spec fn milliseconds_beyond(d: std::time::Duration) -> u32;

/// `Duration::as_secs` gives the whole seconds of a duration; the duration
/// alone decides them.
pub assume_specification[ std::time::Duration::as_secs ](d: &std::time::Duration) -> (r: u64)
    ensures
        r == whole_seconds(*d),
;

/// `Duration::subsec_millis` gives the whole milliseconds of the part of a
/// duration that is less than a second: fewer than a thousand; the duration
/// alone decides them.
pub assume_specification[ std::time::Duration::subsec_millis ](d: &std::time::Duration) -> (r:
    u32)
    ensures
        r == milliseconds_beyond(*d),
        r < 1000,
;

/// The clock text of a time of `secs` seconds and `millis` milliseconds:
/// `[ MM:SS:mmm ]`, with minutes and seconds of at least two digits and
/// milliseconds of at least three.
pub open spec fn clock_text(secs: nat, millis: nat) -> Seq<char> {
    "[ "@ + pad_start(decimal(secs / 60), 2, '0') + ":"@ + pad_start(decimal(secs % 60), 2, '0')
        + ":"@ + pad_start(decimal(millis), 3, '0') + " ]"@
}

/// The clock text of a time of `secs` seconds and `millis` milliseconds.
pub fn format_clock(secs: u64, millis: u32) -> (r: String)
    ensures
        r@ == clock_text(secs as nat, millis as nat),
{
    let mut v = chars_of("[ ");
    append_chars(&mut v, &pad_start_chars(&decimal_chars(secs / 60), 2, '0'));
    append_chars(&mut v, &chars_of(":"));
    append_chars(&mut v, &pad_start_chars(&decimal_chars(secs % 60), 2, '0'));
    append_chars(&mut v, &chars_of(":"));
    append_chars(&mut v, &pad_start_chars(&decimal_chars(millis as u64), 3, '0'));
    append_chars(&mut v, &chars_of(" ]"));
    string_of(&v)
}

/// Whether `text` is the clock text of some time.
pub open spec fn is_clock_text(text: Seq<char>) -> bool {
    exists|secs: nat, millis: nat| millis < 1000 && text == #[trigger] clock_text(secs, millis)
}

/// The clock text of a duration: of its whole seconds and of the
/// milliseconds beyond them.
pub open spec fn clock_of(d: Duration) -> Seq<char> {
    clock_text(whole_seconds(d) as nat, milliseconds_beyond(d) as nat)
}

/// The clock text of a duration: of its whole seconds and of the
/// milliseconds beyond them.
pub fn format_duration(duration: Duration) -> (r: String)
    ensures
        r@ == clock_of(duration),
        is_clock_text(r@),
{
    let secs = duration.as_secs();
    let millis = duration.subsec_millis();
    let r = format_clock(secs, millis);
    proof {
        assert(r@ == clock_text(secs as nat, millis as nat));
    }
    r
}

/// Measures the time since the system started.
pub struct SystemTimer {
    start: Instant,
}

impl SystemTimer {
    /// A timer that starts now.
    pub fn new() -> (r: SystemTimer) {
        SystemTimer { start: Instant::now() }
    }

    /// The time since the timer was made.
    pub fn elapsed(&self) -> (r: Duration) {
        self.start.elapsed()
    }

    /// The clock text of the time since the timer was made.
    pub fn format_elapsed(&self) -> (r: String)
        ensures
            is_clock_text(r@),
    {
        format_duration(self.elapsed())
    }
}

/// Measures how long a task takes.
pub struct ProcessTimer {
    start: Instant,
}

impl ProcessTimer {
    /// Starts timing.
    pub fn start() -> (r: ProcessTimer) {
        ProcessTimer { start: Instant::now() }
    }

    /// The time since the timing started.
    pub fn elapsed(&self) -> (r: Duration) {
        self.start.elapsed()
    }
}

} // verus!
