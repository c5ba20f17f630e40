//! Structured log lines for the desktop log window (time, level, source, message).
//! Delivering them to subscribers stands around this module.
use vstd::prelude::*;

use crate::primitives::unix_time_secs;
use crate::text::{decimal, digit_char, push_char, push_two_digits, to_owned_string, two_digits};

verus! {

/// Offset of the displayed clock from UTC (UTC+8), in seconds.
pub const UTC_OFFSET_SECS: u64 = 28800;

/// Seconds in a day.
pub const DAY_SECS: u64 = 86400;

/// `HH:MM:SS` of a Unix time in UTC+8.
pub open spec fn clock_text(unix_secs: nat) -> Seq<char> {
    let t: nat = (unix_secs + (UTC_OFFSET_SECS as nat)) % (DAY_SECS as nat);
    two_digits(t / 3600) + seq![':'] + two_digits((t / 60) % 60) + seq![':'] + two_digits(t % 60)
}

/// One log line: time, level (`INFO`, `OK`, `WARN`, `ERR`), source and message.
pub struct LogEvent {
    pub time: String,
    pub level: String,
    pub source: String,
    pub message: String,
}

impl LogEvent {
    /// A log line stamped with Unix time `unix_secs`.
    pub fn at(level: &str, source: &str, message: String, unix_secs: u64) -> (r: LogEvent)
        ensures
            r.time@ == clock_text(unix_secs as nat),
            r.level@ == level@,
            r.source@ == source@,
            r.message@ == message@,
    {
        let t = (unix_secs % DAY_SECS + UTC_OFFSET_SECS) % DAY_SECS;
        proof {
            vstd::arithmetic::div_mod::lemma_add_mod_noop(
                unix_secs as int,
                UTC_OFFSET_SECS as int,
                DAY_SECS as int,
            );
            assert(t as nat == (unix_secs as nat + (UTC_OFFSET_SECS as nat)) % (DAY_SECS as nat));
        }
        let mut time = String::new();
        push_two_digits(&mut time, t / 3600);
        push_char(&mut time, ':');
        push_two_digits(&mut time, (t / 60) % 60);
        push_char(&mut time, ':');
        push_two_digits(&mut time, t % 60);
        LogEvent {
            time,
            level: to_owned_string(level),
            source: to_owned_string(source),
            message,
        }
    }

    /// A log line stamped with the current time.
    pub fn new(level: &str, source: &str, message: String) -> (r: LogEvent)
        ensures
            exists|secs: nat| r.time@ == #[trigger] clock_text(secs),
            r.level@ == level@,
            r.source@ == source@,
            r.message@ == message@,
    {
        let now = unix_time_secs();
        Self::at(level, source, message, now)
    }
}

proof fn lemma_two_digits_shape(n: nat)
    requires
        n < 100,
    ensures
        two_digits(n).len() == 2,
{
    if n >= 10 {
        assert(decimal(n / 10) == seq![digit_char(n / 10)]);
        assert(decimal(n) == decimal(n / 10).push(digit_char(n % 10)));
    }
}

/// Every timestamp reads `HH:MM:SS`: eight characters, colons at 2 and 5.
pub proof fn law_clock_text_shape(unix_secs: nat)
    ensures
        clock_text(unix_secs).len() == 8,
        clock_text(unix_secs)[2] == ':',
        clock_text(unix_secs)[5] == ':',
{
    let t: nat = (unix_secs + (UTC_OFFSET_SECS as nat)) % (DAY_SECS as nat);
    assert(t / 3600 < 24) by (nonlinear_arith)
        requires
            t < 86400,
    ;
    lemma_two_digits_shape(t / 3600);
    lemma_two_digits_shape((t / 60) % 60);
    lemma_two_digits_shape(t % 60);
}

} // verus!
