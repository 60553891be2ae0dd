//! ANSI escape codes for terminal colours.

use vstd::prelude::*;
use crate::status::LogLevel;
use crate::text::{append_chars, chars_of, string_of};

verus! {

pub const RESET: &'static str = "\x1b[0m";

pub const BOLD: &'static str = "\x1b[1m";

pub const GREEN: &'static str = "\x1b[32m";

pub const RED: &'static str = "\x1b[31m";

pub const YELLOW: &'static str = "\x1b[33m";

pub const BLUE: &'static str = "\x1b[34m";

pub const CYAN: &'static str = "\x1b[36m";

pub const DIM: &'static str = "\x1b[2m";

/// The colour code of a level: green for `Okay`, red for `Fail`, yellow for
/// `Warn`, cyan for `Info`.
pub open spec fn level_colour(level: LogLevel) -> Seq<char> {
    match level {
        LogLevel::Okay => GREEN@,
        LogLevel::Fail => RED@,
        LogLevel::Warn => YELLOW@,
        LogLevel::Info => CYAN@,
    }
}

/// The colour code of a level.
pub fn color_for_level(level: LogLevel) -> (r: &'static str)
    ensures
        r@ == level_colour(level),
{
    match level {
        LogLevel::Okay => GREEN,
        LogLevel::Fail => RED,
        LogLevel::Warn => YELLOW,
        LogLevel::Info => CYAN,
    }
}

/// `text` between the code `code` and the code that resets it.
pub open spec fn coloured(code: Seq<char>, text: Seq<char>) -> Seq<char> {
    code + text + RESET@
}

/// `text` between `code` and the reset code.
pub fn paint(code: &str, text: &str) -> (r: String)
    ensures
        r@ == coloured(code@, text@),
{
    let mut v = chars_of(code);
    append_chars(&mut v, &chars_of(text));
    append_chars(&mut v, &chars_of(RESET));
    string_of(&v)
}

/// A time stamp, dimmed.
pub fn color_time(time_str: &str) -> (r: String)
    ensures
        r@ == coloured(DIM@, time_str@),
{
    paint(DIM, time_str)
}

/// A level tag in the colour of its level.
pub fn color_level(level: LogLevel, level_str: &str) -> (r: String)
    ensures
        r@ == coloured(level_colour(level), level_str@),
{
    paint(color_for_level(level), level_str)
}

} // verus!
