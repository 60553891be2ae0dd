//! Hardware drivers: which module aliases are asked for, and how the
//! outcome is reported.

use vstd::prelude::*;
use crate::number::{decimal, decimal_chars};
use crate::status::LogLevel;
use crate::text::{append_chars, byte_len, chars_of, opt_text, string_of, trim, trim_chars};

verus! {

/// An alias may not be longer than this many bytes.
pub const ALIAS_LIMIT: usize = 256;

/// The module alias that a line of a `modalias` file holds: the line,
/// trimmed, if it is not empty and shorter than 256 bytes.
pub fn alias_of(line: &str) -> (r: Option<String>)
    ensures
        opt_text(r) == if trim(line@).len() > 0 && byte_len(trim(line@)) < ALIAS_LIMIT {
            Some(trim(line@))
        } else {
            None
        },
{
    let t = trim_chars(&chars_of(line));
    if t.len() == 0 {
        return None;
    }
    let a = string_of(&t);
    if a.as_str().as_bytes().len() < ALIAS_LIMIT {
        Some(a)
    } else {
        None
    }
}

/// The report of a driver load.
pub open spec fn drivers_summary(loaded: nat, failed: nat) -> Seq<char> {
    "Loaded "@ + decimal(loaded) + " hardware modules ("@ + decimal(failed) + " failed)"@
}

/// The report of a driver load in which `loaded` modules were loaded and
/// `failed` were not, and the level of the report: success when a module
/// was loaded, else a warning.
pub fn drivers_report(loaded: u64, failed: u64) -> (r: (LogLevel, String))
    ensures
        r.0 == if loaded > 0 {
            LogLevel::Okay
        } else {
            LogLevel::Warn
        },
        r.1@ == drivers_summary(loaded as nat, failed as nat),
{
    let mut v = chars_of("Loaded ");
    append_chars(&mut v, &decimal_chars(loaded));
    append_chars(&mut v, &chars_of(" hardware modules ("));
    append_chars(&mut v, &decimal_chars(failed));
    append_chars(&mut v, &chars_of(" failed)"));
    let level = if loaded > 0 {
        LogLevel::Okay
    } else {
        LogLevel::Warn
    };
    (level, string_of(&v))
}

} // verus!
