//! Host name and time zone: what the files of the system say of them.

use vstd::prelude::*;
use crate::errors::{BloomError, Fault};
use crate::text::{
    chars_of, find_from, has_char, has_prefix, opt_text, slice_of, starts_with, string_of, trim,
    trim_chars,
};

verus! {

/// The bytes of a random seed.
pub const SEED_SIZE: usize = 512;

/// Whether a saved seed of `len` bytes is fed to the kernel: one that is
/// shorter than a seed is not.
pub fn seed_is_usable(len: usize) -> (r: bool)
    ensures
        r == (len >= SEED_SIZE),
{
    len >= SEED_SIZE
}

/// The time zone that the link target of `/etc/localtime` names: what
/// follows `/usr/share/zoneinfo/` or `/etc/zoneinfo/` in it.
pub open spec fn zone_of(target: Seq<char>) -> Option<Seq<char>> {
    if starts_with(target, "/usr/share/zoneinfo/"@) {
        Some(target.skip("/usr/share/zoneinfo/"@.len() as int))
    } else if starts_with(target, "/etc/zoneinfo/"@) {
        Some(target.skip("/etc/zoneinfo/"@.len() as int))
    } else {
        None
    }
}

/// The time zone that the link target of `/etc/localtime` names.
pub fn timezone_of(target: &str) -> (r: Option<String>)
    ensures
        opt_text(r) == zone_of(target@),
{
    let v = chars_of(target);
    let share = chars_of("/usr/share/zoneinfo/");
    let etc = chars_of("/etc/zoneinfo/");
    if has_prefix(&v, &share) {
        let rest = slice_of(&v, share.len(), v.len());
        proof {
            assert(rest@ =~= v@.skip("/usr/share/zoneinfo/"@.len() as int));
        }
        Some(string_of(&rest))
    } else if has_prefix(&v, &etc) {
        let rest = slice_of(&v, etc.len(), v.len());
        proof {
            assert(rest@ =~= v@.skip("/etc/zoneinfo/"@.len() as int));
        }
        Some(string_of(&rest))
    } else {
        None
    }
}

/// The host name that the text of `/etc/hostname` gives: the text,
/// trimmed. A name that holds a NUL cannot be set.
pub fn clean_hostname(content: &str) -> (r: Result<String, BloomError>)
    ensures
        match r {
            Ok(name) => name@ == trim(content@) && !has_char(trim(content@), '\0'),
            Err(e) => has_char(trim(content@), '\0') && e@ == Fault::Parse(
                "Hostname contains invalid null byte"@,
            ),
        },
{
    let t = trim_chars(&chars_of(content));
    proof {
        assert(t@.skip(0) == t@);
    }
    let at = find_from(&t, 0, '\0');
    if at < t.len() {
        Err(BloomError::Parse("Hostname contains invalid null byte".to_owned()))
    } else {
        Ok(string_of(&t))
    }
}

} // verus!
