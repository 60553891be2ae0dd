//! Network interfaces: which of them are brought up at boot.

use vstd::prelude::*;
use crate::text::{chars_of, has_prefix, is_text, starts_with};

verus! {

/// Whether the interface `name` is left alone: the loopback interface,
/// which is set up on its own, and the virtual interfaces of bridges,
/// containers and tunnels.
pub open spec fn is_left_alone(name: Seq<char>) -> bool {
    name == "lo"@ || starts_with(name, "veth"@) || starts_with(name, "br"@) || starts_with(
        name,
        "docker"@,
    ) || starts_with(name, "tap"@) || starts_with(name, "tun"@)
}

/// Whether the interface `name` is left alone when the interfaces are
/// brought up.
pub fn is_skipped_interface(name: &str) -> (r: bool)
    ensures
        r == is_left_alone(name@),
{
    let v = chars_of(name);
    is_text(&v, "lo") || has_prefix(&v, &chars_of("veth")) || has_prefix(&v, &chars_of("br"))
        || has_prefix(&v, &chars_of("docker")) || has_prefix(&v, &chars_of("tap")) || has_prefix(
        &v,
        &chars_of("tun"),
    )
}

} // verus!
