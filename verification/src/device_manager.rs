//! The device manager: which daemon is started, how, and whether it runs
//! already.

use vstd::prelude::*;
use vstd::string::StringSliceAdditionalSpecFns;
use crate::text::{
    append_chars, chars_of, ends_with, first_present, has_suffix, opt_text, pick_present,
    string_of, strings,
};

verus! {

/// Where a device manager may be installed, in the order of preference.
pub open spec fn device_manager_candidates() -> Seq<Seq<char>> {
    seq![
        "/usr/lib/systemd/systemd-udevd"@,
        "/sbin/udevd"@,
        "/bin/udevd"@,
        "/usr/bin/udevd"@,
        "/sbin/mdev"@,
        "/bin/mdev"@,
        "/usr/bin/mdev"@,
    ]
}

/// Where a device manager may be installed, in the order of preference.
pub fn device_manager_paths() -> (r: Vec<String>)
    ensures
        strings(r@) == device_manager_candidates(),
{
    let mut r: Vec<String> = Vec::new();
    r.push("/usr/lib/systemd/systemd-udevd".to_owned());
    r.push("/sbin/udevd".to_owned());
    r.push("/bin/udevd".to_owned());
    r.push("/usr/bin/udevd".to_owned());
    r.push("/sbin/mdev".to_owned());
    r.push("/bin/mdev".to_owned());
    r.push("/usr/bin/mdev".to_owned());
    proof {
        assert(strings(r@) =~= device_manager_candidates());
    }
    r
}

/// The device manager to start: the first of the candidates that is among
/// the paths that exist.
pub fn detect_device_manager(present: &Vec<String>) -> (r: Option<String>)
    ensures
        opt_text(r) == first_present(device_manager_candidates(), strings(present@)),
{
    pick_present(&device_manager_paths(), present)
}

/// The argument that the device manager at `path` is started with: `-s`, to
/// scan once, for `mdev`; `--daemon` for any other.
pub fn device_manager_arg(path: &str) -> (r: &'static str)
    ensures
        r@ == if ends_with(path@, "mdev"@) {
            "-s"@
        } else {
            "--daemon"@
        },
{
    if has_suffix(&chars_of(path), &chars_of("mdev")) {
        "-s"
    } else {
        "--daemon"
    }
}

/// Whether `needle` stands in `hay` at place `i`.
pub open spec fn bytes_at(hay: Seq<u8>, needle: Seq<u8>, i: int) -> bool {
    0 <= i && i + needle.len() <= hay.len() && hay.subrange(i, i + needle.len()) == needle
}

/// Whether the command line `cmdline` of a process mentions `name`: whether
/// the bytes of the name stand somewhere in it.
pub fn cmdline_mentions(cmdline: &Vec<u8>, name: &str) -> (r: bool)
    ensures
        r == exists|i: int| bytes_at(cmdline@, name.spec_bytes(), i),
{
    let needle = name.as_bytes();
    let n = needle.len();
    if n > cmdline.len() {
        proof {
            assert forall|i: int| !bytes_at(cmdline@, name.spec_bytes(), i) by {}
        }
        return false;
    }
    if n == 0 {
        proof {
            assert(cmdline@.subrange(0, 0) =~= name.spec_bytes());
            assert(bytes_at(cmdline@, name.spec_bytes(), 0));
        }
        return true;
    }
    let last = cmdline.len() - n;
    let mut i: usize = 0;
    while i <= last
        invariant
            i <= last + 1,
            last == cmdline.len() - n,
            0 < n <= cmdline.len(),
            n == needle@.len(),
            needle@ == name.spec_bytes(),
            forall|k: int| 0 <= k < i ==> !bytes_at(cmdline@, name.spec_bytes(), k),
        decreases last + 1 - i,
    {
        let mut j: usize = 0;
        while j < n && cmdline[i + j] == needle[j]
            invariant
                j <= n,
                i <= last,
                last == cmdline.len() - n,
                n == needle@.len(),
                forall|k: int| 0 <= k < j ==> cmdline@[i + k] == needle@[k],
            decreases n - j,
        {
            j += 1;
        }
        if j == n {
            proof {
                assert(cmdline@.subrange(i as int, i + n) =~= needle@);
                assert(bytes_at(cmdline@, name.spec_bytes(), i as int));
            }
            return true;
        }
        proof {
            if bytes_at(cmdline@, name.spec_bytes(), i as int) {
                assert(cmdline@.subrange(i as int, i + n)[j as int] == cmdline@[i + j]);
                assert(false);
            }
        }
        i += 1;
    }
    proof {
        assert forall|k: int| !bytes_at(cmdline@, name.spec_bytes(), k) by {}
    }
    false
}

/// What happened to a device.
#[derive(Debug, Clone, Copy, PartialEq, Eq, Structural)]
pub enum DeviceEvent {
    Add,
    Remove,
    Change,
    /// Anything else.
    Other,
}

/// The word for what happened.
pub open spec fn event_word(event: DeviceEvent) -> Seq<char> {
    match event {
        DeviceEvent::Add => "add"@,
        DeviceEvent::Remove => "remove"@,
        DeviceEvent::Change => "change"@,
        DeviceEvent::Other => "unknown"@,
    }
}

/// The log line for a device event: what happened, and to the device at
/// which node, if it has one.
pub open spec fn event_line(event: DeviceEvent, devnode: Option<Seq<char>>) -> Seq<char> {
    "udev event: "@ + event_word(event) + " on device "@ + match devnode {
        Some(node) => node,
        None => "<no devnode>"@,
    }
}

/// The log line for a device event.
pub fn device_event_text(event: DeviceEvent, devnode: &Option<String>) -> (r: String)
    ensures
        r@ == event_line(event, opt_text(*devnode)),
{
    let word = match event {
        DeviceEvent::Add => "add",
        DeviceEvent::Remove => "remove",
        DeviceEvent::Change => "change",
        DeviceEvent::Other => "unknown",
    };
    let mut v = chars_of("udev event: ");
    append_chars(&mut v, &chars_of(word));
    append_chars(&mut v, &chars_of(" on device "));
    match devnode {
        Some(node) => {
            append_chars(&mut v, &chars_of(node.as_str()));
        },
        None => {
            append_chars(&mut v, &chars_of("<no devnode>"));
        },
    }
    string_of(&v)
}

} // verus!
