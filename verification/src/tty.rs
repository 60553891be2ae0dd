//! Terminals and the login prompts on them: where a getty is found, how it
//! is called, and whether someone is logged in on a terminal.

use vstd::prelude::*;
use crate::text::{
    append_chars, chars_of, first_present, is_text, opt_text, pick_present, same_chars, string_of,
    strings, trim, trim_chars,
};

verus! {

/// Where a getty may be installed, in the order of preference.
pub open spec fn getty_candidates() -> Seq<Seq<char>> {
    seq![
        "/sbin/agetty"@,
        "/bin/agetty"@,
        "/usr/bin/agetty"@,
        "/usr/sbin/agetty"@,
        "/sbin/getty"@,
        "/bin/getty"@,
        "/usr/bin/getty"@,
        "/usr/sbin/getty"@,
        "/sbin/mingetty"@,
        "/bin/mingetty"@,
        "/usr/bin/mingetty"@,
        "/usr/sbin/mingetty"@,
    ]
}

/// Where a getty may be installed, in the order of preference.
pub fn getty_paths() -> (r: Vec<String>)
    ensures
        strings(r@) == getty_candidates(),
{
    let mut r: Vec<String> = Vec::new();
    r.push("/sbin/agetty".to_owned());
    r.push("/bin/agetty".to_owned());
    r.push("/usr/bin/agetty".to_owned());
    r.push("/usr/sbin/agetty".to_owned());
    r.push("/sbin/getty".to_owned());
    r.push("/bin/getty".to_owned());
    r.push("/usr/bin/getty".to_owned());
    r.push("/usr/sbin/getty".to_owned());
    r.push("/sbin/mingetty".to_owned());
    r.push("/bin/mingetty".to_owned());
    r.push("/usr/bin/mingetty".to_owned());
    r.push("/usr/sbin/mingetty".to_owned());
    proof {
        assert(strings(r@) =~= getty_candidates());
    }
    r
}

/// The getty to use: the first of the candidates that is among the paths
/// that exist.
pub fn find_getty_binary(present: &Vec<String>) -> (r: Option<String>)
    ensures
        opt_text(r) == first_present(getty_candidates(), strings(present@)),
{
    pick_present(&getty_paths(), present)
}

/// Where the getty of the login prompts may be installed, in the order of
/// preference.
pub open spec fn login_getty_candidates() -> Seq<Seq<char>> {
    seq!["/sbin/agetty"@, "/sbin/getty"@, "/sbin/mingetty"@]
}

/// Where the getty of the login prompts may be installed.
pub fn login_getty_paths() -> (r: Vec<String>)
    ensures
        strings(r@) == login_getty_candidates(),
{
    let mut r: Vec<String> = Vec::new();
    r.push("/sbin/agetty".to_owned());
    r.push("/sbin/getty".to_owned());
    r.push("/sbin/mingetty".to_owned());
    proof {
        assert(strings(r@) =~= login_getty_candidates());
    }
    r
}

/// The getty of the login prompts: the first of the candidates that is
/// among the files that exist.
pub fn detect_getty(present: &Vec<String>) -> (r: Option<String>)
    ensures
        opt_text(r) == first_present(login_getty_candidates(), strings(present@)),
{
    pick_present(&login_getty_paths(), present)
}

/// The arguments of a getty for the terminal `tty`: a getty proper is told
/// that the line is local and its speed; any other takes the terminal
/// alone.
pub open spec fn getty_arguments(getty: Seq<char>, tty: Seq<char>) -> Seq<Seq<char>> {
    if getty == "/sbin/agetty"@ || getty == "/sbin/getty"@ {
        seq!["-L"@, tty, "115200"@]
    } else {
        seq![tty]
    }
}

/// The arguments of the getty at `getty` for the terminal `tty`.
pub fn getty_args(getty: &str, tty: &str) -> (r: Vec<String>)
    ensures
        strings(r@) == getty_arguments(getty@, tty@),
{
    let g = chars_of(getty);
    let mut r: Vec<String> = Vec::new();
    if is_text(&g, "/sbin/agetty") || is_text(&g, "/sbin/getty") {
        r.push("-L".to_owned());
        r.push(tty.to_owned());
        r.push("115200".to_owned());
        proof {
            assert(strings(r@) =~= seq!["-L"@, tty@, "115200"@]);
        }
    } else {
        r.push(tty.to_owned());
        proof {
            assert(strings(r@) =~= seq![tty@]);
        }
    }
    r
}

/// A process that holds a file open: what the file descriptor points to,
/// and the name of the process.
#[derive(Debug, Clone)]
pub struct FdHolder {
    pub target: String,
    pub comm: String,
}

/// Whether a process name, as `/proc` gives it, is that of a getty.
pub open spec fn is_getty_name(comm: Seq<char>) -> bool {
    trim(comm) == "getty"@ || trim(comm) == "agetty"@
}

/// Whether a process name is that of a getty.
pub fn is_getty_comm(comm: &str) -> (r: bool)
    ensures
        r == is_getty_name(comm@),
{
    let t = trim_chars(&chars_of(comm));
    is_text(&t, "getty") || is_text(&t, "agetty")
}

/// The device of the terminal `tty`.
pub open spec fn device_of(tty: Seq<char>) -> Seq<char> {
    "/dev/"@ + tty
}

/// The device of the terminal `tty`.
pub fn tty_device(tty: &str) -> (r: String)
    ensures
        r@ == device_of(tty@),
{
    let mut v = chars_of("/dev/");
    append_chars(&mut v, &chars_of(tty));
    string_of(&v)
}

/// Holder `h` shows a login on the terminal `tty`: it holds the terminal's
/// device open and is no getty.
pub open spec fn shows_login(tty: Seq<char>, target: Seq<char>, comm: Seq<char>) -> bool {
    target == device_of(tty) && !is_getty_name(comm)
}

/// Whether someone is logged in on the terminal `tty`: whether a process
/// other than a getty holds its device open. `holders` lists what the
/// processes of the system hold open.
pub fn is_tty_in_use(tty: &str, holders: &Vec<FdHolder>) -> (r: bool)
    ensures
        r == exists|i: int|
            0 <= i < holders@.len() && shows_login(
                tty@,
                (#[trigger] holders@[i]).target@,
                holders@[i].comm@,
            ),
{
    let device = chars_of(tty_device(tty).as_str());
    let mut i: usize = 0;
    while i < holders.len()
        invariant
            i <= holders.len(),
            device@ == device_of(tty@),
            forall|k: int|
                0 <= k < i ==> !shows_login(
                    tty@,
                    (#[trigger] holders@[k]).target@,
                    holders@[k].comm@,
                ),
        decreases holders.len() - i,
    {
        let target = chars_of(holders[i].target.as_str());
        if same_chars(&target, &device) && !is_getty_comm(holders[i].comm.as_str()) {
            return true;
        }
        i += 1;
    }
    false
}

} // verus!
