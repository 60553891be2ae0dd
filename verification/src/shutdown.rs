//! Shutdown: which services are left alone when the system goes down.

use vstd::prelude::*;
use crate::process::{instance_of_name, name_instance};
use crate::text::{
    chars_of, has_prefix, opt_text, same_str, slice_of, starts_with, string_of, texts, words,
    words_of,
};

verus! {

/// The first of `tokens` that begins with `console=`, without that
/// beginning.
pub open spec fn console_of(tokens: Seq<Seq<char>>) -> Option<Seq<char>>
    decreases tokens.len(),
{
    if tokens.len() == 0 {
        None
    } else if starts_with(tokens[0], "console="@) {
        Some(tokens[0].skip("console="@.len() as int))
    } else {
        console_of(tokens.skip(1))
    }
}

/// The console terminal that the kernel command line names: the value of
/// its first word `console=...`.
pub fn console_tty(cmdline: &str) -> (r: Option<String>)
    ensures
        opt_text(r) == console_of(words(cmdline@)),
{
    let tokens = words_of(&chars_of(cmdline));
    let key = chars_of("console=");
    let ghost all = texts(tokens@);
    let mut i: usize = 0;
    proof {
        assert(all.skip(0) == all);
    }
    while i < tokens.len()
        invariant
            i <= tokens.len(),
            all == texts(tokens@),
            all == words(cmdline@),
            key@ == "console="@,
            console_of(all) == console_of(all.skip(i as int)),
        decreases tokens.len() - i,
    {
        proof {
            assert(all.skip(i as int)[0] == tokens@[i as int]@);
            assert(all.skip(i as int).skip(1) == all.skip(i + 1));
        }
        if has_prefix(&tokens[i], &key) {
            let value = slice_of(&tokens[i], key.len(), tokens[i].len());
            proof {
                assert(value@ =~= tokens@[i as int]@.skip("console="@.len() as int));
                assert(starts_with(all.skip(i as int)[0], "console="@));
            }
            return Some(string_of(&value));
        }
        i += 1;
    }
    None
}

/// Whether the service `name` is the login prompt on the console: its name
/// begins with `tty@` or `getty@` and its instance is the console terminal.
pub open spec fn guards_console(name: Seq<char>, console: Option<Seq<char>>) -> bool {
    console is Some && (starts_with(name, "tty@"@) || starts_with(name, "getty@"@))
        && name_instance(name) == console
}

/// Whether the service `name` is left running at shutdown: the login
/// prompt on the console is, so that the shutdown does not hang on it.
pub fn skip_on_shutdown(name: &str, console: &Option<String>) -> (r: bool)
    ensures
        r == guards_console(name@, opt_text(*console)),
{
    match console {
        None => false,
        Some(tty) => {
            let v = chars_of(name);
            if has_prefix(&v, &chars_of("tty@")) || has_prefix(&v, &chars_of("getty@")) {
                match instance_of_name(name) {
                    Some(instance) => same_str(instance.as_str(), tty.as_str()),
                    None => false,
                }
            } else {
                false
            }
        },
    }
}

} // verus!
