//! Kernel modules and kernel parameters: which modules are asked for, which
//! parameters are set, and how the outcome is reported.

use vstd::prelude::*;
use crate::lexical::{sorted_unique, strictly_sorted};
use crate::mount::{is_blank, is_blank_line};
use crate::number::{decimal, decimal_chars};
use crate::status::LogLevel;
use crate::text::{
    append_chars, chars_of, chars_of_all, find_from, has_char, index_of, lines_of, lines_of_chars,
    same_chars, same_str, slice_of, string_of, strings, strings_of, swap_char, swap_chars, texts,
    trim, trim_chars,
};

verus! {

/// The lines that say something, each trimmed.
pub open spec fn kept_lines(lines: Seq<Seq<char>>) -> Seq<Seq<char>>
    decreases lines.len(),
{
    if lines.len() == 0 {
        Seq::empty()
    } else if is_blank(lines.last()) {
        kept_lines(lines.drop_last())
    } else {
        kept_lines(lines.drop_last()).push(trim(lines.last()))
    }
}

/// The modules that a module list names: its lines, trimmed, without the
/// empty lines and the comments.
pub fn collect_modules(content: &str) -> (r: Vec<String>)
    ensures
        strings(r@) == kept_lines(lines_of(content@)),
{
    let lines = lines_of_chars(&chars_of(content));
    let ghost all = texts(lines@);
    let mut r: Vec<String> = Vec::new();
    let mut i: usize = 0;
    proof {
        assert(all.take(0) =~= Seq::<Seq<char>>::empty());
        assert(strings(r@) =~= Seq::<Seq<char>>::empty());
    }
    while i < lines.len()
        invariant
            i <= lines.len(),
            all == texts(lines@),
            strings(r@) == kept_lines(all.take(i as int)),
        decreases lines.len() - i,
    {
        proof {
            assert(all.take(i + 1).drop_last() == all.take(i as int));
            assert(all.take(i + 1).last() == lines@[i as int]@);
        }
        if !is_blank_line(&lines[i]) {
            let t = trim_chars(&lines[i]);
            let ghost before = strings(r@);
            r.push(string_of(&t));
            proof {
                assert(strings(r@) =~= before.push(t@));
            }
        }
        i += 1;
    }
    proof {
        assert(all.take(lines.len() as int) == all);
    }
    r
}

/// The names in dictionary order, each once.
pub fn unique_names(names: &Vec<String>) -> (r: Vec<String>)
    ensures
        strictly_sorted(strings(r@)),
        forall|x: Seq<char>| strings(r@).contains(x) <==> strings(names@).contains(x),
{
    let sorted = sorted_unique(&chars_of_all(names));
    strings_of(&sorted)
}

/// The report of a module load.
pub open spec fn modules_summary(loaded: nat, failed: nat) -> Seq<char> {
    "Kernel modules loaded: "@ + decimal(loaded) + " successful, "@ + decimal(failed) + " failed"@
}

/// The report of a module load in which `loaded` modules were loaded and
/// `failed` were not.
pub fn modules_report(loaded: u64, failed: u64) -> (r: String)
    ensures
        r@ == modules_summary(loaded as nat, failed as nat),
{
    let mut v = chars_of("Kernel modules loaded: ");
    append_chars(&mut v, &decimal_chars(loaded));
    append_chars(&mut v, &chars_of(" successful, "));
    append_chars(&mut v, &decimal_chars(failed));
    append_chars(&mut v, &chars_of(" failed"));
    string_of(&v)
}

/// How a module load is reported, and whether it counts as done: it does
/// when a module was loaded.
pub fn modules_verdict(loaded: u64) -> (r: (LogLevel, &'static str))
    ensures
        r.0 == if loaded > 0 {
            LogLevel::Info
        } else {
            LogLevel::Fail
        },
        r.1@ == if loaded > 0 {
            "Kernel modules loaded"@
        } else {
            "Failed to load kernel modules"@
        },
{
    if loaded > 0 {
        (LogLevel::Info, "Kernel modules loaded")
    } else {
        (LogLevel::Fail, "Failed to load kernel modules")
    }
}

/// A kernel parameter and the value that it is to have.
#[derive(Debug, Clone)]
pub struct Setting {
    pub key: String,
    pub value: String,
}

/// The settings that a vector of settings holds.
pub open spec fn settings_view(v: Seq<Setting>) -> Seq<(Seq<char>, Seq<char>)> {
    Seq::new(v.len(), |i: int| (v[i].key@, v[i].value@))
}

/// The setting that a line `key = value` makes; a line that says nothing or
/// has no `=` makes none.
pub open spec fn setting_of(line: Seq<char>) -> Option<(Seq<char>, Seq<char>)> {
    let t = trim(line);
    if is_blank(line) || !has_char(t, '=') {
        None
    } else {
        Some((trim(t.take(index_of(t, '='))), trim(t.skip(index_of(t, '=') + 1))))
    }
}

/// Reads a line of a parameter file.
pub fn parse_sysctl_line(line: &str) -> (r: Option<Setting>)
    ensures
        match r {
            Some(s) => setting_of(line@) == Some((s.key@, s.value@)),
            None => setting_of(line@) is None,
        },
{
    let v = chars_of(line);
    if is_blank_line(&v) {
        return None;
    }
    let t = trim_chars(&v);
    proof {
        assert(t@.skip(0) == t@);
    }
    let at = find_from(&t, 0, '=');
    if at >= t.len() {
        return None;
    }
    let head = slice_of(&t, 0, at);
    let tail = slice_of(&t, at + 1, t.len());
    proof {
        assert(head@ == t@.take(at as int));
        assert(tail@ == t@.skip(at + 1));
    }
    Some(Setting { key: string_of(&trim_chars(&head)), value: string_of(&trim_chars(&tail)) })
}

/// The place of the first setting of `key` among `settings`, or their
/// number.
pub open spec fn key_place(settings: Seq<(Seq<char>, Seq<char>)>, key: Seq<char>) -> int
    decreases settings.len(),
{
    if settings.len() == 0 {
        0
    } else if settings[0].0 == key {
        0
    } else {
        1 + key_place(settings.skip(1), key)
    }
}

/// `key_place` is the place with no setting of `key` before it and one at
/// it.
pub proof fn lemma_key_place(settings: Seq<(Seq<char>, Seq<char>)>, key: Seq<char>, n: int)
    requires
        0 <= n <= settings.len(),
        forall|k: int| 0 <= k < n ==> (#[trigger] settings[k]).0 != key,
        n < settings.len() ==> settings[n].0 == key,
    ensures
        key_place(settings, key) == n,
    decreases settings.len(),
{
    if n > 0 {
        let t = settings.skip(1);
        assert forall|k: int| 0 <= k < n - 1 implies (#[trigger] t[k]).0 != key by {
            assert(t[k] == settings[k + 1]);
        }
        lemma_key_place(t, key, n - 1);
    }
}

/// The settings with `key` set to `value`: a setting of the key that is
/// there takes the value, else the setting is added at the end.
pub open spec fn put(settings: Seq<(Seq<char>, Seq<char>)>, key: Seq<char>, value: Seq<char>) -> Seq<
    (Seq<char>, Seq<char>),
> {
    let at = key_place(settings, key);
    if 0 <= at < settings.len() {
        settings.update(at, (key, value))
    } else {
        settings.push((key, value))
    }
}

/// The settings after the lines of a parameter file, read in order: a later
/// line overrides an earlier one of the same key.
pub open spec fn settings_after(settings: Seq<(Seq<char>, Seq<char>)>, lines: Seq<Seq<char>>) -> Seq<
    (Seq<char>, Seq<char>),
>
    decreases lines.len(),
{
    if lines.len() == 0 {
        settings
    } else {
        let so_far = settings_after(settings, lines.drop_last());
        match setting_of(lines.last()) {
            Some((k, v)) => put(so_far, k, v),
            None => so_far,
        }
    }
}

/// Sets `key` to `value`.
pub fn put_setting(settings: &mut Vec<Setting>, setting: Setting)
    ensures
        settings_view(final(settings)@) == put(
            settings_view(old(settings)@),
            setting.key@,
            setting.value@,
        ),
{
    let ghost before = settings_view(settings@);
    let mut i: usize = 0;
    while i < settings.len()
        invariant
            i <= settings.len(),
            settings@ == old(settings)@,
            forall|k: int| 0 <= k < i ==> (#[trigger] before[k]).0 != setting.key@,
            before == settings_view(settings@),
        decreases settings.len() - i,
    {
        if same_str(settings[i].key.as_str(), setting.key.as_str()) {
            proof {
                lemma_key_place(before, setting.key@, i as int);
            }
            settings.set(i, setting);
            proof {
                assert(settings_view(settings@) =~= before.update(
                    i as int,
                    (setting.key@, setting.value@),
                ));
            }
            return ;
        }
        i += 1;
    }
    proof {
        lemma_key_place(before, setting.key@, before.len() as int);
    }
    settings.push(setting);
    proof {
        assert(settings_view(settings@) =~= before.push((setting.key@, setting.value@)));
    }
}

/// Takes the settings of a parameter file into `settings`.
pub fn load_sysctl_file(content: &str, settings: &mut Vec<Setting>)
    ensures
        settings_view(final(settings)@) == settings_after(
            settings_view(old(settings)@),
            lines_of(content@),
        ),
{
    let lines = lines_of_chars(&chars_of(content));
    let ghost all = texts(lines@);
    let ghost start = settings_view(settings@);
    let mut i: usize = 0;
    proof {
        assert(all.take(0) =~= Seq::<Seq<char>>::empty());
    }
    while i < lines.len()
        invariant
            i <= lines.len(),
            all == texts(lines@),
            settings_view(settings@) == settings_after(start, all.take(i as int)),
        decreases lines.len() - i,
    {
        proof {
            assert(all.take(i + 1).drop_last() == all.take(i as int));
            assert(all.take(i + 1).last() == lines@[i as int]@);
        }
        let line = string_of(&lines[i]);
        match parse_sysctl_line(line.as_str()) {
            Some(s) => {
                put_setting(settings, s);
            },
            None => {},
        }
        i += 1;
    }
    proof {
        assert(all.take(lines.len() as int) == all);
    }
}

/// The file under `/proc/sys` that holds the parameter `key`: the key with
/// `/` for each `.`.
pub fn sysctl_path(key: &str) -> (r: String)
    ensures
        r@ == "/proc/sys/"@ + swap_char(key@, '.', '/'),
{
    let mut v = chars_of("/proc/sys/");
    append_chars(&mut v, &swap_chars(&chars_of(key), '.', '/'));
    string_of(&v)
}

/// What is done about one parameter.
#[derive(Debug, Clone, Copy, PartialEq, Eq, Structural)]
pub enum SysctlStep {
    /// Nothing: the parameter has the value already.
    Skip,
    /// The value is written.
    Write,
    /// Nothing can be done: the parameter's file is missing or unreadable.
    Fail,
}

/// What is done about a parameter whose file reads `current`, or cannot be
/// read, and that is to have the value `desired`.
pub fn sysctl_step(current: &Option<String>, desired: &str) -> (r: SysctlStep)
    ensures
        r == match *current {
            None => SysctlStep::Fail,
            Some(c) => if trim(c@) == desired@ {
                SysctlStep::Skip
            } else {
                SysctlStep::Write
            },
        },
{
    match current {
        None => SysctlStep::Fail,
        Some(c) => {
            let t = trim_chars(&chars_of(c.as_str()));
            if same_chars(&t, &chars_of(desired)) {
                SysctlStep::Skip
            } else {
                SysctlStep::Write
            }
        },
    }
}

/// How the setting of the parameters is reported: as done when a value was
/// written; as nothing to do when more parameters were in place than
/// failed; else as a warning.
pub fn sysctl_verdict(applied: usize, skipped: usize, failed: usize) -> (r: (
    LogLevel,
    &'static str,
))
    ensures
        r.0 == if applied > 0 {
            LogLevel::Okay
        } else if skipped > failed {
            LogLevel::Info
        } else {
            LogLevel::Warn
        },
        r.1@ == if applied > 0 {
            "Kernel parameters applied"@
        } else if skipped > failed {
            "All sysctl parameters already set"@
        } else {
            "Some sysctl parameters failed"@
        },
{
    if applied > 0 {
        (LogLevel::Okay, "Kernel parameters applied")
    } else if skipped > failed {
        (LogLevel::Info, "All sysctl parameters already set")
    } else {
        (LogLevel::Warn, "Some sysctl parameters failed")
    }
}

} // verus!
