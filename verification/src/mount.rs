//! The file system table: what its lines say, which of them are mounted at
//! boot, and how their options are handed to the kernel.

use vstd::prelude::*;
use crate::status::LogLevel;
use crate::text::{
    chars_of, has_prefix, holds_chars, is_text, join_chars, joined, lines_of, lines_of_chars,
    opt_text, slice_of, split, split_chars, starts_with, string_of, texts, trim, trim_chars, words,
    words_of,
};

verus! {

/// An entry of the file system table.
#[derive(Debug, Clone)]
pub struct FstabEntry {
    pub source: String,
    pub target: String,
    pub fstype: String,
    pub options: String,
}

/// What a line of the file system table says.
#[derive(Debug, Clone)]
pub enum FstabLine {
    /// Nothing: the line is empty or a comment.
    Blank,
    /// Nothing usable: the line has fewer than four fields.
    Invalid,
    /// An entry.
    Entry(FstabEntry),
}

/// The mathematical content of an [`FstabLine`].
pub enum TableLine {
    Blank,
    Invalid,
    Entry { source: Seq<char>, target: Seq<char>, fstype: Seq<char>, options: Seq<char> },
}

impl View for FstabLine {
    type V = TableLine;

    open spec fn view(&self) -> TableLine {
        match self {
            FstabLine::Blank => TableLine::Blank,
            FstabLine::Invalid => TableLine::Invalid,
            FstabLine::Entry(e) => TableLine::Entry {
                source: e.source@,
                target: e.target@,
                fstype: e.fstype@,
                options: e.options@,
            },
        }
    }
}

/// Whether a line says nothing: it is empty but for white space, or its
/// first character after white space is `#`.
pub open spec fn is_blank(line: Seq<char>) -> bool {
    trim(line).len() == 0 || trim(line)[0] == '#'
}

/// What the line `line` of the file system table says.
pub open spec fn table_line(line: Seq<char>) -> TableLine {
    let fields = words(line);
    if is_blank(line) {
        TableLine::Blank
    } else if fields.len() < 4 {
        TableLine::Invalid
    } else {
        TableLine::Entry {
            source: fields[0],
            target: fields[1],
            fstype: fields[2],
            options: fields[3],
        }
    }
}

/// Whether a line says nothing.
pub fn is_blank_line(line: &Vec<char>) -> (r: bool)
    ensures
        r == is_blank(line@),
{
    let t = trim_chars(line);
    t.len() == 0 || t[0] == '#'
}

/// Reads a line of the file system table.
pub fn parse_fstab_line(line: &str) -> (r: FstabLine)
    ensures
        r@ == table_line(line@),
{
    let v = chars_of(line);
    if is_blank_line(&v) {
        return FstabLine::Blank;
    }
    let fields = words_of(&v);
    if fields.len() < 4 {
        return FstabLine::Invalid;
    }
    FstabLine::Entry(
        FstabEntry {
            source: string_of(&fields[0]),
            target: string_of(&fields[1]),
            fstype: string_of(&fields[2]),
            options: string_of(&fields[3]),
        },
    )
}

/// Whether the option list `options`, with commas between its options,
/// holds the option `opt`.
pub open spec fn has_option(options: Seq<char>, opt: Seq<char>) -> bool {
    split(options, ',').contains(opt)
}

/// Whether the option list holds the option.
pub fn option_set(options: &str, opt: &str) -> (r: bool)
    ensures
        r == has_option(options@, opt@),
{
    let parts = split_chars(&chars_of(options), ',');
    holds_chars(&parts, &chars_of(opt))
}

/// What is done with an entry at boot.
#[derive(Debug, Clone, Copy, PartialEq, Eq, Structural)]
pub enum FstabAction {
    /// Nothing: the root is mounted already.
    SkipRoot,
    /// Nothing: the target is `none` or no absolute path.
    SkipTarget,
    /// Nothing: the entry is marked `noauto`.
    SkipNoAuto,
    /// The entry is mounted.
    Mount,
}

/// What is done at boot with an entry for `target` with `options`.
pub open spec fn boot_action(target: Seq<char>, options: Seq<char>) -> FstabAction {
    if target == "/"@ {
        FstabAction::SkipRoot
    } else if target == "none"@ || target.len() == 0 || target[0] != '/' {
        FstabAction::SkipTarget
    } else if has_option(options, "noauto"@) {
        FstabAction::SkipNoAuto
    } else {
        FstabAction::Mount
    }
}

/// What is done with the entry at boot.
pub fn fstab_action(entry: &FstabEntry) -> (r: FstabAction)
    ensures
        r == boot_action(entry.target@, entry.options@),
{
    let target = chars_of(entry.target.as_str());
    if is_text(&target, "/") {
        FstabAction::SkipRoot
    } else if is_text(&target, "none") || target.len() == 0 || target[0] != '/' {
        FstabAction::SkipTarget
    } else if option_set(entry.options.as_str(), "noauto") {
        FstabAction::SkipNoAuto
    } else {
        FstabAction::Mount
    }
}

/// The mount flags that options set.
#[derive(Debug, Clone, Copy, PartialEq, Eq, Structural)]
pub struct MountFlags {
    pub read_only: bool,
    pub no_exec: bool,
    pub no_suid: bool,
    pub no_dev: bool,
    pub relatime: bool,
    pub no_diratime: bool,
    pub synchronous: bool,
}

/// What mount options come to: the flags they set and the options that are
/// handed on as data.
pub struct OptionSplit {
    pub flags: MountFlags,
    pub data: Seq<Seq<char>>,
}

/// No flag set, nothing handed on.
pub open spec fn no_options() -> OptionSplit {
    OptionSplit {
        flags: MountFlags {
            read_only: false,
            no_exec: false,
            no_suid: false,
            no_dev: false,
            relatime: false,
            no_diratime: false,
            synchronous: false,
        },
        data: Seq::empty(),
    }
}

/// One more option: a known one sets its flag (`rw` clears the read-only
/// flag), any other is handed on as data.
pub open spec fn take_option(sp: OptionSplit, opt: Seq<char>) -> OptionSplit {
    let f = sp.flags;
    if opt == "ro"@ {
        OptionSplit { flags: MountFlags { read_only: true, ..f }, ..sp }
    } else if opt == "rw"@ {
        OptionSplit { flags: MountFlags { read_only: false, ..f }, ..sp }
    } else if opt == "noexec"@ {
        OptionSplit { flags: MountFlags { no_exec: true, ..f }, ..sp }
    } else if opt == "nosuid"@ {
        OptionSplit { flags: MountFlags { no_suid: true, ..f }, ..sp }
    } else if opt == "nodev"@ {
        OptionSplit { flags: MountFlags { no_dev: true, ..f }, ..sp }
    } else if opt == "relatime"@ {
        OptionSplit { flags: MountFlags { relatime: true, ..f }, ..sp }
    } else if opt == "nodiratime"@ {
        OptionSplit { flags: MountFlags { no_diratime: true, ..f }, ..sp }
    } else if opt == "sync"@ {
        OptionSplit { flags: MountFlags { synchronous: true, ..f }, ..sp }
    } else {
        OptionSplit { data: sp.data.push(opt), ..sp }
    }
}

/// What the options `opts` come to, taken in order.
pub open spec fn take_options(opts: Seq<Seq<char>>) -> OptionSplit
    decreases opts.len(),
{
    if opts.len() == 0 {
        no_options()
    } else {
        take_option(take_options(opts.drop_last()), opts.last())
    }
}

/// The data that is handed on: the options, with commas between them, or
/// none when there is no such option.
pub open spec fn option_data(data: Seq<Seq<char>>) -> Option<Seq<char>> {
    if data.len() == 0 {
        None
    } else {
        Some(joined(data, ","@))
    }
}

/// Parts mount options into the flags that they set and the data that is
/// handed to the file system.
pub fn split_mount_options(options: &str) -> (r: (MountFlags, Option<String>))
    ensures
        r.0 == take_options(split(options@, ',')).flags,
        opt_text(r.1) == option_data(take_options(split(options@, ',')).data),
{
    let opts = split_chars(&chars_of(options), ',');
    let ghost all = texts(opts@);
    let mut flags = MountFlags {
        read_only: false,
        no_exec: false,
        no_suid: false,
        no_dev: false,
        relatime: false,
        no_diratime: false,
        synchronous: false,
    };
    let mut data: Vec<Vec<char>> = Vec::new();
    let mut i: usize = 0;
    proof {
        assert(all.take(0) =~= Seq::<Seq<char>>::empty());
        assert(texts(data@) =~= Seq::<Seq<char>>::empty());
    }
    while i < opts.len()
        invariant
            i <= opts.len(),
            all == texts(opts@),
            take_options(all.take(i as int)) == (OptionSplit { flags, data: texts(data@) }),
        decreases opts.len() - i,
    {
        let opt = &opts[i];
        proof {
            assert(all.take(i + 1).drop_last() == all.take(i as int));
            assert(all.take(i + 1).last() == opt@);
        }
        if is_text(opt, "ro") {
            flags.read_only = true;
        } else if is_text(opt, "rw") {
            flags.read_only = false;
        } else if is_text(opt, "noexec") {
            flags.no_exec = true;
        } else if is_text(opt, "nosuid") {
            flags.no_suid = true;
        } else if is_text(opt, "nodev") {
            flags.no_dev = true;
        } else if is_text(opt, "relatime") {
            flags.relatime = true;
        } else if is_text(opt, "nodiratime") {
            flags.no_diratime = true;
        } else if is_text(opt, "sync") {
            flags.synchronous = true;
        } else {
            let ghost before = texts(data@);
            data.push(slice_of(opt, 0, opt.len()));
            proof {
                assert(opt@.subrange(0, opt@.len() as int) == opt@);
                assert(texts(data@) =~= before.push(opt@));
            }
        }
        i += 1;
    }
    proof {
        assert(all.take(opts.len() as int) == all);
    }
    if data.len() == 0 {
        (flags, None)
    } else {
        let text = join_chars(&data, &chars_of(","));
        (flags, Some(string_of(&text)))
    }
}

/// What kind of source an entry names.
#[derive(Debug, Clone)]
pub enum SourceKind {
    /// A pseudo file system, named by its type: it is used as it stands.
    Pseudo,
    /// A device named by its UUID, to be looked up in `/dev/disk/by-uuid`.
    ByUuid(String),
    /// A device named by its label, to be looked up in `/dev/disk/by-label`.
    ByLabel(String),
    /// A device path, which must exist.
    Device,
}

/// The mathematical content of a [`SourceKind`].
pub enum Source {
    Pseudo,
    ByUuid(Seq<char>),
    ByLabel(Seq<char>),
    Device,
}

impl View for SourceKind {
    type V = Source;

    open spec fn view(&self) -> Source {
        match self {
            SourceKind::Pseudo => Source::Pseudo,
            SourceKind::ByUuid(u) => Source::ByUuid(u@),
            SourceKind::ByLabel(l) => Source::ByLabel(l@),
            SourceKind::Device => Source::Device,
        }
    }
}

/// Whether `source` names a pseudo file system.
pub open spec fn is_pseudo(source: Seq<char>) -> bool {
    source == "tmpfs"@ || source == "proc"@ || source == "sysfs"@ || source == "devpts"@ || source
        == "devtmpfs"@ || source == "cgroup"@ || source == "cgroup2"@
}

/// What kind of source `source` is.
pub open spec fn source_kind(source: Seq<char>) -> Source {
    if is_pseudo(source) {
        Source::Pseudo
    } else if starts_with(source, "UUID="@) {
        Source::ByUuid(source.skip("UUID="@.len() as int))
    } else if starts_with(source, "LABEL="@) {
        Source::ByLabel(source.skip("LABEL="@.len() as int))
    } else {
        Source::Device
    }
}

/// Says how the source of an entry is resolved to a device.
pub fn resolve_source(source: &str) -> (r: SourceKind)
    ensures
        r@ == source_kind(source@),
{
    let v = chars_of(source);
    if is_text(&v, "tmpfs") || is_text(&v, "proc") || is_text(&v, "sysfs") || is_text(&v, "devpts")
        || is_text(&v, "devtmpfs") || is_text(&v, "cgroup") || is_text(&v, "cgroup2") {
        return SourceKind::Pseudo;
    }
    let uuid = chars_of("UUID=");
    let label = chars_of("LABEL=");
    if has_prefix(&v, &uuid) {
        let rest = slice_of(&v, uuid.len(), v.len());
        proof {
            assert(rest@ =~= v@.skip("UUID="@.len() as int));
        }
        SourceKind::ByUuid(string_of(&rest))
    } else if has_prefix(&v, &label) {
        let rest = slice_of(&v, label.len(), v.len());
        proof {
            assert(rest@ =~= v@.skip("LABEL="@.len() as int));
        }
        SourceKind::ByLabel(string_of(&rest))
    } else {
        SourceKind::Device
    }
}

/// Whether the root is mounted read-only, by the lines of the mount table:
/// the first line that has four fields and `/` as its mount point decides,
/// by whether its options hold `ro`; without such a line it is not.
pub open spec fn root_readonly(lines: Seq<Seq<char>>) -> bool
    decreases lines.len(),
{
    if lines.len() == 0 {
        false
    } else {
        let fields = words(lines[0]);
        if fields.len() >= 4 && fields[1] == "/"@ {
            has_option(fields[3], "ro"@)
        } else {
            root_readonly(lines.skip(1))
        }
    }
}

/// Whether the mount table `mounts` shows the root mounted read-only.
pub fn is_root_readonly(mounts: &str) -> (r: bool)
    ensures
        r == root_readonly(lines_of(mounts@)),
{
    let lines = lines_of_chars(&chars_of(mounts));
    let ghost all = texts(lines@);
    let mut i: usize = 0;
    proof {
        assert(all.skip(0) == all);
    }
    while i < lines.len()
        invariant
            i <= lines.len(),
            all == texts(lines@),
            all == lines_of(mounts@),
            root_readonly(all) == root_readonly(all.skip(i as int)),
        decreases lines.len() - i,
    {
        proof {
            assert(all.skip(i as int)[0] == lines@[i as int]@);
            assert(all.skip(i as int).skip(1) == all.skip(i + 1));
        }
        let fields = words_of(&lines[i]);
        if fields.len() >= 4 && is_text(&fields[1], "/") {
            let options = string_of(&fields[3]);
            return option_set(options.as_str(), "ro");
        }
        i += 1;
    }
    false
}

/// Whether the file system type or source `t` is one whose mount point is
/// not checked.
pub open spec fn is_unchecked_type(t: Seq<char>) -> bool {
    t == "proc"@ || t == "sysfs"@ || t == "tmpfs"@ || t == "devtmpfs"@ || t == "devpts"@ || t
        == "cgroup"@ || t == "cgroup2"@ || t == "debugfs"@ || t == "securityfs"@ || t == "pstore"@
        || t == "efivarfs"@ || t == "mqueue"@ || t == "hugetlbfs"@ || t == "configfs"@ || t
        == "fusectl"@ || t == "tracefs"@ || t == "bpf"@ || t == "ramfs"@ || t == "overlay"@ || t
        == "aufs"@ || t == "squashfs"@ || t == "autofs"@ || t == "none"@
}

/// Whether `t` is a type or source whose mount point is not checked.
pub fn is_unchecked(t: &Vec<char>) -> (r: bool)
    ensures
        r == is_unchecked_type(t@),
{
    is_text(t, "proc") || is_text(t, "sysfs") || is_text(t, "tmpfs") || is_text(t, "devtmpfs")
        || is_text(t, "devpts") || is_text(t, "cgroup") || is_text(t, "cgroup2") || is_text(
        t,
        "debugfs",
    ) || is_text(t, "securityfs") || is_text(t, "pstore") || is_text(t, "efivarfs") || is_text(
        t,
        "mqueue",
    ) || is_text(t, "hugetlbfs") || is_text(t, "configfs") || is_text(t, "fusectl") || is_text(
        t,
        "tracefs",
    ) || is_text(t, "bpf") || is_text(t, "ramfs") || is_text(t, "overlay") || is_text(t, "aufs")
        || is_text(t, "squashfs") || is_text(t, "autofs") || is_text(t, "none")
}

/// The mount point that the line `line` of the file system table asks to
/// have checked: that of a line with three fields or more whose type and
/// source are those of real file systems and whose mount point is not
/// `none`.
pub open spec fn checked_point(line: Seq<char>) -> Option<Seq<char>> {
    let parts = words(line);
    if is_blank(line) || parts.len() < 3 {
        None
    } else if is_unchecked_type(parts[2]) || is_unchecked_type(parts[0]) || parts[1] == "none"@ {
        None
    } else {
        Some(parts[1])
    }
}

/// The mount point that a line of the file system table asks to have
/// checked.
pub fn health_check_target(line: &str) -> (r: Option<String>)
    ensures
        opt_text(r) == checked_point(line@),
{
    let v = chars_of(line);
    if is_blank_line(&v) {
        return None;
    }
    let parts = words_of(&v);
    if parts.len() < 3 {
        return None;
    }
    if is_unchecked(&parts[2]) || is_unchecked(&parts[0]) || is_text(&parts[1], "none") {
        return None;
    }
    Some(string_of(&parts[1]))
}

/// Whether a mount of `source` at `target` is passed over: `none` stands
/// for nothing to mount.
pub fn skips_mount(source: &Option<String>, target: &str) -> (r: bool)
    ensures
        r == (opt_text(*source) == Some("none"@) || target@ == "none"@),
{
    let from_none = match source {
        Some(s) => is_text(&chars_of(s.as_str()), "none"),
        None => false,
    };
    from_none || is_text(&chars_of(target), "none")
}

/// Whether a file system of the type `fstype` takes mount data.
pub open spec fn takes_data(fstype: Seq<char>) -> bool {
    fstype == "tmpfs"@ || fstype == "nfs"@ || fstype == "cifs"@ || fstype == "fuse"@
}

/// The data that is handed to the mount: the data given, for the file
/// system types that take data, and none for the others.
pub fn mount_data_for(fstype: &Option<String>, data: &Option<String>) -> (r: Option<String>)
    ensures
        opt_text(r) == match opt_text(*fstype) {
            Some(t) => if takes_data(t) {
                opt_text(*data)
            } else {
                None
            },
            None => None,
        },
{
    match fstype {
        None => None,
        Some(t) => {
            let v = chars_of(t.as_str());
            if is_text(&v, "tmpfs") || is_text(&v, "nfs") || is_text(&v, "cifs") || is_text(
                &v,
                "fuse",
            ) {
                crate::text::copy_opt_string(data)
            } else {
                None
            }
        },
    }
}

/// The mount point of a line of the kernel's mount information: its fifth
/// field.
pub fn mount_point_of(line: &str) -> (r: Option<String>)
    ensures
        opt_text(r) == if words(line@).len() > 4 {
            Some(words(line@)[4])
        } else {
            None
        },
{
    let fields = words_of(&chars_of(line));
    if fields.len() > 4 {
        Some(string_of(&fields[4]))
    } else {
        None
    }
}

/// The error number of a file or directory that does not exist.
pub const ENOENT: i32 = 2;

/// The error number of a device that does not exist.
pub const ENODEV: i32 = 19;

/// The error number of an invalid argument.
pub const EINVAL: i32 = 22;

/// Whether a mount that failed with the error number `errno` is taken as
/// done: it is when the kernel does not know the file system.
pub fn mount_error_is_ignored(errno: i32) -> (r: bool)
    ensures
        r == (errno == ENODEV),
{
    errno == ENODEV
}

/// How the failure of a mount of the file system table is reported: as a
/// warning when the entry is at fault (an invalid argument, something that
/// does not exist), as a failure else.
pub fn mount_failure_level(errno: i32) -> (r: LogLevel)
    ensures
        r == if errno == EINVAL || errno == ENOENT {
            LogLevel::Warn
        } else {
            LogLevel::Fail
        },
{
    if errno == EINVAL || errno == ENOENT {
        LogLevel::Warn
    } else {
        LogLevel::Fail
    }
}

} // verus!
