//! The descriptor grammar: what the text of a `.vs` file says.
//!
//! A file is read line by line. Blank lines and lines that start with `#`
//! say nothing. A line `key: value` sets a field. A line that begins with
//! two spaces or a tab adds an item to the list that the line `key:` before
//! it opened; a `-` before the item is dropped. A file whose name holds `@`
//! is a template: it gives one descriptor for each of its `instances`, with
//! every `{}` in its text replaced by the instance and with the name
//! `base@instance`. Every file, a template too, must state a name and a
//! command.

use vstd::prelude::*;
use crate::errors::{BloomError, Fault};
use crate::number::{parse_i32, parse_u64, read_decimal, read_signed};
use crate::service::{lowercase, RestartPolicy};
use crate::service_file::{descriptors, Descriptor, ServiceFile};
use crate::text::{
    append_chars, chars_of, expand, expand_chars, find_from, has_char, index_of, is_space,
    is_space_char, is_text, lines_of, lines_of_chars, opt_strings, slice_of, split, split_chars,
    string_of, strings, texts, trim, trim_chars,
};

verus! {

/// Where the reading of an argument line stands: the arguments that are
/// complete, the one being read, and the kind of quote that is open.
pub struct ArgState {
    pub args: Seq<Seq<char>>,
    pub current: Seq<char>,
    pub in_double: bool,
    pub in_single: bool,
}

/// Reading one more character of an argument line. A quote opens or closes
/// a quoted argument unless the other kind of quote is open; closing one
/// completes the argument, even an empty one. White space outside quotes
/// completes the argument being read, if there is one. Any other character
/// belongs to the argument being read.
pub open spec fn arg_step(st: ArgState, ch: char) -> ArgState {
    if ch == '"' && !st.in_single {
        if st.in_double {
            ArgState { args: st.args.push(st.current), current: Seq::empty(), in_double: false, ..st }
        } else {
            ArgState { in_double: true, ..st }
        }
    } else if ch == '\'' && !st.in_double {
        if st.in_single {
            ArgState { args: st.args.push(st.current), current: Seq::empty(), in_single: false, ..st }
        } else {
            ArgState { in_single: true, ..st }
        }
    } else if is_space(ch) && !st.in_double && !st.in_single {
        if st.current.len() > 0 {
            ArgState { args: st.args.push(st.current), current: Seq::empty(), ..st }
        } else {
            st
        }
    } else {
        ArgState { current: st.current.push(ch), ..st }
    }
}

/// Reading the characters of `s`, one after the other.
pub open spec fn arg_read(st: ArgState, s: Seq<char>) -> ArgState
    decreases s.len(),
{
    if s.len() == 0 {
        st
    } else {
        arg_step(arg_read(st, s.drop_last()), s.last())
    }
}

/// The arguments that the line `s` holds: words separated by white space,
/// where single or double quotes keep white space inside a word.
pub open spec fn quoted_args(s: Seq<char>) -> Seq<Seq<char>> {
    let st = arg_read(
        ArgState { args: Seq::empty(), current: Seq::empty(), in_double: false, in_single: false },
        s,
    );
    if st.current.len() > 0 {
        st.args.push(st.current)
    } else {
        st.args
    }
}

/// Splits an argument line into arguments.
pub fn parse_quoted_args(s: &str) -> (args: Vec<String>)
    ensures
        strings(args@) == quoted_args(s@),
{
    let v = chars_of(s);
    let mut args: Vec<String> = Vec::new();
    let mut current: Vec<char> = Vec::new();
    let mut in_double = false;
    let mut in_single = false;
    let mut i: usize = 0;
    proof {
        assert(strings(args@) =~= Seq::<Seq<char>>::empty());
    }
    while i < v.len()
        invariant
            i <= v.len(),
            v@ == s@,
            arg_read(
                ArgState {
                    args: Seq::empty(),
                    current: Seq::empty(),
                    in_double: false,
                    in_single: false,
                },
                v@.take(i as int),
            ) == (ArgState { args: strings(args@), current: current@, in_double, in_single }),
        decreases v.len() - i,
    {
        let ch = v[i];
        let ghost before = strings(args@);
        proof {
            assert(v@.take(i + 1).drop_last() == v@.take(i as int));
            assert(v@.take(i + 1).last() == ch);
        }
        if ch == '"' && !in_single {
            if in_double {
                in_double = false;
                args.push(string_of(&current));
                proof {
                    assert(strings(args@) =~= before.push(current@));
                }
                current = Vec::new();
            } else {
                in_double = true;
            }
        } else if ch == '\'' && !in_double {
            if in_single {
                in_single = false;
                args.push(string_of(&current));
                proof {
                    assert(strings(args@) =~= before.push(current@));
                }
                current = Vec::new();
            } else {
                in_single = true;
            }
        } else if is_space_char(ch) && !in_double && !in_single {
            if current.len() > 0 {
                args.push(string_of(&current));
                proof {
                    assert(strings(args@) =~= before.push(current@));
                }
                current = Vec::new();
            }
        } else {
            current.push(ch);
        }
        i += 1;
    }
    proof {
        assert(v@.take(v.len() as int) == v@);
    }
    if current.len() > 0 {
        let ghost before = strings(args@);
        args.push(string_of(&current));
        proof {
            assert(strings(args@) =~= before.push(current@));
        }
    }
    args
}

/// The keys that open a list.
#[derive(Debug, Clone, Copy, PartialEq, Eq, Structural)]
pub enum ListKey {
    Env,
    Dependencies,
    Tags,
    Instances,
}

/// The keys that a descriptor file knows.
#[derive(Debug, Clone, Copy, PartialEq, Eq, Structural)]
pub enum Key {
    Name,
    Desc,
    Cmd,
    Args,
    PreCmd,
    PostCmd,
    Package,
    StartupPackage,
    User,
    Group,
    WorkingDir,
    Restart,
    RestartDelay,
    StopCmd,
    TimeoutStart,
    TimeoutStop,
    Priority,
    StdoutLog,
    StderrLog,
    Umask,
    Nice,
    List(ListKey),
}

/// A key as it is compared: with `_` for each `-`.
pub open spec fn normal_key(k: Seq<char>) -> Seq<char> {
    Seq::new(k.len(), |i: int| if k[i] == '-' { '_' } else { k[i] })
}

/// The key that the normal form `k` names.
pub open spec fn key_of(k: Seq<char>) -> Option<Key> {
    if k == "name"@ {
        Some(Key::Name)
    } else if k == "desc"@ {
        Some(Key::Desc)
    } else if k == "cmd"@ {
        Some(Key::Cmd)
    } else if k == "args"@ {
        Some(Key::Args)
    } else if k == "pre_cmd"@ {
        Some(Key::PreCmd)
    } else if k == "post_cmd"@ {
        Some(Key::PostCmd)
    } else if k == "package"@ {
        Some(Key::Package)
    } else if k == "startup_package"@ || k == "startup"@ {
        Some(Key::StartupPackage)
    } else if k == "user"@ {
        Some(Key::User)
    } else if k == "group"@ {
        Some(Key::Group)
    } else if k == "working_dir"@ {
        Some(Key::WorkingDir)
    } else if k == "restart"@ {
        Some(Key::Restart)
    } else if k == "restart_delay"@ {
        Some(Key::RestartDelay)
    } else if k == "stop_cmd"@ {
        Some(Key::StopCmd)
    } else if k == "timeout_start"@ {
        Some(Key::TimeoutStart)
    } else if k == "timeout_stop"@ {
        Some(Key::TimeoutStop)
    } else if k == "priority"@ {
        Some(Key::Priority)
    } else if k == "stdout_log"@ || k == "stdout"@ {
        Some(Key::StdoutLog)
    } else if k == "stderr_log"@ || k == "stderr"@ {
        Some(Key::StderrLog)
    } else if k == "umask"@ {
        Some(Key::Umask)
    } else if k == "nice"@ {
        Some(Key::Nice)
    } else if k == "env"@ {
        Some(Key::List(ListKey::Env))
    } else if k == "dependencies"@ {
        Some(Key::List(ListKey::Dependencies))
    } else if k == "tags"@ {
        Some(Key::List(ListKey::Tags))
    } else if k == "instances"@ {
        Some(Key::List(ListKey::Instances))
    } else {
        None
    }
}

/// What has been read of a descriptor file so far.
pub struct Draft {
    pub file: ServiceFile,
    /// A `name` line was read.
    pub named: bool,
    /// A `cmd` line was read.
    pub has_cmd: bool,
    /// The list that item lines add to.
    pub open: Option<ListKey>,
    /// Whether a number that does not read is a fault. It is none while a
    /// template is read for its instances: there `{}` may stand for a number.
    pub strict: bool,
}

/// The mathematical content of a [`Draft`].
pub struct DraftView {
    pub d: Descriptor,
    pub named: bool,
    pub has_cmd: bool,
    pub open: Option<ListKey>,
    pub strict: bool,
}

impl View for Draft {
    type V = DraftView;

    open spec fn view(&self) -> DraftView {
        DraftView {
            d: self.file@,
            named: self.named,
            has_cmd: self.has_cmd,
            open: self.open,
            strict: self.strict,
        }
    }
}

/// The draft before any line is read.
pub open spec fn blank() -> DraftView {
    DraftView {
        d: Descriptor::bare(Seq::empty(), Seq::empty()),
        named: false,
        has_cmd: false,
        open: None,
        strict: true,
    }
}

/// The draft before any line of a template is read for its instances: in
/// it a number that does not read is passed over.
pub open spec fn sketch() -> DraftView {
    DraftView { strict: false, ..blank() }
}

/// What a number that does not read makes of a draft: a fault, or nothing
/// where such numbers are passed over.
pub open spec fn unread(st: DraftView, val: Seq<char>) -> Result<DraftView, Fault> {
    if st.strict {
        Err(Fault::Parse("Invalid number: "@ + val))
    } else {
        Ok(st)
    }
}

/// The pieces, each trimmed, that are not empty.
pub open spec fn clean_items(pieces: Seq<Seq<char>>) -> Seq<Seq<char>>
    decreases pieces.len(),
{
    if pieces.len() == 0 {
        Seq::empty()
    } else {
        let t = trim(pieces.last());
        if t.len() > 0 {
            clean_items(pieces.drop_last()).push(t)
        } else {
            clean_items(pieces.drop_last())
        }
    }
}

/// A list with `items` added at its end; a list that was absent begins.
pub open spec fn extended(list: Option<Seq<Seq<char>>>, items: Seq<Seq<char>>) -> Option<
    Seq<Seq<char>>,
> {
    match list {
        Some(l) => Some(l + items),
        None => Some(items),
    }
}

/// The descriptor with `items` added to the list that `key` names.
pub open spec fn with_items(d: Descriptor, key: ListKey, items: Seq<Seq<char>>) -> Descriptor {
    match key {
        ListKey::Env => Descriptor { env: extended(d.env, items), ..d },
        ListKey::Dependencies => Descriptor { dependencies: extended(d.dependencies, items), ..d },
        ListKey::Tags => Descriptor { tags: extended(d.tags, items), ..d },
        ListKey::Instances => Descriptor { instances: extended(d.instances, items), ..d },
    }
}

/// What the line `key: val` makes of the draft. A text field takes the
/// value as it stands; `args` is split into arguments; `restart` takes the
/// policy that the value names and stays as it is when the value names
/// none; a number must read as one, and a priority must lie in `0..=100`,
/// but where a template is read for its instances a number at fault is
/// passed over; a list key opens its list and adds the items that the value
/// holds between commas.
pub open spec fn apply(st: DraftView, key: Key, val: Seq<char>) -> Result<DraftView, Fault> {
    let d = st.d;
    let shut = DraftView { open: None, ..st };
    match key {
        Key::Name => Ok(DraftView { d: Descriptor { name: val, ..d }, named: true, ..shut }),
        Key::Desc => Ok(DraftView { d: Descriptor { desc: Some(val), ..d }, ..shut }),
        Key::Cmd => Ok(DraftView { d: Descriptor { cmd: val, ..d }, has_cmd: true, ..shut }),
        Key::Args => Ok(DraftView { d: Descriptor { args: Some(quoted_args(val)), ..d }, ..shut }),
        Key::PreCmd => Ok(DraftView { d: Descriptor { pre_cmd: Some(val), ..d }, ..shut }),
        Key::PostCmd => Ok(DraftView { d: Descriptor { post_cmd: Some(val), ..d }, ..shut }),
        Key::Package => Ok(DraftView { d: Descriptor { package: Some(val), ..d }, ..shut }),
        Key::StartupPackage => Ok(
            DraftView { d: Descriptor { startup_package: Some(val), ..d }, ..shut },
        ),
        Key::User => Ok(DraftView { d: Descriptor { user: Some(val), ..d }, ..shut }),
        Key::Group => Ok(DraftView { d: Descriptor { group: Some(val), ..d }, ..shut }),
        Key::WorkingDir => Ok(DraftView { d: Descriptor { working_dir: Some(val), ..d }, ..shut }),
        Key::Restart => match RestartPolicy::named(lowercase(val)) {
            Some(p) => Ok(DraftView { d: Descriptor { restart: p, ..d }, ..shut }),
            None => Ok(shut),
        },
        Key::RestartDelay => match read_decimal(val, u64::MAX as nat) {
            Some(n) => Ok(DraftView { d: Descriptor { restart_delay: Some(n as u64), ..d }, ..shut }),
            None => unread(shut, val),
        },
        Key::StopCmd => Ok(DraftView { d: Descriptor { stop_cmd: Some(val), ..d }, ..shut }),
        Key::TimeoutStart => match read_decimal(val, u64::MAX as nat) {
            Some(n) => Ok(DraftView { d: Descriptor { timeout_start: Some(n as u64), ..d }, ..shut }),
            None => unread(shut, val),
        },
        Key::TimeoutStop => match read_decimal(val, u64::MAX as nat) {
            Some(n) => Ok(DraftView { d: Descriptor { timeout_stop: Some(n as u64), ..d }, ..shut }),
            None => unread(shut, val),
        },
        Key::Priority => match read_signed(val, i32::MIN as int, i32::MAX as int) {
            Some(n) => if 0 <= n <= 100 {
                Ok(DraftView { d: Descriptor { priority: Some(n as i32), ..d }, ..shut })
            } else if st.strict {
                Err(Fault::ConfigInvalid("Priority out of range: "@ + val))
            } else {
                Ok(shut)
            },
            None => unread(shut, val),
        },
        Key::StdoutLog => Ok(DraftView { d: Descriptor { stdout_log: Some(val), ..d }, ..shut }),
        Key::StderrLog => Ok(DraftView { d: Descriptor { stderr_log: Some(val), ..d }, ..shut }),
        Key::Umask => Ok(DraftView { d: Descriptor { umask: Some(val), ..d }, ..shut }),
        Key::Nice => match read_signed(val, i32::MIN as int, i32::MAX as int) {
            Some(n) => Ok(DraftView { d: Descriptor { nice: Some(n as i32), ..d }, ..shut }),
            None => unread(shut, val),
        },
        Key::List(list) => Ok(
            DraftView { d: with_items(d, list, clean_items(split(val, ','))), open: Some(list), ..st },
        ),
    }
}

/// Whether `line` is an item line: it begins with two spaces or with a tab.
pub open spec fn is_item_line(line: Seq<char>) -> bool {
    (line.len() >= 2 && line[0] == ' ' && line[1] == ' ') || (line.len() >= 1 && line[0] == '\t')
}

/// The item that the trimmed item line `t` holds: `t` without a `-` at its
/// start, trimmed.
pub open spec fn item_text(t: Seq<char>) -> Seq<char> {
    if t.len() > 0 && t[0] == '-' {
        trim(t.skip(1))
    } else {
        t
    }
}

/// What one line makes of the draft.
pub open spec fn read_line(st: DraftView, line: Seq<char>) -> Result<DraftView, Fault> {
    let t = trim(line);
    if t.len() == 0 || t[0] == '#' {
        Ok(st)
    } else if is_item_line(line) {
        match st.open {
            None => Err(Fault::Parse("List item without a list: "@ + t)),
            Some(list) => if item_text(t).len() > 0 {
                Ok(DraftView { d: with_items(st.d, list, seq![item_text(t)]), ..st })
            } else {
                Ok(st)
            },
        }
    } else if !has_char(t, ':') {
        Ok(st)
    } else {
        let i = index_of(t, ':');
        let written = trim(t.take(i));
        match key_of(normal_key(written)) {
            Some(key) => apply(st, key, trim(t.skip(i + 1))),
            None => Err(Fault::Parse("Unknown key: "@ + written)),
        }
    }
}

/// What the lines make of the draft, read in order up to the first line
/// that is at fault.
pub open spec fn read_lines(st: DraftView, lines: Seq<Seq<char>>) -> Result<DraftView, Fault>
    decreases lines.len(),
{
    if lines.len() == 0 {
        Ok(st)
    } else {
        match read_lines(st, lines.drop_last()) {
            Ok(so_far) => read_line(so_far, lines.last()),
            Err(e) => Err(e),
        }
    }
}

/// The text `/var/log/<name><ending>`.
pub open spec fn log_path(name: Seq<char>, ending: Seq<char>) -> Seq<char> {
    "/var/log/"@ + name + ending
}

/// The descriptor with each field that it leaves open set to its default.
pub open spec fn with_defaults(d: Descriptor) -> Descriptor {
    Descriptor {
        restart_delay: Some(d.restart_delay.unwrap_or(0)),
        timeout_start: Some(d.timeout_start.unwrap_or(10)),
        timeout_stop: Some(d.timeout_stop.unwrap_or(5)),
        umask: Some(d.umask.unwrap_or("022"@)),
        nice: Some(d.nice.unwrap_or(0)),
        priority: Some(d.priority.unwrap_or(50)),
        stdout_log: Some(d.stdout_log.unwrap_or(log_path(d.name, ".out.log"@))),
        stderr_log: Some(d.stderr_log.unwrap_or(log_path(d.name, ".err.log"@))),
        ..d
    }
}

/// What a draft lacks to give a descriptor: a name, or else a command;
/// an empty one counts as none.
pub open spec fn missing(st: DraftView) -> Option<Fault> {
    if !st.named || st.d.name.len() == 0 {
        Some(Fault::ConfigInvalid("Missing name"@))
    } else if !st.has_cmd || st.d.cmd.len() == 0 {
        Some(Fault::ConfigInvalid("Missing cmd"@))
    } else {
        None
    }
}

/// The descriptor that a draft gives: it must have a name and a command,
/// neither of them empty; the fields that it leaves open take their
/// defaults.
pub open spec fn finish(st: DraftView) -> Result<Descriptor, Fault> {
    match missing(st) {
        Some(e) => Err(e),
        None => Ok(with_defaults(st.d)),
    }
}

/// A file name without the ending `.vs`.
pub open spec fn stem(file_name: Seq<char>) -> Seq<char> {
    let n = file_name.len();
    if n >= 3 && file_name[n - 3] == '.' && file_name[n - 2] == 'v' && file_name[n - 1] == 's' {
        file_name.take(n - 3)
    } else {
        file_name
    }
}

/// The base name of a template: what stands before the first `@` of the
/// file's stem. A file without `@` in its stem is no template.
pub open spec fn template_base(file_name: Seq<char>) -> Option<Seq<char>> {
    let st = stem(file_name);
    if has_char(st, '@') {
        Some(st.take(index_of(st, '@')))
    } else {
        None
    }
}

/// The name of the instance `x` of the template `base`.
pub open spec fn instance_name(base: Seq<char>, x: Seq<char>) -> Seq<char> {
    base + "@"@ + x
}

/// The descriptor of one instance of a template: the file's text with `x`
/// for every `{}`, read as a descriptor and named `base@x`.
pub open spec fn instance(base: Seq<char>, content: Seq<char>, x: Seq<char>) -> Result<
    Descriptor,
    Fault,
> {
    match read_lines(blank(), lines_of(expand(content, x))) {
        Ok(st) => finish(
            DraftView { d: Descriptor { name: instance_name(base, x), ..st.d }, named: true, ..st },
        ),
        Err(e) => Err(e),
    }
}

/// The descriptors of the instances `xs`, in order, up to the first one at
/// fault.
pub open spec fn instances(base: Seq<char>, content: Seq<char>, xs: Seq<Seq<char>>) -> Result<
    Seq<Descriptor>,
    Fault,
>
    decreases xs.len(),
{
    if xs.len() == 0 {
        Ok(Seq::empty())
    } else {
        match instances(base, content, xs.drop_last()) {
            Ok(v) => match instance(base, content, xs.last()) {
                Ok(d) => Ok(v.push(d)),
                Err(e) => Err(e),
            },
            Err(e) => Err(e),
        }
    }
}

/// The instances that a template's text lists.
pub open spec fn listed_instances(st: DraftView) -> Seq<Seq<char>> {
    match st.d.instances {
        Some(xs) => xs,
        None => Seq::empty(),
    }
}

/// The draft that the reading of a file begins with: a sketch for a
/// template, which is first read for its instances, and a blank draft for
/// any other file.
pub open spec fn first_draft(file_name: Seq<char>) -> DraftView {
    if template_base(file_name) is Some {
        sketch()
    } else {
        blank()
    }
}

/// What a descriptor file gives: one descriptor, or for a template one
/// descriptor for each instance that it lists. The text of a template must
/// itself state a name and a command, as that of any file; a number in it
/// may hold `{}` and is read only in the instances.
pub open spec fn parsed(file_name: Seq<char>, content: Seq<char>) -> Result<Seq<Descriptor>, Fault> {
    match read_lines(first_draft(file_name), lines_of(content)) {
        Err(e) => Err(e),
        Ok(st) => match missing(st) {
            Some(e) => Err(e),
            None => match template_base(file_name) {
                None => Ok(seq![with_defaults(st.d)]),
                Some(base) => instances(base, content, listed_instances(st)),
            },
        },
    }
}

/// The view of a result that holds a draft.
pub open spec fn draft_view(r: Result<Draft, BloomError>) -> Result<DraftView, Fault> {
    match r {
        Ok(d) => Ok(d@),
        Err(e) => Err(e@),
    }
}

/// The view of a result that holds one descriptor.
pub open spec fn file_view(r: Result<ServiceFile, BloomError>) -> Result<Descriptor, Fault> {
    match r {
        Ok(d) => Ok(d@),
        Err(e) => Err(e@),
    }
}

/// The view of a result that holds descriptors.
pub open spec fn files_view(r: Result<Vec<ServiceFile>, BloomError>) -> Result<
    Seq<Descriptor>,
    Fault,
> {
    match r {
        Ok(v) => Ok(descriptors(v@)),
        Err(e) => Err(e@),
    }
}

/// The text `prefix` followed by `text`.
fn labelled(prefix: &str, text: &Vec<char>) -> (r: String)
    ensures
        r@ == prefix@ + text@,
{
    let mut v = chars_of(prefix);
    append_chars(&mut v, text);
    string_of(&v)
}

/// The normal form of a key.
fn normalize_key(k: &Vec<char>) -> (r: Vec<char>)
    ensures
        r@ == normal_key(k@),
{
    let mut r: Vec<char> = Vec::new();
    let mut i: usize = 0;
    while i < k.len()
        invariant
            i <= k.len(),
            r@.len() == i,
            forall|x: int| 0 <= x < i ==> #[trigger] r@[x] == normal_key(k@)[x],
        decreases k.len() - i,
    {
        if k[i] == '-' {
            r.push('_');
        } else {
            r.push(k[i]);
        }
        i += 1;
    }
    proof {
        assert(r@ =~= normal_key(k@));
    }
    r
}

/// The key that the normal form `k` names.
fn classify_key(k: &Vec<char>) -> (r: Option<Key>)
    ensures
        r == key_of(k@),
{
    if is_text(k, "name") {
        Some(Key::Name)
    } else if is_text(k, "desc") {
        Some(Key::Desc)
    } else if is_text(k, "cmd") {
        Some(Key::Cmd)
    } else if is_text(k, "args") {
        Some(Key::Args)
    } else if is_text(k, "pre_cmd") {
        Some(Key::PreCmd)
    } else if is_text(k, "post_cmd") {
        Some(Key::PostCmd)
    } else if is_text(k, "package") {
        Some(Key::Package)
    } else if is_text(k, "startup_package") || is_text(k, "startup") {
        Some(Key::StartupPackage)
    } else if is_text(k, "user") {
        Some(Key::User)
    } else if is_text(k, "group") {
        Some(Key::Group)
    } else if is_text(k, "working_dir") {
        Some(Key::WorkingDir)
    } else if is_text(k, "restart") {
        Some(Key::Restart)
    } else if is_text(k, "restart_delay") {
        Some(Key::RestartDelay)
    } else if is_text(k, "stop_cmd") {
        Some(Key::StopCmd)
    } else if is_text(k, "timeout_start") {
        Some(Key::TimeoutStart)
    } else if is_text(k, "timeout_stop") {
        Some(Key::TimeoutStop)
    } else if is_text(k, "priority") {
        Some(Key::Priority)
    } else if is_text(k, "stdout_log") || is_text(k, "stdout") {
        Some(Key::StdoutLog)
    } else if is_text(k, "stderr_log") || is_text(k, "stderr") {
        Some(Key::StderrLog)
    } else if is_text(k, "umask") {
        Some(Key::Umask)
    } else if is_text(k, "nice") {
        Some(Key::Nice)
    } else if is_text(k, "env") {
        Some(Key::List(ListKey::Env))
    } else if is_text(k, "dependencies") {
        Some(Key::List(ListKey::Dependencies))
    } else if is_text(k, "tags") {
        Some(Key::List(ListKey::Tags))
    } else if is_text(k, "instances") {
        Some(Key::List(ListKey::Instances))
    } else {
        None
    }
}

/// The pieces, each trimmed, that are not empty.
fn clean(pieces: &Vec<Vec<char>>) -> (r: Vec<String>)
    ensures
        strings(r@) == clean_items(texts(pieces@)),
{
    let mut r: Vec<String> = Vec::new();
    let mut i: usize = 0;
    proof {
        assert(texts(pieces@).take(0) =~= Seq::<Seq<char>>::empty());
        assert(strings(r@) =~= Seq::<Seq<char>>::empty());
    }
    while i < pieces.len()
        invariant
            i <= pieces.len(),
            strings(r@) == clean_items(texts(pieces@).take(i as int)),
        decreases pieces.len() - i,
    {
        let t = trim_chars(&pieces[i]);
        proof {
            let all = texts(pieces@);
            assert(all.take(i + 1).drop_last() == all.take(i as int));
            assert(all.take(i + 1).last() == pieces@[i as int]@);
        }
        if t.len() > 0 {
            let ghost before = strings(r@);
            r.push(string_of(&t));
            proof {
                assert(strings(r@) =~= before.push(t@));
            }
        }
        i += 1;
    }
    proof {
        assert(texts(pieces@).take(pieces.len() as int) == texts(pieces@));
    }
    r
}

/// A list with `items` added at its end.
fn extend_list(list: Option<Vec<String>>, items: Vec<String>) -> (r: Option<Vec<String>>)
    ensures
        opt_strings(r) == extended(opt_strings(list), strings(items@)),
{
    match list {
        None => Some(items),
        Some(l) => {
            let mut l = l;
            let ghost start = strings(l@);
            let mut i: usize = 0;
            while i < items.len()
                invariant
                    i <= items.len(),
                    strings(l@) == start + strings(items@).take(i as int),
                decreases items.len() - i,
            {
                let ghost before = strings(l@);
                l.push(items[i].clone());
                proof {
                    assert(strings(l@) =~= before.push(items@[i as int]@));
                    assert(strings(items@).take(i + 1) =~= strings(items@).take(i as int).push(
                        items@[i as int]@,
                    ));
                }
                i += 1;
            }
            proof {
                assert(strings(items@).take(items.len() as int) == strings(items@));
            }
            Some(l)
        },
    }
}

/// The descriptor with `items` added to the list that `key` names.
fn add_items(file: ServiceFile, key: ListKey, items: Vec<String>) -> (r: ServiceFile)
    ensures
        r@ == with_items(file@, key, strings(items@)),
{
    let mut f = file;
    match key {
        ListKey::Env => {
            f.env = extend_list(f.env, items);
        },
        ListKey::Dependencies => {
            f.dependencies = extend_list(f.dependencies, items);
        },
        ListKey::Tags => {
            f.tags = extend_list(f.tags, items);
        },
        ListKey::Instances => {
            f.instances = extend_list(f.instances, items);
        },
    }
    f
}

/// What the line `key: val` makes of the draft.
fn apply_key(draft: Draft, key: Key, val: &Vec<char>) -> (r: Result<Draft, BloomError>)
    ensures
        draft_view(r) == apply(draft@, key, val@),
{
    let mut d = draft;
    match key {
        Key::List(list) => {
            let pieces = split_chars(val, ',');
            let items = clean(&pieces);
            d.file = add_items(d.file, list, items);
            d.open = Some(list);
            return Ok(d);
        },
        _ => {},
    }
    d.open = None;
    match key {
        Key::Name => {
            d.file.name = string_of(val);
            d.named = true;
        },
        Key::Desc => {
            d.file.desc = Some(string_of(val));
        },
        Key::Cmd => {
            d.file.cmd = string_of(val);
            d.has_cmd = true;
        },
        Key::Args => {
            let text = string_of(val);
            d.file.args = Some(parse_quoted_args(text.as_str()));
        },
        Key::PreCmd => {
            d.file.pre_cmd = Some(string_of(val));
        },
        Key::PostCmd => {
            d.file.post_cmd = Some(string_of(val));
        },
        Key::Package => {
            d.file.package = Some(string_of(val));
        },
        Key::StartupPackage => {
            d.file.startup_package = Some(string_of(val));
        },
        Key::User => {
            d.file.user = Some(string_of(val));
        },
        Key::Group => {
            d.file.group = Some(string_of(val));
        },
        Key::WorkingDir => {
            d.file.working_dir = Some(string_of(val));
        },
        Key::Restart => {
            let text = string_of(val);
            match RestartPolicy::from_str(text.as_str()) {
                Some(p) => {
                    d.file.restart = p;
                },
                None => {},
            }
        },
        Key::RestartDelay => {
            match parse_u64(val) {
                Some(n) => {
                    d.file.restart_delay = Some(n);
                },
                None => {
                    if d.strict {
                        return Err(BloomError::Parse(labelled("Invalid number: ", val)));
                    }
                },
            }
        },
        Key::StopCmd => {
            d.file.stop_cmd = Some(string_of(val));
        },
        Key::TimeoutStart => {
            match parse_u64(val) {
                Some(n) => {
                    d.file.timeout_start = Some(n);
                },
                None => {
                    if d.strict {
                        return Err(BloomError::Parse(labelled("Invalid number: ", val)));
                    }
                },
            }
        },
        Key::TimeoutStop => {
            match parse_u64(val) {
                Some(n) => {
                    d.file.timeout_stop = Some(n);
                },
                None => {
                    if d.strict {
                        return Err(BloomError::Parse(labelled("Invalid number: ", val)));
                    }
                },
            }
        },
        Key::Priority => {
            match parse_i32(val) {
                Some(n) => {
                    if 0 <= n && n <= 100 {
                        d.file.priority = Some(n);
                    } else if d.strict {
                        return Err(
                            BloomError::ConfigInvalid(labelled("Priority out of range: ", val)),
                        );
                    }
                },
                None => {
                    if d.strict {
                        return Err(BloomError::Parse(labelled("Invalid number: ", val)));
                    }
                },
            }
        },
        Key::StdoutLog => {
            d.file.stdout_log = Some(string_of(val));
        },
        Key::StderrLog => {
            d.file.stderr_log = Some(string_of(val));
        },
        Key::Umask => {
            d.file.umask = Some(string_of(val));
        },
        Key::Nice => {
            match parse_i32(val) {
                Some(n) => {
                    d.file.nice = Some(n);
                },
                None => {
                    if d.strict {
                        return Err(BloomError::Parse(labelled("Invalid number: ", val)));
                    }
                },
            }
        },
        Key::List(_) => {},
    }
    Ok(d)
}

/// What one line makes of the draft.
fn read_one(draft: Draft, line: &Vec<char>) -> (r: Result<Draft, BloomError>)
    ensures
        draft_view(r) == read_line(draft@, line@),
{
    let t = trim_chars(line);
    if t.len() == 0 || t[0] == '#' {
        return Ok(draft);
    }
    let item_line = (line.len() >= 2 && line[0] == ' ' && line[1] == ' ') || (line.len() >= 1
        && line[0] == '\t');
    if item_line {
        match draft.open {
            None => Err(BloomError::Parse(labelled("List item without a list: ", &t))),
            Some(list) => {
                let item = if t[0] == '-' {
                    let rest = slice_of(&t, 1, t.len());
                    proof {
                        assert(rest@ == t@.skip(1));
                    }
                    trim_chars(&rest)
                } else {
                    t
                };
                if item.len() > 0 {
                    let mut d = draft;
                    let mut items: Vec<String> = Vec::new();
                    items.push(string_of(&item));
                    proof {
                        assert(strings(items@) =~= seq![item@]);
                    }
                    d.file = add_items(d.file, list, items);
                    Ok(d)
                } else {
                    Ok(draft)
                }
            },
        }
    } else {
        let i = find_from(&t, 0, ':');
        proof {
            assert(t@.skip(0) == t@);
        }
        if i >= t.len() {
            return Ok(draft);
        }
        let head = slice_of(&t, 0, i);
        let tail = slice_of(&t, i + 1, t.len());
        proof {
            assert(head@ == t@.take(i as int));
            assert(tail@ == t@.skip(i + 1));
        }
        let written = trim_chars(&head);
        let val = trim_chars(&tail);
        let normal = normalize_key(&written);
        match classify_key(&normal) {
            Some(key) => apply_key(draft, key, &val),
            None => Err(BloomError::Parse(labelled("Unknown key: ", &written))),
        }
    }
}

/// A fault in the first lines is the fault of the whole text.
pub proof fn lemma_read_lines_fault(st: DraftView, lines: Seq<Seq<char>>, k: int)
    requires
        0 <= k <= lines.len(),
        read_lines(st, lines.take(k)) is Err,
    ensures
        read_lines(st, lines) == read_lines(st, lines.take(k)),
    decreases lines.len() - k,
{
    if k < lines.len() {
        assert(lines.take(k + 1).drop_last() == lines.take(k));
        lemma_read_lines_fault(st, lines, k + 1);
    } else {
        assert(lines.take(k) == lines);
    }
}

/// The draft before any line is read.
fn blank_draft() -> (r: Draft)
    ensures
        r@ == blank(),
{
    Draft {
        file: ServiceFile::new(String::new(), String::new()),
        named: false,
        has_cmd: false,
        open: None,
        strict: true,
    }
}

/// The draft before any line of a template is read for its instances.
fn sketch_draft() -> (r: Draft)
    ensures
        r@ == sketch(),
{
    let mut d = blank_draft();
    d.strict = false;
    d
}

/// What the text makes of the draft `start`.
fn read_text(start: Draft, content: &Vec<char>) -> (r: Result<Draft, BloomError>)
    ensures
        draft_view(r) == read_lines(start@, lines_of(content@)),
{
    let ghost first = start@;
    let lines = lines_of_chars(content);
    let ghost all = texts(lines@);
    let mut draft = start;
    let mut i: usize = 0;
    proof {
        assert(all.take(0) =~= Seq::<Seq<char>>::empty());
    }
    while i < lines.len()
        invariant
            i <= lines.len(),
            all == texts(lines@),
            all == lines_of(content@),
            first == start@,
            read_lines(first, all.take(i as int)) == Ok::<DraftView, Fault>(draft@),
        decreases lines.len() - i,
    {
        proof {
            assert(all.take(i + 1).drop_last() == all.take(i as int));
            assert(all.take(i + 1).last() == lines@[i as int]@);
        }
        match read_one(draft, &lines[i]) {
            Ok(next) => {
                draft = next;
            },
            Err(e) => {
                proof {
                    assert(read_lines(first, all.take(i + 1)) == Err::<DraftView, Fault>(e@));
                    lemma_read_lines_fault(first, all, i + 1);
                }
                return Err(e);
            },
        }
        i += 1;
    }
    proof {
        assert(all.take(lines.len() as int) == all);
    }
    Ok(draft)
}

/// What a draft lacks to give a descriptor.
fn missing_of(draft: &Draft) -> (r: Option<BloomError>)
    ensures
        match r {
            Some(e) => missing(draft@) == Some(e@),
            None => missing(draft@) is None,
        },
{
    if !draft.named || draft.file.name.as_str().is_empty() {
        Some(BloomError::ConfigInvalid("Missing name".to_owned()))
    } else if !draft.has_cmd || draft.file.cmd.as_str().is_empty() {
        Some(BloomError::ConfigInvalid("Missing cmd".to_owned()))
    } else {
        None
    }
}

/// The descriptor that a draft gives.
fn finish_draft(draft: Draft) -> (r: Result<ServiceFile, BloomError>)
    ensures
        file_view(r) == finish(draft@),
{
    match missing_of(&draft) {
        Some(e) => {
            return Err(e);
        },
        None => {},
    }
    let mut f = draft.file;
    if f.restart_delay.is_none() {
        f.restart_delay = Some(0);
    }
    if f.timeout_start.is_none() {
        f.timeout_start = Some(10);
    }
    if f.timeout_stop.is_none() {
        f.timeout_stop = Some(5);
    }
    if f.umask.is_none() {
        f.umask = Some("022".to_owned());
    }
    if f.nice.is_none() {
        f.nice = Some(0);
    }
    if f.priority.is_none() {
        f.priority = Some(50);
    }
    if f.stdout_log.is_none() {
        let name = chars_of(f.name.as_str());
        let mut path = chars_of("/var/log/");
        append_chars(&mut path, &name);
        append_chars(&mut path, &chars_of(".out.log"));
        f.stdout_log = Some(string_of(&path));
    }
    if f.stderr_log.is_none() {
        let name = chars_of(f.name.as_str());
        let mut path = chars_of("/var/log/");
        append_chars(&mut path, &name);
        append_chars(&mut path, &chars_of(".err.log"));
        f.stderr_log = Some(string_of(&path));
    }
    Ok(f)
}

/// The base name of a template, if the file name is that of one.
fn template_base_of(file_name: &Vec<char>) -> (r: Option<Vec<char>>)
    ensures
        match r {
            Some(b) => template_base(file_name@) == Some(b@),
            None => template_base(file_name@) is None,
        },
{
    let n = file_name.len();
    let st = if n >= 3 && file_name[n - 3] == '.' && file_name[n - 2] == 'v' && file_name[n - 1]
        == 's' {
        slice_of(file_name, 0, n - 3)
    } else {
        slice_of(file_name, 0, n)
    };
    proof {
        assert(file_name@.subrange(0, n as int) == file_name@);
        assert(st@ == stem(file_name@));
        assert(st@.skip(0) == st@);
    }
    let i = find_from(&st, 0, '@');
    if i < st.len() {
        Some(slice_of(&st, 0, i))
    } else {
        None
    }
}

/// The descriptor of one instance of a template.
fn read_instance(base: &Vec<char>, content: &Vec<char>, x: &Vec<char>) -> (r: Result<
    ServiceFile,
    BloomError,
>)
    ensures
        file_view(r) == instance(base@, content@, x@),
{
    let text = expand_chars(content, x);
    match read_text(blank_draft(), &text) {
        Err(e) => Err(e),
        Ok(draft) => {
            let mut d = draft;
            let mut name: Vec<char> = Vec::new();
            append_chars(&mut name, base);
            name.push('@');
            append_chars(&mut name, x);
            proof {
                reveal_strlit("@");
                assert("@"@ =~= seq!['@']);
                assert(name@ =~= instance_name(base@, x@));
            }
            d.file.name = string_of(&name);
            d.named = true;
            finish_draft(d)
        },
    }
}

/// Reads a descriptor file.
fn read_file(file_name: &str, content: &str) -> (r: Result<Vec<ServiceFile>, BloomError>)
    ensures
        files_view(r) == parsed(file_name@, content@),
{
    let name = chars_of(file_name);
    let text = chars_of(content);
    let base = template_base_of(&name);
    let start = if base.is_some() {
        sketch_draft()
    } else {
        blank_draft()
    };
    let draft = match read_text(start, &text) {
        Ok(d) => d,
        Err(e) => {
            return Err(e);
        },
    };
    match missing_of(&draft) {
        Some(e) => {
            return Err(e);
        },
        None => {},
    }
    match base {
        None => {
            match finish_draft(draft) {
                Ok(f) => {
                    let mut out: Vec<ServiceFile> = Vec::new();
                    out.push(f);
                    proof {
                        assert(descriptors(out@) =~= seq![f@]);
                    }
                    Ok(out)
                },
                Err(e) => Err(e),
            }
        },
        Some(base) => {
            let ghost xs = listed_instances(draft@);
            let mut out: Vec<ServiceFile> = Vec::new();
            match &draft.file.instances {
                None => {
                    proof {
                        assert(descriptors(out@) =~= Seq::<Descriptor>::empty());
                    }
                    Ok(out)
                },
                Some(list) => {
                    let mut i: usize = 0;
                    proof {
                        assert(xs.take(0) =~= Seq::<Seq<char>>::empty());
                        assert(descriptors(out@) =~= Seq::<Descriptor>::empty());
                    }
                    while i < list.len()
                        invariant
                            i <= list.len(),
                            xs == strings(list@),
                            text@ == content@,
                            parsed(file_name@, content@) == instances(base@, text@, xs),
                            instances(base@, text@, xs.take(i as int)) == Ok::<
                                Seq<Descriptor>,
                                Fault,
                            >(descriptors(out@)),
                        decreases list.len() - i,
                    {
                        let x = chars_of(list[i].as_str());
                        proof {
                            assert(xs.take(i + 1).drop_last() == xs.take(i as int));
                            assert(xs.take(i + 1).last() == x@);
                        }
                        match read_instance(&base, &text, &x) {
                            Ok(f) => {
                                let ghost before = descriptors(out@);
                                out.push(f);
                                proof {
                                    assert(descriptors(out@) =~= before.push(f@));
                                }
                            },
                            Err(e) => {
                                proof {
                                    assert(instances(base@, text@, xs.take(i + 1)) == Err::<
                                        Seq<Descriptor>,
                                        Fault,
                                    >(e@));
                                    lemma_instances_fault(base@, text@, xs, i + 1);
                                }
                                return Err(e);
                            },
                        }
                        i += 1;
                    }
                    proof {
                        assert(xs.take(list.len() as int) == xs);
                    }
                    Ok(out)
                },
            }
        },
    }
}

/// Reads a descriptor file. `file_name` is the name of the file without its
/// directory, `content` its text.
///
/// A plain file gives one descriptor. A template, a file with `@` in its
/// name, gives one descriptor for each instance that it lists, named
/// `base@instance`, and none when it lists none. A line that does not
/// follow the grammar makes the file a `Parse` error; a file without a name
/// or a command, or with a priority outside `0..=100`, is `ConfigInvalid`.
/// Every descriptor that comes back is complete.
pub fn parse_service_file(file_name: &str, content: &str) -> (r: Result<
    Vec<ServiceFile>,
    BloomError,
>)
    ensures
        files_view(r) == parsed(file_name@, content@),
        r matches Ok(v) ==> forall|k: int|
            0 <= k < v@.len() ==> (#[trigger] descriptors(v@)[k]).complete(),
{
    let r = read_file(file_name, content);
    proof {
        lemma_parsed_is_complete(file_name@, content@);
        if r is Ok {
            let v = r->Ok_0;
            let ds = parsed(file_name@, content@)->Ok_0;
            assert(ds == descriptors(v@));
            assert forall|k: int| 0 <= k < v@.len() implies (#[trigger] descriptors(
                v@,
            )[k]).complete() by {
                assert(ds[k].complete());
            }
        }
    }
    r
}

/// A fault in the first instances is the fault of the whole template.
pub proof fn lemma_instances_fault(
    base: Seq<char>,
    content: Seq<char>,
    xs: Seq<Seq<char>>,
    k: int,
)
    requires
        0 <= k <= xs.len(),
        instances(base, content, xs.take(k)) is Err,
    ensures
        instances(base, content, xs) == instances(base, content, xs.take(k)),
    decreases xs.len() - k,
{
    if k < xs.len() {
        assert(xs.take(k + 1).drop_last() == xs.take(k));
        lemma_instances_fault(base, content, xs, k + 1);
    } else {
        assert(xs.take(k) == xs);
    }
}

/// The instances of a template that are read without fault are as many as
/// were listed, and each has the name of its instance.
pub proof fn lemma_instances_named(base: Seq<char>, content: Seq<char>, xs: Seq<Seq<char>>)
    requires
        instances(base, content, xs) is Ok,
    ensures
        instances(base, content, xs)->Ok_0.len() == xs.len(),
        forall|k: int|
            0 <= k < xs.len() ==> (#[trigger] instances(base, content, xs)->Ok_0[k]).name
                == instance_name(base, xs[k]),
    decreases xs.len(),
{
    if xs.len() > 0 {
        lemma_instances_named(base, content, xs.drop_last());
    }
}

/// A template whose text reads as a descriptor with a name and a command
/// gives one descriptor for each instance that it lists, in the order of
/// the list, each named `base@instance`; a template that lists no instance
/// gives no descriptor.
pub proof fn lemma_template_expansion(file_name: Seq<char>, content: Seq<char>)
    requires
        template_base(file_name) is Some,
        read_lines(sketch(), lines_of(content)) is Ok,
        missing(read_lines(sketch(), lines_of(content))->Ok_0) is None,
    ensures
        ({
            let base = template_base(file_name)->Some_0;
            let xs = listed_instances(read_lines(sketch(), lines_of(content))->Ok_0);
            &&& xs.len() == 0 ==> parsed(file_name, content) == Ok::<Seq<Descriptor>, Fault>(
                Seq::empty(),
            )
            &&& parsed(file_name, content) matches Ok(v) ==> v.len() == xs.len() && forall|k: int|
                0 <= k < xs.len() ==> (#[trigger] v[k]).name == base + "@"@ + xs[k]
        }),
{
    let base = template_base(file_name)->Some_0;
    let xs = listed_instances(read_lines(sketch(), lines_of(content))->Ok_0);
    if parsed(file_name, content) is Ok {
        lemma_instances_named(base, content, xs);
    }
}

/// The priority of a draft, if it states one, lies in `0..=100`.
pub open spec fn in_range(st: DraftView) -> bool {
    st.d.priority matches Some(p) ==> 0 <= p <= 100
}

/// No line brings a priority outside `0..=100` into a draft.
pub proof fn lemma_read_lines_in_range(st: DraftView, lines: Seq<Seq<char>>)
    requires
        in_range(st),
    ensures
        read_lines(st, lines) matches Ok(after) ==> in_range(after),
    decreases lines.len(),
{
    if lines.len() > 0 {
        lemma_read_lines_in_range(st, lines.drop_last());
    }
}

/// The instances of a template that are read without fault are complete.
pub proof fn lemma_instances_complete(base: Seq<char>, content: Seq<char>, xs: Seq<Seq<char>>)
    requires
        instances(base, content, xs) is Ok,
    ensures
        forall|k: int|
            0 <= k < instances(base, content, xs)->Ok_0.len() ==> (#[trigger] instances(
                base,
                content,
                xs,
            )->Ok_0[k]).complete(),
    decreases xs.len(),
{
    if xs.len() > 0 {
        lemma_instances_complete(base, content, xs.drop_last());
        lemma_read_lines_in_range(blank(), lines_of(expand(content, xs.last())));
        reveal_strlit("@");
    }
}

/// Every descriptor that a file gives is complete: it has a name and a
/// command, its defaults are filled in, and its priority lies in
/// `0..=100`.
pub proof fn lemma_parsed_is_complete(file_name: Seq<char>, content: Seq<char>)
    ensures
        parsed(file_name, content) matches Ok(v) ==> forall|k: int|
            0 <= k < v.len() ==> (#[trigger] v[k]).complete(),
{
    lemma_read_lines_in_range(first_draft(file_name), lines_of(content));
    match read_lines(first_draft(file_name), lines_of(content)) {
        Ok(st) => match template_base(file_name) {
            Some(base) => {
                if instances(base, content, listed_instances(st)) is Ok {
                    lemma_instances_complete(base, content, listed_instances(st));
                }
            },
            None => {},
        },
        Err(_) => {},
    }
}

} // verus!
