//! The launcher's decisions: how a service's process is to be started, and
//! step by step how it is stopped. The caller does what is decided here
//! (it spawns, signals, sleeps) and reports what happened.

use vstd::prelude::*;
use crate::errors::{errno_code, errno_number, BloomError, Fault};
use crate::number::{parse_octal, read_octal};
use crate::service_file::{Descriptor, ServiceFile};
use crate::text::{
    append_chars, chars_of, contains_chars, contains_text, find_from, find_last, has_char,
    has_prefix, index_of, last_index_of, slice_of, starts_with, string_of, strings,
};

verus! {

/// What the child does between fork and exec, one step after the other.
#[derive(Debug, Clone)]
pub enum PreExec {
    /// Become the leader of a new session, without a controlling terminal.
    NewSession,
    /// Open the terminal device, make it the controlling terminal, and make
    /// it standard input, output and error.
    AttachTty(String),
    /// Take the group's id.
    SetGroup(String),
    /// Take the user's id.
    SetUser(String),
    /// Set the file mode creation mask.
    SetUmask(u32),
    /// Set the scheduling priority.
    SetNice(i32),
}

/// The mathematical content of a [`PreExec`].
pub enum Step {
    NewSession,
    AttachTty(Seq<char>),
    SetGroup(Seq<char>),
    SetUser(Seq<char>),
    SetUmask(nat),
    SetNice(int),
}

impl View for PreExec {
    type V = Step;

    open spec fn view(&self) -> Step {
        match self {
            PreExec::NewSession => Step::NewSession,
            PreExec::AttachTty(p) => Step::AttachTty(p@),
            PreExec::SetGroup(g) => Step::SetGroup(g@),
            PreExec::SetUser(u) => Step::SetUser(u@),
            PreExec::SetUmask(m) => Step::SetUmask(*m as nat),
            PreExec::SetNice(n) => Step::SetNice(*n as int),
        }
    }
}

/// One variable of the child's environment.
#[derive(Debug, Clone)]
pub struct EnvVar {
    pub key: String,
    pub value: String,
}

/// How to start a service's process.
#[derive(Debug, Clone)]
pub struct LaunchPlan {
    pub program: String,
    pub args: Vec<String>,
    pub env: Vec<EnvVar>,
    pub working_dir: Option<String>,
    /// Directories to create, with mode 0755, where they do not exist.
    pub log_dirs: Vec<String>,
    /// The file, opened for appending, that takes standard output.
    pub stdout_log: Option<String>,
    /// The file, opened for appending, that takes standard error.
    pub stderr_log: Option<String>,
    /// Whether standard input is `/dev/null`.
    pub stdin_null: bool,
    pub steps: Vec<PreExec>,
}

/// The mathematical content of a [`LaunchPlan`].
pub struct Plan {
    pub program: Seq<char>,
    pub args: Seq<Seq<char>>,
    pub env: Seq<(Seq<char>, Seq<char>)>,
    pub working_dir: Option<Seq<char>>,
    pub log_dirs: Seq<Seq<char>>,
    pub stdout_log: Option<Seq<char>>,
    pub stderr_log: Option<Seq<char>>,
    pub stdin_null: bool,
    pub steps: Seq<Step>,
}

/// The variables that a vector of environment entries holds.
pub open spec fn env_view(v: Seq<EnvVar>) -> Seq<(Seq<char>, Seq<char>)> {
    Seq::new(v.len(), |i: int| (v[i].key@, v[i].value@))
}

/// The steps that a vector of steps holds.
pub open spec fn steps_view(v: Seq<PreExec>) -> Seq<Step> {
    Seq::new(v.len(), |i: int| v[i]@)
}

impl View for LaunchPlan {
    type V = Plan;

    open spec fn view(&self) -> Plan {
        Plan {
            program: self.program@,
            args: strings(self.args@),
            env: env_view(self.env@),
            working_dir: crate::text::opt_text(self.working_dir),
            log_dirs: strings(self.log_dirs@),
            stdout_log: crate::text::opt_text(self.stdout_log),
            stderr_log: crate::text::opt_text(self.stderr_log),
            stdin_null: self.stdin_null,
            steps: steps_view(self.steps@),
        }
    }
}

/// Whether the service runs a getty: its command holds `getty`, or its name
/// begins with `getty@` or `agetty@`.
pub open spec fn getty_like(d: Descriptor) -> bool {
    contains_text(d.cmd, "getty"@) || starts_with(d.name, "getty@"@) || starts_with(
        d.name,
        "agetty@"@,
    )
}

/// The first of `args` that begins with `tty`.
pub open spec fn first_tty_arg(args: Seq<Seq<char>>) -> Option<Seq<char>>
    decreases args.len(),
{
    if args.len() == 0 {
        None
    } else if starts_with(args[0], "tty"@) {
        Some(args[0])
    } else {
        first_tty_arg(args.skip(1))
    }
}

/// The instance that a name `base@instance` holds: what stands between its
/// first `@` and its next `@` or its end.
pub open spec fn name_instance(name: Seq<char>) -> Option<Seq<char>> {
    if has_char(name, '@') {
        let rest = name.skip(index_of(name, '@') + 1);
        Some(rest.take(index_of(rest, '@')))
    } else {
        None
    }
}

/// The terminal that a name `base@ttyN` binds the service to.
pub open spec fn bound_tty(name: Seq<char>) -> Option<Seq<char>> {
    match name_instance(name) {
        Some(x) => if starts_with(x, "tty"@) {
            Some(x)
        } else {
            None
        },
        None => None,
    }
}

/// The terminal that a getty is handed: the first argument that begins
/// with `tty`, or else the instance in its name. Other services are handed
/// none.
pub open spec fn handoff_tty(d: Descriptor) -> Option<Seq<char>> {
    if getty_like(d) {
        match first_tty_arg(d.args.unwrap_or(Seq::empty())) {
            Some(t) => Some(t),
            None => name_instance(d.name),
        }
    } else {
        None
    }
}

/// The environment variables that the entries `KEY=VALUE` set. An entry is
/// parted at its first `=`; one without `=` sets nothing.
pub open spec fn env_pairs(env: Seq<Seq<char>>) -> Seq<(Seq<char>, Seq<char>)>
    decreases env.len(),
{
    if env.len() == 0 {
        Seq::empty()
    } else {
        let e = env.last();
        let i = index_of(e, '=');
        if has_char(e, '=') {
            env_pairs(env.drop_last()).push((e.take(i), e.skip(i + 1)))
        } else {
            env_pairs(env.drop_last())
        }
    }
}

/// The directory that holds `path`: what stands before its last `/`, or `/`
/// itself for a path right under the root. A path without `/` names none.
pub open spec fn parent_dir(path: Seq<char>) -> Option<Seq<char>> {
    let i = last_index_of(path, '/');
    if i < 0 {
        None
    } else if i == 0 {
        Some("/"@)
    } else {
        Some(path.take(i))
    }
}

/// A list with `x` at its end if there is an `x`.
pub open spec fn push_some<A>(s: Seq<A>, x: Option<A>) -> Seq<A> {
    match x {
        Some(v) => s.push(v),
        None => s,
    }
}

/// The steps between fork and exec, in their order: a new session; the
/// terminal, for a getty; then group, user, umask and priority, each if the
/// descriptor states it.
pub open spec fn hook_steps(d: Descriptor, tty: Option<Seq<char>>, umask: Option<nat>) -> Seq<Step> {
    let session = seq![Step::NewSession];
    let attached = match tty {
        Some(t) => session.push(Step::AttachTty("/dev/"@ + t)),
        None => session,
    };
    let grouped = match d.group {
        Some(g) => attached.push(Step::SetGroup(g)),
        None => attached,
    };
    let owned = match d.user {
        Some(u) => grouped.push(Step::SetUser(u)),
        None => grouped,
    };
    let masked = match umask {
        Some(m) => owned.push(Step::SetUmask(m)),
        None => owned,
    };
    match d.nice {
        Some(n) => masked.push(Step::SetNice(n as int)),
        None => masked,
    }
}

/// How the service `d` is to be started.
///
/// A getty with a terminal takes the terminal as its standard streams and
/// writes no log. Any other service must name both log files; it appends
/// its output to them, their directories are created first, and its
/// standard input is `/dev/null`. A umask that is not octal, or a service
/// without a command, cannot be launched.
pub open spec fn launch_plan(d: Descriptor) -> Result<Plan, Fault> {
    let tty = handoff_tty(d);
    let umask = match d.umask {
        Some(m) => read_octal(m),
        None => None,
    };
    if d.cmd.len() == 0 {
        Err(Fault::LaunchFailed("Missing cmd"@))
    } else if d.umask is Some && umask is None {
        Err(Fault::LaunchFailed("Invalid umask: "@ + d.umask->Some_0))
    } else if tty is None && d.stdout_log is None {
        Err(Fault::LaunchFailed("Missing stdout_log path"@))
    } else if tty is None && d.stderr_log is None {
        Err(Fault::LaunchFailed("Missing stderr_log path"@))
    } else {
        Ok(
            Plan {
                program: d.cmd,
                args: d.args.unwrap_or(Seq::empty()),
                env: env_pairs(d.env.unwrap_or(Seq::empty())),
                working_dir: d.working_dir,
                log_dirs: if tty is Some {
                    Seq::empty()
                } else {
                    push_some(
                        push_some(Seq::empty(), parent_dir(d.stdout_log->Some_0)),
                        parent_dir(d.stderr_log->Some_0),
                    )
                },
                stdout_log: if tty is Some {
                    None
                } else {
                    d.stdout_log
                },
                stderr_log: if tty is Some {
                    None
                } else {
                    d.stderr_log
                },
                stdin_null: tty is None,
                steps: hook_steps(d, tty, umask),
            },
        )
    }
}

/// The view of a result that holds a plan.
pub open spec fn plan_view(r: Result<LaunchPlan, BloomError>) -> Result<Plan, Fault> {
    match r {
        Ok(p) => Ok(p@),
        Err(e) => Err(e@),
    }
}

/// Whether the service runs a getty.
pub fn is_getty(service: &ServiceFile) -> (r: bool)
    ensures
        r == getty_like(service@),
{
    let cmd = chars_of(service.cmd.as_str());
    let name = chars_of(service.name.as_str());
    contains_chars(&cmd, &chars_of("getty")) || has_prefix(&name, &chars_of("getty@"))
        || has_prefix(&name, &chars_of("agetty@"))
}

/// The instance that a name `base@instance` holds.
pub fn instance_of_name(name: &str) -> (r: Option<String>)
    ensures
        crate::text::opt_text(r) == name_instance(name@),
{
    let v = chars_of(name);
    proof {
        assert(v@.skip(0) == v@);
    }
    let at = find_from(&v, 0, '@');
    if at >= v.len() {
        return None;
    }
    let end = find_from(&v, at + 1, '@');
    let piece = slice_of(&v, at + 1, end);
    proof {
        let rest = v@.skip(at + 1);
        assert(rest.take(end - (at + 1)) == v@.subrange(at + 1, end as int));
    }
    Some(string_of(&piece))
}

/// The terminal that a name `base@ttyN` binds the service to.
pub fn tty_of_name(name: &str) -> (r: Option<String>)
    ensures
        crate::text::opt_text(r) == bound_tty(name@),
{
    match instance_of_name(name) {
        Some(x) => {
            let v = chars_of(x.as_str());
            if has_prefix(&v, &chars_of("tty")) {
                Some(x)
            } else {
                None
            }
        },
        None => None,
    }
}

/// The first of `args` that begins with `tty`.
fn tty_arg(args: &Vec<String>) -> (r: Option<String>)
    ensures
        crate::text::opt_text(r) == first_tty_arg(strings(args@)),
{
    let ghost all = strings(args@);
    let tty = chars_of("tty");
    let mut i: usize = 0;
    proof {
        assert(all.skip(0) == all);
    }
    while i < args.len()
        invariant
            i <= args.len(),
            all == strings(args@),
            tty@ == "tty"@,
            first_tty_arg(all) == first_tty_arg(all.skip(i as int)),
        decreases args.len() - i,
    {
        let a = chars_of(args[i].as_str());
        proof {
            assert(all.skip(i as int)[0] == a@);
            assert(all.skip(i as int).skip(1) == all.skip(i + 1));
        }
        if has_prefix(&a, &tty) {
            return Some(args[i].clone());
        }
        i += 1;
    }
    None
}

/// The terminal that the service is handed, if it is a getty.
pub fn tty_handoff(service: &ServiceFile) -> (r: Option<String>)
    ensures
        crate::text::opt_text(r) == handoff_tty(service@),
{
    if !is_getty(service) {
        return None;
    }
    let from_args = match &service.args {
        Some(args) => tty_arg(args),
        None => {
            proof {
                assert(first_tty_arg(Seq::<Seq<char>>::empty()) is None);
            }
            None
        },
    };
    match from_args {
        Some(t) => Some(t),
        None => instance_of_name(service.name.as_str()),
    }
}

/// The environment variables that the entries set.
pub fn split_env(env: &Vec<String>) -> (r: Vec<EnvVar>)
    ensures
        env_view(r@) == env_pairs(strings(env@)),
{
    let ghost all = strings(env@);
    let mut r: Vec<EnvVar> = Vec::new();
    let mut i: usize = 0;
    proof {
        assert(all.take(0) =~= Seq::<Seq<char>>::empty());
        assert(env_view(r@) =~= Seq::<(Seq<char>, Seq<char>)>::empty());
    }
    while i < env.len()
        invariant
            i <= env.len(),
            all == strings(env@),
            env_view(r@) == env_pairs(all.take(i as int)),
        decreases env.len() - i,
    {
        let e = chars_of(env[i].as_str());
        proof {
            assert(all.take(i + 1).drop_last() == all.take(i as int));
            assert(all.take(i + 1).last() == e@);
            assert(e@.skip(0) == e@);
        }
        let at = find_from(&e, 0, '=');
        if at < e.len() {
            let key = slice_of(&e, 0, at);
            let value = slice_of(&e, at + 1, e.len());
            let ghost before = env_view(r@);
            r.push(EnvVar { key: string_of(&key), value: string_of(&value) });
            proof {
                assert(key@ == e@.take(at as int));
                assert(value@ == e@.skip(at + 1));
                assert(env_view(r@) =~= before.push((key@, value@)));
            }
        }
        i += 1;
    }
    proof {
        assert(all.take(env.len() as int) == all);
    }
    r
}

/// The directory that holds `path`.
pub fn parent_of(path: &str) -> (r: Option<String>)
    ensures
        crate::text::opt_text(r) == parent_dir(path@),
{
    let v = chars_of(path);
    match find_last(&v, '/') {
        None => None,
        Some(i) => {
            if i == 0 {
                Some("/".to_owned())
            } else {
                let head = slice_of(&v, 0, i);
                proof {
                    assert(head@ == v@.take(i as int));
                }
                Some(string_of(&head))
            }
        },
    }
}

/// Decides how the service is to be started.
pub fn plan_launch(service: &ServiceFile) -> (r: Result<LaunchPlan, BloomError>)
    ensures
        plan_view(r) == launch_plan(service@),
{
    let ghost d = service@;
    let tty = tty_handoff(service);
    let umask: Option<u32> = match &service.umask {
        Some(m) => {
            let v = chars_of(m.as_str());
            parse_octal(&v)
        },
        None => None,
    };
    if service.cmd.as_str().is_empty() {
        return Err(BloomError::LaunchFailed("Missing cmd".to_owned()));
    }
    match &service.umask {
        Some(m) => {
            if umask.is_none() {
                let mut msg = chars_of("Invalid umask: ");
                append_chars(&mut msg, &chars_of(m.as_str()));
                return Err(BloomError::LaunchFailed(string_of(&msg)));
            }
        },
        None => {},
    }
    let mut log_dirs: Vec<String> = Vec::new();
    let mut stdout_log: Option<String> = None;
    let mut stderr_log: Option<String> = None;
    proof {
        assert(strings(log_dirs@) =~= Seq::<Seq<char>>::empty());
    }
    if tty.is_none() {
        match &service.stdout_log {
            None => {
                return Err(BloomError::LaunchFailed("Missing stdout_log path".to_owned()));
            },
            Some(out) => {
                match &service.stderr_log {
                    None => {
                        return Err(BloomError::LaunchFailed("Missing stderr_log path".to_owned()));
                    },
                    Some(err) => {
                        match parent_of(out.as_str()) {
                            Some(p) => {
                                let ghost before = strings(log_dirs@);
                                log_dirs.push(p);
                                proof {
                                    assert(strings(log_dirs@) =~= before.push(p@));
                                }
                            },
                            None => {},
                        }
                        match parent_of(err.as_str()) {
                            Some(p) => {
                                let ghost before = strings(log_dirs@);
                                log_dirs.push(p);
                                proof {
                                    assert(strings(log_dirs@) =~= before.push(p@));
                                }
                            },
                            None => {},
                        }
                        stdout_log = Some(out.clone());
                        stderr_log = Some(err.clone());
                    },
                }
            },
        }
    }
    let mut steps: Vec<PreExec> = Vec::new();
    steps.push(PreExec::NewSession);
    proof {
        assert(steps_view(steps@) =~= seq![Step::NewSession]);
    }
    match &tty {
        Some(t) => {
            let mut path = chars_of("/dev/");
            append_chars(&mut path, &chars_of(t.as_str()));
            let ghost before = steps_view(steps@);
            steps.push(PreExec::AttachTty(string_of(&path)));
            proof {
                assert(steps_view(steps@) =~= before.push(Step::AttachTty("/dev/"@ + t@)));
            }
        },
        None => {},
    }
    match &service.group {
        Some(g) => {
            let ghost before = steps_view(steps@);
            steps.push(PreExec::SetGroup(g.clone()));
            proof {
                assert(steps_view(steps@) =~= before.push(Step::SetGroup(g@)));
            }
        },
        None => {},
    }
    match &service.user {
        Some(u) => {
            let ghost before = steps_view(steps@);
            steps.push(PreExec::SetUser(u.clone()));
            proof {
                assert(steps_view(steps@) =~= before.push(Step::SetUser(u@)));
            }
        },
        None => {},
    }
    match umask {
        Some(m) => {
            let ghost before = steps_view(steps@);
            steps.push(PreExec::SetUmask(m));
            proof {
                assert(steps_view(steps@) =~= before.push(Step::SetUmask(m as nat)));
            }
        },
        None => {},
    }
    match service.nice {
        Some(n) => {
            let ghost before = steps_view(steps@);
            steps.push(PreExec::SetNice(n));
            proof {
                assert(steps_view(steps@) =~= before.push(Step::SetNice(n as int)));
            }
        },
        None => {},
    }
    let args = match &service.args {
        Some(a) => crate::text::copy_strings(a),
        None => {
            let a: Vec<String> = Vec::new();
            proof {
                assert(strings(a@) =~= Seq::<Seq<char>>::empty());
            }
            a
        },
    };
    let env = match &service.env {
        Some(e) => split_env(e),
        None => {
            let e: Vec<EnvVar> = Vec::new();
            proof {
                assert(env_view(e@) =~= Seq::<(Seq<char>, Seq<char>)>::empty());
            }
            e
        },
    };
    Ok(
        LaunchPlan {
            program: service.cmd.clone(),
            args,
            env,
            working_dir: crate::text::copy_opt_string(&service.working_dir),
            log_dirs,
            stdout_log,
            stderr_log,
            stdin_null: tty.is_none(),
            steps,
        },
    )
}

/// How a stop ended.
#[derive(Debug, Clone, Copy, PartialEq, Eq, Structural)]
pub enum StopOutcome {
    /// The process was seen gone without a forced kill.
    Exited,
    /// The process was gone only after it was killed by force.
    Killed,
    /// The process could not be signalled, or outlived the forced kill.
    Failed,
}

/// Where a stop stands.
#[derive(Debug, Clone, Copy, PartialEq, Eq, Structural)]
pub enum StopPhase {
    /// Nothing has been done yet.
    Ready,
    /// The stop command runs.
    Commanding,
    /// The request to terminate is being sent.
    Terminating,
    /// The process is given time to exit.
    Draining,
    /// The forced kill is being sent.
    Killing,
    /// The process is given time to die.
    Dying,
    /// The stop has ended.
    Done(StopOutcome),
}

/// The signals of a stop.
#[derive(Debug, Clone, Copy, PartialEq, Eq, Structural)]
pub enum StopSignal {
    Terminate,
    Kill,
}

/// What the caller is to do next.
#[derive(Debug, Clone, Copy, PartialEq, Eq, Structural)]
pub enum StopAction {
    /// Run the stop command by a shell, for at most `limit_secs`, and report
    /// `ShellDone`.
    RunShell { limit_secs: u64 },
    /// Send the signal to the process group and report `Sent`,
    /// `NoSuchProcess` or `SendFailed`.
    SendSignal { signal: StopSignal },
    /// See whether the process exists and report `Alive`, `NoSuchProcess` or
    /// `ProbeFailed`.
    Probe,
    /// Sleep for one tick of 100 ms, then do as for `Probe`.
    Wait,
    /// Nothing more: the stop has ended.
    Finish(StopOutcome),
}

/// What the caller saw.
#[derive(Debug, Clone, Copy, PartialEq, Eq, Structural)]
pub enum StopEvent {
    /// The stop is to begin.
    Begin,
    /// The stop command ended after `elapsed_ticks` ticks of 100 ms.
    ShellDone { success: bool, elapsed_ticks: u64 },
    /// The signal was sent.
    Sent,
    /// The signal could not be sent, for another reason than that the
    /// process is gone.
    SendFailed,
    /// There is no such process.
    NoSuchProcess,
    /// The process exists.
    Alive,
    /// It could not be seen whether the process exists.
    ProbeFailed,
}

/// The stop of one process, step by step.
#[derive(Debug, Clone)]
pub struct StopMachine {
    pub pid: u32,
    /// The shell command that asks the service to stop, if it has one.
    pub stop_cmd: Option<String>,
    /// Ticks of 100 ms that the process is given to exit.
    pub budget: u64,
    pub phase: StopPhase,
    /// Ticks spent in the present phase.
    pub ticks: u64,
}

/// The mathematical content of a [`StopMachine`].
pub struct StopState {
    pub pid: u32,
    pub stop_cmd: Option<Seq<char>>,
    pub budget: u64,
    pub phase: StopPhase,
    pub ticks: u64,
}

impl View for StopMachine {
    type V = StopState;

    open spec fn view(&self) -> StopState {
        StopState {
            pid: self.pid,
            stop_cmd: crate::text::opt_text(self.stop_cmd),
            budget: self.budget,
            phase: self.phase,
            ticks: self.ticks,
        }
    }
}

/// Milliseconds of one tick.
pub const TICK_MILLIS: u64 = 100;

/// Ticks of 100 ms that a forced kill is given to take effect: two seconds.
pub const KILL_TICKS: u64 = 20;

/// The ticks of 100 ms in `secs` seconds, or as many as a `u64` holds.
pub open spec fn ticks_of(secs: u64) -> u64 {
    if secs * 10 <= u64::MAX {
        (secs * 10) as u64
    } else {
        u64::MAX
    }
}

/// The state of a stop and what the caller is to do.
pub struct StopStep {
    pub state: StopState,
    pub action: StopAction,
}

/// One step of a stop.
///
/// A service with a stop command has the command run, within its stop
/// timeout; another has the request to terminate sent to its process group.
/// Then the process is looked for every 100 ms until the stop timeout has
/// passed since the beginning. If it is still there, it is killed by force
/// and looked for during two more seconds. That the process is gone counts
/// as success wherever it is seen.
pub open spec fn stop_next(m: StopState, e: StopEvent) -> StopStep {
    match m.phase {
        StopPhase::Ready => if m.stop_cmd is Some {
            StopStep {
                state: StopState { phase: StopPhase::Commanding, ticks: 0, ..m },
                action: StopAction::RunShell { limit_secs: m.budget / 10 },
            }
        } else {
            StopStep {
                state: StopState { phase: StopPhase::Terminating, ticks: 0, ..m },
                action: StopAction::SendSignal { signal: StopSignal::Terminate },
            }
        },
        StopPhase::Commanding => StopStep {
            state: StopState {
                phase: StopPhase::Draining,
                ticks: match e {
                    StopEvent::ShellDone { success, elapsed_ticks } => if elapsed_ticks < m.budget {
                        elapsed_ticks
                    } else {
                        m.budget
                    },
                    _ => 0,
                },
                ..m
            },
            action: StopAction::Probe,
        },
        StopPhase::Terminating => match e {
            StopEvent::Sent => StopStep {
                state: StopState { phase: StopPhase::Draining, ticks: 0, ..m },
                action: StopAction::Probe,
            },
            StopEvent::NoSuchProcess => stop_done(m, StopOutcome::Exited),
            _ => stop_done(m, StopOutcome::Failed),
        },
        StopPhase::Draining => match e {
            StopEvent::NoSuchProcess => stop_done(m, StopOutcome::Exited),
            StopEvent::Alive => if m.ticks < m.budget {
                StopStep {
                    state: StopState { ticks: (m.ticks + 1) as u64, ..m },
                    action: StopAction::Wait,
                }
            } else {
                stop_kill(m)
            },
            _ => stop_kill(m),
        },
        StopPhase::Killing => match e {
            StopEvent::Sent => StopStep {
                state: StopState { phase: StopPhase::Dying, ticks: 0, ..m },
                action: StopAction::Probe,
            },
            StopEvent::NoSuchProcess => stop_done(m, StopOutcome::Exited),
            _ => stop_done(m, StopOutcome::Failed),
        },
        StopPhase::Dying => match e {
            StopEvent::NoSuchProcess => stop_done(m, StopOutcome::Killed),
            StopEvent::Alive => if m.ticks < KILL_TICKS {
                StopStep {
                    state: StopState { ticks: (m.ticks + 1) as u64, ..m },
                    action: StopAction::Wait,
                }
            } else {
                stop_done(m, StopOutcome::Failed)
            },
            _ => stop_done(m, StopOutcome::Failed),
        },
        StopPhase::Done(o) => StopStep { state: m, action: StopAction::Finish(o) },
    }
}

/// The stop ends with `o`.
pub open spec fn stop_done(m: StopState, o: StopOutcome) -> StopStep {
    StopStep { state: StopState { phase: StopPhase::Done(o), ..m }, action: StopAction::Finish(o) }
}

/// The stop goes on to the forced kill.
pub open spec fn stop_kill(m: StopState) -> StopStep {
    StopStep {
        state: StopState { phase: StopPhase::Killing, ticks: 0, ..m },
        action: StopAction::SendSignal { signal: StopSignal::Kill },
    }
}

/// The stop command of `cmd` for the process `pid`: `cmd` with the
/// process's number for every `$MAINPID`.
pub open spec fn with_main_pid(cmd: Seq<char>, pid: u32) -> Seq<char> {
    crate::text::replace_text(cmd, "$MAINPID"@, crate::number::decimal(pid as nat))
}

impl StopMachine {
    /// A stop that has not begun, of the process `pid` of `service`.
    pub fn new(service: &ServiceFile, pid: u32) -> (m: StopMachine)
        ensures
            m@ == (StopState {
                pid,
                stop_cmd: service@.stop_cmd,
                budget: ticks_of(service@.stop_seconds() as u64),
                phase: StopPhase::Ready,
                ticks: 0,
            }),
            stop_wf(m@),
    {
        let secs = service.stop_seconds();
        let budget = match secs.checked_mul(10) {
            Some(b) => b,
            None => u64::MAX,
        };
        StopMachine {
            pid,
            stop_cmd: crate::text::copy_opt_string(&service.stop_cmd),
            budget,
            phase: StopPhase::Ready,
            ticks: 0,
        }
    }

    /// The shell command to run for `RunShell`.
    pub fn shell_command(&self) -> (r: Option<String>)
        ensures
            crate::text::opt_text(r) == match self@.stop_cmd {
                Some(c) => Some(with_main_pid(c, self@.pid)),
                None => None,
            },
    {
        match &self.stop_cmd {
            None => None,
            Some(c) => {
                let text = chars_of(c.as_str());
                let pid = crate::number::decimal_chars(self.pid as u64);
                let r = crate::text::replace_chars(&text, &chars_of("$MAINPID"), &pid);
                Some(string_of(&r))
            },
        }
    }

    /// Whether the stop has ended, and how.
    pub fn outcome(&self) -> (r: Option<StopOutcome>)
        ensures
            r == match self.phase {
                StopPhase::Done(o) => Some(o),
                _ => None,
            },
    {
        match self.phase {
            StopPhase::Done(o) => Some(o),
            _ => None,
        }
    }

    /// Takes what the caller saw and says what it is to do next.
    pub fn step(&mut self, event: StopEvent) -> (action: StopAction)
        ensures
            final(self)@ == stop_next(old(self)@, event).state,
            action == stop_next(old(self)@, event).action,
            stop_wf(old(self)@) ==> stop_wf(final(self)@),
    {
        proof {
            if stop_wf(old(self)@) {
                lemma_stop_step(old(self)@, event);
            }
        }
        match self.phase {
            StopPhase::Ready => {
                self.ticks = 0;
                if self.stop_cmd.is_some() {
                    self.phase = StopPhase::Commanding;
                    StopAction::RunShell { limit_secs: self.budget / 10 }
                } else {
                    self.phase = StopPhase::Terminating;
                    StopAction::SendSignal { signal: StopSignal::Terminate }
                }
            },
            StopPhase::Commanding => {
                self.phase = StopPhase::Draining;
                self.ticks = match event {
                    StopEvent::ShellDone { success, elapsed_ticks } => {
                        if elapsed_ticks < self.budget {
                            elapsed_ticks
                        } else {
                            self.budget
                        }
                    },
                    _ => 0,
                };
                StopAction::Probe
            },
            StopPhase::Terminating => match event {
                StopEvent::Sent => {
                    self.phase = StopPhase::Draining;
                    self.ticks = 0;
                    StopAction::Probe
                },
                StopEvent::NoSuchProcess => self.finish(StopOutcome::Exited),
                _ => self.finish(StopOutcome::Failed),
            },
            StopPhase::Draining => match event {
                StopEvent::NoSuchProcess => self.finish(StopOutcome::Exited),
                StopEvent::Alive => {
                    if self.ticks < self.budget {
                        self.ticks = self.ticks + 1;
                        StopAction::Wait
                    } else {
                        self.kill()
                    }
                },
                _ => self.kill(),
            },
            StopPhase::Killing => match event {
                StopEvent::Sent => {
                    self.phase = StopPhase::Dying;
                    self.ticks = 0;
                    StopAction::Probe
                },
                StopEvent::NoSuchProcess => self.finish(StopOutcome::Exited),
                _ => self.finish(StopOutcome::Failed),
            },
            StopPhase::Dying => match event {
                StopEvent::NoSuchProcess => self.finish(StopOutcome::Killed),
                StopEvent::Alive => {
                    if self.ticks < KILL_TICKS {
                        self.ticks = self.ticks + 1;
                        StopAction::Wait
                    } else {
                        self.finish(StopOutcome::Failed)
                    }
                },
                _ => self.finish(StopOutcome::Failed),
            },
            StopPhase::Done(o) => StopAction::Finish(o),
        }
    }

    fn finish(&mut self, o: StopOutcome) -> (action: StopAction)
        ensures
            final(self)@ == stop_done(old(self)@, o).state,
            action == stop_done(old(self)@, o).action,
    {
        self.phase = StopPhase::Done(o);
        StopAction::Finish(o)
    }

    fn kill(&mut self) -> (action: StopAction)
        ensures
            final(self)@ == stop_kill(old(self)@).state,
            action == stop_kill(old(self)@).action,
    {
        self.phase = StopPhase::Killing;
        self.ticks = 0;
        StopAction::SendSignal { signal: StopSignal::Kill }
    }
}

/// The error number that says that there is no such process.
pub const ESRCH: i32 = 3;

/// The ticks in `millis` milliseconds.
pub fn ticks_in(millis: u64) -> (r: u64)
    ensures
        r == millis / TICK_MILLIS,
{
    millis / TICK_MILLIS
}

/// What the sending of a signal showed: `errno` is the error number with
/// which it failed, if it failed. That there is no such process is not a
/// failure: the process is gone, which is what the stop is for.
pub fn signal_event(errno: Option<i32>) -> (e: StopEvent)
    ensures
        e == match errno {
            None => StopEvent::Sent,
            Some(n) => if n == ESRCH {
                StopEvent::NoSuchProcess
            } else {
                StopEvent::SendFailed
            },
        },
{
    match errno {
        None => StopEvent::Sent,
        Some(n) => if n == ESRCH {
            StopEvent::NoSuchProcess
        } else {
            StopEvent::SendFailed
        },
    }
}

/// What a look for the process showed: `errno` is the error number with
/// which the look failed, if it failed.
pub fn probe_event(errno: Option<i32>) -> (e: StopEvent)
    ensures
        e == match errno {
            None => StopEvent::Alive,
            Some(n) => if n == ESRCH {
                StopEvent::NoSuchProcess
            } else {
                StopEvent::ProbeFailed
            },
        },
{
    match errno {
        None => StopEvent::Alive,
        Some(n) => if n == ESRCH {
            StopEvent::NoSuchProcess
        } else {
            StopEvent::ProbeFailed
        },
    }
}

/// What the sending of a signal showed, by what the system call returned.
pub fn signal_result(result: Result<(), nix::errno::Errno>) -> (e: StopEvent)
    ensures
        e == match result {
            Ok(_) => StopEvent::Sent,
            Err(errno) => if errno_code(errno) == ESRCH {
                StopEvent::NoSuchProcess
            } else {
                StopEvent::SendFailed
            },
        },
{
    match result {
        Ok(_) => signal_event(None),
        Err(errno) => signal_event(Some(errno_number(errno))),
    }
}

/// What a look for the process showed, by what the system call returned.
pub fn probe_result(result: Result<(), nix::errno::Errno>) -> (e: StopEvent)
    ensures
        e == match result {
            Ok(_) => StopEvent::Alive,
            Err(errno) => if errno_code(errno) == ESRCH {
                StopEvent::NoSuchProcess
            } else {
                StopEvent::ProbeFailed
            },
        },
{
    match result {
        Ok(_) => probe_event(None),
        Err(errno) => probe_event(Some(errno_number(errno))),
    }
}

/// The ticks that a step accounts for: the time that the stop command
/// took, as far as it counts, or the one tick of a `Wait`.
pub open spec fn stop_cost(m: StopState, e: StopEvent) -> nat {
    match m.phase {
        StopPhase::Commanding => stop_next(m, e).state.ticks as nat,
        StopPhase::Draining | StopPhase::Dying => if stop_next(m, e).action == StopAction::Wait {
            1
        } else {
            0
        },
        _ => 0,
    }
}

/// The ticks that a stop may still take.
pub open spec fn stop_time_left(m: StopState) -> nat {
    match m.phase {
        StopPhase::Ready | StopPhase::Commanding | StopPhase::Terminating => (m.budget
            + KILL_TICKS) as nat,
        StopPhase::Draining => (m.budget - m.ticks + KILL_TICKS) as nat,
        StopPhase::Killing => KILL_TICKS as nat,
        StopPhase::Dying => (KILL_TICKS - m.ticks) as nat,
        StopPhase::Done(_) => 0,
    }
}

/// The steps that a stop may still take.
pub open spec fn stop_steps_left(m: StopState) -> nat {
    match m.phase {
        StopPhase::Ready => (m.budget + 25) as nat,
        StopPhase::Commanding | StopPhase::Terminating => (m.budget + 24) as nat,
        StopPhase::Draining => (m.budget - m.ticks + 23) as nat,
        StopPhase::Killing => 22,
        StopPhase::Dying => (KILL_TICKS - m.ticks + 1) as nat,
        StopPhase::Done(_) => 0,
    }
}

/// The counters of a stop are within their limits.
pub open spec fn stop_wf(m: StopState) -> bool {
    match m.phase {
        StopPhase::Draining => m.ticks <= m.budget,
        StopPhase::Dying => m.ticks <= KILL_TICKS,
        _ => true,
    }
}

/// Every step of a stop uses up what it takes: the time that may still
/// pass shrinks by the step's cost, and the steps that may still follow
/// become fewer.
pub proof fn lemma_stop_step(m: StopState, e: StopEvent)
    requires
        stop_wf(m),
    ensures
        stop_wf(stop_next(m, e).state),
        stop_time_left(stop_next(m, e).state) + stop_cost(m, e) <= stop_time_left(m),
        !(m.phase is Done) ==> stop_steps_left(stop_next(m, e).state) < stop_steps_left(m),
        stop_next(m, e).state.budget == m.budget,
{
}

/// The state after the events `es`, one step for each.
pub open spec fn stop_run(m: StopState, es: Seq<StopEvent>) -> StopState
    decreases es.len(),
{
    if es.len() == 0 {
        m
    } else {
        stop_next(stop_run(m, es.drop_last()), es.last()).state
    }
}

/// The ticks that the steps for the events `es` account for.
pub open spec fn stop_time(m: StopState, es: Seq<StopEvent>) -> nat
    decreases es.len(),
{
    if es.len() == 0 {
        0
    } else {
        stop_time(m, es.drop_last()) + stop_cost(stop_run(m, es.drop_last()), es.last())
    }
}

/// Whatever the process does and whatever is reported, a stop takes no
/// more than its stop timeout and two seconds: it accounts for at most
/// `10 * timeout_stop + 20` ticks of 100 ms.
pub proof fn lemma_stop_is_bounded(m: StopState, es: Seq<StopEvent>)
    requires
        stop_wf(m),
    ensures
        stop_wf(stop_run(m, es)),
        stop_run(m, es).budget == m.budget,
        stop_time(m, es) + stop_time_left(stop_run(m, es)) <= stop_time_left(m),
        stop_time(m, es) <= m.budget + KILL_TICKS,
    decreases es.len(),
{
    if es.len() > 0 {
        lemma_stop_is_bounded(m, es.drop_last());
        lemma_stop_step(stop_run(m, es.drop_last()), es.last());
    }
}

/// A stop ends: after as many steps as it may still take, it is done, and
/// it stays done.
pub proof fn lemma_stop_ends(m: StopState, es: Seq<StopEvent>)
    requires
        stop_wf(m),
    ensures
        stop_wf(stop_run(m, es)),
        stop_run(m, es).phase is Done || stop_steps_left(stop_run(m, es)) + es.len()
            <= stop_steps_left(m),
        es.len() >= stop_steps_left(m) ==> stop_run(m, es).phase is Done,
    decreases es.len(),
{
    if es.len() > 0 {
        lemma_stop_ends(m, es.drop_last());
        lemma_stop_step(stop_run(m, es.drop_last()), es.last());
    }
}

} // verus!
