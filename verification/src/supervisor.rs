//! The supervisor of one service: a state machine that says, for what was
//! seen of the service's process, what is to be done next. The worker that
//! runs it launches, waits and stops as it is told, and reports back.

use vstd::prelude::*;
use crate::process::{bound_tty, tty_of_name, StopOutcome};
use crate::service::RestartPolicy;
use crate::service_file::{Descriptor, ServiceFile};
use crate::status::ServiceState;

verus! {

/// Milliseconds between two looks at the world.
pub const POLL_MILLIS: u64 = 500;

/// Seconds, beyond the stop timeout, that a stopped child is given to be
/// reaped before it is killed by force.
pub const REAP_GRACE_SECS: u64 = 2;

/// What a look at the child process showed.
#[derive(Debug, Clone, Copy, PartialEq, Eq, Structural)]
pub enum ChildStatus {
    /// The process runs.
    Running,
    /// The process exited with this code.
    Exited(i32),
    /// The process could not be waited for: it counts as gone.
    ReapFailed,
}

/// What the worker reports to the supervisor.
#[derive(Debug, Clone, Copy, PartialEq, Eq, Structural)]
pub enum SupervisorEvent {
    /// A look at the world: whether shutdown was asked for, whether someone
    /// is logged in on the service's terminal, and how the child is.
    Tick { shutdown: bool, tty_busy: bool, child: ChildStatus },
    /// The launch succeeded, at the time `at`.
    Launched { pid: u32, at: u64 },
    /// The launch failed.
    LaunchFailed,
    /// The stop ended.
    Stopped(StopOutcome),
}

/// What the worker is to do next.
#[derive(Debug, Clone, Copy, PartialEq, Eq, Structural)]
pub enum SupervisorAction {
    /// Launch the service and report `Launched` or `LaunchFailed`.
    Launch,
    /// Sleep for about half a second, then report a `Tick`.
    Poll,
    /// Sleep for `secs` seconds, then report a `Tick`.
    Delay { secs: u64 },
    /// Stop the process and report `Stopped`.
    Stop { pid: u32 },
    /// Leave the loop; `launch_failed` says whether it ends with the
    /// launcher's error.
    Exit { launch_failed: bool },
}

/// What the supervisor is doing.
#[derive(Debug, Clone, Copy, PartialEq, Eq, Structural)]
pub enum Mode {
    /// No process; one is to be started.
    Idle,
    /// A launch was asked for.
    Launching,
    /// The process `pid` runs and is watched.
    Watching(u32),
    /// The restart delay passes.
    Delaying,
    /// A stop of the process `pid` was asked for.
    Stopping(u32),
    /// The loop has ended.
    Finished,
}

/// The supervisor of one service.
#[derive(Debug, Clone)]
pub struct Supervisor {
    pub service: ServiceFile,
    /// The process, while there is one.
    pub child: Option<u32>,
    pub restart_count: u32,
    pub last_start: Option<u64>,
    pub last_exit_code: Option<i32>,
    pub state: ServiceState,
    pub mode: Mode,
    /// The next launch is a restart.
    pub restarting: bool,
    /// The loop ended because the launch failed.
    pub launch_failed: bool,
}

/// The mathematical content of a [`Supervisor`].
pub struct Supervision {
    pub d: Descriptor,
    pub child: Option<u32>,
    pub restart_count: u32,
    pub last_start: Option<u64>,
    pub last_exit_code: Option<i32>,
    pub state: ServiceState,
    pub mode: Mode,
    pub restarting: bool,
    pub launch_failed: bool,
}

impl View for Supervisor {
    type V = Supervision;

    open spec fn view(&self) -> Supervision {
        Supervision {
            d: self.service@,
            child: self.child,
            restart_count: self.restart_count,
            last_start: self.last_start,
            last_exit_code: self.last_exit_code,
            state: self.state,
            mode: self.mode,
            restarting: self.restarting,
            launch_failed: self.launch_failed,
        }
    }
}

/// A supervisor's state and what the worker is to do.
pub struct SupervisorStep {
    pub state: Supervision,
    pub action: SupervisorAction,
}

/// The supervisor of `d` before anything has happened.
pub open spec fn fresh(d: Descriptor) -> Supervision {
    Supervision {
        d,
        child: None,
        restart_count: 0,
        last_start: None,
        last_exit_code: None,
        state: ServiceState::Stopped,
        mode: Mode::Idle,
        restarting: false,
        launch_failed: false,
    }
}

/// Whether the service is bound to a terminal by its name `base@ttyN`.
pub open spec fn tty_bound(d: Descriptor) -> bool {
    bound_tty(d.name) is Some
}

/// One more restart, counted as far as the counter goes.
pub open spec fn counted(n: u32, restarting: bool) -> u32 {
    if restarting && n < u32::MAX {
        (n + 1) as u32
    } else {
        n
    }
}

/// The supervisor stays as it is and the worker looks again.
pub open spec fn look_again(s: Supervision) -> SupervisorStep {
    SupervisorStep { state: s, action: SupervisorAction::Poll }
}

/// The loop ends.
pub open spec fn leave(s: Supervision) -> SupervisorStep {
    SupervisorStep {
        state: Supervision { mode: Mode::Finished, ..s },
        action: SupervisorAction::Exit { launch_failed: s.launch_failed },
    }
}

/// A start is due. While someone is logged in on the service's terminal
/// the service stays stopped and no launch is tried; else it is launched,
/// and a restart is counted.
pub open spec fn try_start(s: Supervision, tty_busy: bool) -> SupervisorStep {
    if tty_bound(s.d) && tty_busy {
        SupervisorStep {
            state: Supervision { state: ServiceState::Stopped, mode: Mode::Idle, ..s },
            action: SupervisorAction::Poll,
        }
    } else {
        SupervisorStep {
            state: Supervision {
                state: ServiceState::Starting,
                mode: Mode::Launching,
                restart_count: counted(s.restart_count, s.restarting),
                restarting: false,
                ..s
            },
            action: SupervisorAction::Launch,
        }
    }
}

/// The child is gone, with the exit code `code` if it could be had. The
/// service is stopped after code 0 and failed after any other end. The
/// restart policy says whether it starts again, after the restart delay,
/// or the loop ends.
pub open spec fn child_gone(s: Supervision, code: Option<i32>) -> SupervisorStep {
    let gone = Supervision {
        child: None,
        last_exit_code: code,
        state: if code == Some(0i32) {
            ServiceState::Stopped
        } else {
            ServiceState::Failed
        },
        ..s
    };
    let again = match code {
        Some(c) => s.d.restart.restarts_after(c as int),
        None => s.d.restart != RestartPolicy::Never,
    };
    if again {
        SupervisorStep {
            state: Supervision { mode: Mode::Delaying, restarting: true, ..gone },
            action: SupervisorAction::Delay { secs: s.d.delay_seconds() as u64 },
        }
    } else {
        leave(gone)
    }
}

/// One step of supervision.
pub open spec fn supervise(s: Supervision, e: SupervisorEvent) -> SupervisorStep {
    match s.mode {
        Mode::Idle | Mode::Delaying => match e {
            SupervisorEvent::Tick { shutdown, tty_busy, child } => if shutdown {
                leave(s)
            } else {
                try_start(s, tty_busy)
            },
            _ => look_again(s),
        },
        Mode::Launching => match e {
            SupervisorEvent::Launched { pid, at } => SupervisorStep {
                state: Supervision {
                    child: Some(pid),
                    last_start: Some(at),
                    state: ServiceState::Running,
                    mode: Mode::Watching(pid),
                    ..s
                },
                action: SupervisorAction::Poll,
            },
            SupervisorEvent::LaunchFailed => leave(
                Supervision { state: ServiceState::Failed, launch_failed: true, ..s },
            ),
            _ => look_again(s),
        },
        Mode::Watching(pid) => match e {
            SupervisorEvent::Tick { shutdown, tty_busy, child } => if shutdown {
                SupervisorStep {
                    state: Supervision {
                        state: ServiceState::Stopping,
                        mode: Mode::Stopping(pid),
                        ..s
                    },
                    action: SupervisorAction::Stop { pid },
                }
            } else {
                match child {
                    ChildStatus::Running => look_again(
                        Supervision { state: ServiceState::Running, ..s },
                    ),
                    ChildStatus::Exited(code) => child_gone(s, Some(code)),
                    ChildStatus::ReapFailed => child_gone(s, None),
                }
            },
            _ => look_again(s),
        },
        Mode::Stopping(pid) => match e {
            SupervisorEvent::Stopped(outcome) => leave(
                Supervision {
                    child: None,
                    state: if outcome == StopOutcome::Killed {
                        ServiceState::Failed
                    } else {
                        ServiceState::Stopped
                    },
                    ..s
                },
            ),
            _ => look_again(s),
        },
        Mode::Finished => leave(s),
    }
}

/// Seconds that a stopped child of `d` is given to be reaped: its stop
/// timeout and two seconds more, as far as a `u64` holds them.
pub open spec fn reap_seconds(d: Descriptor) -> u64 {
    if d.stop_seconds() + REAP_GRACE_SECS <= u64::MAX {
        (d.stop_seconds() + REAP_GRACE_SECS) as u64
    } else {
        u64::MAX
    }
}

/// Milliseconds between two looks at a child that is waited for.
pub const REAP_POLL_MILLIS: u64 = 50;

/// Milliseconds, after the time that a stopped child is given to be reaped,
/// during which it is still waited for once it was killed by force.
pub const REAP_LAST_MILLIS: u64 = 900;

/// What is done about a stopped child that has not been reaped yet.
#[derive(Debug, Clone, Copy, PartialEq, Eq, Structural)]
pub enum ReapAction {
    /// Sleep for `REAP_POLL_MILLIS` and look again.
    Wait,
    /// Kill the child by force, then sleep and look again.
    Kill,
    /// Leave the child: it is not waited for any longer.
    GiveUp,
}

/// What is done about a stopped child that has not been reaped
/// `elapsed_millis` after its stop began, where it is given `limit_secs` to
/// be reaped and `killed` says whether it was killed by force already. Until
/// the limit it is waited for; at the limit it is killed, once; 900 ms past
/// the limit it is left.
pub open spec fn reap_step(elapsed_millis: u64, limit_secs: u64, killed: bool) -> ReapAction {
    if elapsed_millis >= limit_secs * 1000 + REAP_LAST_MILLIS {
        ReapAction::GiveUp
    } else if elapsed_millis >= limit_secs * 1000 && !killed {
        ReapAction::Kill
    } else {
        ReapAction::Wait
    }
}

/// What is done about a stopped child that has not been reaped yet.
pub fn reap_next(elapsed_millis: u64, limit_secs: u64, killed: bool) -> (r: ReapAction)
    ensures
        r == reap_step(elapsed_millis, limit_secs, killed),
{
    let elapsed: u128 = elapsed_millis as u128;
    let limit: u128 = (limit_secs as u128) * 1000;
    if elapsed >= limit + (REAP_LAST_MILLIS as u128) {
        ReapAction::GiveUp
    } else if elapsed >= limit && !killed {
        ReapAction::Kill
    } else {
        ReapAction::Wait
    }
}

/// The wait for a stopped child is bounded: the child of `d` is waited for
/// or killed only while less than its stop timeout and three seconds have
/// passed since the stop began, and it is killed by force at most once.
pub proof fn lemma_reap_is_bounded(d: Descriptor, elapsed_millis: u64, killed: bool)
    ensures
        reap_step(elapsed_millis, reap_seconds(d), killed) != ReapAction::GiveUp
            ==> elapsed_millis < (d.stop_seconds() + 3) * 1000,
        reap_step(elapsed_millis, reap_seconds(d), true) != ReapAction::Kill,
{
}

/// What is reported of a stop: how the launcher's stop ended, or that it
/// failed; and `Killed` in any case when the child had to be killed by force
/// to be reaped.
pub open spec fn stop_report(outcome: Option<StopOutcome>, forced: bool) -> SupervisorEvent {
    SupervisorEvent::Stopped(
        if forced {
            StopOutcome::Killed
        } else {
            match outcome {
                Some(o) => o,
                None => StopOutcome::Failed,
            }
        },
    )
}

/// What is reported of a stop. `outcome` is how the launcher's stop ended,
/// or none if it failed; `forced` says whether the child had to be killed
/// by force to be reaped.
pub fn stopped(outcome: Option<StopOutcome>, forced: bool) -> (e: SupervisorEvent)
    ensures
        e == stop_report(outcome, forced),
{
    if forced {
        SupervisorEvent::Stopped(StopOutcome::Killed)
    } else {
        match outcome {
            Some(o) => SupervisorEvent::Stopped(o),
            None => SupervisorEvent::Stopped(StopOutcome::Failed),
        }
    }
}

/// What a look at the child showed, by what waiting for it without
/// blocking gave: the exit code of a child that has ended, or -1 if it ended
/// without one; that the child runs; or that it could not be waited for.
pub fn child_status(waited: Result<Option<Option<i32>>, ()>) -> (r: ChildStatus)
    ensures
        r == match waited {
            Ok(Some(Some(code))) => ChildStatus::Exited(code),
            Ok(Some(None)) => ChildStatus::Exited(-1i32),
            Ok(None) => ChildStatus::Running,
            Err(_) => ChildStatus::ReapFailed,
        },
{
    match waited {
        Ok(Some(Some(code))) => ChildStatus::Exited(code),
        Ok(Some(None)) => ChildStatus::Exited(-1),
        Ok(None) => ChildStatus::Running,
        Err(_) => ChildStatus::ReapFailed,
    }
}

/// The supervisor made ready for another run: one whose loop has ended
/// is idle again, with its counters and its last state kept; any other
/// stays as it is.
pub open spec fn revived(s: Supervision) -> Supervision {
    if s.mode == Mode::Finished {
        Supervision { mode: Mode::Idle, launch_failed: false, restarting: false, ..s }
    } else {
        s
    }
}

impl Supervisor {
    /// Whether the supervisor is consistent: it knows of a process exactly
    /// while it watches or stops one, a failed launch has ended its loop,
    /// and the state that it shows agrees with what it is doing.
    pub fn is_consistent(&self) -> (r: bool)
        ensures
            r == consistent(self@),
    {
        let idle = match self.state {
            ServiceState::Stopped | ServiceState::Failed => true,
            _ => false,
        };
        let followed = match self.mode {
            Mode::Watching(pid) => (match self.child {
                Some(c) => c == pid,
                None => false,
            }) && (match self.state {
                ServiceState::Running => true,
                _ => false,
            }),
            Mode::Stopping(pid) => (match self.child {
                Some(c) => c == pid,
                None => false,
            }) && (match self.state {
                ServiceState::Stopping => true,
                _ => false,
            }),
            Mode::Launching => self.child.is_none() && (match self.state {
                ServiceState::Starting => true,
                _ => false,
            }),
            _ => self.child.is_none() && idle,
        };
        let ended = match self.mode {
            Mode::Finished => true,
            _ => false,
        };
        followed && (!self.launch_failed || ended)
    }

    /// Makes the supervisor ready for another run, if its loop has ended.
    pub fn revive(&mut self)
        ensures
            final(self)@ == revived(old(self)@),
            consistent(old(self)@) ==> consistent(final(self)@),
    {
        match self.mode {
            Mode::Finished => {
                self.mode = Mode::Idle;
                self.launch_failed = false;
                self.restarting = false;
            },
            _ => {},
        }
    }

    /// Seconds that a stopped child is given to be reaped.
    pub fn reap_limit(&self) -> (r: u64)
        ensures
            r == reap_seconds(self@.d),
    {
        match self.service.stop_seconds().checked_add(REAP_GRACE_SECS) {
            Some(n) => n,
            None => u64::MAX,
        }
    }

    /// The supervisor of `service`, before anything has happened: stopped,
    /// without a process, with no restart counted.
    pub fn new(service: ServiceFile) -> (r: Supervisor)
        ensures
            r@ == fresh(service@),
            consistent(r@),
    {
        Supervisor {
            service,
            child: None,
            restart_count: 0,
            last_start: None,
            last_exit_code: None,
            state: ServiceState::Stopped,
            mode: Mode::Idle,
            restarting: false,
            launch_failed: false,
        }
    }

    /// The terminal whose use the worker is to report in each `Tick`, if
    /// the service is bound to one.
    pub fn tty(&self) -> (r: Option<String>)
        ensures
            crate::text::opt_text(r) == bound_tty(self@.d.name),
    {
        tty_of_name(self.service.name.as_str())
    }

    fn leave(&mut self) -> (action: SupervisorAction)
        ensures
            final(self)@ == leave(old(self)@).state,
            action == leave(old(self)@).action,
    {
        self.mode = Mode::Finished;
        SupervisorAction::Exit { launch_failed: self.launch_failed }
    }

    fn try_start(&mut self, tty_busy: bool) -> (action: SupervisorAction)
        ensures
            final(self)@ == try_start(old(self)@, tty_busy).state,
            action == try_start(old(self)@, tty_busy).action,
    {
        if tty_busy && self.tty().is_some() {
            self.state = ServiceState::Stopped;
            self.mode = Mode::Idle;
            SupervisorAction::Poll
        } else {
            self.state = ServiceState::Starting;
            self.mode = Mode::Launching;
            if self.restarting && self.restart_count < u32::MAX {
                self.restart_count = self.restart_count + 1;
            }
            self.restarting = false;
            SupervisorAction::Launch
        }
    }

    fn child_gone(&mut self, code: Option<i32>) -> (action: SupervisorAction)
        ensures
            final(self)@ == child_gone(old(self)@, code).state,
            action == child_gone(old(self)@, code).action,
    {
        self.child = None;
        self.last_exit_code = code;
        let again = match code {
            Some(c) => {
                self.state = if c == 0 {
                    ServiceState::Stopped
                } else {
                    ServiceState::Failed
                };
                self.service.restart.should_restart(c)
            },
            None => {
                self.state = ServiceState::Failed;
                match self.service.restart {
                    RestartPolicy::Never => false,
                    _ => true,
                }
            },
        };
        if again {
            self.mode = Mode::Delaying;
            self.restarting = true;
            SupervisorAction::Delay { secs: self.service.delay_seconds() }
        } else {
            self.leave()
        }
    }

    /// Takes what the worker reports and says what it is to do next.
    pub fn step(&mut self, event: SupervisorEvent) -> (action: SupervisorAction)
        ensures
            final(self)@ == supervise(old(self)@, event).state,
            action == supervise(old(self)@, event).action,
            consistent(old(self)@) ==> consistent(final(self)@),
    {
        proof {
            if consistent(old(self)@) {
                lemma_supervise_consistent(old(self)@, event);
            }
        }
        match self.mode {
            Mode::Idle | Mode::Delaying => match event {
                SupervisorEvent::Tick { shutdown, tty_busy, child } => {
                    if shutdown {
                        self.leave()
                    } else {
                        self.try_start(tty_busy)
                    }
                },
                _ => SupervisorAction::Poll,
            },
            Mode::Launching => match event {
                SupervisorEvent::Launched { pid, at } => {
                    self.child = Some(pid);
                    self.last_start = Some(at);
                    self.state = ServiceState::Running;
                    self.mode = Mode::Watching(pid);
                    SupervisorAction::Poll
                },
                SupervisorEvent::LaunchFailed => {
                    self.state = ServiceState::Failed;
                    self.launch_failed = true;
                    self.leave()
                },
                _ => SupervisorAction::Poll,
            },
            Mode::Watching(pid) => match event {
                SupervisorEvent::Tick { shutdown, tty_busy, child } => {
                    if shutdown {
                        self.state = ServiceState::Stopping;
                        self.mode = Mode::Stopping(pid);
                        SupervisorAction::Stop { pid }
                    } else {
                        match child {
                            ChildStatus::Running => {
                                self.state = ServiceState::Running;
                                SupervisorAction::Poll
                            },
                            ChildStatus::Exited(code) => self.child_gone(Some(code)),
                            ChildStatus::ReapFailed => self.child_gone(None),
                        }
                    }
                },
                _ => SupervisorAction::Poll,
            },
            Mode::Stopping(pid) => match event {
                SupervisorEvent::Stopped(outcome) => {
                    self.child = None;
                    self.state = match outcome {
                        StopOutcome::Killed => ServiceState::Failed,
                        _ => ServiceState::Stopped,
                    };
                    self.leave()
                },
                _ => SupervisorAction::Poll,
            },
            Mode::Finished => self.leave(),
        }
    }
}

/// The supervisor knows of a process exactly while it watches or stops
/// one, a failed launch has ended its loop, and the state that it shows
/// agrees with what it is doing.
pub open spec fn consistent(s: Supervision) -> bool {
    &&& match s.mode {
        Mode::Watching(pid) | Mode::Stopping(pid) => s.child == Some(pid),
        _ => s.child is None,
    }
    &&& s.launch_failed ==> s.mode == Mode::Finished
    &&& match s.mode {
        Mode::Launching => s.state == ServiceState::Starting,
        Mode::Watching(_) => s.state == ServiceState::Running,
        Mode::Stopping(_) => s.state == ServiceState::Stopping,
        _ => s.state == ServiceState::Stopped || s.state == ServiceState::Failed,
    }
}

/// Supervision never loses track of the process, and never changes the
/// descriptor.
pub proof fn lemma_supervise_consistent(s: Supervision, e: SupervisorEvent)
    requires
        consistent(s),
    ensures
        consistent(supervise(s, e).state),
        supervise(s, e).state.d == s.d,
{
}

/// The transitions of a service's lifecycle: a stopped or failed service
/// may be starting; a starting one may run or have failed; a running one
/// may have stopped, have failed, or be stopping; a stopping one ends
/// stopped or failed; and a failed service that is held back counts as
/// stopped.
pub open spec fn may_follow(from: ServiceState, to: ServiceState) -> bool {
    from == to || match from {
        ServiceState::Stopped => to == ServiceState::Starting,
        ServiceState::Failed => to == ServiceState::Starting || to == ServiceState::Stopped,
        ServiceState::Starting => to == ServiceState::Running || to == ServiceState::Failed,
        ServiceState::Running => to == ServiceState::Stopped || to == ServiceState::Failed || to
            == ServiceState::Stopping,
        ServiceState::Stopping => to == ServiceState::Stopped || to == ServiceState::Failed,
    }
}

/// Supervision moves a service only along the transitions of its
/// lifecycle.
pub proof fn lemma_lifecycle(s: Supervision, e: SupervisorEvent)
    requires
        consistent(s),
    ensures
        may_follow(s.state, supervise(s, e).state.state),
{
}

/// What the restart policy means when the child exits with the code `c`,
/// while no shutdown is asked for.
///
/// Under `Never` the loop ends and no restart is counted. Under `Always`
/// the supervisor waits the restart delay and then, unless the terminal is
/// in use, launches again and counts one more restart. Under `OnFailure`
/// it does as under `Never` after code 0 and as under `Always` after any
/// other code.
pub proof fn lemma_restart_semantics(s: Supervision, pid: u32, c: i32, tty_busy: bool)
    requires
        consistent(s),
        s.mode == Mode::Watching(pid),
    ensures
        ({
            let seen = SupervisorEvent::Tick {
                shutdown: false,
                tty_busy,
                child: ChildStatus::Exited(c),
            };
            let after = supervise(s, seen);
            let free = SupervisorEvent::Tick {
                shutdown: false,
                tty_busy: false,
                child: ChildStatus::Running,
            };
            let later = supervise(after.state, free);
            let stops = after.action == (SupervisorAction::Exit { launch_failed: false })
                && after.state.mode == Mode::Finished && after.state.restart_count
                == s.restart_count;
            let restarts = after.action == (SupervisorAction::Delay {
                secs: s.d.delay_seconds() as u64,
            }) && after.state.restart_count == s.restart_count && later.action
                == SupervisorAction::Launch && later.state.restart_count == counted(
                s.restart_count,
                true,
            );
            &&& after.state.last_exit_code == Some(c)
            &&& after.state.child is None
            &&& match s.d.restart {
                RestartPolicy::Never => stops,
                RestartPolicy::Always => restarts,
                RestartPolicy::OnFailure => if c == 0 {
                    stops
                } else {
                    restarts
                },
            }
        }),
{
}

/// While someone is logged in on the terminal of a service `base@ttyN`,
/// the supervisor asks for no launch, whatever else it is told. A launch is
/// asked for only on a look at the world that shows no shutdown and, for
/// such a service, a free terminal.
pub proof fn lemma_tty_arbitration(s: Supervision, e: SupervisorEvent)
    ensures
        supervise(s, e).action == SupervisorAction::Launch ==> (e matches SupervisorEvent::Tick {
            shutdown,
            tty_busy,
            child,
        } && !shutdown && !(tty_bound(s.d) && tty_busy)),
        (s.mode == Mode::Idle || s.mode == Mode::Delaying) ==> forall|child: ChildStatus|
            supervise(
                s,
                SupervisorEvent::Tick { shutdown: false, tty_busy: false, child },
            ).action == SupervisorAction::Launch,
{
}

} // verus!
