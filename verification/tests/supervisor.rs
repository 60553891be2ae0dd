use verdant::process::StopOutcome;
use verdant::service::RestartPolicy;
use verdant::service_file::ServiceFile;
use verdant::status::ServiceState;
use verdant::supervisor::{
    child_status, reap_next, stopped, ChildStatus, Mode, ReapAction, Supervisor, SupervisorAction,
    SupervisorEvent,
};

fn service(name: &str, restart: RestartPolicy, delay: u64) -> ServiceFile {
    let mut s = ServiceFile::new(name.to_string(), "/bin/true".to_string());
    s.restart = restart;
    s.restart_delay = Some(delay);
    s
}

fn tick(child: ChildStatus) -> SupervisorEvent {
    SupervisorEvent::Tick { shutdown: false, tty_busy: false, child }
}

fn running(restart: RestartPolicy) -> Supervisor {
    let mut s = Supervisor::new(service("svc", restart, 1));
    assert_eq!(s.step(tick(ChildStatus::Running)), SupervisorAction::Launch);
    assert_eq!(s.state, ServiceState::Starting);
    assert_eq!(s.step(SupervisorEvent::Launched { pid: 10, at: 1000 }), SupervisorAction::Poll);
    assert_eq!(s.state, ServiceState::Running);
    assert_eq!(s.child, Some(10));
    assert_eq!(s.last_start, Some(1000));
    s
}

#[test]
fn never_stops_after_exit() {
    let mut s = running(RestartPolicy::Never);
    let a = s.step(tick(ChildStatus::Exited(2)));
    assert_eq!(a, SupervisorAction::Exit { launch_failed: false });
    assert_eq!(s.restart_count, 0);
    assert_eq!(s.state, ServiceState::Failed);
    assert_eq!(s.last_exit_code, Some(2));
    assert_eq!(s.child, None);
    let mut s = running(RestartPolicy::Never);
    s.step(tick(ChildStatus::Exited(0)));
    assert_eq!(s.state, ServiceState::Stopped);
}

#[test]
fn always_restarts_after_the_delay() {
    let mut s = running(RestartPolicy::Always);
    assert_eq!(s.step(tick(ChildStatus::Exited(0))), SupervisorAction::Delay { secs: 1 });
    assert_eq!(s.restart_count, 0);
    assert_eq!(s.step(tick(ChildStatus::Running)), SupervisorAction::Launch);
    assert_eq!(s.restart_count, 1);
    assert_eq!(s.state, ServiceState::Starting);
}

#[test]
fn on_failure_restarts_only_after_failure() {
    let mut s = running(RestartPolicy::OnFailure);
    assert_eq!(
        s.step(tick(ChildStatus::Exited(0))),
        SupervisorAction::Exit { launch_failed: false }
    );
    assert_eq!(s.state, ServiceState::Stopped);
    let mut s = running(RestartPolicy::OnFailure);
    assert_eq!(s.step(tick(ChildStatus::Exited(1))), SupervisorAction::Delay { secs: 1 });
    assert_eq!(s.state, ServiceState::Failed);
}

#[test]
fn restart_on_failure_runs_three_times() {
    let mut s = Supervisor::new(service("flaky", RestartPolicy::OnFailure, 1));
    let codes = [2, 2, 0];
    let mut launches = 0;
    let mut delayed = 0;
    let mut action = s.step(tick(ChildStatus::Running));
    let mut pid = 100;
    loop {
        match action {
            SupervisorAction::Launch => {
                launches += 1;
                pid += 1;
                action = s.step(SupervisorEvent::Launched { pid, at: 0 });
            }
            SupervisorAction::Poll => {
                action = s.step(tick(ChildStatus::Exited(codes[launches - 1])));
            }
            SupervisorAction::Delay { secs } => {
                delayed += secs;
                action = s.step(tick(ChildStatus::Running));
            }
            SupervisorAction::Exit { launch_failed } => {
                assert!(!launch_failed);
                break;
            }
            SupervisorAction::Stop { .. } => panic!("no stop was asked for"),
        }
    }
    assert_eq!(launches, 3);
    assert_eq!(s.restart_count, 2);
    assert_eq!(s.state, ServiceState::Stopped);
    assert!(delayed >= 2);
}

#[test]
fn busy_terminal_holds_the_launch_back() {
    let mut s = Supervisor::new(service("getty@tty1", RestartPolicy::Always, 0));
    assert_eq!(s.tty(), Some("tty1".to_string()));
    let busy = SupervisorEvent::Tick { shutdown: false, tty_busy: true, child: ChildStatus::Running };
    let mut launches = 0;
    for _ in 0..4 {
        let a = s.step(busy);
        if a == SupervisorAction::Launch {
            launches += 1;
        }
        assert_eq!(a, SupervisorAction::Poll);
        assert_eq!(s.state, ServiceState::Stopped);
    }
    assert_eq!(launches, 0);
    assert_eq!(s.step(tick(ChildStatus::Running)), SupervisorAction::Launch);
    assert_eq!(s.step(SupervisorEvent::Launched { pid: 5, at: 0 }), SupervisorAction::Poll);
    assert_eq!(s.step(busy), SupervisorAction::Poll);
    assert_eq!(s.state, ServiceState::Running);
}

#[test]
fn busy_terminal_holds_the_restart_back() {
    let mut s = Supervisor::new(service("getty@tty1", RestartPolicy::Always, 0));
    s.step(tick(ChildStatus::Running));
    s.step(SupervisorEvent::Launched { pid: 5, at: 0 });
    assert_eq!(s.step(tick(ChildStatus::Exited(0))), SupervisorAction::Delay { secs: 0 });
    let busy = SupervisorEvent::Tick { shutdown: false, tty_busy: true, child: ChildStatus::Running };
    assert_eq!(s.step(busy), SupervisorAction::Poll);
    assert_eq!(s.step(busy), SupervisorAction::Poll);
    assert_eq!(s.restart_count, 0);
    assert_eq!(s.step(tick(ChildStatus::Running)), SupervisorAction::Launch);
    assert_eq!(s.restart_count, 1);
}

#[test]
fn a_service_without_terminal_ignores_the_probe() {
    let mut s = Supervisor::new(service("sshd", RestartPolicy::Never, 0));
    assert_eq!(s.tty(), None);
    let busy = SupervisorEvent::Tick { shutdown: false, tty_busy: true, child: ChildStatus::Running };
    assert_eq!(s.step(busy), SupervisorAction::Launch);
}

#[test]
fn shutdown_stops_the_child() {
    let mut s = running(RestartPolicy::Always);
    let down = SupervisorEvent::Tick { shutdown: true, tty_busy: false, child: ChildStatus::Running };
    assert_eq!(s.step(down), SupervisorAction::Stop { pid: 10 });
    assert_eq!(s.state, ServiceState::Stopping);
    assert_eq!(
        s.step(SupervisorEvent::Stopped(StopOutcome::Exited)),
        SupervisorAction::Exit { launch_failed: false }
    );
    assert_eq!(s.state, ServiceState::Stopped);
    assert_eq!(s.child, None);
    assert_eq!(s.mode, Mode::Finished);
}

#[test]
fn forced_kill_leaves_the_service_failed() {
    let mut s = running(RestartPolicy::Never);
    let down = SupervisorEvent::Tick { shutdown: true, tty_busy: false, child: ChildStatus::Exited(0) };
    assert_eq!(s.step(down), SupervisorAction::Stop { pid: 10 });
    s.step(SupervisorEvent::Stopped(StopOutcome::Killed));
    assert_eq!(s.state, ServiceState::Failed);
    let mut s = running(RestartPolicy::Never);
    s.step(down);
    s.step(SupervisorEvent::Stopped(StopOutcome::Failed));
    assert_eq!(s.state, ServiceState::Stopped);
}

#[test]
fn shutdown_during_the_delay_ends_the_loop() {
    let mut s = running(RestartPolicy::Always);
    s.step(tick(ChildStatus::Exited(1)));
    let down = SupervisorEvent::Tick { shutdown: true, tty_busy: false, child: ChildStatus::Running };
    assert_eq!(s.step(down), SupervisorAction::Exit { launch_failed: false });
    assert_eq!(s.restart_count, 0);
}

#[test]
fn launch_failure_ends_the_loop_failed() {
    let mut s = Supervisor::new(service("a", RestartPolicy::Always, 0));
    s.step(tick(ChildStatus::Running));
    assert_eq!(
        s.step(SupervisorEvent::LaunchFailed),
        SupervisorAction::Exit { launch_failed: true }
    );
    assert_eq!(s.state, ServiceState::Failed);
    assert_eq!(s.step(tick(ChildStatus::Running)), SupervisorAction::Exit { launch_failed: true });
}

#[test]
fn reap_failure_counts_as_child_gone() {
    let mut s = running(RestartPolicy::OnFailure);
    assert_eq!(s.step(tick(ChildStatus::ReapFailed)), SupervisorAction::Delay { secs: 1 });
    assert_eq!(s.child, None);
    assert_eq!(s.last_exit_code, None);
    assert_eq!(s.state, ServiceState::Failed);
    let mut s = running(RestartPolicy::Never);
    assert_eq!(
        s.step(tick(ChildStatus::ReapFailed)),
        SupervisorAction::Exit { launch_failed: false }
    );
}

#[test]
fn running_child_keeps_the_supervisor_watching() {
    let mut s = running(RestartPolicy::Never);
    for _ in 0..3 {
        assert_eq!(s.step(tick(ChildStatus::Running)), SupervisorAction::Poll);
        assert_eq!(s.state, ServiceState::Running);
    }
    assert_eq!(s.step(SupervisorEvent::LaunchFailed), SupervisorAction::Poll);
    assert_eq!(s.child, Some(10));
}

#[test]
fn reports_of_the_worker() {
    assert_eq!(child_status(Ok(Some(Some(3)))), ChildStatus::Exited(3));
    assert_eq!(child_status(Ok(Some(None))), ChildStatus::Exited(-1));
    assert_eq!(child_status(Ok(None)), ChildStatus::Running);
    assert_eq!(child_status(Err(())), ChildStatus::ReapFailed);
    assert_eq!(stopped(Some(StopOutcome::Exited), false), SupervisorEvent::Stopped(StopOutcome::Exited));
    assert_eq!(stopped(Some(StopOutcome::Exited), true), SupervisorEvent::Stopped(StopOutcome::Killed));
    assert_eq!(stopped(None, false), SupervisorEvent::Stopped(StopOutcome::Failed));
    let mut s = service("a", RestartPolicy::Never, 0);
    s.timeout_stop = Some(7);
    assert_eq!(Supervisor::new(s).reap_limit(), 9);
    let mut s = service("a", RestartPolicy::Never, 0);
    s.timeout_stop = Some(u64::MAX);
    assert_eq!(Supervisor::new(s).reap_limit(), u64::MAX);
    assert_eq!(Supervisor::new(service("a", RestartPolicy::Never, 0)).reap_limit(), 7);
}

#[test]
fn a_stopped_child_is_waited_for_killed_once_and_left() {
    assert_eq!(reap_next(0, 7, false), ReapAction::Wait);
    assert_eq!(reap_next(6_999, 7, false), ReapAction::Wait);
    assert_eq!(reap_next(7_000, 7, false), ReapAction::Kill);
    assert_eq!(reap_next(7_000, 7, true), ReapAction::Wait);
    assert_eq!(reap_next(7_899, 7, true), ReapAction::Wait);
    assert_eq!(reap_next(7_899, 7, false), ReapAction::Kill);
    assert_eq!(reap_next(7_900, 7, true), ReapAction::GiveUp);
    assert_eq!(reap_next(7_900, 7, false), ReapAction::GiveUp);
    assert_eq!(reap_next(0, 0, false), ReapAction::Kill);
    assert_eq!(reap_next(u64::MAX, u64::MAX, false), ReapAction::Wait);
    assert_eq!(reap_next(u64::MAX, 1, true), ReapAction::GiveUp);
}
