use nix::errno::Errno;
use verdant::errors::BloomError;
use verdant::parser::parse_service_file;
use verdant::process::{
    instance_of_name, is_getty, parent_of, plan_launch, probe_event, probe_result, signal_event,
    signal_result, split_env,
    tty_handoff, tty_of_name, PreExec, StopAction, StopEvent, StopMachine, StopOutcome, StopPhase,
    StopSignal,
};
use verdant::service_file::ServiceFile;

fn strs(v: &[&str]) -> Vec<String> {
    v.iter().map(|s| s.to_string()).collect()
}

fn plain(name: &str, cmd: &str) -> ServiceFile {
    parse_service_file("x.vs", &format!("name: {}\ncmd: {}\n", name, cmd))
        .unwrap()
        .remove(0)
}

#[test]
fn plan_redirects_output_to_the_log_files() {
    let mut s = plain("web", "/usr/bin/web");
    s.args = Some(strs(&["--port", "80"]));
    s.env = Some(strs(&["PATH=/bin:/usr/bin", "EMPTY=", "no_equals", "A=b=c"]));
    s.working_dir = Some("/srv".to_string());
    s.user = Some("www".to_string());
    s.group = Some("web".to_string());
    s.nice = Some(5);
    let plan = plan_launch(&s).unwrap();
    assert_eq!(plan.program, "/usr/bin/web");
    assert_eq!(plan.args, strs(&["--port", "80"]));
    let env: Vec<(String, String)> =
        plan.env.iter().map(|e| (e.key.clone(), e.value.clone())).collect();
    assert_eq!(
        env,
        vec![
            ("PATH".to_string(), "/bin:/usr/bin".to_string()),
            ("EMPTY".to_string(), "".to_string()),
            ("A".to_string(), "b=c".to_string()),
        ]
    );
    assert_eq!(plan.working_dir, Some("/srv".to_string()));
    assert_eq!(plan.stdout_log, Some("/var/log/web.out.log".to_string()));
    assert_eq!(plan.stderr_log, Some("/var/log/web.err.log".to_string()));
    assert_eq!(plan.log_dirs, strs(&["/var/log", "/var/log"]));
    assert!(plan.stdin_null);
    assert_eq!(plan.steps.len(), 5);
    assert!(matches!(plan.steps[0], PreExec::NewSession));
    assert!(matches!(&plan.steps[1], PreExec::SetGroup(g) if g == "web"));
    assert!(matches!(&plan.steps[2], PreExec::SetUser(u) if u == "www"));
    assert!(matches!(plan.steps[3], PreExec::SetUmask(18)));
    assert!(matches!(plan.steps[4], PreExec::SetNice(5)));
}

#[test]
fn plan_hands_a_getty_its_terminal() {
    let out = parse_service_file(
        "getty@.vs",
        "name: getty@{}\ncmd: /sbin/agetty\nargs: -L {} 115200\ninstances:\n  - tty1\n",
    )
    .unwrap();
    let plan = plan_launch(&out[0]).unwrap();
    assert_eq!(plan.stdout_log, None);
    assert_eq!(plan.stderr_log, None);
    assert!(plan.log_dirs.is_empty());
    assert!(!plan.stdin_null);
    assert!(matches!(plan.steps[0], PreExec::NewSession));
    assert!(matches!(&plan.steps[1], PreExec::AttachTty(p) if p == "/dev/tty1"));
}

#[test]
fn plan_refuses_what_cannot_be_launched() {
    let mut s = plain("a", "/bin/a");
    s.umask = Some("9z".to_string());
    match plan_launch(&s) {
        Err(BloomError::LaunchFailed(m)) => assert_eq!(m, "Invalid umask: 9z"),
        other => panic!("unexpected: {:?}", other),
    }
    let bare = ServiceFile::new("b".to_string(), "/bin/b".to_string());
    match plan_launch(&bare) {
        Err(BloomError::LaunchFailed(m)) => assert_eq!(m, "Missing stdout_log path"),
        other => panic!("unexpected: {:?}", other),
    }
    let mut half = ServiceFile::new("b".to_string(), "/bin/b".to_string());
    half.stdout_log = Some("/tmp/o".to_string());
    match plan_launch(&half) {
        Err(BloomError::LaunchFailed(m)) => assert_eq!(m, "Missing stderr_log path"),
        other => panic!("unexpected: {:?}", other),
    }
    let empty = ServiceFile::new("c".to_string(), String::new());
    match plan_launch(&empty) {
        Err(BloomError::LaunchFailed(m)) => assert_eq!(m, "Missing cmd"),
        other => panic!("unexpected: {:?}", other),
    }
}

#[test]
fn umask_reads_as_octal() {
    let mut s = plain("a", "/bin/a");
    s.umask = Some("0077".to_string());
    let plan = plan_launch(&s).unwrap();
    assert!(plan.steps.iter().any(|st| matches!(st, PreExec::SetUmask(63))));
    s.umask = Some("77777".to_string());
    assert!(plan_launch(&s).is_err());
    s.umask = Some("".to_string());
    assert!(plan_launch(&s).is_err());
}

#[test]
fn getty_is_known_by_command_or_name() {
    assert!(is_getty(&plain("login", "/sbin/agetty")));
    assert!(is_getty(&plain("getty@tty3", "/bin/x")));
    assert!(is_getty(&plain("agetty@tty3", "/bin/x")));
    assert!(!is_getty(&plain("sshd", "/usr/sbin/sshd")));
    assert_eq!(tty_handoff(&plain("getty@tty3", "/bin/x")), Some("tty3".to_string()));
    assert_eq!(tty_handoff(&plain("sshd@tty3", "/usr/sbin/sshd")), None);
    let mut g = plain("login", "/sbin/getty");
    g.args = Some(strs(&["38400", "tty7"]));
    assert_eq!(tty_handoff(&g), Some("tty7".to_string()));
}

#[test]
fn names_bind_services_to_terminals() {
    assert_eq!(instance_of_name("getty@tty1"), Some("tty1".to_string()));
    assert_eq!(instance_of_name("a@b@c"), Some("b".to_string()));
    assert_eq!(instance_of_name("a@"), Some("".to_string()));
    assert_eq!(instance_of_name("plain"), None);
    assert_eq!(tty_of_name("getty@tty1"), Some("tty1".to_string()));
    assert_eq!(tty_of_name("worker@7"), None);
    assert_eq!(tty_of_name("plain"), None);
}

#[test]
fn parent_directories_of_paths() {
    assert_eq!(parent_of("/var/log/a.log"), Some("/var/log".to_string()));
    assert_eq!(parent_of("/a.log"), Some("/".to_string()));
    assert_eq!(parent_of("a.log"), None);
    assert_eq!(parent_of("logs/a.log"), Some("logs".to_string()));
}

#[test]
fn env_entries_part_at_the_first_equals() {
    let env = split_env(&strs(&["K=V", "=x", "none"]));
    assert_eq!(env.len(), 2);
    assert_eq!(env[0].key, "K");
    assert_eq!(env[0].value, "V");
    assert_eq!(env[1].key, "");
    assert_eq!(env[1].value, "x");
}

fn machine(timeout: u64, stop_cmd: Option<&str>) -> StopMachine {
    let mut s = plain("a", "/bin/a");
    s.timeout_stop = Some(timeout);
    s.stop_cmd = stop_cmd.map(|c| c.to_string());
    StopMachine::new(&s, 4242)
}

#[test]
fn stop_terminates_then_sees_the_process_gone() {
    let mut m = machine(5, None);
    assert_eq!(m.budget, 50);
    assert_eq!(m.step(StopEvent::Begin), StopAction::SendSignal { signal: StopSignal::Terminate });
    assert_eq!(m.step(StopEvent::Sent), StopAction::Probe);
    assert_eq!(m.step(StopEvent::Alive), StopAction::Wait);
    assert_eq!(m.step(StopEvent::Alive), StopAction::Wait);
    assert_eq!(m.step(StopEvent::NoSuchProcess), StopAction::Finish(StopOutcome::Exited));
    assert_eq!(m.outcome(), Some(StopOutcome::Exited));
    assert_eq!(m.step(StopEvent::Alive), StopAction::Finish(StopOutcome::Exited));
}

#[test]
fn stop_kills_after_the_timeout_and_gives_up_after_two_seconds() {
    let mut m = machine(1, None);
    m.step(StopEvent::Begin);
    m.step(StopEvent::Sent);
    let mut waits = 0;
    let mut action = m.step(StopEvent::Alive);
    while action == StopAction::Wait {
        waits += 1;
        action = m.step(StopEvent::Alive);
    }
    assert_eq!(waits, 10);
    assert_eq!(action, StopAction::SendSignal { signal: StopSignal::Kill });
    assert_eq!(m.phase, StopPhase::Killing);
    assert_eq!(m.step(StopEvent::Sent), StopAction::Probe);
    let mut action = m.step(StopEvent::Alive);
    let mut kill_waits = 0;
    while action == StopAction::Wait {
        kill_waits += 1;
        action = m.step(StopEvent::Alive);
    }
    assert_eq!(kill_waits, 20);
    assert_eq!(action, StopAction::Finish(StopOutcome::Failed));
    assert!(waits + kill_waits <= 10 * 1 + 20);
}

#[test]
fn stop_reports_a_forced_kill() {
    let mut m = machine(0, None);
    m.step(StopEvent::Begin);
    m.step(StopEvent::Sent);
    assert_eq!(m.step(StopEvent::Alive), StopAction::SendSignal { signal: StopSignal::Kill });
    m.step(StopEvent::Sent);
    assert_eq!(m.step(StopEvent::Alive), StopAction::Wait);
    assert_eq!(m.step(StopEvent::NoSuchProcess), StopAction::Finish(StopOutcome::Killed));
}

#[test]
fn stop_takes_a_vanished_process_as_success() {
    let mut m = machine(5, None);
    m.step(StopEvent::Begin);
    assert_eq!(m.step(StopEvent::NoSuchProcess), StopAction::Finish(StopOutcome::Exited));
    let mut m = machine(0, None);
    m.step(StopEvent::Begin);
    m.step(StopEvent::Sent);
    m.step(StopEvent::Alive);
    assert_eq!(m.step(StopEvent::NoSuchProcess), StopAction::Finish(StopOutcome::Exited));
}

#[test]
fn stop_fails_when_the_signal_cannot_be_sent() {
    let mut m = machine(5, None);
    m.step(StopEvent::Begin);
    assert_eq!(m.step(StopEvent::SendFailed), StopAction::Finish(StopOutcome::Failed));
    let mut m = machine(5, None);
    m.step(StopEvent::Begin);
    m.step(StopEvent::Sent);
    assert_eq!(m.step(StopEvent::ProbeFailed), StopAction::SendSignal { signal: StopSignal::Kill });
    assert_eq!(m.step(StopEvent::SendFailed), StopAction::Finish(StopOutcome::Failed));
}

#[test]
fn stop_command_runs_with_the_pid_and_counts_against_the_timeout() {
    let mut m = machine(2, Some("kill -TERM $MAINPID; echo $MAINPID"));
    assert_eq!(m.shell_command(), Some("kill -TERM 4242; echo 4242".to_string()));
    assert_eq!(m.step(StopEvent::Begin), StopAction::RunShell { limit_secs: 2 });
    assert_eq!(m.step(StopEvent::ShellDone { success: false, elapsed_ticks: 15 }), StopAction::Probe);
    let mut waits = 0;
    let mut action = m.step(StopEvent::Alive);
    while action == StopAction::Wait {
        waits += 1;
        action = m.step(StopEvent::Alive);
    }
    assert_eq!(waits, 5);
    assert_eq!(action, StopAction::SendSignal { signal: StopSignal::Kill });
    assert_eq!(machine(2, None).shell_command(), None);
}

#[test]
fn stop_budget_saturates() {
    let m = machine(u64::MAX, None);
    assert_eq!(m.budget, u64::MAX);
    let plain_budget = StopMachine::new(&ServiceFile::new("a".into(), "b".into()), 1);
    assert_eq!(plain_budget.budget, 50);
}

#[test]
fn errno_tells_a_gone_process_from_a_failure() {
    assert_eq!(signal_event(None), StopEvent::Sent);
    assert_eq!(signal_event(Some(3)), StopEvent::NoSuchProcess);
    assert_eq!(signal_event(Some(1)), StopEvent::SendFailed);
    assert_eq!(probe_event(None), StopEvent::Alive);
    assert_eq!(probe_event(Some(3)), StopEvent::NoSuchProcess);
    assert_eq!(probe_event(Some(13)), StopEvent::ProbeFailed);
}

#[test]
fn system_call_results_become_events() {
    assert_eq!(signal_result(Ok(())), StopEvent::Sent);
    assert_eq!(signal_result(Err(Errno::ESRCH)), StopEvent::NoSuchProcess);
    assert_eq!(signal_result(Err(Errno::EPERM)), StopEvent::SendFailed);
    assert_eq!(probe_result(Ok(())), StopEvent::Alive);
    assert_eq!(probe_result(Err(Errno::ESRCH)), StopEvent::NoSuchProcess);
    assert_eq!(probe_result(Err(Errno::EPERM)), StopEvent::ProbeFailed);
    match BloomError::from_errno(Errno::ENOENT) {
        BloomError::Io(m) => assert_eq!(m, "No such file or directory"),
        other => panic!("unexpected: {:?}", other),
    }
    match BloomError::from_errno_number(3) {
        BloomError::Io(m) => assert_eq!(m, "No such process"),
        other => panic!("unexpected: {:?}", other),
    }
    match (BloomError::from_errno(Errno::EPERM), BloomError::from_errno_number(1)) {
        (BloomError::Io(a), BloomError::Io(b)) => assert_eq!(a, b),
        other => panic!("unexpected: {:?}", other),
    }
}

#[test]
fn error_numbers_are_those_of_the_system() {
    assert_eq!(verdant::process::ESRCH, Errno::ESRCH as i32);
    assert_eq!(verdant::mount::ENOENT, Errno::ENOENT as i32);
    assert_eq!(verdant::mount::ENODEV, Errno::ENODEV as i32);
    assert_eq!(verdant::mount::EINVAL, Errno::EINVAL as i32);
}
