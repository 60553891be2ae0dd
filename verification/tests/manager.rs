use verdant::errors::BloomError;
use verdant::manager::Manager;
use verdant::service::StartupPackage;
use verdant::service_file::ServiceFile;
use verdant::status::ServiceState;
use verdant::supervisor::{ChildStatus, Mode, SupervisorAction, SupervisorEvent};

fn svc(name: &str, package: Option<&str>) -> ServiceFile {
    let mut s = ServiceFile::new(name.to_string(), format!("/bin/{}", name));
    s.startup_package = package.map(|p| p.to_string());
    s
}

fn three() -> Manager {
    let mut m = Manager::new();
    m.register(svc("base", Some("base"))).unwrap();
    m.register(svc("tool", None)).unwrap();
    m.register(svc("net", Some("network"))).unwrap();
    m
}

#[test]
fn register_refuses_a_taken_name() {
    let mut m = Manager::new();
    assert!(m.register(svc("a", None)).is_ok());
    match m.register(svc("a", Some("base"))) {
        Err(BloomError::AlreadyRegistered(n)) => assert_eq!(n, "a"),
        other => panic!("unexpected: {:?}", other),
    }
    assert_eq!(m.supervisors.len(), 1);
    assert_eq!(m.workers, vec![false]);
    assert!(m.register(svc("b", None)).is_ok());
    assert_eq!(m.find("b"), Some(1));
    assert_eq!(m.find("c"), None);
}

#[test]
fn startup_services_start_in_load_order() {
    let mut m = three();
    assert_eq!(m.start_startup_services(), vec![0, 2]);
    assert_eq!(m.workers, vec![true, false, true]);
    assert_eq!(m.start_startup_services(), Vec::<usize>::new());
}

#[test]
fn supervise_all_is_idempotent() {
    let mut m = three();
    m.start_startup_services();
    assert_eq!(m.supervise_all(), vec![1]);
    assert_eq!(m.workers, vec![true, true, true]);
    assert_eq!(m.supervise_all(), Vec::<usize>::new());
    assert_eq!(m.workers, vec![true, true, true]);
}

#[test]
fn start_and_stop_target_one_service() {
    let mut m = three();
    assert_eq!(m.start("tool").unwrap(), 1);
    match m.start("tool") {
        Err(BloomError::LaunchFailed(msg)) => assert_eq!(msg, "Service 'tool' already running"),
        other => panic!("unexpected: {:?}", other),
    }
    assert_eq!(m.workers, vec![false, true, false]);
    assert_eq!(m.stop("tool").unwrap(), true);
    assert_eq!(m.stopping, vec![false, true, false]);
    assert!(m.asked_to_stop(1));
    assert!(!m.asked_to_stop(0));
    assert_eq!(m.stop("tool").unwrap(), false);
    assert!(matches!(m.start("tool"), Err(BloomError::LaunchFailed(_))));
    m.worker_ended(1);
    assert_eq!(m.workers, vec![false, false, false]);
    assert_eq!(m.stopping, vec![false, false, false]);
    assert_eq!(m.stop("base").unwrap(), false);
    assert_eq!(m.stopping, vec![false, false, false]);
    assert_eq!(m.start("tool").unwrap(), 1);
    match m.start("ghost") {
        Err(BloomError::NotFound(n)) => assert_eq!(n, "ghost"),
        other => panic!("unexpected: {:?}", other),
    }
    assert!(matches!(m.stop("ghost"), Err(BloomError::NotFound(_))));
    assert!(matches!(m.state_of("ghost"), Err(BloomError::NotFound(_))));
    assert_eq!(m.state_of("tool").unwrap(), ServiceState::Stopped);
}

#[test]
fn shutdown_twice_is_a_no_op() {
    let mut m = three();
    m.supervise_all();
    assert_eq!(m.shutdown(), vec![0, 1, 2]);
    assert!(m.shutting_down);
    assert_eq!(m.workers, vec![true, true, true]);
    assert!(m.asked_to_stop(0) && m.asked_to_stop(1) && m.asked_to_stop(2));
    assert_eq!(m.shutdown(), Vec::<usize>::new());
    assert!(m.shutting_down);
    assert_eq!(m.workers, vec![true, true, true]);
    assert_eq!(m.supervisors.len(), 3);
    for i in 0..3 {
        m.worker_ended(i);
    }
    assert_eq!(m.workers, vec![false, false, false]);
    assert_eq!(m.shutdown(), Vec::<usize>::new());
}

#[test]
fn nothing_starts_after_shutdown() {
    let mut m = three();
    m.shutdown();
    assert!(m.start_startup_services().is_empty());
    assert!(m.supervise_all().is_empty());
    assert!(matches!(m.start("tool"), Err(BloomError::Cancelled)));
    assert_eq!(m.workers, vec![false, false, false]);
}

#[test]
fn steps_reach_the_supervisor_in_place() {
    let mut m = three();
    let tick = SupervisorEvent::Tick { shutdown: false, tty_busy: false, child: ChildStatus::Running };
    assert_eq!(m.step(1, tick), SupervisorAction::Launch);
    assert_eq!(m.step(1, SupervisorEvent::Launched { pid: 9, at: 3 }), SupervisorAction::Poll);
    assert_eq!(m.state_of("tool").unwrap(), ServiceState::Running);
    assert_eq!(m.state_of("base").unwrap(), ServiceState::Stopped);
    assert_eq!(m.supervisors[1].child, Some(9));
    assert_eq!(m.supervisors[0].service.name, "base");
    assert_eq!(m.supervisors[2].service.name, "net");
}

#[test]
fn ordered_startup_brings_all_three_up() {
    let mut m = Manager::new();
    for name in ["base", "network", "app"] {
        m.register(svc(name, Some("base"))).unwrap();
    }
    let tick = SupervisorEvent::Tick { shutdown: false, tty_busy: false, child: ChildStatus::Running };
    let order = m.start_startup_services();
    assert_eq!(order, vec![0, 1, 2]);
    for (n, i) in order.into_iter().enumerate() {
        assert_eq!(m.step(i, tick), SupervisorAction::Launch);
        assert_eq!(m.supervisors[i].state, ServiceState::Starting);
        m.step(i, SupervisorEvent::Launched { pid: 100 + n as u32, at: 0 });
    }
    let shown = m.status();
    assert_eq!(shown.len(), 3);
    assert!(shown.iter().all(|s| s.state == ServiceState::Running));
    assert_eq!(shown[1].name, "network");
    assert_eq!(shown[1].startup, StartupPackage::Base);
}

#[test]
fn a_finished_service_can_be_started_again() {
    let mut m = three();
    let tick = SupervisorEvent::Tick { shutdown: false, tty_busy: false, child: ChildStatus::Running };
    assert_eq!(m.start("tool").unwrap(), 1);
    m.step(1, tick);
    m.step(1, SupervisorEvent::Launched { pid: 9, at: 0 });
    let gone = SupervisorEvent::Tick { shutdown: false, tty_busy: false, child: ChildStatus::Exited(3) };
    assert_eq!(m.step(1, gone), SupervisorAction::Exit { launch_failed: false });
    assert_eq!(m.supervisors[1].mode, Mode::Finished);
    assert!(matches!(m.start("tool"), Err(BloomError::LaunchFailed(_))));
    m.worker_ended(1);
    assert!(m.supervise_all().iter().all(|i| *i != 1));
    m.worker_ended(0);
    m.worker_ended(2);
    assert_eq!(m.start("tool").unwrap(), 1);
    assert_eq!(m.supervisors[1].mode, Mode::Idle);
    assert_eq!(m.supervisors[1].last_exit_code, Some(3));
    assert_eq!(m.state_of("tool").unwrap(), ServiceState::Failed);
    assert_eq!(m.step(1, tick), SupervisorAction::Launch);
}

#[test]
fn start_is_refused_while_a_process_exists() {
    let mut m = three();
    let tick = SupervisorEvent::Tick { shutdown: false, tty_busy: false, child: ChildStatus::Running };
    m.step(1, tick);
    m.step(1, SupervisorEvent::Launched { pid: 9, at: 0 });
    assert_eq!(m.workers, vec![false, false, false]);
    match m.start("tool") {
        Err(BloomError::LaunchFailed(msg)) => assert_eq!(msg, "Service 'tool' already running"),
        other => panic!("unexpected: {:?}", other),
    }
    assert_eq!(m.workers, vec![false, false, false]);
}

#[test]
fn validity_is_tested() {
    let mut m = three();
    assert!(m.is_well_formed());
    m.supervise_all();
    m.stop("tool").unwrap();
    assert!(m.is_well_formed());
    let mut short = three();
    short.workers.pop();
    assert!(!short.is_well_formed());
    let mut asked = three();
    asked.stopping[0] = true;
    assert!(!asked.is_well_formed());
    asked.workers[0] = true;
    assert!(asked.is_well_formed());
    let mut twice = three();
    twice.supervisors[2].service.name = "base".to_string();
    assert!(!twice.is_well_formed());
    let mut lost = three();
    lost.supervisors[1].child = Some(4);
    assert!(!lost.supervisors[1].is_consistent());
    assert!(!lost.is_well_formed());
    let mut odd = three();
    odd.supervisors[0].state = ServiceState::Running;
    assert!(!odd.is_well_formed());
    assert!(Manager::new().is_well_formed());
}
