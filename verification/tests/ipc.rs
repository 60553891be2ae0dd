use verdant::config::{Config, InitConfig, VerdantdConfig};
use verdant::errors::BloomError;
use verdant::ipc::{
    exit_code, forward_to_init, frame, handle_init_request, handle_request, unframe, FollowUp,
    IpcCommand, IpcInternal, IpcRequest, IpcResponse, IpcTarget, INIT_SOCKET_PATH,
    VERDANTD_SOCKET_PATH,
};
use verdant::service::{RestartPolicy, Service, StartupPackage};
use verdant::service_file::ServiceFile;
use verdant::status::{Command, ServiceState, Status};

fn to(target: IpcTarget, command: IpcCommand) -> Option<IpcRequest> {
    Some(IpcRequest { target, command })
}

#[test]
fn shutdown_is_answered_before_it_begins() {
    let h = handle_request(to(IpcTarget::Verdantd, IpcCommand::Shutdown));
    assert!(h.response.success);
    assert_eq!(h.response.message, "Shutdown initiated");
    assert_eq!(h.response.data, None);
    assert_eq!(h.follow_up, FollowUp::Shutdown);
    let h = handle_request(to(IpcTarget::Verdantd, IpcCommand::Reboot));
    assert!(h.response.success);
    assert_eq!(h.response.message, "Reboot initiated");
    assert_eq!(h.follow_up, FollowUp::Reboot);
}

#[test]
fn wrong_target_is_refused() {
    let h = handle_request(to(IpcTarget::Init, IpcCommand::Shutdown));
    assert!(!h.response.success);
    assert_eq!(h.response.message, "Incorrect target");
    assert_eq!(h.follow_up, FollowUp::Nothing);
}

#[test]
fn other_commands_are_unsupported() {
    let commands = vec![
        IpcCommand::StartService("a".into()),
        IpcCommand::StopService("a".into()),
        IpcCommand::RestartService("a".into()),
        IpcCommand::EnableService("a".into()),
        IpcCommand::DisableService("a".into()),
        IpcCommand::GetStatus,
        IpcCommand::GetServiceStatus("a".into()),
        IpcCommand::Internal(IpcInternal::PreShutdown),
        IpcCommand::Internal(IpcInternal::ReloadConfig),
        IpcCommand::BootComplete,
    ];
    for c in commands {
        let h = handle_request(to(IpcTarget::Verdantd, c));
        assert!(!h.response.success);
        assert_eq!(h.response.message, "Unsupported command");
        assert_eq!(h.follow_up, FollowUp::Nothing);
    }
}

#[test]
fn unreadable_request_is_invalid() {
    let h = handle_request(None);
    assert!(!h.response.success);
    assert_eq!(h.response.message, "Invalid IPC request");
    let h = handle_init_request(None);
    assert!(!h.response.success);
    assert_eq!(h.response.message, "Invalid IPC request");
}

#[test]
fn first_stage_takes_shutdown_reboot_and_boot_complete() {
    let h = handle_init_request(to(IpcTarget::Init, IpcCommand::Shutdown));
    assert_eq!((h.response.success, h.response.message.as_str()), (true, "Shutdown scheduled"));
    assert_eq!(h.follow_up, FollowUp::Shutdown);
    let h = handle_init_request(to(IpcTarget::Init, IpcCommand::Reboot));
    assert_eq!((h.response.success, h.response.message.as_str()), (true, "Reboot scheduled"));
    assert_eq!(h.follow_up, FollowUp::Reboot);
    let h = handle_init_request(to(IpcTarget::Init, IpcCommand::BootComplete));
    assert_eq!(h.response.message, "Boot complete acknowledged");
    assert_eq!(h.follow_up, FollowUp::BootComplete);
    let h = handle_init_request(to(IpcTarget::Init, IpcCommand::GetStatus));
    assert_eq!((h.response.success, h.response.message.as_str()), (false, "Unsupported command for init"));
}

#[test]
fn shutdown_is_forwarded_to_the_first_stage() {
    let r = forward_to_init(FollowUp::Shutdown).unwrap();
    assert_eq!(r.target, IpcTarget::Init);
    assert!(matches!(r.command, IpcCommand::Shutdown));
    let r = forward_to_init(FollowUp::Reboot).unwrap();
    assert!(matches!(r.command, IpcCommand::Reboot));
    assert!(forward_to_init(FollowUp::Nothing).is_none());
    assert!(forward_to_init(FollowUp::BootComplete).is_none());
}

#[test]
fn frames_end_with_one_line_feed() {
    let doc = b"{\"target\":\"Verdantd\",\"command\":\"Shutdown\"}".to_vec();
    let framed = frame(&doc);
    assert_eq!(framed.len(), doc.len() + 1);
    assert_eq!(*framed.last().unwrap(), b'\n');
    assert_eq!(unframe(&framed), doc);
    assert_eq!(unframe(&b"abc\ndef\n".to_vec()), b"abc".to_vec());
    assert_eq!(unframe(&b"no end".to_vec()), b"no end".to_vec());
    assert_eq!(unframe(&Vec::new()), Vec::<u8>::new());
    assert_eq!(frame(&Vec::new()), vec![b'\n']);
}

#[test]
fn control_tool_exit_code() {
    let ok = IpcResponse { success: true, message: "Shutdown initiated".into(), data: None };
    let no = IpcResponse { success: false, message: "Unsupported command".into(), data: None };
    assert_eq!(exit_code(&ok), 0);
    assert_eq!(exit_code(&no), 1);
}

#[test]
fn socket_paths() {
    assert_eq!(INIT_SOCKET_PATH, "/run/verdant/init.sock");
    assert_eq!(VERDANTD_SOCKET_PATH, "/run/verdant/verdantd.sock");
}

#[test]
fn service_directory_defaults() {
    let plain = Config { init: InitConfig { tty_sessions: vec!["tty1".into()] }, verdantd: None };
    assert_eq!(plain.service_dir(), "/etc/verdant/services");
    let set = Config {
        init: InitConfig { tty_sessions: Vec::new() },
        verdantd: Some(VerdantdConfig { service_dir: "/srv/services".into() }),
    };
    assert_eq!(set.service_dir(), "/srv/services");
}

#[test]
fn words_name_packages_and_policies() {
    assert_eq!(StartupPackage::from_str("base"), Some(StartupPackage::Base));
    assert_eq!(StartupPackage::from_str("NETWORK"), Some(StartupPackage::Network));
    assert_eq!(StartupPackage::from_str("System"), Some(StartupPackage::System));
    assert_eq!(StartupPackage::from_str("user"), Some(StartupPackage::User));
    assert_eq!(StartupPackage::from_str("cUsToM"), Some(StartupPackage::Custom));
    assert_eq!(StartupPackage::from_str("networ\u{212a}"), Some(StartupPackage::Network));
    assert_eq!(StartupPackage::from_str("boot"), None);
    assert_eq!(StartupPackage::from_str(""), None);
    assert_eq!(StartupPackage::from_lower("BASE"), None);
    assert_eq!(StartupPackage::from_lower("base"), Some(StartupPackage::Base));
    for p in [
        StartupPackage::Base,
        StartupPackage::Network,
        StartupPackage::System,
        StartupPackage::User,
        StartupPackage::Custom,
    ] {
        assert_eq!(StartupPackage::from_str(p.as_str()), Some(p));
    }
    assert_eq!(StartupPackage::Network.as_str(), "network");
    assert_eq!(RestartPolicy::from_str("never"), Some(RestartPolicy::Never));
    assert_eq!(RestartPolicy::from_str("Always"), Some(RestartPolicy::Always));
    assert_eq!(RestartPolicy::from_str("ON-FAILURE"), Some(RestartPolicy::OnFailure));
    assert_eq!(RestartPolicy::from_str("on_failure"), None);
    assert_eq!(RestartPolicy::from_lower("Always"), None);
    assert_eq!(RestartPolicy::default(), RestartPolicy::Never);
}

#[test]
fn restart_policies_decide_by_exit_code() {
    assert!(!RestartPolicy::Never.should_restart(0));
    assert!(!RestartPolicy::Never.should_restart(1));
    assert!(RestartPolicy::Always.should_restart(0));
    assert!(RestartPolicy::Always.should_restart(-1));
    assert!(!RestartPolicy::OnFailure.should_restart(0));
    assert!(RestartPolicy::OnFailure.should_restart(2));
}

#[test]
fn new_descriptor_is_bare() {
    let s = ServiceFile::new("a".to_string(), "/bin/a".to_string());
    assert_eq!(s.name, "a");
    assert_eq!(s.cmd, "/bin/a");
    assert_eq!(s.restart, RestartPolicy::Never);
    assert!(s.desc.is_none() && s.args.is_none() && s.env.is_none() && s.tags.is_none());
    assert!(s.restart_delay.is_none() && s.timeout_start.is_none() && s.timeout_stop.is_none());
    assert!(s.priority.is_none() && s.nice.is_none() && s.umask.is_none());
    assert!(s.dependencies.is_none() && s.instances.is_none() && s.startup_package.is_none());
    assert_eq!(s.rank(), 50);
    assert_eq!(s.stop_seconds(), 5);
    assert_eq!(s.delay_seconds(), 0);
    assert!(!s.starts_at_boot());
    let copy = s.duplicate();
    assert_eq!(copy.name, "a");
    assert_eq!(copy.cmd, "/bin/a");
}

#[test]
fn shown_service_fills_what_is_open() {
    let mut f = ServiceFile::new("a".to_string(), "/bin/a".to_string());
    f.startup_package = Some("Network".to_string());
    f.tags = Some(vec!["x".to_string()]);
    f.stdout_log = Some("/tmp/o".to_string());
    let s = Service::of(&f, ServiceState::Running);
    assert_eq!(s.name, "a");
    assert_eq!(s.desc, "");
    assert!(s.args.is_empty());
    assert_eq!(s.startup, StartupPackage::Network);
    assert_eq!(s.tags, vec!["x".to_string()]);
    assert_eq!(s.state, ServiceState::Running);
    assert_eq!(s.stdout, Some("/tmp/o".to_string()));
    assert_eq!(s.stderr, None);
    f.startup_package = Some("whatever".to_string());
    assert_eq!(Service::of(&f, ServiceState::Stopped).startup, StartupPackage::Custom);
}

#[test]
fn errors_describe_themselves() {
    assert_eq!(BloomError::Io("disk".into()).message(), "IO error: disk");
    assert_eq!(BloomError::Parse("bad".into()).message(), "Parse error: bad");
    assert_eq!(BloomError::ConfigInvalid("Missing cmd".into()).message(), "Invalid configuration: Missing cmd");
    assert_eq!(
        BloomError::DependencyCycle(vec!["A".into(), "B".into()]).message(),
        "Dependency cycle among: A, B"
    );
    assert_eq!(BloomError::DependencyCycle(Vec::new()).message(), "Dependency cycle among: ");
    assert_eq!(
        BloomError::UnknownDependency("net".into(), "app".into()).message(),
        "Unknown dependency 'net' for service 'app'"
    );
    assert_eq!(BloomError::AlreadyRegistered("a".into()).message(), "Already registered: a");
    assert_eq!(BloomError::NotFound("a".into()).message(), "Not found: a");
    assert_eq!(BloomError::ServiceFailed("a".into()).message(), "Service failed: a");
    assert_eq!(BloomError::LaunchFailed("x".into()).message(), "Launch failed: x");
    assert_eq!(BloomError::StopFailed("x".into()).message(), "Stop failed: x");
    assert_eq!(BloomError::Cancelled.message(), "Cancelled");
}

#[test]
fn plain_enumerations_compare() {
    assert_eq!(Status::Okay, Status::Okay);
    assert_ne!(Status::Error, Status::NotFound);
    assert_ne!(Command::Start, Command::Stop);
    assert_eq!(ServiceState::Running, ServiceState::Running);
}
