use verdant::device_manager::{
    cmdline_mentions, detect_device_manager, device_event_text, device_manager_arg, DeviceEvent,
};
use verdant::errors::BloomError;
use verdant::hardware_drivers::{alias_of, drivers_report};
use verdant::kernel::{
    collect_modules, load_sysctl_file, modules_report, modules_verdict, parse_sysctl_line,
    sysctl_path, sysctl_step, sysctl_verdict, unique_names, Setting, SysctlStep,
};
use verdant::mount::{
    fstab_action, health_check_target, is_root_readonly, mount_data_for, mount_error_is_ignored,
    mount_failure_level, mount_point_of, option_set, parse_fstab_line, resolve_source,
    skips_mount, split_mount_options, FstabAction, FstabLine, SourceKind,
};
use verdant::network::is_skipped_interface;
use verdant::shutdown::{console_tty, skip_on_shutdown};
use verdant::signal::{init_next, signal_action, signal_note, InitAction, InitFlags, SignalAction, SignalKind};
use verdant::status::LogLevel;
use verdant::tty::{
    detect_getty, find_getty_binary, getty_args, is_getty_comm, is_tty_in_use, tty_device, FdHolder,
};
use verdant::unmount::{unmount_order, unmount_targets};
use verdant::utils::{clean_hostname, seed_is_usable, timezone_of};

fn strs(v: &[&str]) -> Vec<String> {
    v.iter().map(|s| s.to_string()).collect()
}

const FSTAB: &str = "# <fs> <mount> <type> <opts>\nUUID=abcd / ext4 rw 0 1\n/dev/sda2 /home ext4 defaults,noatime 0 2\n/dev/sda3 /home/user/data ext4 ro\ntmpfs /tmp tmpfs mode=1777,nosuid\n/dev/cd /mnt/cd iso9660 noauto,ro\nswap none swap sw\nbroken line\n\n/dev/sdb1 relative ext4 rw\n";

#[test]
fn fstab_lines_are_read() {
    assert!(matches!(parse_fstab_line("# comment"), FstabLine::Blank));
    assert!(matches!(parse_fstab_line("   "), FstabLine::Blank));
    assert!(matches!(parse_fstab_line("a b c"), FstabLine::Invalid));
    match parse_fstab_line("  /dev/sda2\t/home ext4   defaults,noatime 0 2") {
        FstabLine::Entry(e) => {
            assert_eq!(e.source, "/dev/sda2");
            assert_eq!(e.target, "/home");
            assert_eq!(e.fstype, "ext4");
            assert_eq!(e.options, "defaults,noatime");
            assert_eq!(fstab_action(&e), FstabAction::Mount);
        }
        other => panic!("unexpected: {:?}", other),
    }
}

fn action_of(line: &str) -> FstabAction {
    match parse_fstab_line(line) {
        FstabLine::Entry(e) => fstab_action(&e),
        other => panic!("unexpected: {:?}", other),
    }
}

#[test]
fn fstab_entries_are_mounted_or_skipped() {
    assert_eq!(action_of("UUID=abcd / ext4 rw"), FstabAction::SkipRoot);
    assert_eq!(action_of("swap none swap sw"), FstabAction::SkipTarget);
    assert_eq!(action_of("/dev/sdb1 relative ext4 rw"), FstabAction::SkipTarget);
    assert_eq!(action_of("/dev/cd /mnt/cd iso9660 noauto,ro"), FstabAction::SkipNoAuto);
    assert_eq!(action_of("/dev/cd /mnt/cd iso9660 ro,noautox"), FstabAction::Mount);
    assert!(option_set("a,b,c", "b"));
    assert!(!option_set("a,bc", "b"));
    assert!(option_set("", ""));
}

#[test]
fn mount_options_part_into_flags_and_data() {
    let (flags, data) = split_mount_options("ro,noexec,mode=755,nosuid,uid=0");
    assert!(flags.read_only && flags.no_exec && flags.no_suid);
    assert!(!flags.no_dev && !flags.relatime && !flags.no_diratime && !flags.synchronous);
    assert_eq!(data, Some("mode=755,uid=0".to_string()));
    let (flags, data) = split_mount_options("ro,rw,nodev,relatime,nodiratime,sync");
    assert!(!flags.read_only);
    assert!(flags.no_dev && flags.relatime && flags.no_diratime && flags.synchronous);
    assert_eq!(data, None);
    let (_, data) = split_mount_options("");
    assert_eq!(data, Some(String::new()));
    let (_, data) = split_mount_options("defaults");
    assert_eq!(data, Some("defaults".to_string()));
}

#[test]
fn sources_are_told_apart() {
    assert!(matches!(resolve_source("tmpfs"), SourceKind::Pseudo));
    assert!(matches!(resolve_source("cgroup2"), SourceKind::Pseudo));
    assert!(matches!(resolve_source("UUID=12-34"), SourceKind::ByUuid(u) if u == "12-34"));
    assert!(matches!(resolve_source("LABEL=root"), SourceKind::ByLabel(l) if l == "root"));
    assert!(matches!(resolve_source("/dev/sda1"), SourceKind::Device));
    assert!(matches!(resolve_source("uuid=x"), SourceKind::Device));
}

#[test]
fn root_read_only_is_read_from_the_mount_table() {
    assert!(is_root_readonly("proc /proc proc rw 0 0\n/dev/root / ext4 ro,relatime 0 0\n"));
    assert!(!is_root_readonly("/dev/root / ext4 rw,relatime 0 0\n/dev/x / ext4 ro 0 0\n"));
    assert!(!is_root_readonly("proc /proc proc ro 0 0\n"));
    assert!(!is_root_readonly(""));
    assert!(!is_root_readonly("/dev/root / ext4\n"));
}

#[test]
fn health_check_passes_over_pseudo_file_systems() {
    assert_eq!(health_check_target("/dev/sda2 /home ext4 defaults"), Some("/home".to_string()));
    assert_eq!(health_check_target("/dev/sda2 /home ext4"), Some("/home".to_string()));
    assert_eq!(health_check_target("tmpfs /tmp tmpfs mode=1777"), None);
    assert_eq!(health_check_target("none /x ext4 rw"), None);
    assert_eq!(health_check_target("/dev/sda2 none ext4 rw"), None);
    assert_eq!(health_check_target("# /dev/sda2 /home ext4"), None);
    assert_eq!(health_check_target("/dev/sda2 /home"), None);
}

#[test]
fn mount_helpers() {
    assert!(skips_mount(&Some("none".to_string()), "/x"));
    assert!(skips_mount(&None, "none"));
    assert!(!skips_mount(&Some("proc".to_string()), "/proc"));
    assert_eq!(
        mount_data_for(&Some("tmpfs".to_string()), &Some("mode=755".to_string())),
        Some("mode=755".to_string())
    );
    assert_eq!(mount_data_for(&Some("ext4".to_string()), &Some("x".to_string())), None);
    assert_eq!(mount_data_for(&None, &Some("x".to_string())), None);
    assert_eq!(mount_data_for(&Some("nfs".to_string()), &None), None);
    assert!(mount_error_is_ignored(19));
    assert!(!mount_error_is_ignored(22));
    assert_eq!(mount_failure_level(22), LogLevel::Warn);
    assert_eq!(mount_failure_level(2), LogLevel::Warn);
    assert_eq!(mount_failure_level(5), LogLevel::Fail);
    assert_eq!(
        mount_point_of("36 35 98:0 /mnt1 /mnt2 rw,noatime master:1 - ext3 /dev/root rw"),
        Some("/mnt2".to_string())
    );
    assert_eq!(mount_point_of("36 35 98:0 /mnt1"), None);
}

#[test]
fn unmounting_goes_deepest_first() {
    let targets = unmount_targets(FSTAB);
    assert_eq!(targets, strs(&["/home", "/home/user/data", "/tmp"]));
    assert_eq!(unmount_order(&targets), strs(&["/home/user/data", "/home", "/tmp"]));
    assert_eq!(
        unmount_order(&strs(&["/a", "/bb", "/c", "/dd", "/eee"])),
        strs(&["/eee", "/bb", "/dd", "/a", "/c"])
    );
    assert!(unmount_order(&Vec::new()).is_empty());
}

#[test]
fn module_lists_are_read_and_made_unique() {
    let mods = collect_modules("# modules\nloop\n\n  e1000 \nloop\n#x\nahci");
    assert_eq!(mods, strs(&["loop", "e1000", "loop", "ahci"]));
    assert_eq!(unique_names(&mods), strs(&["ahci", "e1000", "loop"]));
    assert_eq!(unique_names(&strs(&["b", "a", "B", "ab", "a"])), strs(&["B", "a", "ab", "b"]));
    assert_eq!(modules_report(3, 0), "Kernel modules loaded: 3 successful, 0 failed");
    assert_eq!(modules_report(0, 12), "Kernel modules loaded: 0 successful, 12 failed");
}

#[test]
fn sysctl_lines_set_parameters() {
    let s = parse_sysctl_line(" net.ipv4.ip_forward = 1 ").unwrap();
    assert_eq!((s.key.as_str(), s.value.as_str()), ("net.ipv4.ip_forward", "1"));
    let s = parse_sysctl_line("kernel.printk=3 4 1 3").unwrap();
    assert_eq!((s.key.as_str(), s.value.as_str()), ("kernel.printk", "3 4 1 3"));
    let s = parse_sysctl_line("a=b=c").unwrap();
    assert_eq!((s.key.as_str(), s.value.as_str()), ("a", "b=c"));
    assert!(parse_sysctl_line("# a=b").is_none());
    assert!(parse_sysctl_line("novalue").is_none());
    assert!(parse_sysctl_line("").is_none());
    assert_eq!(sysctl_path("net.ipv4.ip_forward"), "/proc/sys/net/ipv4/ip_forward");
}

#[test]
fn later_sysctl_lines_override_earlier_ones() {
    let mut settings: Vec<Setting> = Vec::new();
    load_sysctl_file("a.b = 1\nc.d = 2\n# note\na.b = 3\n", &mut settings);
    load_sysctl_file("c.d = 4\ne = 5\n", &mut settings);
    let got: Vec<(String, String)> =
        settings.iter().map(|s| (s.key.clone(), s.value.clone())).collect();
    assert_eq!(
        got,
        vec![
            ("a.b".to_string(), "3".to_string()),
            ("c.d".to_string(), "4".to_string()),
            ("e".to_string(), "5".to_string()),
        ]
    );
}

#[test]
fn sysctl_steps_and_verdicts() {
    assert_eq!(sysctl_step(&None, "1"), SysctlStep::Fail);
    assert_eq!(sysctl_step(&Some("1\n".to_string()), "1"), SysctlStep::Skip);
    assert_eq!(sysctl_step(&Some("0\n".to_string()), "1"), SysctlStep::Write);
    assert_eq!(sysctl_verdict(1, 0, 9), (LogLevel::Okay, "Kernel parameters applied"));
    assert_eq!(sysctl_verdict(0, 2, 1), (LogLevel::Info, "All sysctl parameters already set"));
    assert_eq!(sysctl_verdict(0, 1, 1), (LogLevel::Warn, "Some sysctl parameters failed"));
    assert_eq!(sysctl_verdict(0, 0, 0), (LogLevel::Warn, "Some sysctl parameters failed"));
}

#[test]
fn interfaces_left_alone() {
    for name in ["lo", "veth12", "br0", "docker0", "tap1", "tun0", "bridge"] {
        assert!(is_skipped_interface(name), "{}", name);
    }
    for name in ["eth0", "wlan0", "enp3s0", "lo0", ""] {
        assert!(!is_skipped_interface(name), "{}", name);
    }
}

#[test]
fn aliases_are_trimmed_and_bounded() {
    assert_eq!(alias_of("  pci:v00008086d0000  \n"), Some("pci:v00008086d0000".to_string()));
    assert_eq!(alias_of("   "), None);
    assert_eq!(alias_of(&"a".repeat(255)), Some("a".repeat(255)));
    assert_eq!(alias_of(&"a".repeat(256)), None);
    assert_eq!(alias_of(&"\u{e9}".repeat(128)), None);
    assert_eq!(alias_of(&"\u{e9}".repeat(127)), Some("\u{e9}".repeat(127)));
    assert_eq!(drivers_report(4, 1), (LogLevel::Okay, "Loaded 4 hardware modules (1 failed)".to_string()));
    assert_eq!(drivers_report(0, 0).0, LogLevel::Warn);
}

#[test]
fn device_manager_is_found_and_called() {
    assert_eq!(
        detect_device_manager(&strs(&["/bin/mdev", "/sbin/udevd", "/bin/sh"])),
        Some("/sbin/udevd".to_string())
    );
    assert_eq!(detect_device_manager(&strs(&["/usr/bin/mdev"])), Some("/usr/bin/mdev".to_string()));
    assert_eq!(detect_device_manager(&strs(&["/bin/sh"])), None);
    assert_eq!(device_manager_arg("/sbin/mdev"), "-s");
    assert_eq!(device_manager_arg("/sbin/udevd"), "--daemon");
    assert!(cmdline_mentions(&b"/sbin/udevd\0--daemon\0".to_vec(), "udevd"));
    assert!(!cmdline_mentions(&b"/sbin/mdev\0-s\0".to_vec(), "udevd"));
    assert!(!cmdline_mentions(&b"ude".to_vec(), "udevd"));
    assert!(cmdline_mentions(&b"x".to_vec(), ""));
    assert!(cmdline_mentions(&b"xxudevd".to_vec(), "udevd"));
}

#[test]
fn host_name_and_time_zone() {
    assert_eq!(timezone_of("/usr/share/zoneinfo/Europe/Paris"), Some("Europe/Paris".to_string()));
    assert_eq!(timezone_of("/etc/zoneinfo/UTC"), Some("UTC".to_string()));
    assert_eq!(timezone_of("/usr/share/zoneinfo"), None);
    assert_eq!(timezone_of("../usr/share/zoneinfo/UTC"), None);
    assert_eq!(clean_hostname(" verdant\n").unwrap(), "verdant");
    match clean_hostname("bad\0name") {
        Err(BloomError::Parse(m)) => assert_eq!(m, "Hostname contains invalid null byte"),
        other => panic!("unexpected: {:?}", other),
    }
}

#[test]
fn signals_map_to_actions() {
    assert_eq!(signal_action(SignalKind::Child), SignalAction::Reap);
    assert_eq!(signal_action(SignalKind::Terminate), SignalAction::Ignore);
    assert_eq!(signal_action(SignalKind::Interrupt), SignalAction::Ignore);
    assert_eq!(signal_action(SignalKind::Power), SignalAction::Ignore);
    assert_eq!(signal_action(SignalKind::User1), SignalAction::Reboot);
    assert_eq!(signal_action(SignalKind::User2), SignalAction::Shutdown);
    assert_eq!(signal_action(SignalKind::Other), SignalAction::Nothing);
    assert_eq!(signal_note(SignalKind::Interrupt), Some("Ignored SIGINT (Ctrl+C)"));
    assert_eq!(signal_note(SignalKind::User2), Some("Received SIGUSR2 (halt/shutdown request)"));
    assert_eq!(signal_note(SignalKind::Child), None);
}

#[test]
fn first_stage_loop_decides_by_its_flags() {
    let mut f = InitFlags { reboot: false, shutdown: false, boot_complete: false, tty_launched: false };
    assert_eq!(init_next(&mut f), InitAction::Park);
    f.boot_complete = true;
    assert_eq!(init_next(&mut f), InitAction::LaunchTtys);
    assert!(f.tty_launched);
    assert_eq!(init_next(&mut f), InitAction::Park);
    f.shutdown = true;
    assert_eq!(init_next(&mut f), InitAction::Shutdown);
    f.reboot = true;
    assert_eq!(init_next(&mut f), InitAction::Reboot);
}

#[test]
fn getty_is_found_and_called() {
    assert_eq!(
        find_getty_binary(&strs(&["/sbin/mingetty", "/usr/bin/agetty", "/sbin/getty"])),
        Some("/usr/bin/agetty".to_string())
    );
    assert_eq!(find_getty_binary(&strs(&["/sbin/mingetty"])), Some("/sbin/mingetty".to_string()));
    assert_eq!(find_getty_binary(&strs(&["/bin/login"])), None);
    assert_eq!(getty_args("/sbin/agetty", "tty1"), strs(&["-L", "tty1", "115200"]));
    assert_eq!(getty_args("/sbin/getty", "tty2"), strs(&["-L", "tty2", "115200"]));
    assert_eq!(getty_args("/sbin/mingetty", "tty3"), strs(&["tty3"]));
    assert_eq!(tty_device("tty4"), "/dev/tty4");
}

#[test]
fn terminal_use_is_seen_from_open_files() {
    let holder = |target: &str, comm: &str| FdHolder { target: target.to_string(), comm: comm.to_string() };
    let gettys = vec![holder("/dev/tty1", "agetty\n"), holder("/dev/tty1", "getty\n")];
    assert!(!is_tty_in_use("tty1", &gettys));
    let login = vec![holder("/dev/tty1", "agetty\n"), holder("/dev/tty1", "bash\n")];
    assert!(is_tty_in_use("tty1", &login));
    assert!(!is_tty_in_use("tty2", &login));
    assert!(!is_tty_in_use("tty1", &Vec::new()));
    assert!(is_getty_comm("getty"));
    assert!(is_getty_comm(" agetty \n"));
    assert!(!is_getty_comm("mingetty"));
    assert!(!is_getty_comm("login"));
}

#[test]
fn console_getty_is_left_running_at_shutdown() {
    assert_eq!(console_tty("root=/dev/sda1 console=ttyS0 quiet console=tty0"), Some("ttyS0".to_string()));
    assert_eq!(console_tty("root=/dev/sda1 quiet"), None);
    assert_eq!(console_tty("console="), Some(String::new()));
    let console = Some("tty1".to_string());
    assert!(skip_on_shutdown("getty@tty1", &console));
    assert!(skip_on_shutdown("tty@tty1", &console));
    assert!(!skip_on_shutdown("getty@tty2", &console));
    assert!(!skip_on_shutdown("sshd@tty1", &console));
    assert!(!skip_on_shutdown("getty@tty1", &None));
    assert!(!skip_on_shutdown("getty", &console));
}

#[test]
fn small_rules_of_the_boot() {
    assert!(seed_is_usable(512));
    assert!(seed_is_usable(4096));
    assert!(!seed_is_usable(511));
    assert_eq!(modules_verdict(2), (LogLevel::Info, "Kernel modules loaded"));
    assert_eq!(modules_verdict(0), (LogLevel::Fail, "Failed to load kernel modules"));
    assert_eq!(
        detect_getty(&strs(&["/sbin/mingetty", "/sbin/getty", "/usr/bin/agetty"])),
        Some("/sbin/getty".to_string())
    );
    assert_eq!(detect_getty(&strs(&["/usr/bin/agetty"])), None);
}

#[test]
fn device_events_are_worded() {
    assert_eq!(
        device_event_text(DeviceEvent::Add, &Some("/dev/sdb1".to_string())),
        "udev event: add on device /dev/sdb1"
    );
    assert_eq!(
        device_event_text(DeviceEvent::Remove, &None),
        "udev event: remove on device <no devnode>"
    );
    assert_eq!(device_event_text(DeviceEvent::Change, &None), "udev event: change on device <no devnode>");
    assert_eq!(device_event_text(DeviceEvent::Other, &None), "udev event: unknown on device <no devnode>");
}
