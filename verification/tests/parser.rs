use verdant::errors::BloomError;
use verdant::parser::{parse_quoted_args, parse_service_file};
use verdant::service::RestartPolicy;

const SSHD: &str = "name: sshd\ncmd: /usr/sbin/sshd\nargs: -D\nrestart: on-failure\nrestart-delay: 2\nstartup-package: network\ndependencies:\n  - network\npriority: 30\nenv:\n  - PATH=/usr/sbin:/usr/bin\n";

const GETTY: &str = "name: getty@{}\ncmd: /sbin/agetty\nargs: -L {} 115200\nrestart: always\ninstances:\n  - tty1\n  - tty2\n";

fn strs(v: &[&str]) -> Vec<String> {
    v.iter().map(|s| s.to_string()).collect()
}

#[test]
fn plain_file_gives_one_descriptor() {
    let out = parse_service_file("sshd.vs", SSHD).unwrap();
    assert_eq!(out.len(), 1);
    let d = &out[0];
    assert_eq!(d.name, "sshd");
    assert_eq!(d.cmd, "/usr/sbin/sshd");
    assert_eq!(d.args, Some(strs(&["-D"])));
    assert_eq!(d.restart, RestartPolicy::OnFailure);
    assert_eq!(d.restart_delay, Some(2));
    assert_eq!(d.startup_package, Some("network".to_string()));
    assert_eq!(d.dependencies, Some(strs(&["network"])));
    assert_eq!(d.priority, Some(30));
    assert_eq!(d.env, Some(strs(&["PATH=/usr/sbin:/usr/bin"])));
}

#[test]
fn defaults_fill_what_the_file_leaves_open() {
    let out = parse_service_file("a.vs", "name: a\ncmd: /bin/a\n").unwrap();
    let d = &out[0];
    assert_eq!(d.restart, RestartPolicy::Never);
    assert_eq!(d.restart_delay, Some(0));
    assert_eq!(d.timeout_start, Some(10));
    assert_eq!(d.timeout_stop, Some(5));
    assert_eq!(d.umask, Some("022".to_string()));
    assert_eq!(d.nice, Some(0));
    assert_eq!(d.priority, Some(50));
    assert_eq!(d.stdout_log, Some("/var/log/a.out.log".to_string()));
    assert_eq!(d.stderr_log, Some("/var/log/a.err.log".to_string()));
    assert_eq!(d.dependencies, None);
}

#[test]
fn template_expands_each_instance() {
    let out = parse_service_file("getty@.vs", GETTY).unwrap();
    assert_eq!(out.len(), 2);
    assert_eq!(out[0].name, "getty@tty1");
    assert_eq!(out[1].name, "getty@tty2");
    assert_eq!(out[0].cmd, "/sbin/agetty");
    assert_eq!(out[0].args, Some(strs(&["-L", "tty1", "115200"])));
    assert_eq!(out[1].args, Some(strs(&["-L", "tty2", "115200"])));
    assert_eq!(out[0].restart, RestartPolicy::Always);
    assert_eq!(out[1].stdout_log, Some("/var/log/getty@tty2.out.log".to_string()));
}

#[test]
fn template_without_instances_gives_nothing() {
    let out = parse_service_file("getty@.vs", "name: getty@{}\ncmd: /sbin/agetty\n").unwrap();
    assert!(out.is_empty());
}

#[test]
fn template_names_end_with_the_instance() {
    let text = "name: worker\ncmd: /bin/worker --id {}\ninstances:\n  - A\n  - B\n";
    let out = parse_service_file("worker@.vs", text).unwrap();
    assert_eq!(out.len(), 2);
    assert!(out[0].name.ends_with("@A"));
    assert!(out[1].name.ends_with("@B"));
    assert_eq!(out[0].name, "worker@A");
    assert_eq!(out[0].cmd, "/bin/worker --id A");
}

#[test]
fn missing_name_is_config_invalid() {
    match parse_service_file("a.vs", "cmd: /bin/a\n") {
        Err(BloomError::ConfigInvalid(m)) => assert_eq!(m, "Missing name"),
        other => panic!("unexpected: {:?}", other),
    }
}

#[test]
fn missing_cmd_is_config_invalid() {
    match parse_service_file("a.vs", "name: a\n") {
        Err(BloomError::ConfigInvalid(m)) => assert_eq!(m, "Missing cmd"),
        other => panic!("unexpected: {:?}", other),
    }
}

#[test]
fn unknown_key_is_a_parse_error() {
    match parse_service_file("a.vs", "name: a\ncmd: b\ncolour: red\n") {
        Err(BloomError::Parse(m)) => assert_eq!(m, "Unknown key: colour"),
        other => panic!("unexpected: {:?}", other),
    }
}

#[test]
fn bad_number_is_a_parse_error() {
    match parse_service_file("a.vs", "name: a\ncmd: b\ntimeout-stop: soon\n") {
        Err(BloomError::Parse(m)) => assert_eq!(m, "Invalid number: soon"),
        other => panic!("unexpected: {:?}", other),
    }
}

#[test]
fn priority_out_of_range_is_config_invalid() {
    match parse_service_file("a.vs", "name: a\ncmd: b\npriority: 101\n") {
        Err(BloomError::ConfigInvalid(m)) => assert_eq!(m, "Priority out of range: 101"),
        other => panic!("unexpected: {:?}", other),
    }
    match parse_service_file("a.vs", "name: a\ncmd: b\npriority: -1\n") {
        Err(BloomError::ConfigInvalid(_)) => {}
        other => panic!("unexpected: {:?}", other),
    }
    assert_eq!(
        parse_service_file("a.vs", "name: a\ncmd: b\npriority: 100\n").unwrap()[0].priority,
        Some(100)
    );
}

#[test]
fn item_without_list_is_a_parse_error() {
    match parse_service_file("a.vs", "name: a\n  - stray\ncmd: b\n") {
        Err(BloomError::Parse(m)) => assert_eq!(m, "List item without a list: - stray"),
        other => panic!("unexpected: {:?}", other),
    }
}

#[test]
fn comments_and_blank_lines_say_nothing() {
    let text = "# a service\n\nname: a\n   \ncmd: /bin/a\n# end\n";
    let out = parse_service_file("a.vs", text).unwrap();
    assert_eq!(out[0].name, "a");
    assert_eq!(out[0].cmd, "/bin/a");
}

#[test]
fn list_items_take_tabs_and_inline_values() {
    let text = "name: a\ncmd: b\ntags: x, y ,\n\t- z\n\tw\ndependencies:\n";
    let out = parse_service_file("a.vs", text).unwrap();
    assert_eq!(out[0].tags, Some(strs(&["x", "y", "z", "w"])));
    assert_eq!(out[0].dependencies, Some(Vec::new()));
}

#[test]
fn keys_take_underscores_and_old_names() {
    let text = "name: a\ncmd: b\nstop_cmd: kill $MAINPID\nworking-dir: /tmp\nstdout: /tmp/o\nstartup: base\nrestart: ALWAYS\n";
    let d = &parse_service_file("a.vs", text).unwrap()[0];
    assert_eq!(d.stop_cmd, Some("kill $MAINPID".to_string()));
    assert_eq!(d.working_dir, Some("/tmp".to_string()));
    assert_eq!(d.stdout_log, Some("/tmp/o".to_string()));
    assert_eq!(d.startup_package, Some("base".to_string()));
    assert_eq!(d.restart, RestartPolicy::Always);
}

#[test]
fn unknown_restart_word_leaves_the_policy() {
    let d = &parse_service_file("a.vs", "name: a\ncmd: b\nrestart: sometimes\n").unwrap()[0];
    assert_eq!(d.restart, RestartPolicy::Never);
}

#[test]
fn quoted_args_keep_spaces() {
    assert_eq!(parse_quoted_args("-a  \"b c\" 'd e' f"), strs(&["-a", "b c", "d e", "f"]));
    assert_eq!(parse_quoted_args(""), Vec::<String>::new());
    assert_eq!(parse_quoted_args("\"\""), strs(&[""]));
    assert_eq!(parse_quoted_args("it's \"x\""), strs(&["its \"x\""]));
    assert_eq!(parse_quoted_args("a\tb"), strs(&["a", "b"]));
}

#[test]
fn template_must_state_name_and_cmd() {
    match parse_service_file("worker@.vs", "cmd: /bin/worker\ninstances:\n  - A\n") {
        Err(BloomError::ConfigInvalid(m)) => assert_eq!(m, "Missing name"),
        other => panic!("unexpected: {:?}", other),
    }
    match parse_service_file("worker@.vs", "name: worker@{}\n") {
        Err(BloomError::ConfigInvalid(m)) => assert_eq!(m, "Missing cmd"),
        other => panic!("unexpected: {:?}", other),
    }
}

#[test]
fn template_may_hold_the_instance_where_a_number_is_read() {
    let text = "name: w\ncmd: c\npriority: {}\nrestart-delay: 1{}\ninstances:\n  - 7\n  - 30\n";
    let out = parse_service_file("worker@.vs", text).unwrap();
    assert_eq!(out.len(), 2);
    assert_eq!((out[0].name.as_str(), out[0].priority, out[0].restart_delay), ("worker@7", Some(7), Some(17)));
    assert_eq!((out[1].name.as_str(), out[1].priority, out[1].restart_delay), ("worker@30", Some(30), Some(130)));
    let text = "name: w\ncmd: c\npriority: {}\ninstances:\n  - 7\n  - x\n";
    match parse_service_file("worker@.vs", text) {
        Err(BloomError::Parse(m)) => assert_eq!(m, "Invalid number: x"),
        other => panic!("unexpected: {:?}", other),
    }
    let text = "name: w\ncmd: c\npriority: {}\ninstances:\n  - 101\n";
    assert!(matches!(parse_service_file("worker@.vs", text), Err(BloomError::ConfigInvalid(_))));
    match parse_service_file("plain.vs", "name: w\ncmd: c\npriority: {}\n") {
        Err(BloomError::Parse(m)) => assert_eq!(m, "Invalid number: {}"),
        other => panic!("unexpected: {:?}", other),
    }
    match parse_service_file("worker@.vs", "name: w\ncmd: c\nbogus: {}\ninstances:\n  - 1\n") {
        Err(BloomError::Parse(m)) => assert_eq!(m, "Unknown key: bogus"),
        other => panic!("unexpected: {:?}", other),
    }
}
