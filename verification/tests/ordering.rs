use verdant::errors::BloomError;
use verdant::ordering::order_services;
use verdant::service_file::ServiceFile;

fn svc(name: &str, priority: i32, deps: &[&str]) -> ServiceFile {
    let mut s = ServiceFile::new(name.to_string(), format!("/bin/{}", name));
    s.priority = Some(priority);
    if !deps.is_empty() {
        s.dependencies = Some(deps.iter().map(|d| d.to_string()).collect());
    }
    s
}

fn names(v: &[ServiceFile]) -> Vec<String> {
    v.iter().map(|s| s.name.clone()).collect()
}

#[test]
fn ordered_startup_follows_dependencies() {
    let input = vec![
        svc("app", 30, &["network"]),
        svc("network", 20, &["base"]),
        svc("base", 10, &[]),
    ];
    let out = order_services(input).unwrap();
    assert_eq!(names(&out), vec!["base", "network", "app"]);
}

#[test]
fn dependency_cycle_names_its_members() {
    let input = vec![svc("A", 50, &["B"]), svc("B", 50, &["A"])];
    match order_services(input) {
        Err(BloomError::DependencyCycle(names)) => {
            assert_eq!(names, vec!["A".to_string(), "B".to_string()]);
        }
        other => panic!("expected a dependency cycle, got {:?}", other),
    }
}

#[test]
fn ties_break_on_priority_then_name() {
    let input = vec![
        svc("zeta", 10, &[]),
        svc("beta", 50, &[]),
        svc("alpha", 50, &[]),
        svc("late", 5, &["beta"]),
    ];
    let out = order_services(input).unwrap();
    assert_eq!(names(&out), vec!["zeta", "alpha", "beta", "late"]);
}

#[test]
fn a_ready_service_of_lower_priority_value_overtakes() {
    let input = vec![
        svc("a", 50, &[]),
        svc("b", 60, &[]),
        svc("c", 1, &["a"]),
    ];
    let out = order_services(input).unwrap();
    assert_eq!(names(&out), vec!["a", "c", "b"]);
}

#[test]
fn missing_priority_counts_as_fifty() {
    let mut plain = ServiceFile::new("m".to_string(), "/bin/m".to_string());
    plain.priority = None;
    let input = vec![svc("n", 50, &[]), plain, svc("k", 51, &[]), svc("j", 49, &[])];
    let out = order_services(input).unwrap();
    assert_eq!(names(&out), vec!["j", "m", "n", "k"]);
}

#[test]
fn unknown_dependency_is_reported() {
    let input = vec![svc("a", 50, &[]), svc("b", 50, &["a", "ghost"])];
    match order_services(input) {
        Err(BloomError::UnknownDependency(dep, svc)) => {
            assert_eq!(dep, "ghost");
            assert_eq!(svc, "b");
        }
        other => panic!("unexpected: {:?}", other),
    }
}

#[test]
fn an_unknown_name_is_reported_before_a_cycle() {
    let input = vec![svc("a", 50, &["b", "ghost"]), svc("b", 50, &["a"]), svc("c", 50, &[])];
    match order_services(input) {
        Err(BloomError::UnknownDependency(dep, svc)) => {
            assert_eq!(dep, "ghost");
            assert_eq!(svc, "a");
        }
        other => panic!("unexpected: {:?}", other),
    }
    let input = vec![svc("solo", 50, &["solo", "ghost"]), svc("d", 50, &["nobody"])];
    match order_services(input) {
        Err(BloomError::UnknownDependency(dep, svc)) => {
            assert_eq!(dep, "ghost");
            assert_eq!(svc, "solo");
        }
        other => panic!("unexpected: {:?}", other),
    }
}

#[test]
fn a_service_that_depends_on_itself_is_a_cycle() {
    let input = vec![svc("solo", 50, &["solo"])];
    assert!(matches!(order_services(input), Err(BloomError::DependencyCycle(_))));
}

#[test]
fn services_behind_a_cycle_are_left_out_too() {
    let input = vec![
        svc("a", 50, &["b"]),
        svc("b", 50, &["a"]),
        svc("c", 50, &["a"]),
        svc("free", 50, &[]),
    ];
    match order_services(input) {
        Err(BloomError::DependencyCycle(names)) => {
            assert_eq!(names, vec!["a".to_string(), "b".to_string(), "c".to_string()]);
        }
        other => panic!("unexpected: {:?}", other),
    }
}

#[test]
fn empty_input_gives_empty_order() {
    assert!(order_services(Vec::new()).unwrap().is_empty());
}

#[test]
fn order_keeps_the_whole_descriptor() {
    let mut a = svc("a", 50, &[]);
    a.env = Some(vec!["K=V".to_string()]);
    a.stop_cmd = Some("stop".to_string());
    let out = order_services(vec![a]).unwrap();
    assert_eq!(out[0].env, Some(vec!["K=V".to_string()]));
    assert_eq!(out[0].stop_cmd, Some("stop".to_string()));
    assert_eq!(out[0].cmd, "/bin/a");
}
