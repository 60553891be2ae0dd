use verdant::errors::BloomError;
use verdant::loader::{is_descriptor_file, load_services, SourceFile};

fn file(name: &str, text: &str) -> SourceFile {
    SourceFile { name: name.to_string(), content: Ok(text.to_string()) }
}

#[test]
fn load_skips_files_at_fault_and_goes_on() {
    let files = vec![
        file("a.vs", "name: a\ncmd: /bin/a\n"),
        file("broken.vs", "name: broken\n"),
        SourceFile { name: "gone.vs".to_string(), content: Err("permission denied".to_string()) },
        file("notes.txt", "not a descriptor"),
        file("b.vs", "name: b\ncmd: /bin/b\n"),
    ];
    let out = load_services(&files);
    assert_eq!(out.loaded, 2);
    assert_eq!(out.failed, 2);
    let names: Vec<&str> = out.services.iter().map(|s| s.name.as_str()).collect();
    assert_eq!(names, vec!["a", "b"]);
    assert_eq!(out.rejected[0].file, "broken.vs");
    assert!(matches!(out.rejected[0].error, BloomError::ConfigInvalid(_)));
    assert_eq!(out.rejected[1].file, "gone.vs");
    match &out.rejected[1].error {
        BloomError::Io(m) => assert_eq!(m, "permission denied"),
        other => panic!("unexpected: {:?}", other),
    }
}

#[test]
fn loaded_names_are_pairwise_distinct() {
    let files = vec![
        file("a.vs", "name: a\ncmd: /bin/a\n"),
        file("a2.vs", "name: a\ncmd: /bin/other\n"),
        file("t@.vs", "name: t@{}\ncmd: /bin/t\ninstances:\n  - x\n  - x\n"),
        file("u@.vs", "name: u@{}\ncmd: /bin/u\ninstances:\n  - x\n  - y\n"),
    ];
    let out = load_services(&files);
    let names: Vec<&str> = out.services.iter().map(|s| s.name.as_str()).collect();
    assert_eq!(names, vec!["a", "u@x", "u@y"]);
    assert_eq!(out.loaded, 3);
    assert_eq!(out.failed, 2);
    match &out.rejected[0].error {
        BloomError::AlreadyRegistered(n) => assert_eq!(n, "a"),
        other => panic!("unexpected: {:?}", other),
    }
    match &out.rejected[1].error {
        BloomError::AlreadyRegistered(n) => assert_eq!(n, "t@x"),
        other => panic!("unexpected: {:?}", other),
    }
    for i in 0..names.len() {
        for j in (i + 1)..names.len() {
            assert_ne!(names[i], names[j]);
        }
    }
}

#[test]
fn only_vs_files_are_descriptors() {
    assert!(is_descriptor_file("sshd.vs"));
    assert!(is_descriptor_file("getty@.vs"));
    assert!(!is_descriptor_file("sshd.vs.bak"));
    assert!(!is_descriptor_file("vs"));
    assert!(!is_descriptor_file(""));
}
