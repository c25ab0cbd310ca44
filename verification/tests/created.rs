use desym::created::{
    component_prefixes, CreatedPaths, CreationAction, CreationEvent, CreationFailure, DirOutcome,
    PathCreation, create_path, require_parent_paths,
};

fn expect_probe(action: CreationAction, path: &str) {
    match action {
        CreationAction::Probe(p) => assert_eq!(p, path),
        _ => panic!("expected a probe of {}", path),
    }
}

#[test]
fn prefixes_go_from_the_root_down() {
    assert_eq!(component_prefixes("/home/u/.config"), vec!["/", "/home", "/home/u", "/home/u/.config"]);
    assert_eq!(component_prefixes("a/b"), vec!["a", "a/b"]);
    assert!(component_prefixes("").is_empty());
}

#[test]
fn created_paths_roll_back_newest_first() {
    let mut c = CreatedPaths::armed();
    c.record("/a".to_string());
    c.record("/a/b".to_string());
    assert_eq!(c.rollback_order(), vec!["/a/b".to_string(), "/a".to_string()]);
    c.disarm();
    assert!(c.rollback_order().is_empty());
    assert_eq!(c.paths(), &vec!["/a".to_string(), "/a/b".to_string()]);
    assert!(!c.is_armed_now());
}

#[test]
fn default_record_is_empty_and_disarmed() {
    let c = CreatedPaths::default();
    assert!(c.paths().is_empty());
    assert!(!c.is_armed_now());
    assert!(c.rollback_order().is_empty());
}

#[test]
fn existing_directories_are_passed_over() {
    let (mut c, a) = create_path("/x/y", 1, 2);
    expect_probe(a, "/");
    expect_probe(c.advance(CreationEvent::Probed(true)), "/x");
    expect_probe(c.advance(CreationEvent::Probed(true)), "/x/y");
    match c.advance(CreationEvent::Probed(true)) {
        CreationAction::Done(made) => {
            assert!(made.paths().is_empty());
            assert!(made.is_armed_now());
        }
        _ => panic!("expected done"),
    }
}

#[test]
fn missing_directories_are_made_owned_and_recorded() {
    let (mut c, a) = create_path("/x/y", 7, 8);
    expect_probe(a, "/");
    expect_probe(c.advance(CreationEvent::Probed(true)), "/x");
    assert!(matches!(c.advance(CreationEvent::Probed(false)), CreationAction::MakeDir(p) if p == "/x"));
    match c.advance(CreationEvent::Made(DirOutcome::Created)) {
        CreationAction::Chown { path, uid, gid, report } => {
            assert_eq!((path.as_str(), uid, gid), ("/x", 7, 8));
            assert_eq!(report, "Created path: /x");
        }
        _ => panic!("expected chown"),
    }
    expect_probe(c.advance(CreationEvent::Chowned(Ok(()))), "/x/y");
    assert!(matches!(c.advance(CreationEvent::Probed(false)), CreationAction::MakeDir(p) if p == "/x/y"));
    expect_done_after_race(&mut c);
}

fn expect_done_after_race(c: &mut PathCreation) {
    // Another process made the directory first: it is not recorded.
    match c.advance(CreationEvent::Made(DirOutcome::AlreadyExists)) {
        CreationAction::Done(made) => assert_eq!(made.paths(), &vec!["/x".to_string()]),
        _ => panic!("expected done"),
    }
}

#[test]
fn failure_rolls_back_what_was_made() {
    let (mut c, _) = create_path("/p/q/r", 0, 0);
    c.advance(CreationEvent::Probed(true));
    c.advance(CreationEvent::Probed(false));
    c.advance(CreationEvent::Made(DirOutcome::Created));
    c.advance(CreationEvent::Chowned(Ok(())));
    c.advance(CreationEvent::Probed(false));
    c.advance(CreationEvent::Made(DirOutcome::Created));
    c.advance(CreationEvent::Chowned(Ok(())));
    c.advance(CreationEvent::Probed(false));
    match c.advance(CreationEvent::Made(DirOutcome::Failed("Permission denied (os error 13)".to_string()))) {
        CreationAction::Fail { failure, rollback, message } => {
            assert_eq!(failure, CreationFailure::MakeDir("/p/q/r".to_string()));
            assert_eq!(rollback, vec!["/p/q".to_string(), "/p".to_string()]);
            assert_eq!(message, "Failed, could not create path: /p/q/r, Err: Permission denied (os error 13)");
        }
        _ => panic!("expected failure"),
    }
}

#[test]
fn failed_chown_rolls_back_the_new_directory_too() {
    let (mut c, _) = create_path("/p", 0, 0);
    c.advance(CreationEvent::Probed(true));
    c.advance(CreationEvent::Probed(false));
    c.advance(CreationEvent::Made(DirOutcome::Created));
    match c.advance(CreationEvent::Chowned(Err("Failed to chown /p as 0 0: denied".to_string()))) {
        CreationAction::Fail { failure, rollback, message } => {
            assert_eq!(failure, CreationFailure::Chown("/p".to_string()));
            assert_eq!(rollback, vec!["/p".to_string()]);
            assert_eq!(message, "Failed to chown /p as 0 0: denied");
        }
        _ => panic!("expected failure"),
    }
}

#[test]
fn parents_of_a_path_are_created() {
    let (_, a) = require_parent_paths("/etc/app/conf", 0, 0);
    expect_probe(a, "/");
    let (c, a) = require_parent_paths("/", 0, 0);
    match a {
        CreationAction::Done(made) => {
            assert!(made.paths().is_empty());
            assert!(!made.is_armed_now());
        }
        _ => panic!("expected done"),
    }
    assert!(!c.awaits(&CreationEvent::Probed(true)));
}

#[test]
fn parents_stop_above_the_path() {
    let (mut c, a) = require_parent_paths("/etc/app/conf", 0, 0);
    expect_probe(a, "/");
    expect_probe(c.advance(CreationEvent::Probed(true)), "/etc");
    expect_probe(c.advance(CreationEvent::Probed(true)), "/etc/app");
    assert!(matches!(c.advance(CreationEvent::Probed(true)), CreationAction::Done(_)));
}

#[test]
fn relative_file_needs_no_directories() {
    let (_, a) = require_parent_paths("file.txt", 0, 0);
    match a {
        CreationAction::Done(made) => assert!(made.paths().is_empty()),
        _ => panic!("expected done"),
    }
}
