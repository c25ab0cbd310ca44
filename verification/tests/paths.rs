use desym::paths::{backup_name, get_bak, get_limbo, join_path, limbo_name, same_path};

#[test]
fn backup_and_limbo_names_are_laid_out() {
    assert_eq!(backup_name("/etc/x.conf", "id"), "/etc/x.conf_id.bak");
    assert_eq!(limbo_name("/etc/x.conf", "id"), "/etc/x.conf_id.limbo");
}

fn id_of(name: &str, target: &str, suffix: &str) -> String {
    assert!(name.starts_with(&format!("{}_", target)));
    assert!(name.ends_with(suffix));
    let id = &name[target.len() + 1..name.len() - suffix.len()];
    assert_eq!(id.len(), 36);
    assert!(id.chars().all(|c| c == '-' || c.is_ascii_hexdigit()));
    id.to_string()
}

#[test]
fn get_bak_uses_a_fresh_id() {
    let a = get_bak("/home/u/.zshrc");
    let b = get_bak("/home/u/.zshrc");
    let ida = id_of(&a, "/home/u/.zshrc", ".bak");
    let idb = id_of(&b, "/home/u/.zshrc", ".bak");
    assert_ne!(ida, idb);
}

#[test]
fn get_limbo_uses_a_fresh_id() {
    let a = get_limbo("/home/u/.zshrc");
    let b = get_limbo("/home/u/.zshrc");
    assert_ne!(id_of(&a, "/home/u/.zshrc", ".limbo"), id_of(&b, "/home/u/.zshrc", ".limbo"));
}

#[test]
fn side_names_differ_from_each_other_and_the_target() {
    let target = "/etc/example.conf";
    let bak = get_bak(target);
    let limbo = get_limbo(target);
    assert_ne!(bak, limbo);
    assert_ne!(bak, target);
    assert_ne!(limbo, target);
}

#[test]
fn side_names_stay_in_the_same_directory() {
    let target = "/var/lib/app/state";
    for name in [get_bak(target), get_limbo(target)] {
        assert!(!name[target.len()..].contains('/'));
        assert!(name[target.len() + 1..target.len() + 37].chars().all(|c| c == '-' || matches!(c, '0'..='9' | 'a'..='f')));
    }
}

#[test]
fn join_matches_std() {
    for (base, component) in [("a", "b"), ("a/", "b"), ("a", "/b"), ("", "b"), ("a", ""), ("/", "etc"), ("", "/"), ("/home/u", ".cache"), ("x//", "y/z")] {
        let std_join = std::path::Path::new(base).join(component).to_string_lossy().into_owned();
        assert_eq!(join_path(base, component), std_join, "join of {:?} and {:?}", base, component);
    }
}

#[test]
fn same_path_compares_components() {
    assert!(same_path("/a/b", "/a/b"));
    assert!(same_path("/a//b/", "/a/b"));
    assert!(same_path("a/./b", "a/b"));
    assert!(!same_path("/a/b", "a/b"));
    assert!(!same_path("/a/../b", "/b"));
    assert!(!same_path("/a/b", "/a/c"));
}
