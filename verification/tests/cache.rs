use desym::cache::{
    read, resolve_cache_path, Cache, CacheError, CacheLoad, LoadAction, LoadEvent,
};

fn pretty(paths: &[&str]) -> String {
    let mut object = serde_json::Map::new();
    object.insert(
        "created_files".to_string(),
        serde_json::Value::Array(paths.iter().map(|p| serde_json::Value::String(p.to_string())).collect()),
    );
    serde_json::to_string_pretty(&serde_json::Value::Object(object)).unwrap()
}

#[test]
fn new_cache_keeps_files_and_path() {
    let c = Cache::new(vec!["/a".to_string()], "/tmp/desym.cache".to_string());
    assert_eq!(c.created_files(), &vec!["/a".to_string()]);
    assert_eq!(c.cache_path(), "/tmp/desym.cache");
}

#[test]
fn store_writes_the_pretty_document() {
    let mut c = Cache::new(Vec::new(), "/c".to_string());
    assert_eq!(c.store(vec!["/home/u/.zshrc".to_string(), "/etc/x.conf".to_string()]), Ok(()));
    let json = c.take_json().unwrap();
    assert_eq!(json, "{\n  \"created_files\": [\n    \"/home/u/.zshrc\",\n    \"/etc/x.conf\"\n  ]\n}");
    assert_eq!(json, pretty(&["/home/u/.zshrc", "/etc/x.conf"]));
    assert_eq!(c.take_json(), None);
}

#[test]
fn store_of_nothing_is_an_empty_list() {
    let mut c = Cache::new(vec!["/old".to_string()], "/c".to_string());
    c.store(Vec::new()).unwrap();
    let json = c.take_json().unwrap();
    assert_eq!(json, "{\n  \"created_files\": []\n}");
    assert_eq!(json, pretty(&[]));
    assert_eq!(c.created_files(), &vec!["/old".to_string()]);
}

#[test]
fn store_escapes_paths_as_json() {
    let tricky = ["a\"b", "back\\slash", "line\nbreak", "tab\there", "\u{1}"];
    let mut c = Cache::new(Vec::new(), "/c".to_string());
    c.store(tricky.iter().map(|s| s.to_string()).collect()).unwrap();
    let json = c.take_json().unwrap();
    assert_eq!(json, pretty(&tricky));
    let back: serde_json::Value = serde_json::from_str(&json).unwrap();
    let list: Vec<String> = back["created_files"]
        .as_array()
        .unwrap()
        .iter()
        .map(|v| v.as_str().unwrap().to_string())
        .collect();
    assert_eq!(list, tricky.iter().map(|s| s.to_string()).collect::<Vec<_>>());
}

#[test]
fn cache_path_prefers_the_given_directory() {
    let r = resolve_cache_path(Some("/var/c".to_string()), Some("/xdg".to_string()), Some("/home/u".to_string()));
    assert_eq!(r, Ok("/var/c/desym.cache".to_string()));
}

#[test]
fn cache_path_then_xdg() {
    let r = resolve_cache_path(None, Some("/xdg".to_string()), Some("/home/u".to_string()));
    assert_eq!(r, Ok("/xdg/desym.cache".to_string()));
}

#[test]
fn cache_path_then_home_cache() {
    assert_eq!(resolve_cache_path(None, None, Some("/home/u".to_string())), Ok("/home/u/.cache/desym.cache".to_string()));
    assert_eq!(resolve_cache_path(None, None, Some("/home/u/".to_string())), Ok("/home/u/.cache/desym.cache".to_string()));
}

#[test]
fn cache_path_needs_a_directory() {
    assert_eq!(resolve_cache_path(None, None, None), Err(CacheError::NoCacheDir));
    assert_eq!(CacheError::NoCacheDir.message(), "XDG_CACHE_HOME wasn't set, nor was HOME!");
    assert_eq!(CacheError::Abandoned.message(), "Unable to continue! Please rectify the cache file issue");
    assert_eq!(CacheError::Encode.message(), "Unable to encode the cache file");
}

fn start() -> CacheLoad {
    let (load, action) = read(Some("/c".to_string()), None, None);
    match action {
        LoadAction::Probe(p) => assert_eq!(p, "/c/desym.cache"),
        _ => panic!("expected a probe"),
    }
    load
}

#[test]
fn load_without_any_directory_fails() {
    let (_, action) = read(None, None, None);
    assert!(matches!(action, LoadAction::Finish(Err(CacheError::NoCacheDir))));
}

#[test]
fn load_of_missing_file_is_empty() {
    let mut load = start();
    match load.advance(LoadEvent::Probed(false)) {
        LoadAction::Finish(Ok(c)) => {
            assert!(c.created_files().is_empty());
            assert_eq!(c.cache_path(), "/c/desym.cache");
        }
        _ => panic!("expected an empty cache"),
    }
}

#[test]
fn load_of_good_file_keeps_its_paths() {
    let mut load = start();
    assert!(matches!(load.advance(LoadEvent::Probed(true)), LoadAction::ReadAndParse(p) if p == "/c/desym.cache"));
    assert!(!load.awaits(&LoadEvent::Probed(true)));
    assert!(load.awaits(&LoadEvent::Parsed(Ok(Vec::new()))));
    match load.advance(LoadEvent::Parsed(Ok(vec!["/a".to_string()]))) {
        LoadAction::Finish(Ok(c)) => assert_eq!(c.created_files(), &vec!["/a".to_string()]),
        _ => panic!("expected the cached paths"),
    }
}

#[test]
fn corrupt_cache_asks_before_starting_over() {
    let mut load = start();
    load.advance(LoadEvent::Probed(true));
    match load.advance(LoadEvent::Parsed(Err("expected value at line 1".to_string()))) {
        LoadAction::Confirm { warning, question } => {
            assert_eq!(warning, "Unable to read cache file! This may be due to a format update, or incorrect modification of the cache file: expected value at line 1");
            assert_eq!(question, "Would you like to continue? The cache file will be overwritten, and updated as needed");
        }
        _ => panic!("expected a question"),
    }
    match load.advance(LoadEvent::Answered(true)) {
        LoadAction::Finish(Ok(c)) => assert!(c.created_files().is_empty()),
        _ => panic!("expected an empty cache"),
    }
}

#[test]
fn corrupt_cache_refused_fails() {
    let mut load = start();
    load.advance(LoadEvent::Probed(true));
    load.advance(LoadEvent::Parsed(Err("bad".to_string())));
    assert!(matches!(load.advance(LoadEvent::Answered(false)), LoadAction::Finish(Err(CacheError::Abandoned))));
}
