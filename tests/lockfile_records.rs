use snpm::lockfile::{package_key, LockFile, LockFileEntry, ENGINE_VERSION};

fn entry(name: &str, range: &str, fallback: bool, resolved: &str) -> LockFileEntry {
    LockFileEntry {
        name: name.to_string(),
        version: range.to_string(),
        tarball_url: if fallback { None } else { Some(format!("https://r.example/{}.tgz", name)) },
        use_npm_fallback: fallback,
        resolved_version: resolved.to_string(),
    }
}

#[test]
fn new_lockfile_is_empty() {
    let lock = LockFile::new();
    assert_eq!(lock.len(), 0);
    assert_eq!(lock.version(), ENGINE_VERSION);
    assert!(!lock.should_use_npm("left-pad", "^1.3.0"));
}

#[test]
fn keys_join_name_and_range() {
    assert_eq!(package_key("left-pad", "^1.3.0"), "left-pad@^1.3.0");
    assert_eq!(package_key("@types/node", "*"), "@types/node@*");
}

#[test]
fn adding_twice_replaces() {
    let mut lock = LockFile::new();
    lock.add_package("a".to_string(), "^1".to_string(), Some("u".to_string()), false, "1.0.0".to_string());
    lock.add_package("a".to_string(), "^1".to_string(), None, true, "^1".to_string());
    assert_eq!(lock.len(), 1);
    assert!(lock.should_use_npm("a", "^1"));
    assert_eq!(lock.entry("a@^1").unwrap().resolved_version, "^1");
}

#[test]
fn records_round_trip() {
    let mut lock = LockFile::new();
    lock.add_package("a".to_string(), "^1".to_string(), Some("u".to_string()), false, "1.0.0".to_string());
    lock.add_package("b".to_string(), "~2".to_string(), None, true, "~2".to_string());
    let written = lock.entries();
    assert_eq!(written.len(), 2);
    let reread = LockFile::from_entries(lock.version().clone(), written);
    let again = reread.entries();
    assert_eq!(again.len(), 2);
    assert_eq!(reread.version(), lock.version());
    for (k, e) in &again {
        let orig = lock.entry(k).unwrap();
        assert_eq!(orig.name, e.name);
        assert_eq!(orig.version, e.version);
        assert_eq!(orig.tarball_url, e.tarball_url);
        assert_eq!(orig.use_npm_fallback, e.use_npm_fallback);
        assert_eq!(orig.resolved_version, e.resolved_version);
    }
}

#[test]
fn later_record_with_same_key_wins() {
    let records = vec![
        ("x@1".to_string(), entry("x", "1", false, "1.0.0")),
        ("x@1".to_string(), entry("x", "1", true, "1")),
    ];
    let lock = LockFile::from_entries("0.0.1".to_string(), records);
    assert_eq!(lock.len(), 1);
    assert!(lock.should_use_npm("x", "1"));
    assert_eq!(lock.version(), "0.0.1");
}

#[test]
fn duplicate_copies_every_field() {
    let e = entry("a", "^1", false, "1.2.3");
    let d = e.duplicate();
    assert_eq!(d.name, "a");
    assert_eq!(d.version, "^1");
    assert_eq!(d.tarball_url.as_deref(), Some("https://r.example/a.tgz"));
    assert!(!d.use_npm_fallback);
    assert_eq!(d.resolved_version, "1.2.3");
}
