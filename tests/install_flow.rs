use snpm::install::{npm_install_command, Action, Event, Job, JobRun, Stage};
use snpm::lockfile::LockFile;
use snpm::registry::FetchError;

const LEFT_PAD: &str = r#"{"name":"left-pad","versions":{
  "1.2.0":{"dist":{"tarball":"https://r.example/left-pad-1.2.0.tgz"}},
  "1.3.0":{"dist":{"tarball":"https://r.example/left-pad-1.3.0.tgz"}},
  "1.3.1":{"dist":{"tarball":"https://r.example/left-pad-1.3.1.tgz"}},
  "2.0.0":{"dist":{"tarball":"https://r.example/left-pad-2.0.0.tgz"}}}}"#;

fn listing(entries: &[(&str, bool)]) -> Vec<(String, bool)> {
    entries.iter().map(|(n, d)| (n.to_string(), *d)).collect()
}

/// Drives a job through the registry path with the given events.
fn run_registry_path(lock: &mut LockFile, job: Job, body: &str) -> Vec<Action> {
    let mut actions = Vec::new();
    let (run, a) = JobRun::new(job).step(lock, Event::Started, false);
    actions.push(a);
    let (run, a) = run.step(lock, Event::MetadataFetched(Some(body.to_string())), false);
    actions.push(a);
    let (run, a) = run.step(lock, Event::Unpacked(Some(listing(&[("package", true), ("README", false)]))), false);
    actions.push(a);
    let (run, a) = run.step(lock, Event::Promoted(true), false);
    actions.push(a);
    let (run, a) = run.step(lock, Event::Copied(true), false);
    actions.push(a);
    let (run, a) = run.step(lock, Event::Saved(true), false);
    actions.push(a);
    assert!(matches!(run.stage, Stage::Done));
    actions
}

#[test]
fn registry_install_of_left_pad() {
    let mut lock = LockFile::new();
    let actions = run_registry_path(&mut lock, Job::new("left-pad", "^1.3.0", false), LEFT_PAD);
    match &actions[0] {
        Action::FetchMetadata { url } => assert_eq!(url, "https://registry.npmjs.org/left-pad"),
        _ => panic!("expected a metadata fetch"),
    }
    match &actions[1] {
        Action::Download { tarball_url, entry, tarball, scratch } => {
            assert_eq!(tarball_url, "https://r.example/left-pad-1.3.1.tgz");
            assert_eq!(entry, "left-pad_^1.3.0");
            assert_eq!(tarball, "left-pad_^1.3.0.tgz");
            assert_eq!(scratch, "left-pad_^1.3.0.tmp");
        },
        _ => panic!("expected a download"),
    }
    match &actions[2] {
        Action::Promote { root, entry, .. } => {
            assert_eq!(root, "package");
            assert_eq!(entry, "left-pad_^1.3.0");
        },
        _ => panic!("expected a promotion"),
    }
    match &actions[3] {
        Action::CopyToTarget { entry, package } => {
            assert_eq!(entry, "left-pad_^1.3.0");
            assert_eq!(package, "left-pad");
        },
        _ => panic!("expected a copy"),
    }
    assert!(matches!(actions[4], Action::SaveLockfile));
    assert!(matches!(actions[5], Action::Finish));
    assert_eq!(lock.len(), 1);
    let e = lock.entry("left-pad@^1.3.0").unwrap();
    assert_eq!(e.resolved_version, "1.3.1");
    assert!(!e.use_npm_fallback);
    assert_eq!(e.tarball_url.as_deref(), Some("https://r.example/left-pad-1.3.1.tgz"));
    assert!(!lock.should_use_npm("left-pad", "^1.3.0"));
}

#[test]
fn unreachable_registry_falls_back_to_npm() {
    let mut lock = LockFile::new();
    let (run, a) = JobRun::new(Job::new("left-pad", "^1.3.0", false)).step(&mut lock, Event::Started, false);
    assert!(matches!(a, Action::FetchMetadata { .. }));
    let (run, a) = run.step(&mut lock, Event::MetadataFetched(None), false);
    match a {
        Action::RunNpm { command, reason } => {
            assert_eq!(command, "npm install left-pad@^1.3.0");
            assert_eq!(reason, Some(FetchError::RegistryUnavailable));
        },
        _ => panic!("expected the fallback installer"),
    }
    let (run, a) = run.step(&mut lock, Event::NpmFinished(false), false);
    assert!(matches!(a, Action::SaveLockfile));
    let (run, a) = run.step(&mut lock, Event::Saved(true), false);
    assert!(matches!(a, Action::Finish));
    assert!(matches!(run.stage, Stage::Done));
    let e = lock.entry("left-pad@^1.3.0").unwrap();
    assert!(e.use_npm_fallback);
    assert_eq!(e.resolved_version, "^1.3.0");
    assert_eq!(e.tarball_url, None);
}

#[test]
fn recorded_fallback_skips_the_registry() {
    let mut lock = LockFile::new();
    lock.add_package("left-pad".to_string(), "^1.3.0".to_string(), None, true, "^1.3.0".to_string());
    let (run, a) = JobRun::new(Job::new("left-pad", "^1.3.0", true)).step(&mut lock, Event::Started, false);
    assert!(matches!(run.stage, Stage::NpmFallback));
    match a {
        Action::RunNpm { command, reason } => {
            assert_eq!(command, "npm install --save-dev left-pad@^1.3.0");
            assert_eq!(reason, None);
        },
        _ => panic!("expected the fallback installer"),
    }
    assert_eq!(lock.len(), 1);
}

#[test]
fn changed_range_goes_back_to_the_registry() {
    let mut lock = LockFile::new();
    lock.add_package("left-pad".to_string(), "^1.3.0".to_string(), None, true, "^1.3.0".to_string());
    let (run, a) = JobRun::new(Job::new("left-pad", "^1.2.0", false)).step(&mut lock, Event::Started, false);
    assert!(matches!(run.stage, Stage::Resolving));
    assert!(matches!(a, Action::FetchMetadata { .. }));
}

#[test]
fn unsatisfied_range_downloads_nothing() {
    let mut lock = LockFile::new();
    let (run, _) = JobRun::new(Job::new("left-pad", "^9.0.0", false)).step(&mut lock, Event::Started, false);
    let (run, a) = run.step(&mut lock, Event::MetadataFetched(Some(LEFT_PAD.to_string())), false);
    assert!(matches!(run.stage, Stage::NpmFallback));
    match a {
        Action::RunNpm { reason, .. } => {
            assert_eq!(reason, Some(FetchError::Resolve(snpm::resolver::ResolveError::VersionNotFound)))
        },
        _ => panic!("expected the fallback installer"),
    }
}

#[test]
fn forced_mode_installs_the_closest_major() {
    let mut lock = LockFile::new();
    let (run, _) = JobRun::new(Job::new("left-pad", "^9.0.0", false)).step(&mut lock, Event::Started, true);
    let (_, a) = run.step(&mut lock, Event::MetadataFetched(Some(LEFT_PAD.to_string())), true);
    match a {
        Action::Download { tarball_url, .. } => assert_eq!(tarball_url, "https://r.example/left-pad-2.0.0.tgz"),
        _ => panic!("expected a download"),
    }
}

#[test]
fn archive_without_a_single_directory_falls_back() {
    let mut lock = LockFile::new();
    let (run, _) = JobRun::new(Job::new("left-pad", "^1.3.0", false)).step(&mut lock, Event::Started, false);
    let (run, _) = run.step(&mut lock, Event::MetadataFetched(Some(LEFT_PAD.to_string())), false);
    let (run, a) = run.step(&mut lock, Event::Unpacked(Some(listing(&[("a", true), ("b", true)]))), false);
    assert!(matches!(run.stage, Stage::NpmFallback));
    assert!(matches!(a, Action::RunNpm { reason: Some(FetchError::ArchiveLayout), .. }));
    assert!(lock.should_use_npm("left-pad", "^1.3.0"));
}

#[test]
fn failed_download_falls_back() {
    let mut lock = LockFile::new();
    let (run, _) = JobRun::new(Job::new("left-pad", "^1.3.0", false)).step(&mut lock, Event::Started, false);
    let (run, _) = run.step(&mut lock, Event::MetadataFetched(Some(LEFT_PAD.to_string())), false);
    let (_, a) = run.step(&mut lock, Event::Unpacked(None), false);
    assert!(matches!(a, Action::RunNpm { reason: Some(FetchError::TransferFailed), .. }));
}

#[test]
fn event_out_of_place_changes_nothing() {
    let mut lock = LockFile::new();
    let (run, a) = JobRun::new(Job::new("left-pad", "^1.3.0", false)).step(&mut lock, Event::Saved(true), false);
    assert!(matches!(run.stage, Stage::Queued));
    assert!(matches!(a, Action::Nothing));
    assert_eq!(lock.len(), 0);
}

#[test]
fn two_jobs_in_either_order_give_two_entries() {
    let body_b = r#"{"versions":{"4.17.21":{"dist":{"tarball":"https://r.example/lodash.tgz"}}}}"#;
    let mut first = LockFile::new();
    run_registry_path(&mut first, Job::new("left-pad", "^1.3.0", false), LEFT_PAD);
    run_registry_path(&mut first, Job::new("lodash", "^4.0.0", false), body_b);
    let mut second = LockFile::new();
    run_registry_path(&mut second, Job::new("lodash", "^4.0.0", false), body_b);
    run_registry_path(&mut second, Job::new("left-pad", "^1.3.0", false), LEFT_PAD);
    assert_eq!(first.len(), 2);
    assert_eq!(second.len(), 2);
    for key in ["left-pad@^1.3.0", "lodash@^4.0.0"] {
        let a = first.entry(key).unwrap();
        let b = second.entry(key).unwrap();
        assert_eq!(a.resolved_version, b.resolved_version);
        assert_eq!(a.tarball_url, b.tarball_url);
    }
}

#[test]
fn interleaved_jobs_share_one_lockfile() {
    let mut lock = LockFile::new();
    let (a, _) = JobRun::new(Job::new("left-pad", "^1.3.0", false)).step(&mut lock, Event::Started, false);
    let (b, _) = JobRun::new(Job::new("is-odd", "^3.0.0", true)).step(&mut lock, Event::Started, false);
    let (_, _) = b.step(&mut lock, Event::MetadataFetched(None), false);
    let (a, _) = a.step(&mut lock, Event::MetadataFetched(Some(LEFT_PAD.to_string())), false);
    let (a, _) = a.step(&mut lock, Event::Unpacked(Some(listing(&[("package", true)]))), false);
    let (_, _) = a.step(&mut lock, Event::Promoted(true), false);
    assert_eq!(lock.len(), 2);
    assert!(lock.should_use_npm("is-odd", "^3.0.0"));
    assert!(!lock.should_use_npm("left-pad", "^1.3.0"));
}

#[test]
fn job_ranges_lose_quote_marks() {
    let job = Job::new("left-pad", "\"^1.3.0\"", true);
    assert_eq!(job.range, "^1.3.0");
    assert_eq!(npm_install_command(&job), "npm install --save-dev left-pad@^1.3.0");
}
