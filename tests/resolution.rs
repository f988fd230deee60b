use snpm::registry::{registry_url, resolve_from_metadata, tarball_pointer_of, FetchError};
use snpm::resolver::{
    choose_version, published_versions, resolve_version, sort_newest_first, strip_range_marks, ResolveError,
};

fn keys(v: &[&str]) -> Vec<String> {
    v.iter().map(|s| s.to_string()).collect()
}

#[test]
fn selects_highest_satisfying_version() {
    let published = keys(&["1.2.0", "1.3.0", "1.3.1", "2.0.0"]);
    let chosen = resolve_version(&published, "^1.3.0", false).ok().unwrap();
    assert_eq!(chosen.candidate.text, "1.3.1");
}

#[test]
fn unsatisfied_range_without_force_is_not_found() {
    let published = keys(&["1.2.0", "1.3.0", "1.3.1", "2.0.0"]);
    let r = resolve_version(&published, "^3.0.0", false);
    assert!(matches!(r, Err(ResolveError::VersionNotFound)));
}

#[test]
fn forced_mode_takes_closest_major() {
    let published = keys(&["1.2.0", "1.3.0", "1.3.1", "2.0.0"]);
    let chosen = resolve_version(&published, "^4.1.0", true).ok().unwrap();
    assert_eq!(chosen.candidate.text, "2.0.0");
    assert!(chosen.closest);
}

#[test]
fn forced_mode_prefers_satisfying_version() {
    let published = keys(&["1.2.0", "1.3.0", "1.3.1", "2.0.0"]);
    let chosen = resolve_version(&published, "~1.2.0", true).ok().unwrap();
    assert_eq!(chosen.candidate.text, "1.3.1");
    assert!(!chosen.closest);
}

#[test]
fn forced_mode_with_unparsable_literal_is_invalid() {
    let published = keys(&["1.2.0", "2.0.0"]);
    let r = resolve_version(&published, "^7", true);
    assert!(matches!(r, Err(ResolveError::InvalidVersionSpec)));
}

#[test]
fn unparsable_range_is_invalid() {
    let published = keys(&["1.2.0"]);
    let r = resolve_version(&published, "not a version", false);
    assert!(matches!(r, Err(ResolveError::InvalidVersionSpec)));
}

#[test]
fn no_semantic_versions_means_none_available() {
    let published = keys(&["latest", "1.0", ""]);
    let r = resolve_version(&published, "^1.0.0", true);
    assert!(matches!(r, Err(ResolveError::NoVersionsAvailable)));
    let empty: Vec<String> = Vec::new();
    assert!(matches!(resolve_version(&empty, "^1.0.0", false), Err(ResolveError::NoVersionsAvailable)));
}

#[test]
fn exact_version_range() {
    let published = keys(&["0.1.0", "0.1.5", "0.2.0"]);
    let chosen = resolve_version(&published, "0.1.0", false).ok().unwrap();
    assert_eq!(chosen.candidate.text, "0.1.5");
}

#[test]
fn invalid_keys_are_dropped_in_order() {
    let published = keys(&["1.0.0", "junk", "2.0.0-beta.1", "01.0.0"]);
    let cs = published_versions(&published);
    let texts: Vec<&str> = cs.iter().map(|c| c.text.as_str()).collect();
    assert_eq!(texts, vec!["1.0.0", "2.0.0-beta.1"]);
}

#[test]
fn sorting_puts_newest_first() {
    let published = keys(&["1.2.0", "2.0.0", "1.3.1", "1.3.0", "1.3.1-rc.1"]);
    let sorted = sort_newest_first(published_versions(&published));
    let texts: Vec<&str> = sorted.iter().map(|c| c.text.as_str()).collect();
    assert_eq!(texts, vec!["2.0.0", "1.3.1", "1.3.1-rc.1", "1.3.0", "1.2.0"]);
}

#[test]
fn choose_takes_first_match() {
    assert!(matches!(choose_version(&vec![3, 2, 1], &vec![false, true, true], false, None), Ok(1)));
}

#[test]
fn choose_breaks_ties_towards_the_newer() {
    assert!(matches!(choose_version(&vec![3, 1], &vec![false, false], true, Some(2)), Ok(0)));
    assert!(matches!(choose_version(&vec![9, 5, 4], &vec![false, false, false], true, Some(4)), Ok(2)));
}

#[test]
fn choose_errors() {
    assert!(matches!(choose_version(&vec![1], &vec![false], false, Some(1)), Err(ResolveError::VersionNotFound)));
    assert!(matches!(choose_version(&vec![1], &vec![false], true, None), Err(ResolveError::InvalidVersionSpec)));
    assert!(matches!(choose_version(&vec![], &vec![], true, Some(1)), Err(ResolveError::NoVersionsAvailable)));
}

#[test]
fn range_marks_are_stripped() {
    assert_eq!(strip_range_marks("^1.2.3"), "1.2.3");
    assert_eq!(strip_range_marks("~1.2.3"), "1.2.3");
    assert_eq!(strip_range_marks("^^~~1.0"), "1.0");
    assert_eq!(strip_range_marks("~^1.0"), "^1.0");
    assert_eq!(strip_range_marks("1.0"), "1.0");
}

#[test]
fn metadata_urls() {
    assert_eq!(registry_url("left-pad"), "https://registry.npmjs.org/left-pad");
    assert_eq!(registry_url("@types/node"), "https://registry.npmjs.org/types%2Fnode");
    assert_eq!(registry_url("@angular/core"), "https://registry.npmjs.org/angular%2Fcore");
}

#[test]
fn tarball_pointer_escapes_the_key() {
    assert_eq!(tarball_pointer_of("1.0.0"), "/versions/1.0.0/dist/tarball");
    assert_eq!(tarball_pointer_of("a/b~c"), "/versions/a~1b~0c/dist/tarball");
}

const LEFT_PAD: &str = r#"{"name":"left-pad","versions":{
  "1.2.0":{"dist":{"tarball":"https://r.example/left-pad-1.2.0.tgz"}},
  "1.3.0":{"dist":{"tarball":"https://r.example/left-pad-1.3.0.tgz"}},
  "1.3.1":{"dist":{"tarball":"https://r.example/left-pad-1.3.1.tgz"}},
  "2.0.0":{"dist":{"tarball":"https://r.example/left-pad-2.0.0.tgz"}}}}"#;

#[test]
fn metadata_resolves_to_version_and_tarball() {
    let res = resolve_from_metadata(LEFT_PAD, "^1.3.0", false).ok().unwrap();
    assert_eq!(res.version, "1.3.1");
    assert_eq!(res.tarball_url, "https://r.example/left-pad-1.3.1.tgz");
    assert!(!res.closest);
}

#[test]
fn malformed_metadata() {
    assert!(matches!(resolve_from_metadata("not json", "^1.0.0", false), Err(FetchError::MalformedMetadata)));
    assert!(matches!(resolve_from_metadata(r#"{"name":"x"}"#, "^1.0.0", false), Err(FetchError::MalformedMetadata)));
    assert!(matches!(
        resolve_from_metadata(r#"{"versions":{"1.0.0":{"dist":{}}}}"#, "^1.0.0", false),
        Err(FetchError::MalformedMetadata)
    ));
}

#[test]
fn metadata_resolution_failure_is_reported() {
    assert!(matches!(
        resolve_from_metadata(LEFT_PAD, "^5.0.0", false),
        Err(FetchError::Resolve(ResolveError::VersionNotFound))
    ));
    assert!(matches!(
        resolve_from_metadata(r#"{"versions":{}}"#, "^5.0.0", false),
        Err(FetchError::Resolve(ResolveError::NoVersionsAvailable))
    ));
}
