use vouch_py_lib::version::SimpleVersion;
use vouch_py_lib::version::get_latest_version;
use vouch_py_lib::version::parse_simple_version;

fn owned(items: &[&str]) -> Vec<String> {
    items.iter().map(|s| s.to_string()).collect()
}

#[test]
fn latest_version_picks_maximum_eligible() {
    let candidates = owned(&["1.0.0", "1.2.0", "1.2.0rc1", "abc", "2.0"]);
    assert_eq!(get_latest_version(&candidates), Some("2.0".to_string()));
}

#[test]
fn latest_version_fails_without_eligible_candidate() {
    let candidates = owned(&["rc1", "beta", ""]);
    assert_eq!(get_latest_version(&candidates), None);
}

#[test]
fn latest_version_of_empty_list_is_none() {
    let candidates: Vec<String> = Vec::new();
    assert_eq!(get_latest_version(&candidates), None);
}

#[test]
fn latest_version_keeps_candidate_spelling() {
    let candidates = owned(&["2.0.0", "2.0"]);
    // Equal values: the later candidate is kept, in its own spelling.
    assert_eq!(get_latest_version(&candidates), Some("2.0".to_string()));
}

#[test]
fn parse_reads_three_components() {
    assert_eq!(
        parse_simple_version("1.18.5"),
        Some(SimpleVersion { major: 1, minor: 18, patch: 5 })
    );
}

#[test]
fn parse_fills_missing_components_with_zero() {
    assert_eq!(
        parse_simple_version("2.0"),
        Some(SimpleVersion { major: 2, minor: 0, patch: 0 })
    );
    assert_eq!(
        parse_simple_version("7"),
        Some(SimpleVersion { major: 7, minor: 0, patch: 0 })
    );
}

#[test]
fn parse_rejects_tags_letters_and_empty_pieces() {
    assert_eq!(parse_simple_version("1.2.0rc1"), None);
    assert_eq!(parse_simple_version("abc"), None);
    assert_eq!(parse_simple_version(""), None);
    assert_eq!(parse_simple_version("1..2"), None);
    assert_eq!(parse_simple_version(".1"), None);
    assert_eq!(parse_simple_version("1."), None);
    assert_eq!(parse_simple_version("1.2.3.4"), None);
    assert_eq!(parse_simple_version("1.2-3"), None);
}

#[test]
fn parse_handles_component_overflow() {
    assert_eq!(
        parse_simple_version("18446744073709551615.0.1"),
        Some(SimpleVersion { major: u64::MAX, minor: 0, patch: 1 })
    );
    assert_eq!(parse_simple_version("18446744073709551616.0.1"), None);
}

#[test]
fn version_order_is_componentwise() {
    let a = SimpleVersion { major: 1, minor: 2, patch: 0 };
    let b = SimpleVersion { major: 2, minor: 0, patch: 0 };
    assert!(a.le(&b));
    assert!(!b.le(&a));
    assert!(a.le(&a));
}
