use vouch_py_lib::errors::ResolutionError;
use vouch_py_lib::extension::PyExtension;
use vouch_py_lib::extension::get_registry_human_url;
use vouch_py_lib::registry::get_archive_url;
use vouch_py_lib::registry::parse_registry_response;
use vouch_py_lib::registry::registry_entry_url;

fn doc(text: &str) -> serde_json::Value {
    serde_json::from_str(text).expect("test document is valid JSON")
}

const TWO_ENTRY_DOC: &str = r#"{
    "releases": {
        "1.0.0": [
            {"python_version": "cp38", "url": "https://example.com/pkg-1.0.0-cp38.whl"},
            {"python_version": "source", "url": "https://example.com/pkg-1.0.0.tar.gz"}
        ]
    }
}"#;

const TWO_ENTRY_DOC_REVERSED: &str = r#"{
    "releases": {
        "1.0.0": [
            {"python_version": "source", "url": "https://example.com/pkg-1.0.0.tar.gz"},
            {"python_version": "cp38", "url": "https://example.com/pkg-1.0.0-cp38.whl"}
        ]
    }
}"#;

#[test]
fn archive_url_is_the_source_distribution() {
    let d = doc(TWO_ENTRY_DOC);
    assert_eq!(
        get_archive_url(&d, "1.0.0").expect("a source distribution is listed"),
        "https://example.com/pkg-1.0.0.tar.gz"
    );
}

#[test]
fn archive_url_ignores_list_order() {
    let d = doc(TWO_ENTRY_DOC_REVERSED);
    assert_eq!(
        get_archive_url(&d, "1.0.0").expect("a source distribution is listed"),
        "https://example.com/pkg-1.0.0.tar.gz"
    );
}

#[test]
fn archive_url_missing_release_list() {
    let d = doc(TWO_ENTRY_DOC);
    assert!(matches!(
        get_archive_url(&d, "9.9.9"),
        Err(ResolutionError::ArtifactNotFound)
    ));
}

#[test]
fn archive_url_no_source_entry() {
    let d = doc(
        r#"{"releases": {"1.0.0": [
            {"python_version": "cp38", "url": "https://example.com/a.whl"},
            {"python_version": "cp39", "url": "https://example.com/b.whl"}
        ]}}"#,
    );
    assert!(matches!(
        get_archive_url(&d, "1.0.0"),
        Err(ResolutionError::ArtifactNotFound)
    ));
}

#[test]
fn archive_url_entry_without_tag_is_malformed() {
    let d = doc(
        r#"{"releases": {"1.0.0": [
            {"url": "https://example.com/a.whl"},
            {"python_version": "source", "url": "https://example.com/a.tar.gz"}
        ]}}"#,
    );
    assert!(matches!(
        get_archive_url(&d, "1.0.0"),
        Err(ResolutionError::MalformedResponse { body }) if body == "1.0.0"
    ));
}

#[test]
fn archive_url_source_without_url_is_malformed() {
    let d = doc(r#"{"releases": {"1.0.0": [{"python_version": "source"}]}}"#);
    assert!(matches!(
        get_archive_url(&d, "1.0.0"),
        Err(ResolutionError::MalformedResponse { body }) if body == "1.0.0"
    ));
}

#[test]
fn archive_url_is_normalized() {
    // The URL crate's serialization lowercases the host: a wrapper that
    // handed its argument back unchanged would fail this.
    let d = doc(r#"{"releases": {"1.0.0": [{"python_version": "source", "url": "https://EXAMPLE.com/pkg.tar.gz"}]}}"#);
    assert_eq!(
        get_archive_url(&d, "1.0.0").expect("a source distribution is listed"),
        "https://example.com/pkg.tar.gz"
    );
}

#[test]
fn malformed_response_carries_the_body() {
    let body = "not json at all {{{".to_string();
    match parse_registry_response(body.clone()) {
        Err(ResolutionError::MalformedResponse { body: b }) => assert_eq!(b, body),
        _ => panic!("expected a malformed-response failure"),
    }
}

#[test]
fn well_formed_response_parses() {
    assert!(parse_registry_response("{\"releases\": {}}".to_string()).is_ok());
}

#[test]
fn human_url_round_trip() {
    let extension = PyExtension::new();
    let human = get_registry_human_url(&extension, "numpy", "1.18.5")
        .expect("the configured template renders a valid URL");
    assert_eq!(human, "https://pypi.org/pypi/numpy/1.18.5/");
    assert!(url::Url::parse(&human).is_ok());
}

#[test]
fn entry_url_substitutes_the_package_name() {
    assert_eq!(
        registry_entry_url("numpy").expect("the endpoint template renders"),
        "https://pypi.org/pypi/numpy/json"
    );
}

#[test]
fn resolver_with_explicit_version() {
    let extension = PyExtension::new();
    let d = doc(TWO_ENTRY_DOC);
    let records = extension
        .registries_package_metadata("pkg", &Some("1.0.0"), &d)
        .expect("the document has a source distribution");
    assert_eq!(records.len(), 1);
    assert_eq!(records[0].registry_host_name, "pypi.org");
    assert_eq!(records[0].human_url, "https://pypi.org/pypi/pkg/1.0.0/");
    assert_eq!(
        records[0].artifact_url,
        "https://example.com/pkg-1.0.0.tar.gz"
    );
    assert!(records[0].is_primary);
    assert_eq!(records[0].package_version, "1.0.0");
}

#[test]
fn resolver_picks_latest_when_no_version_given() {
    let extension = PyExtension::new();
    let d = doc(
        r#"{"releases": {
            "1.0.0": [{"python_version": "source", "url": "https://example.com/pkg-1.0.0.tar.gz"}],
            "2.0": [{"python_version": "source", "url": "https://example.com/pkg-2.0.tar.gz"}],
            "2.1rc1": [{"python_version": "source", "url": "https://example.com/pkg-2.1rc1.tar.gz"}]
        }}"#,
    );
    let records = extension
        .registries_package_metadata("pkg", &None, &d)
        .expect("an eligible version exists");
    assert_eq!(records[0].package_version, "2.0");
    assert_eq!(records[0].artifact_url, "https://example.com/pkg-2.0.tar.gz");
    assert_eq!(records[0].human_url, "https://pypi.org/pypi/pkg/2.0/");
}

#[test]
fn resolver_version_not_found() {
    let extension = PyExtension::new();
    let d = doc(r#"{"releases": {"rc1": [], "beta": [], "": []}}"#);
    assert!(matches!(
        extension.registries_package_metadata("pkg", &None, &d),
        Err(ResolutionError::VersionNotFound)
    ));
}

#[test]
fn resolver_missing_releases_table_is_malformed() {
    let extension = PyExtension::new();
    let d = doc(r#"{"info": {}}"#);
    assert!(matches!(
        extension.registries_package_metadata("pkg", &None, &d),
        Err(ResolutionError::MalformedResponse { body }) if body == "pkg"
    ));
}

#[test]
fn resolver_takes_explicit_version_verbatim() {
    // An explicit version is not validated against the published list;
    // its absence shows up only at artifact extraction.
    let extension = PyExtension::new();
    let d = doc(TWO_ENTRY_DOC);
    assert!(matches!(
        extension.registries_package_metadata("pkg", &Some("3.1.4"), &d),
        Err(ResolutionError::ArtifactNotFound)
    ));
}
