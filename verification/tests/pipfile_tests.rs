use vouch_py_lib::errors::ResolutionError;
use vouch_py_lib::extension::PyExtension;
use vouch_py_lib::pipfile::get_dependencies;
use vouch_py_lib::pipfile::get_registry_host_name;
use vouch_py_lib::pipfile::normalize_version;
use vouch_py_lib::pipfile::parse_lockfile;

fn components(items: &[&str]) -> Vec<String> {
    items.iter().map(|s| s.to_string()).collect()
}

#[test]
fn registry_host_name_is_fixed() {
    assert_eq!(get_registry_host_name(), "pypi.org");
}

#[test]
fn normalize_strips_exact_version_operator() {
    assert_eq!(normalize_version("==1.18.5"), "1.18.5");
    assert_eq!(normalize_version("1.18.5"), "1.18.5");
    assert_eq!(normalize_version("=="), "");
    assert_eq!(normalize_version(""), "");
    assert_eq!(normalize_version(">=1.0"), ">=1.0");
}

#[test]
fn lockfile_dependencies_are_read_and_normalized() {
    let doc = parse_lockfile(
        r#"{"default": {"numpy": {"version": "==1.18.5"}, "requests": {"version": "==2.23.0"}}}"#,
    )
    .expect("the lockfile body is valid JSON");
    let deps = get_dependencies(&doc).expect("every entry has a version");
    // serde_json hands object entries out sorted by key.
    assert_eq!(deps.len(), 2);
    assert_eq!(deps[0].name, "numpy");
    assert_eq!(deps[0].version, "1.18.5");
    assert_eq!(deps[1].name, "requests");
    assert_eq!(deps[1].version, "2.23.0");
}

#[test]
fn lockfile_that_is_not_json_is_malformed_input() {
    let content = "certainly not json";
    match parse_lockfile(content) {
        Err(ResolutionError::MalformedInput { detail }) => assert_eq!(detail, content),
        _ => panic!("expected malformed input"),
    }
}

#[test]
fn lockfile_without_default_table_is_malformed_input() {
    let doc = parse_lockfile(r#"{"develop": {}}"#).expect("valid JSON");
    match get_dependencies(&doc) {
        Err(ResolutionError::MalformedInput { detail }) => assert_eq!(detail, "default"),
        _ => panic!("expected malformed input"),
    }
}

#[test]
fn lockfile_entry_without_version_is_malformed_input() {
    let doc = parse_lockfile(r#"{"default": {"numpy": {"hashes": []}}}"#).expect("valid JSON");
    match get_dependencies(&doc) {
        Err(ResolutionError::MalformedInput { detail }) => assert_eq!(detail, "numpy"),
        _ => panic!("expected malformed input"),
    }
}

#[test]
fn empty_default_table_declares_nothing() {
    let doc = parse_lockfile(r#"{"default": {}}"#).expect("valid JSON");
    let deps = get_dependencies(&doc).expect("an empty table reads cleanly");
    assert!(deps.is_empty());
}

#[test]
fn extension_configuration() {
    let extension = PyExtension::new();
    assert_eq!(extension.name(), "py");
    assert_eq!(extension.registries(), vec!["pypi.org".to_string()]);
}

#[test]
fn file_defined_dependencies_end_to_end() {
    let extension = PyExtension::new();
    let wd = components(&["home", "user", "proj"]);
    let present = vec![vec![true], vec![false], vec![false], vec![false]];
    let doc = parse_lockfile(r#"{"default": {"numpy": {"version": "==1.18.5"}}}"#)
        .expect("valid JSON");
    let records = extension
        .identify_file_defined_dependencies(&wd, &present, &vec![doc])
        .expect("the one located file reads cleanly");
    assert_eq!(records.len(), 1);
    assert_eq!(
        records[0].path,
        components(&["home", "user", "proj", "Pipfile.lock"])
    );
    assert_eq!(records[0].registry_host_name, "pypi.org");
    assert_eq!(records[0].dependencies.len(), 1);
    assert_eq!(records[0].dependencies[0].name, "numpy");
    assert_eq!(records[0].dependencies[0].version, "1.18.5");
}

#[test]
fn file_defined_dependencies_without_located_file() {
    let extension = PyExtension::new();
    let wd = components(&["home"]);
    let present = vec![vec![false], vec![false]];
    let records = extension
        .identify_file_defined_dependencies(&wd, &present, &Vec::new())
        .expect("no located file is not a failure");
    assert!(records.is_empty());
}

#[test]
fn file_defined_dependencies_first_bad_file_fails() {
    let extension = PyExtension::new();
    let wd = components(&["home"]);
    let present = vec![vec![true], vec![false]];
    let doc = parse_lockfile(r#"{"default": {"numpy": {}}}"#).expect("valid JSON");
    match extension.identify_file_defined_dependencies(&wd, &present, &vec![doc]) {
        Err(ResolutionError::MalformedInput { detail }) => assert_eq!(detail, "numpy"),
        _ => panic!("expected malformed input"),
    }
}
