use vouch_py_lib::locator::DependencyFileType;
use vouch_py_lib::locator::dependency_file_types;
use vouch_py_lib::locator::identify_dependency_files;

fn components(items: &[&str]) -> Vec<String> {
    items.iter().map(|s| s.to_string()).collect()
}

#[test]
fn file_name() {
    assert_eq!(
        DependencyFileType::PipfileLock.file_name(),
        "Pipfile.lock".to_string()
    );
}

#[test]
fn one_recognized_file_kind() {
    let kinds = dependency_file_types();
    assert_eq!(kinds.len(), 1);
    assert!(matches!(kinds[0], DependencyFileType::PipfileLock));
}

#[test]
fn locator_finds_file_in_start_directory() {
    let wd = components(&["home", "user", "proj"]);
    let present = vec![vec![true], vec![false], vec![false], vec![false]];
    let found = identify_dependency_files(&wd, &present).expect("a file was present");
    assert_eq!(found.len(), 1);
    assert!(matches!(found[0].file_type, DependencyFileType::PipfileLock));
    assert_eq!(
        found[0].path,
        components(&["home", "user", "proj", "Pipfile.lock"])
    );
}

#[test]
fn locator_nearest_level_wins() {
    // Starting at /a/b/c with a lockfile at /a/b and another at /a: only
    // the nearer level's file is returned.
    let wd = components(&["a", "b", "c"]);
    let present = vec![vec![false], vec![true], vec![true], vec![false]];
    let found = identify_dependency_files(&wd, &present).expect("an ancestor level matched");
    assert_eq!(found.len(), 1);
    assert_eq!(found[0].path, components(&["a", "b", "Pipfile.lock"]));
}

#[test]
fn locator_idempotent_on_fixed_tree() {
    let wd = components(&["a", "b", "c"]);
    let present = vec![vec![false], vec![true], vec![false], vec![false]];
    let first = identify_dependency_files(&wd, &present).expect("a level matched");
    let second = identify_dependency_files(&wd, &present).expect("a level matched");
    assert_eq!(first.len(), second.len());
    for (a, b) in first.iter().zip(second.iter()) {
        assert_eq!(a.path, b.path);
        assert!(a.file_type == b.file_type);
    }
}

#[test]
fn locator_not_found_at_root_after_single_check() {
    let wd: Vec<String> = Vec::new();
    let present = vec![vec![false]];
    assert!(identify_dependency_files(&wd, &present).is_none());
}

#[test]
fn locator_not_found_anywhere() {
    let wd = components(&["a", "b"]);
    let present = vec![vec![false], vec![false], vec![false]];
    assert!(identify_dependency_files(&wd, &present).is_none());
}
