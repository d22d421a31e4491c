use sendme_egui::error::TransferError;
use sendme_egui::paths::{
    canonicalized_path_to_string, contains_separator, get_export_path, join_path, split_name,
    validate_path, validate_path_component, PathPart,
};

fn normal(text: &str) -> PathPart {
    PathPart::Normal(text.to_string())
}

#[test]
fn component_without_separator_is_accepted() {
    assert_eq!(validate_path_component("a.txt"), Ok(()));
    assert_eq!(validate_path_component(""), Ok(()));
    assert_eq!(validate_path_component("..."), Ok(()));
    assert_eq!(validate_path_component(".hidden"), Ok(()));
}

#[test]
fn component_with_separator_is_rejected() {
    assert_eq!(
        validate_path_component("a/b"),
        Err(TransferError::InvalidPathComponent("a/b".to_string()))
    );
    assert_eq!(
        validate_path_component("a\\b"),
        Err(TransferError::InvalidPathComponent("a\\b".to_string()))
    );
}

#[test]
fn dot_components_are_rejected() {
    assert_eq!(
        validate_path_component("."),
        Err(TransferError::InvalidPathComponent(".".to_string()))
    );
    assert_eq!(
        validate_path_component(".."),
        Err(TransferError::InvalidPathComponent("..".to_string()))
    );
}

#[test]
fn separators_are_found() {
    assert!(contains_separator("a/b"));
    assert!(contains_separator("\\"));
    assert!(!contains_separator("abc"));
    assert!(!contains_separator(""));
}

#[test]
fn names_split_at_slashes() {
    assert_eq!(split_name("a/b/c.txt"), vec!["a", "b", "c.txt"]);
    assert_eq!(split_name("a.txt"), vec!["a.txt"]);
    assert_eq!(split_name(""), vec![""]);
    assert_eq!(split_name("a/"), vec!["a", ""]);
    assert_eq!(split_name("/a"), vec!["", "a"]);
    assert_eq!(split_name("a//b"), vec!["a", "", "b"]);
    assert_eq!(split_name("é/ü"), vec!["é", "ü"]);
}

#[test]
fn valid_names_pass_validation() {
    assert_eq!(validate_path("a.txt"), Ok(()));
    assert_eq!(validate_path("b/c.txt"), Ok(()));
    assert_eq!(validate_path("dir/sub/file"), Ok(()));
    assert_eq!(validate_path("a//b"), Ok(()));
}

#[test]
fn names_with_dot_segments_fail_validation() {
    assert_eq!(
        validate_path("a/../b"),
        Err(TransferError::InvalidPathComponent("..".to_string()))
    );
    assert_eq!(
        validate_path("./a"),
        Err(TransferError::InvalidPathComponent(".".to_string()))
    );
    assert_eq!(
        validate_path("../../etc/passwd"),
        Err(TransferError::InvalidPathComponent("..".to_string()))
    );
}

#[test]
fn names_with_backslash_fail_validation() {
    assert_eq!(
        validate_path("a/b\\c/d"),
        Err(TransferError::InvalidPathComponent("b\\c".to_string()))
    );
}

#[test]
fn validation_reports_the_leftmost_unsafe_segment() {
    assert_eq!(
        validate_path("ok/./x\\y/.."),
        Err(TransferError::InvalidPathComponent(".".to_string()))
    );
}

#[test]
fn paths_are_joined_with_one_slash() {
    assert_eq!(join_path("/tmp", "a"), "/tmp/a");
    assert_eq!(join_path("/tmp/", "a"), "/tmp/a");
    assert_eq!(join_path("", "a"), "a");
    assert_eq!(join_path("/", "a"), "/a");
    assert_eq!(join_path("/tmp", ""), "/tmp/");
}

#[test]
fn export_path_lies_below_the_root() {
    assert_eq!(get_export_path("/downloads", "a.txt"), Ok("/downloads/a.txt".to_string()));
    assert_eq!(get_export_path("/downloads", "b/c.txt"), Ok("/downloads/b/c.txt".to_string()));
    assert_eq!(get_export_path("/downloads/", "b/c.txt"), Ok("/downloads/b/c.txt".to_string()));
    assert_eq!(get_export_path("", "b/c.txt"), Ok("b/c.txt".to_string()));
}

#[test]
fn export_path_of_an_unsafe_name_is_refused() {
    assert_eq!(
        get_export_path("/downloads", "../secret"),
        Err(TransferError::InvalidPathComponent("..".to_string()))
    );
    assert_eq!(
        get_export_path("/downloads", "a/b\\c"),
        Err(TransferError::InvalidPathComponent("b\\c".to_string()))
    );
}

#[test]
fn relative_components_spell_a_name() {
    let parts = vec![normal("b"), normal("c.txt")];
    assert_eq!(canonicalized_path_to_string(&parts, true), Ok("b/c.txt".to_string()));
    assert_eq!(canonicalized_path_to_string(&vec![normal("a.txt")], true), Ok("a.txt".to_string()));
    assert_eq!(canonicalized_path_to_string(&vec![], true), Ok(String::new()));
}

#[test]
fn root_is_kept_where_absolute_paths_are_admitted() {
    let parts = vec![PathPart::RootDir, normal("usr"), normal("lib")];
    assert_eq!(canonicalized_path_to_string(&parts, false), Ok("/usr/lib".to_string()));
    assert_eq!(
        canonicalized_path_to_string(&parts, true),
        Err(TransferError::InvalidPathComponent("/".to_string()))
    );
}

#[test]
fn special_components_are_refused() {
    assert_eq!(
        canonicalized_path_to_string(&vec![normal("a"), PathPart::ParentDir], true),
        Err(TransferError::InvalidPathComponent("..".to_string()))
    );
    assert_eq!(
        canonicalized_path_to_string(&vec![PathPart::CurDir, normal("a")], false),
        Err(TransferError::InvalidPathComponent(".".to_string()))
    );
    assert_eq!(
        canonicalized_path_to_string(&vec![PathPart::Prefix("C:".to_string())], false),
        Err(TransferError::InvalidPathComponent("C:".to_string()))
    );
    assert_eq!(
        canonicalized_path_to_string(&vec![PathPart::NotUnicode("f\u{fffd}".to_string())], true),
        Err(TransferError::InvalidPathComponent("f\u{fffd}".to_string()))
    );
}

#[test]
fn components_with_separators_are_refused() {
    assert_eq!(
        canonicalized_path_to_string(&vec![normal("a"), normal("b/c")], true),
        Err(TransferError::InvalidPathComponent("b/c".to_string()))
    );
    assert_eq!(
        canonicalized_path_to_string(&vec![normal("a\\b")], true),
        Err(TransferError::InvalidPathComponent("a\\b".to_string()))
    );
}

#[test]
fn the_leftmost_refused_component_is_reported() {
    let parts = vec![normal("ok"), PathPart::CurDir, PathPart::ParentDir];
    assert_eq!(
        canonicalized_path_to_string(&parts, true),
        Err(TransferError::InvalidPathComponent(".".to_string()))
    );
}

#[test]
fn valid_name_survives_split_and_join() {
    for name in ["a.txt", "b/c.txt", "x/y/z", "with space/ü.bin"] {
        assert_eq!(validate_path(name), Ok(()));
        let parts: Vec<PathPart> = split_name(name).into_iter().map(PathPart::Normal).collect();
        assert_eq!(canonicalized_path_to_string(&parts, true), Ok(name.to_string()));
    }
}
