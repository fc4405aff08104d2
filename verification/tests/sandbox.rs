use bnlc_mod_loader::error::BridgeError;
use bnlc_mod_loader::path::{check_parts, sandbox, Part};

/// `path`, written with `/`, in the separators of this system.
fn native(path: &str) -> String {
    path.replace('/', std::path::MAIN_SEPARATOR_STR)
}

fn accepted(path: &str) -> String {
    match sandbox(path) {
        Ok(p) => p.as_str().to_string(),
        Err(e) => panic!("{:?} was turned down: {:?}", path, e),
    }
}

fn rejected(path: &str) -> bool {
    matches!(sandbox(path), Err(BridgeError::SandboxViolation))
}

#[test]
fn plain_relative_path_is_kept() {
    assert_eq!(accepted("scripts/init.lua"), native("scripts/init.lua"));
    assert_eq!(accepted("file.txt"), native("file.txt"));
}

#[test]
fn current_directory_segments_are_removed() {
    assert_eq!(accepted("./test"), native("test"));
    assert_eq!(accepted("./test/./path"), native("test/path"));
    assert_eq!(accepted("test/path/."), native("test/path"));
    assert_eq!(accepted("././/./"), native("."));
}

#[test]
fn repeated_separators_are_reduced() {
    assert_eq!(accepted("path//to///thing"), native("path/to/thing"));
    assert_eq!(accepted("dir/"), native("dir"));
}

#[test]
fn parent_segments_collapse_toward_the_root() {
    assert_eq!(accepted("test/path/.."), native("test"));
    assert_eq!(accepted("test/../path"), native("path"));
    assert_eq!(accepted("test/path/../../another/path"), native("another/path"));
    assert_eq!(accepted("test/path/../../another/path/.."), native("another"));
    assert_eq!(accepted("a/./b/../c"), native("a/c"));
}

#[test]
fn path_that_collapses_to_nothing_is_the_directory_itself() {
    assert_eq!(accepted(""), native("."));
    assert_eq!(accepted("."), native("."));
    assert_eq!(accepted("test/.."), native("."));
    assert_eq!(accepted("test/path/../../"), native("."));
}

#[test]
fn leading_parent_segment_is_turned_down() {
    assert!(rejected(".."));
    assert!(rejected("../test"));
    assert!(rejected("../test/path"));
    assert!(rejected("../test/.."));
    assert!(rejected("..//"));
}

#[test]
fn escape_through_the_middle_is_turned_down() {
    assert!(rejected("../../etc/passwd"));
    assert!(rejected("a/../../b"));
    assert!(rejected("a/../../x"));
    assert!(rejected("foo/../../bar"));
}

#[test]
fn several_and_mixed_parent_segments() {
    assert!(rejected("test/path/../../.."));
    assert!(rejected("test/path/../../../.."));
    assert!(rejected("a/b/../../../c/../.."));
    assert!(rejected("./a/./../.././b"));
    assert_eq!(accepted("a/b/../../c"), native("c"));
    assert_eq!(accepted("a/b/c/../../../d"), native("d"));
    assert_eq!(accepted("a/../b/../c/.."), native("."));
}

#[test]
fn name_that_only_begins_with_dots_is_a_name() {
    assert_eq!(accepted("..hidden"), native("..hidden"));
    assert_eq!(accepted("...."), native("...."));
    assert_eq!(accepted("a/.../b"), native("a/.../b"));
}

#[test]
fn rooted_path_is_turned_down() {
    assert!(rejected("/etc/passwd"));
    assert!(rejected("/"));
    assert!(rejected("/../test"));
    assert!(rejected("/test/path/../../.."));
    assert!(rejected("//mods/other/init.lua"));
    assert!(rejected("/./a"));
}

#[test]
fn rule_on_parts_rejects_a_leading_parent() {
    assert!(matches!(
        check_parts(&vec![Part::ParentDir]),
        Err(BridgeError::SandboxViolation)
    ));
    assert!(matches!(
        check_parts(&vec![Part::ParentDir, Part::Normal]),
        Err(BridgeError::SandboxViolation)
    ));
    assert!(check_parts(&vec![]).is_ok());
    assert!(check_parts(&vec![Part::CurDir]).is_ok());
    assert!(check_parts(&vec![Part::Normal, Part::Normal]).is_ok());
    assert!(check_parts(&vec![Part::Normal, Part::ParentDir]).is_ok());
}

#[test]
fn rule_on_parts_rejects_a_leading_root_or_prefix() {
    assert!(matches!(
        check_parts(&vec![Part::RootDir, Part::Normal]),
        Err(BridgeError::SandboxViolation)
    ));
    assert!(matches!(check_parts(&vec![Part::RootDir]), Err(BridgeError::SandboxViolation)));
    assert!(matches!(
        check_parts(&vec![Part::Prefix, Part::RootDir, Part::Normal]),
        Err(BridgeError::SandboxViolation)
    ));
    assert!(matches!(
        check_parts(&vec![Part::Prefix, Part::Normal]),
        Err(BridgeError::SandboxViolation)
    ));
    assert!(check_parts(&vec![Part::CurDir, Part::RootDir]).is_ok());
}

#[test]
fn accepted_relative_path_holds_no_parent_segment() {
    let inputs = [
        "a", "a/b", "./a", "a/..", "a/../b", "a/b/../..", "a/b/../../c", "x/./y/../z/..",
        "", ".", "a//b", "a/b/c/../../d/../e", "..a/b..", "a/.../..",
    ];
    for input in inputs {
        let text = accepted(input);
        assert!(
            text.split(std::path::MAIN_SEPARATOR).all(|segment| segment != ".."),
            "{:?} gave {:?}",
            input,
            text
        );
        assert!(!text.starts_with(std::path::MAIN_SEPARATOR));
    }
}
