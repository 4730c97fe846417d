use backupkern::paths::path_join;
use backupkern::paths::path_starts_with;
use backupkern::paths::strip_path_prefix;

#[test]
fn prefix_of_itself() {
    let p = b"/home/user/file".to_vec();
    assert!(path_starts_with(&p, &p));
}

#[test]
fn prefix_at_component_boundary() {
    let p = b"/home/user/docs/file.txt".to_vec();
    let pre = b"/home/user".to_vec();
    assert!(path_starts_with(&p, &pre));
}

#[test]
fn prefix_any_depth() {
    let p = b"/ex/a/b/c/d/e.txt".to_vec();
    let pre = b"/ex".to_vec();
    assert!(path_starts_with(&p, &pre));
}

#[test]
fn byte_prefix_without_boundary_is_no_path_prefix() {
    let p = b"/home/username".to_vec();
    let pre = b"/home/user".to_vec();
    assert!(!path_starts_with(&p, &pre));
}

#[test]
fn prefix_with_trailing_separator() {
    let p = b"/home/user/file".to_vec();
    let pre = b"/home/user/".to_vec();
    assert!(path_starts_with(&p, &pre));
}

#[test]
fn unrelated_path_is_no_prefix() {
    let p = b"/var/log/syslog".to_vec();
    let pre = b"/home".to_vec();
    assert!(!path_starts_with(&p, &pre));
}

#[test]
fn longer_is_no_prefix_of_shorter() {
    let p = b"/a".to_vec();
    let pre = b"/a/b".to_vec();
    assert!(!path_starts_with(&p, &pre));
}

#[test]
fn join_inserts_separator() {
    let root = b"/backup/run1".to_vec();
    let suffix = b"sub/file".to_vec();
    assert_eq!(path_join(&root, &suffix), b"/backup/run1/sub/file".to_vec());
}

#[test]
fn join_keeps_single_separator() {
    let root = b"/backup/".to_vec();
    let suffix = b"file".to_vec();
    assert_eq!(path_join(&root, &suffix), b"/backup/file".to_vec());
}

#[test]
fn strip_returns_suffix() {
    let p = b"/src/sub/file.txt".to_vec();
    let root = b"/src".to_vec();
    assert_eq!(strip_path_prefix(&p, &root), Some(b"sub/file.txt".to_vec()));
}

#[test]
fn strip_of_equal_path_is_empty() {
    let p = b"/src".to_vec();
    assert_eq!(strip_path_prefix(&p, &p), Some(Vec::new()));
}

#[test]
fn strip_outside_root_fails() {
    let p = b"/elsewhere/file".to_vec();
    let root = b"/src".to_vec();
    assert_eq!(strip_path_prefix(&p, &root), None);
}

#[test]
fn strip_then_join_restores_path() {
    let p = b"/src/a/b/c.txt".to_vec();
    let root = b"/src".to_vec();
    let suffix = strip_path_prefix(&p, &root).unwrap();
    assert_eq!(path_join(&root, &suffix), p);
}
