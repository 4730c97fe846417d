use backupkern::compare::FileMeta;
use backupkern::compare::ModTime;
use backupkern::compare::files_equal;

fn meta(size: u64, mode: u32, secs: i64) -> FileMeta {
    FileMeta {
        is_file: true,
        name: b"a.txt".to_vec(),
        size,
        mode,
        mtime: Some(ModTime { secs, nanos: 0 }),
    }
}

#[test]
fn identical_metadata_is_equal() {
    assert!(files_equal(&meta(100, 0o644, 1_000), &meta(100, 0o644, 1_000)));
}

#[test]
fn size_difference_is_changed() {
    assert!(!files_equal(&meta(100, 0o644, 1_000), &meta(101, 0o644, 1_000)));
}

#[test]
fn permission_difference_is_changed() {
    assert!(!files_equal(&meta(100, 0o644, 1_000), &meta(100, 0o600, 1_000)));
}

#[test]
fn mtime_difference_is_changed() {
    assert!(!files_equal(&meta(100, 0o644, 1_000), &meta(100, 0o644, 1_001)));
}

#[test]
fn mtime_nanos_difference_is_changed() {
    let a = meta(100, 0o644, 1_000);
    let mut b = meta(100, 0o644, 1_000);
    b.mtime = Some(ModTime { secs: 1_000, nanos: 1 });
    assert!(!files_equal(&a, &b));
}

#[test]
fn name_difference_is_changed() {
    let a = meta(100, 0o644, 1_000);
    let mut b = meta(100, 0o644, 1_000);
    b.name = b"b.txt".to_vec();
    assert!(!files_equal(&a, &b));
}

#[test]
fn non_file_is_changed() {
    let a = meta(100, 0o644, 1_000);
    let mut b = meta(100, 0o644, 1_000);
    b.is_file = false;
    assert!(!files_equal(&a, &b));
    assert!(!files_equal(&b, &a));
}

#[test]
fn unreadable_mtime_is_changed() {
    let a = meta(100, 0o644, 1_000);
    let mut b = meta(100, 0o644, 1_000);
    b.mtime = None;
    assert!(!files_equal(&a, &b));
    assert!(!files_equal(&b, &a));
    assert!(!files_equal(&b, &b));
}
