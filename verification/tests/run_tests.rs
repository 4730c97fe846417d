//! Two consecutive runs over a small source tree, played through the
//! planning functions: the first run copies everything, the second hard-links
//! the untouched file and copies the appended one.

use backupkern::compare::FileMeta;
use backupkern::compare::ModTime;
use backupkern::config::Config;
use backupkern::config::ExcludeOptions;
use backupkern::engine::Action;
use backupkern::engine::EntryPlan;
use backupkern::engine::materialize_action;
use backupkern::engine::plan_entry;
use backupkern::engine::select_destination;
use backupkern::generation::get_latest_backup;
use backupkern::paths::path_join;
use backupkern::snapshot::Timestamp;
use backupkern::snapshot::snapshot_name;

fn meta(name: &[u8], size: u64, secs: i64) -> FileMeta {
    FileMeta {
        is_file: true,
        name: name.to_vec(),
        size,
        mode: 0o644,
        mtime: Some(ModTime { secs, nanos: 0 }),
    }
}

fn config() -> Config {
    Config {
        from: b"/src".to_vec(),
        to: vec![b"/dest".to_vec()],
        prefix: b"prefix".to_vec(),
        exclude: ExcludeOptions { locations: Vec::new() },
    }
}

#[test]
fn two_runs_link_the_unchanged_and_copy_the_changed() {
    let cfg = config();
    let is_dir = vec![true];

    // First run: the destination is empty, so there is no prior generation.
    let root_index = select_destination(&cfg.to, &is_dir).unwrap();
    let ts1 = Timestamp { year: 2023, month: 1, day: 1, hour: 0, minute: 0, second: 0 };
    let name1 = snapshot_name(&cfg.prefix, &ts1);
    let new_root1 = path_join(&cfg.to[root_index], &name1);
    assert_eq!(new_root1, b"/dest/prefix_2023-01-01_00-00-00".to_vec());
    let latest1 = get_latest_backup(&Vec::new());
    assert_eq!(latest1, None);

    let a_meta_1 = meta(b"a.txt", 100, 1_000);
    let b_meta_1 = meta(b"b.txt", 10, 1_000);

    for (path, source) in [
        (b"/src/a.txt".to_vec(), &a_meta_1),
        (b"/src/sub/b.txt".to_vec(), &b_meta_1),
    ] {
        match plan_entry(&cfg, &new_root1, &latest1, &path, false) {
            EntryPlan::Materialize { candidate, .. } => {
                assert_eq!(candidate, None);
                // No prior generation: a physical copy, never a link.
                assert_eq!(materialize_action(&None, source), Action::Copy);
            }
            _ => panic!("expected a materialize plan"),
        }
    }

    // Second run: a.txt is untouched, b.txt was appended to.
    let children = vec![new_root1.clone()];
    let ts2 = Timestamp { year: 2023, month: 1, day: 2, hour: 0, minute: 0, second: 0 };
    let name2 = snapshot_name(&cfg.prefix, &ts2);
    let new_root2 = path_join(&cfg.to[root_index], &name2);
    let latest2 = get_latest_backup(&children);
    assert_eq!(latest2, Some(new_root1.clone()));

    let a_plan = plan_entry(&cfg, &new_root2, &latest2, &b"/src/a.txt".to_vec(), false);
    match a_plan {
        EntryPlan::Materialize { dest, candidate, .. } => {
            assert_eq!(dest, b"/dest/prefix_2023-01-02_00-00-00/a.txt".to_vec());
            assert_eq!(
                candidate,
                Some(b"/dest/prefix_2023-01-01_00-00-00/a.txt".to_vec())
            );
            // The prior file has identical metadata: hard link.
            let prior = Some(meta(b"a.txt", 100, 1_000));
            assert_eq!(materialize_action(&prior, &meta(b"a.txt", 100, 1_000)), Action::HardLink);
        }
        _ => panic!("expected a materialize plan"),
    }

    let b_plan = plan_entry(&cfg, &new_root2, &latest2, &b"/src/sub/b.txt".to_vec(), false);
    match b_plan {
        EntryPlan::Materialize { dest, candidate, .. } => {
            assert_eq!(dest, b"/dest/prefix_2023-01-02_00-00-00/sub/b.txt".to_vec());
            assert_eq!(
                candidate,
                Some(b"/dest/prefix_2023-01-01_00-00-00/sub/b.txt".to_vec())
            );
            // b.txt grew: the sizes differ, so a fresh copy is made.
            let prior = Some(meta(b"b.txt", 10, 1_000));
            assert_eq!(materialize_action(&prior, &meta(b"b.txt", 25, 2_000)), Action::Copy);
        }
        _ => panic!("expected a materialize plan"),
    }
}
