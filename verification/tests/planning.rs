use repo_executor::errors::DeployError;
use repo_executor::marker::{Admin, Revision};
use repo_executor::plan::{non_deleted_paths, plan_deploy, ChangeKind, DiffEntry, Mode, PlanStep};
use repo_executor::staging::materialize;
use repo_executor::transfer::{join_path, parent_dir, transfer_plan, ProgressReporter, TransferOp};

fn marker_at(revision: &str) -> Revision {
    Revision {
        admin: Admin {
            revision: String::from(revision),
            previous: String::from(revision),
            branch: String::from("master"),
        },
    }
}

#[test]
fn full_mode_ignores_marker() {
    let head = String::from("abc123");
    let r = plan_deploy(Mode::Full, &head, &None);
    assert!(matches!(r, Ok(PlanStep::Snapshot)));
    let r = plan_deploy(Mode::Full, &head, &Some(marker_at("abc123")));
    assert!(matches!(r, Ok(PlanStep::Snapshot)));
}

#[test]
fn incremental_without_marker_is_unavailable() {
    let head = String::from("abc123");
    let r = plan_deploy(Mode::Incremental, &head, &None);
    assert!(matches!(r, Err(DeployError::RevisionUnavailable)));
}

#[test]
fn equal_head_and_marker_is_no_changes() {
    let head = String::from("abc123");
    let r = plan_deploy(Mode::Incremental, &head, &Some(marker_at("abc123")));
    assert!(matches!(r, Ok(PlanStep::NoChanges)));
}

#[test]
fn differing_marker_requests_diff_from_it() {
    let head = String::from("abc123");
    let r = plan_deploy(Mode::Incremental, &head, &Some(marker_at("abc000")));
    match r {
        Ok(PlanStep::Diff { from }) => assert_eq!(from, "abc000"),
        other => panic!("expected a diff request, got {:?}", other),
    }
}

#[test]
fn deletions_never_enter_the_plan() {
    let diff = vec![
        DiffEntry { path: String::from("src/x.txt"), kind: ChangeKind::Modified },
        DiffEntry { path: String::from("README.md"), kind: ChangeKind::Added },
        DiffEntry { path: String::from("old.txt"), kind: ChangeKind::Deleted },
        DiffEntry { path: String::from("docs/a.md"), kind: ChangeKind::Renamed },
    ];
    let kept = non_deleted_paths(&diff);
    assert_eq!(kept, vec!["src/x.txt", "README.md", "docs/a.md"]);
}

#[test]
fn empty_diff_keeps_nothing() {
    let kept = non_deleted_paths(&Vec::new());
    assert!(kept.is_empty());
}

#[test]
fn staged_tree_is_plan_plus_marker() {
    let paths = vec![String::from("src/x.txt"), String::from("README.md")];
    let tree = materialize(&paths, marker_at("abc123"));
    assert_eq!(tree.files, vec!["src/x.txt", "README.md", "revision.json"]);
    assert_eq!(tree.marker.admin.revision, "abc123");
}

#[test]
fn empty_plan_stages_only_the_marker() {
    let tree = materialize(&Vec::new(), marker_at("abc123"));
    assert_eq!(tree.files, vec!["revision.json"]);
}

#[test]
fn transfer_ops_pair_each_file_with_its_parent_dir() {
    let files = vec![String::from("a.txt"), String::from("src/x.txt")];
    let root = String::from("/var/www");
    let ops = transfer_plan(&files, &root);
    assert_eq!(ops.len(), 4);
    match &ops[0] {
        TransferOp::EnsureDir { dir } => assert_eq!(dir, "/var/www"),
        other => panic!("expected a directory op, got {:?}", other),
    }
    match &ops[1] {
        TransferOp::SendFile { local, remote } => {
            assert_eq!(local, "a.txt");
            assert_eq!(remote, "/var/www/a.txt");
        },
        other => panic!("expected a send op, got {:?}", other),
    }
    match &ops[2] {
        TransferOp::EnsureDir { dir } => assert_eq!(dir, "/var/www/src"),
        other => panic!("expected a directory op, got {:?}", other),
    }
    match &ops[3] {
        TransferOp::SendFile { local, remote } => {
            assert_eq!(local, "src/x.txt");
            assert_eq!(remote, "/var/www/src/x.txt");
        },
        other => panic!("expected a send op, got {:?}", other),
    }
}

#[test]
fn every_send_follows_a_dir_op_for_its_parent() {
    let files = vec![
        String::from("revision.json"),
        String::from("deep/nested/dir/file.bin"),
        String::from("deep/other.txt"),
    ];
    let root = String::from("/srv/app");
    let ops = transfer_plan(&files, &root);
    let mut ensured: Vec<String> = Vec::new();
    for op in &ops {
        match op {
            TransferOp::EnsureDir { dir } => ensured.push(dir.clone()),
            TransferOp::SendFile { remote, .. } => {
                let parent = &remote[..remote.rfind('/').expect("remote path has a slash")];
                assert!(
                    ensured.iter().any(|d| d == parent),
                    "no directory op for {} before sending {}",
                    parent,
                    remote
                );
            },
        }
    }
}

#[test]
fn path_helpers_join_and_split_on_slashes() {
    assert_eq!(join_path("/var/www", "src/x.txt"), "/var/www/src/x.txt");
    assert_eq!(join_path("", "a"), "/a");
    assert_eq!(parent_dir("/var/www/src/x.txt").as_deref(), Some("/var/www/src"));
    assert_eq!(parent_dir("/a").as_deref(), Some(""));
    assert_eq!(parent_dir("no-slash"), None);
}

#[test]
fn progress_counts_up_to_total() {
    let mut p = ProgressReporter::new(3);
    assert_eq!(p.processed, 0);
    assert_eq!(p.total, 3);
    p.record_file();
    p.record_file();
    p.record_file();
    assert_eq!(p.processed, 3);
}

#[test]
fn error_descriptions_are_distinct() {
    let all = [
        DeployError::ConfigError,
        DeployError::ConnectionError,
        DeployError::RevisionUnavailable,
        DeployError::DiffComputationError,
        DeployError::IOError,
        DeployError::TransferError,
    ];
    for (i, a) in all.iter().enumerate() {
        assert!(!a.describe().is_empty());
        for b in all.iter().skip(i + 1) {
            assert_ne!(a.describe(), b.describe());
        }
    }
}
