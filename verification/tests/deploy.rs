use repo_executor::cli::Arguments;
use repo_executor::errors::DeployError;
use repo_executor::marker::{Admin, Revision};
use repo_executor::orchestrate::{normalize_destination, Action, DeployRun, Outcome, Phase};
use repo_executor::plan::{ChangeKind, DiffEntry, Mode};
use repo_executor::transfer::TransferOp;
use repo_executor::FtpExport;

fn args(destination: &str, create: bool, dist: bool) -> Arguments {
    Arguments {
        host: String::from("example.test"),
        user: String::from("deploy"),
        password: String::from("SECRET-REDACTED"),
        destination: String::from(destination),
        create,
        dist,
        local: String::from(""),
        list: false,
        branch: String::from("master"),
        ftp: false,
        verbose: false,
        stdprint: false,
        help: None,
    }
}

fn marker_at(revision: &str) -> Revision {
    Revision {
        admin: Admin {
            revision: String::from(revision),
            previous: String::from(revision),
            branch: String::from("master"),
        },
    }
}

fn synced(head: &str, branch: &str) -> Option<(String, String)> {
    Some((String::from(head), String::from(branch)))
}

#[test]
fn equal_revisions_end_as_no_changes() {
    let mut run = DeployRun::new(&args("/var/www", false, false));
    assert!(matches!(run.start(), Action::SyncLocal));
    let a = run.on_synced(synced("abc123", "master"));
    match a {
        Action::FetchMarker { remote_path } => assert_eq!(remote_path, "/var/www/revision.json"),
        other => panic!("expected a marker fetch, got {:?}", other),
    }
    let a = run.on_marker(Some(marker_at("abc123")));
    assert!(matches!(a, Action::Halt));
    assert_eq!(run.phase, Phase::Done);
    assert_eq!(run.outcome, Some(Outcome::NoChanges));
    assert!(run.tree.is_none(), "nothing may be staged on a no-change run");
    assert!(run.ops.is_empty(), "nothing may be transferred on a no-change run");
}

#[test]
fn missing_marker_fails_before_staging() {
    let mut run = DeployRun::new(&args("/var/www", false, false));
    run.start();
    run.on_synced(synced("abc123", "master"));
    let a = run.on_marker(None);
    assert!(matches!(a, Action::Halt));
    assert_eq!(run.phase, Phase::Failed);
    assert_eq!(run.failure, Some(DeployError::RevisionUnavailable));
    assert!(run.tree.is_none(), "staging must never start without a marker");
}

#[test]
fn incremental_run_stages_exactly_the_changed_files() {
    let mut run = DeployRun::new(&args("/var/www", false, false));
    run.start();
    run.on_synced(synced("abc123", "master"));
    let a = run.on_marker(Some(marker_at("abc000")));
    match a {
        Action::ComputeDiff { from } => assert_eq!(from, "abc000"),
        other => panic!("expected a diff request, got {:?}", other),
    }
    let diff = vec![
        DiffEntry { path: String::from("src/x.txt"), kind: ChangeKind::Modified },
        DiffEntry { path: String::from("README.md"), kind: ChangeKind::Added },
        DiffEntry { path: String::from("old.txt"), kind: ChangeKind::Deleted },
    ];
    let a = run.on_diff(Some(diff));
    match a {
        Action::StageFiles { files, marker } => {
            assert_eq!(files, vec!["src/x.txt", "README.md"]);
            assert_eq!(
                marker,
                "{\"admin\":{\"revision\":\"abc123\",\"previous\":\"abc000\",\"branch\":\"master\"}}"
            );
        },
        other => panic!("expected a staging request, got {:?}", other),
    }
    let a = run.on_staged(true);
    assert!(matches!(a, Action::Connect));
    let tree = run.tree.as_ref().expect("tree must be staged");
    assert_eq!(tree.files, vec!["src/x.txt", "README.md", "revision.json"]);
    assert!(!tree.files.iter().any(|f| f == "old.txt"), "deleted files stay out");
}

#[test]
fn transfer_visits_every_file_and_reports_full_progress() {
    let mut run = DeployRun::new(&args("/var/www", false, false));
    run.start();
    run.on_synced(synced("abc123", "master"));
    run.on_marker(Some(marker_at("abc000")));
    let diff = vec![
        DiffEntry { path: String::from("src/x.txt"), kind: ChangeKind::Modified },
        DiffEntry { path: String::from("README.md"), kind: ChangeKind::Added },
    ];
    run.on_diff(Some(diff));
    run.on_staged(true);
    let mut a = run.on_connected(true);
    let mut sent: Vec<String> = Vec::new();
    let mut ensured: Vec<String> = Vec::new();
    loop {
        match a {
            Action::Perform { op } => {
                match op {
                    TransferOp::EnsureDir { dir } => ensured.push(dir),
                    TransferOp::SendFile { local, remote } => {
                        let parent = &remote[..remote.rfind('/').unwrap()];
                        assert!(
                            ensured.iter().any(|d| d == parent),
                            "directory {} not ensured before {}",
                            parent,
                            remote
                        );
                        sent.push(local);
                    },
                }
                a = run.on_op_done(true);
            },
            Action::Halt => break,
            other => panic!("unexpected action {:?}", other),
        }
    }
    assert_eq!(run.phase, Phase::Done);
    assert_eq!(sent, vec!["src/x.txt", "README.md", "revision.json"]);
    assert_eq!(run.progress.processed, run.progress.total);
    assert_eq!(run.progress.total, 3);
    assert_eq!(run.outcome, Some(Outcome::Deployed { files_sent: 3 }));
}

#[test]
fn full_mode_stages_the_exported_tracked_files() {
    let mut run = DeployRun::new(&args("/var/www", true, false));
    assert_eq!(run.mode, Mode::Full);
    run.start();
    let a = run.on_synced(synced("abc123", "main"));
    match a {
        Action::ExportSnapshot { marker } => assert_eq!(
            marker,
            "{\"admin\":{\"revision\":\"abc123\",\"previous\":\"abc123\",\"branch\":\"main\"}}"
        ),
        other => panic!("expected a snapshot export, got {:?}", other),
    }
    let exported = vec![
        String::from("index.html"),
        String::from("css/site.css"),
        String::from("js/app.js"),
    ];
    let a = run.on_snapshot(Some(exported));
    assert!(matches!(a, Action::Connect));
    let tree = run.tree.as_ref().expect("tree must be staged");
    assert_eq!(tree.files, vec!["index.html", "css/site.css", "js/app.js", "revision.json"]);
}

#[test]
fn dist_mode_sends_into_a_dated_subfolder() {
    let mut run = DeployRun::new(&args("/var/www", false, true));
    run.start();
    run.on_synced(synced("abc123", "main"));
    run.on_snapshot(Some(vec![String::from("a.txt")]));
    let a = run.on_connected(true);
    match a {
        Action::Perform { op: TransferOp::EnsureDir { dir } } => {
            assert!(dir.starts_with("/var/www/"), "dated folder sits under the destination");
            assert!(dir.len() > "/var/www/".len(), "the stamp is not empty");
        },
        other => panic!("expected a directory op, got {:?}", other),
    }
    match run.current_op() {
        Some(TransferOp::EnsureDir { dir }) => {
            assert!(dir.starts_with("/var/www/"));
        },
        other => panic!("expected the pending directory op, got {:?}", other),
    }
}

#[test]
fn each_failure_reaches_the_right_error() {
    let mut run = DeployRun::new(&args("/var/www", false, false));
    run.start();
    run.on_synced(None);
    assert_eq!(run.phase, Phase::Failed);
    assert_eq!(run.failure, Some(DeployError::ConfigError));

    let mut run = DeployRun::new(&args("/var/www", false, false));
    run.start();
    run.on_synced(synced("b", "m"));
    run.on_marker(Some(marker_at("a")));
    run.on_diff(None);
    assert_eq!(run.failure, Some(DeployError::DiffComputationError));

    let mut run = DeployRun::new(&args("/var/www", false, false));
    run.start();
    run.on_synced(synced("b", "m"));
    run.on_marker(Some(marker_at("a")));
    run.on_diff(Some(Vec::new()));
    run.on_staged(false);
    assert_eq!(run.failure, Some(DeployError::IOError));

    let mut run = DeployRun::new(&args("/var/www", false, false));
    run.start();
    run.on_synced(synced("b", "m"));
    run.on_marker(Some(marker_at("a")));
    run.on_diff(Some(Vec::new()));
    run.on_staged(true);
    run.on_connected(false);
    assert_eq!(run.failure, Some(DeployError::ConnectionError));

    let mut run = DeployRun::new(&args("/var/www", false, false));
    run.start();
    run.on_synced(synced("b", "m"));
    run.on_marker(Some(marker_at("a")));
    run.on_diff(Some(Vec::new()));
    run.on_staged(true);
    let mut a = run.on_connected(true);
    loop {
        match a {
            Action::Perform { op: TransferOp::EnsureDir { .. } } => {
                a = run.on_op_done(true);
            },
            Action::Perform { op: TransferOp::SendFile { .. } } => {
                a = run.on_op_done(false);
                break;
            },
            other => panic!("unexpected action {:?}", other),
        }
    }
    assert!(matches!(a, Action::Halt));
    assert_eq!(run.failure, Some(DeployError::TransferError));
}

#[test]
fn empty_diff_still_updates_the_marker() {
    let mut run = DeployRun::new(&args("/var/www", false, false));
    run.start();
    run.on_synced(synced("abc123", "master"));
    run.on_marker(Some(marker_at("abc000")));
    run.on_diff(Some(Vec::new()));
    run.on_staged(true);
    let tree = run.tree.as_ref().expect("tree must be staged");
    assert_eq!(tree.files, vec!["revision.json"]);
    let mut a = run.on_connected(true);
    while let Action::Perform { .. } = a {
        a = run.on_op_done(true);
    }
    assert_eq!(run.phase, Phase::Done);
    assert_eq!(run.outcome, Some(Outcome::Deployed { files_sent: 1 }));
}

#[test]
fn failed_directory_creation_does_not_abort_the_run() {
    let mut run = DeployRun::new(&args("/var/www", false, false));
    run.start();
    run.on_synced(synced("b", "m"));
    run.on_marker(Some(marker_at("a")));
    run.on_diff(Some(Vec::new()));
    run.on_staged(true);
    let a = run.on_connected(true);
    assert!(matches!(a, Action::Perform { op: TransferOp::EnsureDir { .. } }));
    let a = run.on_op_done(false);
    assert!(matches!(a, Action::Perform { op: TransferOp::SendFile { .. } }));
    assert_eq!(run.phase, Phase::Transferring);
}

#[test]
fn no_operation_is_pending_outside_the_transfer() {
    let mut run = DeployRun::new(&args("/var/www", false, false));
    assert!(run.current_op().is_none());
    run.start();
    run.on_synced(synced("abc123", "master"));
    let a = run.on_marker(Some(marker_at("abc123")));
    assert!(matches!(a, Action::Halt));
    assert!(run.current_op().is_none(), "a finished run asks for nothing more");
}

#[test]
fn destination_loses_one_leading_dot() {
    assert_eq!(normalize_destination("./public"), "/public");
    assert_eq!(normalize_destination(".public"), "public");
    assert_eq!(normalize_destination("/srv/site"), "/srv/site");
    assert_eq!(normalize_destination(""), "");
}

#[test]
fn ftp_export_forces_create_for_dated_snapshots() {
    let e = FtpExport::new(args("/var/www", false, true));
    assert!(e.args.create);
    assert!(e.files.is_empty());
    let run = e.deploy_run();
    assert_eq!(run.phase, Phase::Initial);
    assert_eq!(run.mode, Mode::Full);
    assert!(run.dist);

    let e = FtpExport::new(args("./www", false, false));
    assert!(!e.args.create);
    let run = e.deploy_run();
    assert_eq!(run.mode, Mode::Incremental);
    assert_eq!(run.destination, "/www");
}
