//! The deployment orchestrator: a linear state machine that decides, step
//! by step, what a run does next. The caller performs each returned
//! action — a version-control command, a filesystem copy, a remote
//! operation — and reports what came of it; every decision in between is
//! made and proved here.

use vstd::prelude::*;
use vstd::string::*;
use crate::cli::Arguments;
use crate::clock::local_timestamp;
use crate::errors::DeployError;
use crate::marker::{marker_json, marker_json_spec, Revision};
use crate::plan::{kept_paths, non_deleted_paths, plan_deploy, DeployPlan, DiffEntry, Mode, PlanStep};
use crate::staging::{marker_file_name, materialize, StagingTree};
use crate::transfer::{
    dirs_before_sends, join_path, join_spec, lemma_send_count_take_le, lemma_send_count_take_step,
    ops_for, send_count, transfer_plan, ProgressReporter, TransferOp,
};

verus! {

/// Where a run stands. The flow is linear: `Initial`, `LocalSync`, the
/// two planning steps, one of the two staging steps, `Connecting`,
/// `Transferring`, and then `Done` — with `Failed` reachable from every
/// step. `Done` and `Failed` are terminal: no step applies to them.
#[derive(Clone, Copy, Debug, PartialEq, Eq, Structural)]
pub enum Phase {
    /// Nothing has happened yet.
    Initial,
    /// The local working tree is being brought up to date.
    LocalSync,
    /// The remote revision marker has been requested.
    PlanningMarker,
    /// The version-control diff has been requested.
    PlanningDiff,
    /// The planned files are being copied into the staging tree.
    StagingCopy,
    /// The full tracked contents are being exported into the staging tree.
    StagingExport,
    /// The transport connection is being opened.
    Connecting,
    /// Remote operations are being performed one by one.
    Transferring,
    /// The run ended successfully.
    Done,
    /// The run ended with an error.
    Failed,
}

/// How a run ended when it reached `Done`.
#[derive(Clone, Copy, Debug, PartialEq, Eq, Structural)]
pub enum Outcome {
    /// HEAD already equals the remote marker's revision: nothing to do.
    NoChanges,
    /// The staged tree was transferred completely.
    Deployed { files_sent: usize },
}

/// What the caller must do next.
#[derive(Debug)]
pub enum Action {
    /// Update the local working tree and report HEAD and the branch name.
    SyncLocal,
    /// Read and parse the marker file at this remote path.
    FetchMarker { remote_path: String },
    /// Compute the version-control diff from `from` to HEAD.
    ComputeDiff { from: String },
    /// Copy these working-tree files into the staging tree at the same
    /// relative paths and write `marker` at its root as the marker file.
    StageFiles { files: Vec<String>, marker: String },
    /// Export the complete tracked contents at HEAD into the staging
    /// tree, write `marker` at its root, and report the exported paths.
    ExportSnapshot { marker: String },
    /// Open the transport connection.
    Connect,
    /// Perform this remote operation and report whether it succeeded.
    Perform { op: TransferOp },
    /// The run is over; nothing more will be asked.
    Halt,
}

/// One deploy run from start to finish.
pub struct DeployRun {
    /// Where the run stands.
    pub phase: Phase,
    /// Full snapshot or incremental update.
    pub mode: Mode,
    /// Whether the snapshot goes into a dated subfolder.
    pub dist: bool,
    /// The destination path, with a leading dot stripped.
    pub destination: String,
    /// Local HEAD, once reported.
    pub head: Option<String>,
    /// Local branch name, once reported.
    pub branch: Option<String>,
    /// The remote marker's revision, once fetched.
    pub prior: Option<String>,
    /// The selected payload, once planning settled it.
    pub plan: Option<DeployPlan>,
    /// The staged tree, once materialized.
    pub tree: Option<StagingTree>,
    /// The remote operations, in order, once connected.
    pub ops: Vec<TransferOp>,
    /// The next operation to perform.
    pub op_next: usize,
    /// Files sent so far, against the staged total.
    pub progress: ProgressReporter,
    /// How the run ended, when `Done`.
    pub outcome: Option<Outcome>,
    /// Why the run ended, when `Failed`.
    pub failure: Option<DeployError>,
}

/// The destination with one leading dot removed, as the remote side
/// expects it.
pub open spec fn strip_leading_dot(d: Seq<char>) -> Seq<char> {
    if d.len() > 0 && d[0] == '.' {
        d.skip(1)
    } else {
        d
    }
}

/// Strip a single leading dot from a destination path.
pub fn normalize_destination(d: &str) -> (r: String)
    ensures
        r@ == strip_leading_dot(d@),
{
    let n = d.unicode_len();
    if n > 0 && d.get_char(0) == '.' {
        let t = d.substring_char(1, n);
        proof {
            assert(t@ =~= d@.skip(1));
        }
        t.to_owned()
    } else {
        d.to_owned()
    }
}

impl DeployRun {
    /// The configuration never changes after `new`.
    pub open spec fn same_config(&self, other: &DeployRun) -> bool {
        &&& self.mode == other.mode
        &&& self.dist == other.dist
        &&& self.destination == other.destination
    }

    /// What holds of a run mid-transfer: the operation list matches the
    /// staged tree, and progress counts exactly the sends already made.
    pub open spec fn transfer_inv(&self) -> bool {
        self.tree matches Some(t) && {
            &&& t.files@.len() >= 1
            &&& self.ops@.len() == 2 * t.files@.len()
            &&& self.op_next <= self.ops@.len()
            &&& self.progress.total == t.files@.len()
            &&& self.progress.processed == send_count(self.ops@.take(self.op_next as int))
            &&& send_count(self.ops@) == t.files@.len()
            &&& dirs_before_sends(self.ops@)
            &&& forall|i: int|
                0 <= i < t.files@.len() ==> #[trigger] self.ops@[2 * i] is EnsureDir && self.ops@[2
                    * i + 1] is SendFile
        }
    }

    /// The well-formedness every step preserves.
    pub open spec fn inv(&self) -> bool {
        &&& (self.phase == Phase::PlanningMarker ==> self.head is Some && self.branch is Some)
        &&& (self.phase == Phase::PlanningDiff ==> self.head is Some && self.branch is Some
            && self.prior is Some)
        &&& (self.phase == Phase::StagingCopy ==> ({
            &&& self.head is Some
            &&& self.branch is Some
            &&& self.prior is Some
            &&& self.plan matches Some(p) && p is Incremental
        }))
        &&& (self.phase == Phase::StagingExport ==> self.head is Some && self.branch is Some
            && self.plan == Some(DeployPlan::Full))
        &&& (self.phase == Phase::Connecting ==> ({
            self.tree matches Some(t) && t.files@.len() >= 1
        }))
        &&& (self.phase == Phase::Transferring ==> self.transfer_inv())
        &&& (self.phase == Phase::Done ==> self.outcome is Some)
        &&& (self.phase == Phase::Failed ==> self.failure is Some)
    }

    /// A fresh run over these arguments: full mode when a snapshot was
    /// asked for (`dist` implies `create`), incremental otherwise.
    pub fn new(args: &Arguments) -> (r: DeployRun)
        ensures
            r.inv(),
            r.phase == Phase::Initial,
            r.mode == (if args.dist || args.create {
                Mode::Full
            } else {
                Mode::Incremental
            }),
            r.dist == args.dist,
            r.destination@ == strip_leading_dot(args.destination@),
    {
        let mode = if args.dist || args.create {
            Mode::Full
        } else {
            Mode::Incremental
        };
        DeployRun {
            phase: Phase::Initial,
            mode,
            dist: args.dist,
            destination: normalize_destination(args.destination.as_str()),
            head: None,
            branch: None,
            prior: None,
            plan: None,
            tree: None,
            ops: Vec::new(),
            op_next: 0,
            progress: ProgressReporter::new(0),
            outcome: None,
            failure: None,
        }
    }

    /// Begin the run: the local working tree must be synchronized first.
    pub fn start(&mut self) -> (a: Action)
        requires
            old(self).inv(),
            old(self).phase == Phase::Initial,
        ensures
            final(self).inv(),
            final(self).same_config(old(self)),
            final(self).phase == Phase::LocalSync,
            a is SyncLocal,
    {
        self.phase = Phase::LocalSync;
        Action::SyncLocal
    }

    /// The local sync came back. A failure is fatal; on success full mode
    /// goes straight to the snapshot export, and incremental mode asks
    /// for the remote marker at `<destination>/revision.json`.
    pub fn on_synced(&mut self, result: Option<(String, String)>) -> (a: Action)
        requires
            old(self).inv(),
            old(self).phase == Phase::LocalSync,
        ensures
            final(self).inv(),
            final(self).same_config(old(self)),
            result is None ==> final(self).phase == Phase::Failed && final(self).failure == Some(
                DeployError::ConfigError,
            ) && a is Halt,
            result matches Some(hb) ==> ({
                &&& final(self).head matches Some(h) && h@ == hb.0@
                &&& final(self).branch matches Some(b) && b@ == hb.1@
                &&& old(self).mode == Mode::Full ==> ({
                    &&& final(self).phase == Phase::StagingExport
                    &&& a matches Action::ExportSnapshot { marker } && marker@ == marker_json_spec(
                        hb.0@,
                        hb.0@,
                        hb.1@,
                    )
                })
                &&& old(self).mode == Mode::Incremental ==> ({
                    &&& final(self).phase == Phase::PlanningMarker
                    &&& a matches Action::FetchMarker { remote_path } && remote_path@ == join_spec(
                        old(self).destination@,
                        marker_file_name(),
                    )
                })
            }),
    {
        match result {
            None => {
                self.failure = Some(DeployError::ConfigError);
                self.phase = Phase::Failed;
                Action::Halt
            },
            Some((h, b)) => {
                match self.mode {
                    Mode::Full => {
                        let no_prior: Option<String> = None;
                        let mk = Revision::succeeding(&h, &b, &no_prior);
                        let ms = marker_json(&mk);
                        self.head = Some(h);
                        self.branch = Some(b);
                        self.plan = Some(DeployPlan::Full);
                        self.phase = Phase::StagingExport;
                        Action::ExportSnapshot { marker: ms }
                    },
                    Mode::Incremental => {
                        let path = join_path(self.destination.as_str(), "revision.json");
                        self.head = Some(h);
                        self.branch = Some(b);
                        self.phase = Phase::PlanningMarker;
                        Action::FetchMarker { remote_path: path }
                    },
                }
            },
        }
    }

    /// The marker fetch came back. No marker means the run fails with
    /// `RevisionUnavailable` before anything is staged. A marker whose
    /// revision equals HEAD ends the run at once as `NoChanges`: staging
    /// and transferring never run, since `Done` is terminal. Otherwise
    /// the diff from the marker's revision to HEAD is requested.
    pub fn on_marker(&mut self, marker: Option<Revision>) -> (a: Action)
        requires
            old(self).inv(),
            old(self).phase == Phase::PlanningMarker,
        ensures
            final(self).inv(),
            final(self).same_config(old(self)),
            final(self).head == old(self).head,
            final(self).branch == old(self).branch,
            marker is None ==> final(self).phase == Phase::Failed && final(self).failure == Some(
                DeployError::RevisionUnavailable,
            ) && a is Halt,
            marker matches Some(m) ==> (old(self).head matches Some(h) ==> ({
                &&& m.admin.revision@ == h@ ==> ({
                    &&& final(self).phase == Phase::Done
                    &&& final(self).outcome == Some(Outcome::NoChanges)
                    &&& a is Halt
                })
                &&& m.admin.revision@ != h@ ==> ({
                    &&& final(self).phase == Phase::PlanningDiff
                    &&& final(self).prior matches Some(p) && p@ == m.admin.revision@
                    &&& a matches Action::ComputeDiff { from } && from@ == m.admin.revision@
                })
            })),
    {
        let h = match &self.head {
            Some(h) => h.clone(),
            None => {
                proof {
                    assert(false);
                }
                vstd::pervasive::unreached()
            },
        };
        match plan_deploy(Mode::Incremental, &h, &marker) {
            Err(_) => {
                self.failure = Some(DeployError::RevisionUnavailable);
                self.phase = Phase::Failed;
                Action::Halt
            },
            Ok(PlanStep::NoChanges) => {
                self.outcome = Some(Outcome::NoChanges);
                self.phase = Phase::Done;
                Action::Halt
            },
            Ok(PlanStep::Diff { from }) => {
                self.prior = Some(from.clone());
                self.phase = Phase::PlanningDiff;
                Action::ComputeDiff { from }
            },
            Ok(PlanStep::Snapshot) => {
                proof {
                    assert(false);
                }
                vstd::pervasive::unreached()
            },
        }
    }

    /// The diff came back. A failure is fatal; otherwise the plan is
    /// exactly the non-deletion paths of the diff, in order, and the
    /// caller is asked to stage them together with the new marker, whose
    /// `previous` field records the remote marker's revision.
    pub fn on_diff(&mut self, diff: Option<Vec<DiffEntry>>) -> (a: Action)
        requires
            old(self).inv(),
            old(self).phase == Phase::PlanningDiff,
        ensures
            final(self).inv(),
            final(self).same_config(old(self)),
            final(self).head == old(self).head,
            final(self).branch == old(self).branch,
            final(self).prior == old(self).prior,
            diff is None ==> final(self).phase == Phase::Failed && final(self).failure == Some(
                DeployError::DiffComputationError,
            ) && a is Halt,
            diff matches Some(d) ==> ({
                &&& final(self).phase == Phase::StagingCopy
                &&& final(self).plan matches Some(pl) && pl matches DeployPlan::Incremental {
                    paths,
                } && paths.deep_view() == kept_paths(d@)
                &&& a matches Action::StageFiles { files, marker } && files.deep_view()
                    == kept_paths(d@) && (old(self).head matches Some(h) ==> (old(self).branch matches Some(b) ==> (old(self).prior matches Some(p) ==> marker@
                    == marker_json_spec(h@, p@, b@))))
            }),
    {
        match diff {
            None => {
                self.failure = Some(DeployError::DiffComputationError);
                self.phase = Phase::Failed;
                Action::Halt
            },
            Some(d) => {
                let paths = non_deleted_paths(&d);
                let kept = copy_strings(&paths);
                let h = match &self.head {
                    Some(h) => h.clone(),
                    None => {
                        proof {
                            assert(false);
                        }
                        vstd::pervasive::unreached()
                    },
                };
                let b = match &self.branch {
                    Some(b) => b.clone(),
                    None => {
                        proof {
                            assert(false);
                        }
                        vstd::pervasive::unreached()
                    },
                };
                let p = match &self.prior {
                    Some(p) => p.clone(),
                    None => {
                        proof {
                            assert(false);
                        }
                        vstd::pervasive::unreached()
                    },
                };
                let prior: Option<String> = Some(p);
                let mk = Revision::succeeding(&h, &b, &prior);
                let ms = marker_json(&mk);
                self.plan = Some(DeployPlan::Incremental { paths: kept });
                self.phase = Phase::StagingCopy;
                Action::StageFiles { files: paths, marker: ms }
            },
        }
    }

    /// The staging copy came back. A failure is fatal; on success the
    /// staged tree holds exactly the planned paths plus the marker file
    /// at its root, and the caller is asked to connect.
    pub fn on_staged(&mut self, ok: bool) -> (a: Action)
        requires
            old(self).inv(),
            old(self).phase == Phase::StagingCopy,
        ensures
            final(self).inv(),
            final(self).same_config(old(self)),
            !ok ==> final(self).phase == Phase::Failed && final(self).failure == Some(
                DeployError::IOError,
            ) && a is Halt,
            ok ==> ({
                &&& final(self).phase == Phase::Connecting
                &&& a is Connect
                &&& final(self).tree matches Some(t) && (old(self).plan matches Some(
                    DeployPlan::Incremental { paths },
                ) ==> t.files.deep_view() == paths.deep_view() + seq![marker_file_name()]) && (old(self).head matches Some(h) ==> (old(self).branch matches Some(b) ==> (old(self).prior matches Some(p) ==> ({
                    &&& t.marker.admin.revision@ == h@
                    &&& t.marker.admin.previous@ == p@
                    &&& t.marker.admin.branch@ == b@
                }))))
            }),
    {
        if !ok {
            self.failure = Some(DeployError::IOError);
            self.phase = Phase::Failed;
            return Action::Halt;
        }
        let h = match &self.head {
            Some(h) => h.clone(),
            None => {
                proof {
                    assert(false);
                }
                vstd::pervasive::unreached()
            },
        };
        let b = match &self.branch {
            Some(b) => b.clone(),
            None => {
                proof {
                    assert(false);
                }
                vstd::pervasive::unreached()
            },
        };
        let p = match &self.prior {
            Some(p) => p.clone(),
            None => {
                proof {
                    assert(false);
                }
                vstd::pervasive::unreached()
            },
        };
        let prior: Option<String> = Some(p);
        let mk = Revision::succeeding(&h, &b, &prior);
        let t = match &self.plan {
            Some(DeployPlan::Incremental { paths }) => materialize(paths, mk),
            _ => {
                proof {
                    assert(false);
                }
                vstd::pervasive::unreached()
            },
        };
        proof {
            assert(t.files.deep_view().len() == t.files@.len());
        }
        self.tree = Some(t);
        self.phase = Phase::Connecting;
        Action::Connect
    }

    /// The snapshot export came back. A failure is fatal; on success the
    /// staged tree holds exactly the exported tracked files plus the
    /// marker file at its root — untracked files never enter it — and
    /// the caller is asked to connect.
    pub fn on_snapshot(&mut self, files: Option<Vec<String>>) -> (a: Action)
        requires
            old(self).inv(),
            old(self).phase == Phase::StagingExport,
        ensures
            final(self).inv(),
            final(self).same_config(old(self)),
            files is None ==> final(self).phase == Phase::Failed && final(self).failure == Some(
                DeployError::IOError,
            ) && a is Halt,
            files matches Some(fs) ==> ({
                &&& final(self).phase == Phase::Connecting
                &&& a is Connect
                &&& final(self).tree matches Some(t) && t.files.deep_view() == fs.deep_view()
                    + seq![marker_file_name()] && (old(self).head matches Some(h) ==> (old(self).branch matches Some(b) ==> ({
                    &&& t.marker.admin.revision@ == h@
                    &&& t.marker.admin.previous@ == h@
                    &&& t.marker.admin.branch@ == b@
                })))
            }),
    {
        match files {
            None => {
                self.failure = Some(DeployError::IOError);
                self.phase = Phase::Failed;
                Action::Halt
            },
            Some(fs) => {
                let h = match &self.head {
                    Some(h) => h.clone(),
                    None => {
                        proof {
                            assert(false);
                        }
                        vstd::pervasive::unreached()
                    },
                };
                let b = match &self.branch {
                    Some(b) => b.clone(),
                    None => {
                        proof {
                            assert(false);
                        }
                        vstd::pervasive::unreached()
                    },
                };
                let no_prior: Option<String> = None;
                let mk = Revision::succeeding(&h, &b, &no_prior);
                let t = materialize(&fs, mk);
                proof {
                    assert(t.files.deep_view().len() == t.files@.len());
                }
                self.tree = Some(t);
                self.phase = Phase::Connecting;
                Action::Connect
            },
        }
    }

    /// The connection attempt came back. A failure is fatal; on success
    /// the remote operations are laid out — under a dated subfolder of
    /// the destination in dist mode, under the destination itself
    /// otherwise — and the first operation is handed out.
    pub fn on_connected(&mut self, ok: bool) -> (a: Action)
        requires
            old(self).inv(),
            old(self).phase == Phase::Connecting,
        ensures
            final(self).inv(),
            final(self).same_config(old(self)),
            !ok ==> final(self).phase == Phase::Failed && final(self).failure == Some(
                DeployError::ConnectionError,
            ) && a is Halt,
            ok ==> ({
                &&& final(self).phase == Phase::Transferring
                &&& final(self).tree == old(self).tree
                &&& final(self).op_next == 0
                &&& final(self).progress.processed == 0
                &&& (old(self).tree matches Some(t) ==> ({
                    &&& final(self).progress.total == t.files@.len()
                    &&& dirs_before_sends(final(self).ops@)
                    &&& send_count(final(self).ops@) == t.files@.len()
                    &&& (!old(self).dist ==> ops_for(final(self).ops@, t.files@, old(self).destination@))
                    &&& (old(self).dist ==> exists|stamp: Seq<char>|
                        ops_for(
                            final(self).ops@,
                            t.files@,
                            join_spec(old(self).destination@, stamp),
                        ))
                }))
                &&& a matches Action::Perform { op } && op == final(self).ops@[0]
            }),
    {
        if !ok {
            self.failure = Some(DeployError::ConnectionError);
            self.phase = Phase::Failed;
            return Action::Halt;
        }
        let ghost mut gstamp: Seq<char> = Seq::empty();
        let root = if self.dist {
            let stamp = local_timestamp();
            proof {
                gstamp = stamp@;
            }
            join_path(self.destination.as_str(), stamp.as_str())
        } else {
            self.destination.clone()
        };
        let (ops, total) = match &self.tree {
            Some(t) => (transfer_plan(&t.files, &root), t.files.len()),
            None => {
                proof {
                    assert(false);
                }
                vstd::pervasive::unreached()
            },
        };
        self.ops = ops;
        self.op_next = 0;
        self.progress = ProgressReporter::new(total);
        self.phase = Phase::Transferring;
        proof {
            assert(self.ops@.take(0) =~= Seq::<TransferOp>::empty());
            if old(self).dist {
                let t = old(self).tree->0;
                assert(root@ == join_spec(old(self).destination@, gstamp));
                assert(ops_for(self.ops@, t.files@, join_spec(old(self).destination@, gstamp)));
            }
        }
        let op0 = self.ops[0].duplicate();
        Action::Perform { op: op0 }
    }

    /// The operation the caller must perform now, while transferring.
    pub fn current_op(&self) -> (r: Option<TransferOp>)
        requires
            self.inv(),
        ensures
            r is Some <==> (self.phase == Phase::Transferring && self.op_next < self.ops@.len()),
            r matches Some(op) ==> op == self.ops@[self.op_next as int],
    {
        if self.phase == Phase::Transferring && self.op_next < self.ops.len() {
            Some(self.ops[self.op_next].duplicate())
        } else {
            None
        }
    }

    /// The pending operation came back. A directory that could not be
    /// ensured is tolerated and the run continues; a failed file send is
    /// fatal. After the last operation the run is done, and the progress
    /// count of sent files equals the staged total.
    pub fn on_op_done(&mut self, ok: bool) -> (a: Action)
        requires
            old(self).inv(),
            old(self).phase == Phase::Transferring,
            old(self).op_next < old(self).ops@.len(),
        ensures
            final(self).inv(),
            final(self).same_config(old(self)),
            ({
                let op = old(self).ops@[old(self).op_next as int];
                &&& (op is EnsureDir ==> ({
                    &&& final(self).phase == Phase::Transferring
                    &&& final(self).ops == old(self).ops
                    &&& final(self).op_next == old(self).op_next + 1
                    &&& final(self).progress == old(self).progress
                    &&& a matches Action::Perform { op: next } && next == final(self).ops@[final(self).op_next as int]
                }))
                &&& (op is SendFile && !ok ==> ({
                    &&& final(self).phase == Phase::Failed
                    &&& final(self).failure == Some(DeployError::TransferError)
                    &&& a is Halt
                }))
                &&& (op is SendFile && ok ==> ({
                    &&& final(self).ops == old(self).ops
                    &&& final(self).op_next == old(self).op_next + 1
                    &&& final(self).progress.processed == old(self).progress.processed + 1
                    &&& final(self).progress.total == old(self).progress.total
                    &&& (old(self).op_next + 1 < old(self).ops@.len() ==> ({
                        &&& final(self).phase == Phase::Transferring
                        &&& a matches Action::Perform { op: next } && next == final(self).ops@[final(self).op_next as int]
                    }))
                    &&& (old(self).op_next + 1 == old(self).ops@.len() ==> ({
                        &&& final(self).phase == Phase::Done
                        &&& final(self).progress.processed == final(self).progress.total
                        &&& final(self).outcome == Some(Outcome::Deployed {
                            files_sent: final(self).progress.total,
                        })
                        &&& a is Halt
                    }))
                }))
            }),
    {
        let k = self.op_next;
        let n = self.ops.len();
        let is_send = match &self.ops[k] {
            TransferOp::EnsureDir { .. } => false,
            TransferOp::SendFile { .. } => true,
        };
        proof {
            lemma_send_count_take_step(self.ops@, k as int);
        }
        if is_send {
            if !ok {
                self.failure = Some(DeployError::TransferError);
                self.phase = Phase::Failed;
                return Action::Halt;
            }
            proof {
                lemma_send_count_take_le(self.ops@, k + 1);
            }
            self.progress.record_file();
            self.op_next = k + 1;
            if self.op_next == self.ops.len() {
                proof {
                    assert(self.ops@.take(self.ops@.len() as int) =~= self.ops@);
                }
                let sent = self.progress.total;
                self.outcome = Some(Outcome::Deployed { files_sent: sent });
                self.phase = Phase::Done;
                Action::Halt
            } else {
                let next = self.ops[self.op_next].duplicate();
                Action::Perform { op: next }
            }
        } else {
            proof {
                let t = old(self).tree->0;
                let h = k as int / 2;
                assert(k as int == 2 * h || k as int == 2 * h + 1);
                assert(self.ops@[2 * h] is EnsureDir && self.ops@[2 * h + 1] is SendFile);
                assert(k as int == 2 * h);
                assert(k + 1 < self.ops@.len());
            }
            self.op_next = k + 1;
            let next = self.ops[self.op_next].duplicate();
            Action::Perform { op: next }
        }
    }
}

/// Copy a list of paths, value for value.
fn copy_strings(v: &Vec<String>) -> (r: Vec<String>)
    ensures
        r@ == v@,
        r.deep_view() == v.deep_view(),
{
    let mut r: Vec<String> = Vec::new();
    let mut i: usize = 0;
    while i < v.len()
        invariant
            i <= v.len(),
            r@ == v@.take(i as int),
        decreases v.len() - i,
    {
        r.push(v[i].clone());
        proof {
            assert(r@ =~= v@.take(i + 1));
        }
        i = i + 1;
    }
    proof {
        assert(v@.take(v@.len() as int) =~= v@);
        assert(r.deep_view() =~= v.deep_view());
    }
    r
}

} // verus!
