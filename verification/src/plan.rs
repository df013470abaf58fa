//! Deciding what a run must transfer: nothing, an incremental file set, or
//! a full snapshot.

use vstd::prelude::*;
use vstd::string::*;
use crate::errors::DeployError;
use crate::marker::Revision;

verus! {

/// Whether the run was asked for a full snapshot or an incremental update.
#[derive(Clone, Copy, Debug, PartialEq, Eq, Structural)]
pub enum Mode {
    Full,
    Incremental,
}

/// What happened to one path between two revisions, as the
/// version-control diff reports it.
#[derive(Clone, Copy, Debug, PartialEq, Eq, Structural)]
pub enum ChangeKind {
    Added,
    Modified,
    Renamed,
    Deleted,
}

/// One line of a version-control diff listing.
#[derive(Debug, Clone)]
pub struct DiffEntry {
    pub path: String,
    pub kind: ChangeKind,
}

/// What planning decided has to happen next.
#[derive(Debug)]
pub enum PlanStep {
    /// Export the complete tracked contents at HEAD.
    Snapshot,
    /// HEAD equals the marker's revision: a terminal no-op.
    NoChanges,
    /// Request a diff from the marker's revision to HEAD.
    Diff { from: String },
}

/// The selected payload of a run.
#[derive(Debug)]
pub enum DeployPlan {
    /// Every tracked file at HEAD.
    Full,
    /// Exactly these changed, non-deleted paths, in diff order.
    Incremental { paths: Vec<String> },
}

/// The paths a diff listing contributes to an incremental plan: those of
/// its entries that are not deletions, in the listing's order.
pub open spec fn kept_paths(diff: Seq<DiffEntry>) -> Seq<Seq<char>>
    decreases diff.len(),
{
    if diff.len() == 0 {
        Seq::empty()
    } else {
        kept_paths(diff.drop_last())
            + (if diff.last().kind is Deleted {
                Seq::<Seq<char>>::empty()
            } else {
                seq![diff.last().path@]
            })
    }
}

/// Decide the next planning step from the mode, the local HEAD, and the
/// remote marker. Full mode ignores the marker; incremental mode demands
/// one, yields `NoChanges` when HEAD equals its revision, and otherwise
/// asks for the diff from the marker's revision to HEAD.
pub fn plan_deploy(mode: Mode, head: &String, marker: &Option<Revision>) -> (r: Result<
    PlanStep,
    DeployError,
>)
    ensures
        mode is Full ==> r is Ok && r->Ok_0 is Snapshot,
        mode is Incremental && marker is None ==> r == Result::<PlanStep, DeployError>::Err(
            DeployError::RevisionUnavailable,
        ),
        marker matches Some(m) ==> ({
            &&& mode is Incremental && m.admin.revision@ == head@ ==> r is Ok && r->Ok_0
                is NoChanges
            &&& mode is Incremental && m.admin.revision@ != head@ ==> ({
                &&& r is Ok
                &&& r->Ok_0 matches PlanStep::Diff { from } && from@ == m.admin.revision@
            })
        }),
{
    match mode {
        Mode::Full => Ok(PlanStep::Snapshot),
        Mode::Incremental => {
            match marker {
                None => Err(DeployError::RevisionUnavailable),
                Some(m) => {
                    if m.admin.revision == *head {
                        Ok(PlanStep::NoChanges)
                    } else {
                        Ok(PlanStep::Diff { from: m.admin.revision.clone() })
                    }
                },
            }
        },
    }
}

/// Keep the non-deleted paths of a diff listing, in order.
pub fn non_deleted_paths(diff: &Vec<DiffEntry>) -> (r: Vec<String>)
    ensures
        r.deep_view() == kept_paths(diff@),
{
    let mut r: Vec<String> = Vec::new();
    let mut i: usize = 0;
    proof {
        assert(diff@.take(0) =~= Seq::<DiffEntry>::empty());
        assert(r.deep_view() =~= kept_paths(diff@.take(0)));
    }
    while i < diff.len()
        invariant
            i <= diff.len(),
            r.deep_view() == kept_paths(diff@.take(i as int)),
        decreases diff.len() - i,
    {
        let ghost pre = r.deep_view();
        match diff[i].kind {
            ChangeKind::Deleted => {},
            _ => {
                r.push(diff[i].path.clone());
                proof {
                    assert(r.deep_view() =~= pre + seq![diff@[i as int].path@]);
                }
            },
        }
        proof {
            assert(diff@.take(i + 1).drop_last() =~= diff@.take(i as int));
            assert(diff@.take(i + 1).last() == diff@[i as int]);
        }
        i = i + 1;
    }
    proof {
        assert(diff@.take(diff@.len() as int) =~= diff@);
    }
    r
}

/// The incremental plan holds a path exactly when some non-deletion entry
/// of the diff names it; in particular a path every entry of which is a
/// deletion never appears.
pub proof fn lemma_incremental_plan_exact(diff: Seq<DiffEntry>, p: Seq<char>)
    ensures
        kept_paths(diff).contains(p) <==> exists|i: int|
            0 <= i < diff.len() && diff[i].path@ == p && !(diff[i].kind is Deleted),
    decreases diff.len(),
{
    if diff.len() == 0 {
    } else {
        let head_part = diff.drop_last();
        lemma_incremental_plan_exact(head_part, p);
        if kept_paths(diff).contains(p) {
            let k = choose|k: int| 0 <= k < kept_paths(diff).len() && kept_paths(diff)[k] == p;
            if k < kept_paths(head_part).len() {
                assert(kept_paths(head_part).contains(p));
                let i = choose|i: int|
                    0 <= i < head_part.len() && head_part[i].path@ == p && !(head_part[i].kind
                        is Deleted);
                assert(diff[i].path@ == p && !(diff[i].kind is Deleted));
            } else {
                assert(!(diff.last().kind is Deleted) && diff.last().path@ == p);
                assert(diff[diff.len() - 1].path@ == p && !(diff[diff.len() - 1].kind is Deleted));
            }
        }
        if exists|i: int| 0 <= i < diff.len() && diff[i].path@ == p && !(diff[i].kind is Deleted) {
            let i = choose|i: int|
                0 <= i < diff.len() && diff[i].path@ == p && !(diff[i].kind is Deleted);
            if i < diff.len() - 1 {
                assert(head_part[i].path@ == p && !(head_part[i].kind is Deleted));
                assert(kept_paths(head_part).contains(p));
                let k = choose|k: int|
                    0 <= k < kept_paths(head_part).len() && kept_paths(head_part)[k] == p;
                assert(kept_paths(diff)[k] == p);
            } else {
                assert(kept_paths(diff).last() == p);
            }
        }
    }
}

} // verus!
