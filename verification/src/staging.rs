//! The staging tree: the local payload a run transfers, laid out exactly
//! as the destination will hold it.

use vstd::prelude::*;
use vstd::string::*;
use crate::marker::Revision;

verus! {

/// The name of the marker file at the root of the staging tree and of the
/// destination.
pub open spec fn marker_file_name() -> Seq<char> {
    ("revision.json")@
}

/// The model of a materialized staging tree: the relative paths of every
/// regular file in it, in the order they will be transferred, and the
/// marker the tree carries at its root.
#[derive(Debug)]
pub struct StagingTree {
    /// Relative, slash-separated paths of every regular file of the tree;
    /// the last one is the marker file itself.
    pub files: Vec<String>,
    /// The marker written at the tree's root.
    pub marker: Revision,
}

/// A staging tree holds exactly the planned files plus the one marker file
/// at its root: no extra files, no missing files.
pub fn materialize(paths: &Vec<String>, marker: Revision) -> (t: StagingTree)
    ensures
        t.files.deep_view() == paths.deep_view() + seq![marker_file_name()],
        t.marker == marker,
{
    let mut files: Vec<String> = Vec::new();
    let mut i: usize = 0;
    proof {
        assert(files.deep_view() =~= paths.deep_view().take(0));
    }
    while i < paths.len()
        invariant
            i <= paths.len(),
            files.deep_view() == paths.deep_view().take(i as int),
        decreases paths.len() - i,
    {
        let ghost pre = files.deep_view();
        files.push(paths[i].clone());
        proof {
            assert(files.deep_view() =~= pre.push(paths@[i as int]@));
            assert(paths.deep_view().take(i + 1) =~= paths.deep_view().take(i as int).push(
                paths@[i as int]@,
            ));
        }
        i = i + 1;
    }
    let ghost payload = files.deep_view();
    proof {
        assert(paths.deep_view().take(paths.deep_view().len() as int) =~= paths.deep_view());
    }
    files.push(String::from_str("revision.json"));
    proof {
        assert(files.deep_view() =~= payload.push(marker_file_name()));
        assert(files.deep_view() =~= paths.deep_view() + seq![marker_file_name()]);
    }
    StagingTree { files, marker }
}

} // verus!
