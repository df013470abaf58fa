//! Ordering the remote operations of a run, and counting progress.

use vstd::prelude::*;
use vstd::string::*;

verus! {

/// One operation against the connected remote endpoint.
#[derive(Debug, Clone)]
pub enum TransferOp {
    /// Make sure this remote directory exists (recursively); a failure is
    /// tolerated and reported, never fatal.
    EnsureDir { dir: String },
    /// Stream the staged file at relative path `local` to the absolute
    /// remote path `remote`; a failure ends the run.
    SendFile { local: String, remote: String },
}

/// `a` and `b` joined with a single slash.
pub open spec fn join_spec(a: Seq<char>, b: Seq<char>) -> Seq<char> {
    a + seq!['/'] + b
}

/// The index of the last slash of `p`, or -1 when `p` has none.
pub open spec fn last_slash(p: Seq<char>) -> int
    decreases p.len(),
{
    if p.len() == 0 {
        -1
    } else if p.last() == '/' {
        p.len() - 1
    } else {
        last_slash(p.drop_last())
    }
}

/// Everything of `p` before its last slash: the directory that holds it.
pub open spec fn parent_of(p: Seq<char>) -> Seq<char> {
    p.subrange(0, last_slash(p))
}

/// What `last_slash` finds: a slash with none after it, or no slash at all.
pub proof fn lemma_last_slash_char(p: Seq<char>)
    ensures
        -1 <= last_slash(p) < p.len(),
        last_slash(p) == -1 ==> forall|j: int| 0 <= j < p.len() ==> p[j] != '/',
        last_slash(p) >= 0 ==> p[last_slash(p)] == '/',
        last_slash(p) >= 0 ==> forall|j: int| last_slash(p) < j < p.len() ==> p[j] != '/',
    decreases p.len(),
{
    if p.len() == 0 {
    } else if p.last() == '/' {
    } else {
        let q = p.drop_last();
        lemma_last_slash_char(q);
        assert(last_slash(p) == last_slash(q));
        assert(forall|j: int| 0 <= j < q.len() ==> q[j] == #[trigger] p[j]);
        if last_slash(p) == -1 {
            assert forall|j: int| 0 <= j < p.len() implies p[j] != '/' by {
                if j < p.len() - 1 {
                    assert(q[j] != '/');
                } else {
                    assert(p[j] == p.last());
                }
            }
        } else {
            assert(p[last_slash(p)] == q[last_slash(q)]);
            assert forall|j: int| last_slash(p) < j < p.len() implies p[j] != '/' by {
                if j < p.len() - 1 {
                    assert(q[j] != '/');
                } else {
                    assert(p[j] == p.last());
                }
            }
        }
    }
}

/// A slash with no slash after it is the last one.
pub proof fn lemma_last_slash_unique(p: Seq<char>, i: int)
    requires
        0 <= i < p.len(),
        p[i] == '/',
        forall|j: int| i < j < p.len() ==> p[j] != '/',
    ensures
        last_slash(p) == i,
    decreases p.len(),
{
    if i == p.len() - 1 {
    } else {
        assert(p.last() != '/');
        assert(p.drop_last()[i] == '/');
        lemma_last_slash_unique(p.drop_last(), i);
    }
}

/// Join a directory and a relative path with a slash.
pub fn join_path(a: &str, b: &str) -> (r: String)
    ensures
        r@ == join_spec(a@, b@),
{
    let mut r = String::from_str(a);
    r.append("/");
    r.append(b);
    proof {
        reveal_strlit("/");
        assert(("/")@ =~= seq!['/']);
        assert(r@ =~= join_spec(a@, b@));
    }
    r
}

/// The directory holding `p`, when `p` contains a slash at all.
pub fn parent_dir(p: &str) -> (r: Option<String>)
    ensures
        r matches Some(d) ==> last_slash(p@) >= 0 && d@ == parent_of(p@),
        r is None ==> last_slash(p@) == -1,
{
    let n = p.unicode_len();
    let mut i: usize = n;
    while i > 0
        invariant
            i <= n,
            n == p@.len(),
            forall|j: int| i <= j < p@.len() ==> p@[j] != '/',
        decreases i,
    {
        if p.get_char(i - 1) == '/' {
            proof {
                lemma_last_slash_unique(p@, i - 1);
            }
            let d = p.substring_char(0, i - 1);
            return Some(d.to_owned());
        }
        i = i - 1;
    }
    proof {
        lemma_last_slash_char(p@);
        if last_slash(p@) >= 0 {
            assert(p@[last_slash(p@)] == '/');
            assert(false);
        }
    }
    None
}

/// `d` ensures the directory that `f` sends into.
pub open spec fn covers(d: TransferOp, f: TransferOp) -> bool {
    &&& d matches TransferOp::EnsureDir { dir }
    &&& f matches TransferOp::SendFile { local: _, remote }
    &&& dir@ == parent_of(remote@)
}

/// Every file send is preceded by an `EnsureDir` of the directory that
/// holds its remote path.
pub open spec fn dirs_before_sends(ops: Seq<TransferOp>) -> bool {
    forall|k: int|
        0 <= k < ops.len() && #[trigger] ops[k] is SendFile ==> exists|j: int|
            0 <= j < k && #[trigger] covers(ops[j], ops[k])
}

/// How many of these operations send a file.
pub open spec fn send_count(ops: Seq<TransferOp>) -> nat
    decreases ops.len(),
{
    if ops.len() == 0 {
        0
    } else {
        send_count(ops.drop_last()) + (if ops.last() is SendFile {
            1nat
        } else {
            0nat
        })
    }
}

/// `ops` is exactly the operation sequence that transfers `files` under
/// `root`: for each file, in order, an `EnsureDir` of its remote parent
/// directory followed by the send itself.
pub open spec fn ops_for(ops: Seq<TransferOp>, files: Seq<String>, root: Seq<char>) -> bool {
    &&& ops.len() == 2 * files.len()
    &&& forall|i: int|
        0 <= i < files.len() ==> ({
            &&& #[trigger] ops[2 * i] matches TransferOp::EnsureDir { dir } && dir@ == parent_of(
                join_spec(root, files[i]@),
            )
            &&& ops[2 * i + 1] matches TransferOp::SendFile { local, remote } && local@
                == files[i]@ && remote@ == join_spec(root, files[i]@)
        })
}

/// The ordered remote operations that transfer the staged files `files`
/// under `remote_root`.
pub fn transfer_plan(files: &Vec<String>, remote_root: &String) -> (ops: Vec<TransferOp>)
    ensures
        ops_for(ops@, files@, remote_root@),
        send_count(ops@) == files@.len(),
        dirs_before_sends(ops@),
{
    let mut ops: Vec<TransferOp> = Vec::new();
    let mut i: usize = 0;
    while i < files.len()
        invariant
            i <= files.len(),
            ops@.len() == 2 * i,
            forall|k: int|
                0 <= k < i ==> ({
                    &&& #[trigger] ops@[2 * k] matches TransferOp::EnsureDir { dir } && dir@
                        == parent_of(join_spec(remote_root@, files@[k]@))
                    &&& ops@[2 * k + 1] matches TransferOp::SendFile { local, remote } && local@
                        == files@[k]@ && remote@ == join_spec(remote_root@, files@[k]@)
                }),
            send_count(ops@) == i,
        decreases files.len() - i,
    {
        let remote = join_path(remote_root.as_str(), files[i].as_str());
        let parent = match parent_dir(remote.as_str()) {
            Some(d) => d,
            None => {
                proof {
                    assert(remote@[remote_root@.len() as int] == '/');
                    lemma_last_slash_char(remote@);
                    assert(false);
                }
                vstd::pervasive::unreached()
            },
        };
        let ghost pre = ops@;
        ops.push(TransferOp::EnsureDir { dir: parent });
        proof {
            assert(ops@.drop_last() =~= pre);
            assert(send_count(ops@) == i);
        }
        let ghost mid = ops@;
        ops.push(TransferOp::SendFile { local: files[i].clone(), remote });
        proof {
            assert(ops@.drop_last() =~= mid);
            assert(send_count(ops@) == i + 1);
        }
        i = i + 1;
    }
    proof {
        assert forall|k: int| 0 <= k < ops@.len() && #[trigger] ops@[k] is SendFile implies exists|
            j: int,
        | 0 <= j < k && #[trigger] covers(ops@[j], ops@[k]) by {
            let h = k / 2;
            assert(k == 2 * h || k == 2 * h + 1);
            assert(k == 2 * h + 1);
            assert(covers(ops@[2 * h], ops@[k]));
        }
        assert(ops_for(ops@, files@, remote_root@));
    }
    ops
}

impl TransferOp {
    /// A structurally equal copy.
    pub fn duplicate(&self) -> (r: TransferOp)
        ensures
            r == *self,
    {
        match self {
            TransferOp::EnsureDir { dir } => TransferOp::EnsureDir { dir: dir.clone() },
            TransferOp::SendFile { local, remote } => TransferOp::SendFile {
                local: local.clone(),
                remote: remote.clone(),
            },
        }
    }
}

/// Taking one more operation adds one send exactly when that operation is
/// a send.
pub proof fn lemma_send_count_take_step(ops: Seq<TransferOp>, k: int)
    requires
        0 <= k < ops.len(),
    ensures
        send_count(ops.take(k + 1)) == send_count(ops.take(k)) + (if ops[k] is SendFile {
            1nat
        } else {
            0nat
        }),
{
    assert(ops.take(k + 1).drop_last() =~= ops.take(k));
    assert(ops.take(k + 1).last() == ops[k]);
}

/// A prefix never holds more sends than the whole sequence.
pub proof fn lemma_send_count_take_le(ops: Seq<TransferOp>, k: int)
    requires
        0 <= k <= ops.len(),
    ensures
        send_count(ops.take(k)) <= send_count(ops),
    decreases ops.len() - k,
{
    if k == ops.len() {
        assert(ops.take(k) =~= ops);
    } else {
        lemma_send_count_take_step(ops, k);
        lemma_send_count_take_le(ops, k + 1);
    }
}

/// Processed and total file counts for operator feedback; no effect on
/// control flow.
#[derive(Debug, Clone, Copy)]
pub struct ProgressReporter {
    /// Files sent so far.
    pub processed: usize,
    /// Regular files in the staged tree.
    pub total: usize,
}

impl ProgressReporter {
    /// A reporter for a run that will send `total` files.
    pub fn new(total: usize) -> (r: ProgressReporter)
        ensures
            r.processed == 0,
            r.total == total,
    {
        ProgressReporter { processed: 0, total }
    }

    /// Record one sent file.
    pub fn record_file(&mut self)
        requires
            old(self).processed < old(self).total,
        ensures
            final(self).processed == old(self).processed + 1,
            final(self).total == old(self).total,
    {
        self.processed = self.processed + 1;
    }
}

} // verus!
