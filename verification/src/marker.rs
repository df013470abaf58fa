//! The revision marker: the record, persisted at the destination, of the
//! last successfully deployed commit and branch, together with its JSON
//! wire form.

use vstd::prelude::*;
use vstd::string::*;

verus! {

/// The payload of a revision marker.
#[derive(Debug, Clone)]
pub struct Admin {
    /// The commit identifier deployed by this run.
    pub revision: String,
    /// The revision that was deployed before this one; on a first deploy it
    /// equals `revision` itself.
    pub previous: String,
    /// The branch name at deploy time.
    pub branch: String,
}

/// The revision marker as it is written to and read back from the
/// destination, at `<destination>/revision.json`.
#[derive(Debug, Clone)]
pub struct Revision {
    pub admin: Admin,
}

impl Revision {
    /// A fresh bootstrap marker: `previous` is set to the new revision
    /// itself, since no genuinely prior revision is known.
    pub fn new(revision: &str, branch: &str) -> (r: Revision)
        ensures
            r.admin.revision@ == revision@,
            r.admin.previous@ == revision@,
            r.admin.branch@ == branch@,
    {
        let admin = Admin {
            revision: String::from_str(revision),
            previous: String::from_str(revision),
            branch: String::from_str(branch),
        };
        Revision { admin }
    }

    /// A marker that records a known prior revision, or bootstraps when
    /// none is known.
    pub fn succeeding(head: &String, branch: &String, prior: &Option<String>) -> (r: Revision)
        ensures
            r.admin.revision@ == head@,
            r.admin.branch@ == branch@,
            (match prior {
                Some(p) => r.admin.previous@ == p@,
                None => r.admin.previous@ == head@,
            }),
    {
        let previous = match prior {
            Some(p) => p.clone(),
            None => head.clone(),
        };
        Revision {
            admin: Admin { revision: head.clone(), previous, branch: branch.clone() },
        }
    }
}

/// A field value that needs no escaping inside a JSON string: it holds no
/// quote and no backslash. Commit identifiers and ordinary branch names are
/// plain.
pub open spec fn plain(s: Seq<char>) -> bool {
    forall|i: int| 0 <= i < s.len() ==> s[i] != '"' && s[i] != '\\'
}

/// The opening of the wire form, up to the first field.
pub open spec fn lit_open() -> Seq<char> {
    ("{\"admin\":{\"revision\":\"")@
}

/// The wire form between the `revision` and `previous` fields.
pub open spec fn lit_previous() -> Seq<char> {
    ("\",\"previous\":\"")@
}

/// The wire form between the `previous` and `branch` fields.
pub open spec fn lit_branch() -> Seq<char> {
    ("\",\"branch\":\"")@
}

/// The closing of the wire form.
pub open spec fn lit_close() -> Seq<char> {
    ("\"}}")@
}

/// The wire form of a marker:
/// `{"admin":{"revision":"R","previous":"P","branch":"B"}}`.
pub open spec fn marker_json_spec(rev: Seq<char>, prev: Seq<char>, br: Seq<char>) -> Seq<char> {
    lit_open() + rev + lit_previous() + prev + lit_branch() + br + lit_close()
}

/// Encode a marker into its JSON wire form.
pub fn marker_json(m: &Revision) -> (r: String)
    ensures
        r@ == marker_json_spec(m.admin.revision@, m.admin.previous@, m.admin.branch@),
{
    let mut r = String::new();
    r.append("{\"admin\":{\"revision\":\"");
    r.append(m.admin.revision.as_str());
    r.append("\",\"previous\":\"");
    r.append(m.admin.previous.as_str());
    r.append("\",\"branch\":\"");
    r.append(m.admin.branch.as_str());
    r.append("\"}}");
    proof {
        assert(r@ =~= marker_json_spec(m.admin.revision@, m.admin.previous@, m.admin.branch@));
    }
    r
}

/// True exactly when `lit` occurs in `s` at position `pos`.
fn match_lit(s: &str, pos: usize, lit: &str) -> (b: bool)
    requires
        pos <= s@.len(),
    ensures
        b == (pos + lit@.len() <= s@.len() && s@.subrange(pos as int, pos + lit@.len()) == lit@),
{
    let n = s.unicode_len();
    let m = lit.unicode_len();
    if m > n - pos {
        return false;
    }
    let mut i: usize = 0;
    while i < m
        invariant
            i <= m,
            pos + m <= n,
            n == s@.len(),
            m == lit@.len(),
            pos <= s@.len(),
            forall|j: int| 0 <= j < i ==> s@[pos + j] == lit@[j],
        decreases m - i,
    {
        if s.get_char(pos + i) != lit.get_char(i) {
            proof {
                assert(s@.subrange(pos as int, pos + lit@.len())[i as int] == s@[pos + i]);
            }
            return false;
        }
        i = i + 1;
    }
    proof {
        assert(s@.subrange(pos as int, pos + lit@.len()) =~= lit@);
    }
    true
}

/// The first quote at or after `start`, and everything before it.
fn scan_field(s: &str, start: usize) -> (r: Option<(String, usize)>)
    requires
        start <= s@.len(),
    ensures
        r matches Some(fq) ==> ({
            &&& start <= fq.1 < s@.len()
            &&& s@[fq.1 as int] == '"'
            &&& fq.0@ == s@.subrange(start as int, fq.1 as int)
            &&& forall|j: int| start <= j < fq.1 ==> s@[j] != '"'
        }),
        r is None ==> forall|j: int| start <= j < s@.len() ==> s@[j] != '"',
{
    let n = s.unicode_len();
    let mut q: usize = start;
    while q < n
        invariant
            start <= q <= n,
            n == s@.len(),
            forall|j: int| start <= j < q ==> s@[j] != '"',
        decreases n - q,
    {
        if s.get_char(q) == '"' {
            let f = s.substring_char(start, q);
            return Some((f.to_owned(), q));
        }
        q = q + 1;
    }
    None
}

/// A quote with no quote between `start` and it is the first one after
/// `start`.
proof fn lemma_first_quote(s: Seq<char>, start: int, a: int, b: int)
    requires
        start <= a < s.len(),
        start <= b < s.len(),
        s[a] == '"',
        s[b] == '"',
        forall|j: int| start <= j < a ==> s[j] != '"',
        forall|j: int| start <= j < b ==> s[j] != '"',
    ensures
        a == b,
{
}

/// Where each piece of the wire form of plain fields sits inside it.
spec fn decomposed(s: Seq<char>, rev: Seq<char>, prev: Seq<char>, br: Seq<char>) -> bool {
    let c1 = lit_open().len() as int;
    let e1 = c1 + rev.len();
    let c2 = e1 + lit_previous().len();
    let e2 = c2 + prev.len();
    let c3 = e2 + lit_branch().len();
    let e3 = c3 + br.len();
    let tot = e3 + lit_close().len();
    &&& s.len() == tot
    &&& 1 <= c1 && c1 <= e1 && e1 + 1 <= c2 && c2 <= e2 && e2 + 1 <= c3 && c3 <= e3 && e3 + 1
        <= tot
    &&& s.subrange(0, c1) == lit_open()
    &&& s.subrange(c1, e1) == rev
    &&& (forall|j: int| c1 <= j < e1 ==> s[j] != '"')
    &&& s[e1] == '"'
    &&& s.subrange(e1, c2) == lit_previous()
    &&& s.subrange(c2, e2) == prev
    &&& (forall|j: int| c2 <= j < e2 ==> s[j] != '"')
    &&& s[e2] == '"'
    &&& s.subrange(e2, c3) == lit_branch()
    &&& s.subrange(c3, e3) == br
    &&& (forall|j: int| c3 <= j < e3 ==> s[j] != '"')
    &&& s[e3] == '"'
    &&& s.subrange(e3, tot) == lit_close()
}

/// The wire form of plain fields decomposes into its pieces.
proof fn lemma_json_decompose(s: Seq<char>, rev: Seq<char>, prev: Seq<char>, br: Seq<char>)
    requires
        s == marker_json_spec(rev, prev, br),
        plain(rev),
        plain(prev),
        plain(br),
    ensures
        decomposed(s, rev, prev, br),
{
    reveal_strlit("{\"admin\":{\"revision\":\"");
    reveal_strlit("\",\"previous\":\"");
    reveal_strlit("\",\"branch\":\"");
    reveal_strlit("\"}}");
    let c1 = lit_open().len() as int;
    let e1 = c1 + rev.len();
    let c2 = e1 + lit_previous().len();
    let e2 = c2 + prev.len();
    let c3 = e2 + lit_branch().len();
    let e3 = c3 + br.len();
    let tot = e3 + lit_close().len();
    assert(s.subrange(0, c1) =~= lit_open());
    assert(s.subrange(c1, e1) =~= rev);
    assert(s.subrange(e1, c2) =~= lit_previous());
    assert(s.subrange(c2, e2) =~= prev);
    assert(s.subrange(e2, c3) =~= lit_branch());
    assert(s.subrange(c3, e3) =~= br);
    assert(s.subrange(e3, tot) =~= lit_close());
    assert(s[e1] == lit_previous()[0]);
    assert(s[e2] == lit_branch()[0]);
    assert(s[e3] == lit_close()[0]);
    assert forall|j: int| c1 <= j < e1 implies s[j] != '"' by {
        assert(s[j] == rev[j - c1]);
    }
    assert forall|j: int| c2 <= j < e2 implies s[j] != '"' by {
        assert(s[j] == prev[j - c2]);
    }
    assert forall|j: int| c3 <= j < e3 implies s[j] != '"' by {
        assert(s[j] == br[j - c3]);
    }
}

/// Encoding is injective on plain fields: equal wire forms mean equal
/// `revision`, `previous`, and `branch` values. Together with
/// `parse_marker`'s contract this is the round-trip law: encoding a marker
/// with plain fields and decoding the result yields the same values.
pub proof fn lemma_marker_json_injective(
    r1: Seq<char>,
    p1: Seq<char>,
    b1: Seq<char>,
    r2: Seq<char>,
    p2: Seq<char>,
    b2: Seq<char>,
)
    requires
        plain(r1),
        plain(p1),
        plain(b1),
        plain(r2),
        plain(p2),
        plain(b2),
        marker_json_spec(r1, p1, b1) == marker_json_spec(r2, p2, b2),
    ensures
        r1 == r2,
        p1 == p2,
        b1 == b2,
{
    let s = marker_json_spec(r1, p1, b1);
    lemma_json_decompose(s, r1, p1, b1);
    lemma_json_decompose(s, r2, p2, b2);
    let c1 = lit_open().len() as int;
    lemma_first_quote(s, c1, c1 + r1.len(), c1 + r2.len());
    assert(r1 =~= r2);
    let c2 = c1 + r1.len() + lit_previous().len();
    lemma_first_quote(s, c2, c2 + p1.len(), c2 + p2.len());
    assert(p1 =~= p2);
    let c3 = c2 + p1.len() + lit_branch().len();
    lemma_first_quote(s, c3, c3 + b1.len(), c3 + b2.len());
    assert(b1 =~= b2);
}

/// Decode a marker from its JSON wire form.
///
/// The parser accepts exactly the wire forms this library writes. The
/// second clause is the round-trip guarantee: the wire form of any marker
/// whose fields are plain parses back to exactly those fields.
#[verifier::rlimit(100)]
pub fn parse_marker(s: &str) -> (r: Option<Revision>)
    ensures
        r matches Some(m) ==> s@ == marker_json_spec(
            m.admin.revision@,
            m.admin.previous@,
            m.admin.branch@,
        ),
        forall|rev: Seq<char>, prev: Seq<char>, br: Seq<char>|
            plain(rev) && plain(prev) && plain(br) && s@ == #[trigger] marker_json_spec(
                rev,
                prev,
                br,
            ) ==> (r matches Some(m) && m.admin.revision@ == rev && m.admin.previous@ == prev
                && m.admin.branch@ == br),
{
    let l1 = "{\"admin\":{\"revision\":\"";
    let l2 = "\",\"previous\":\"";
    let l3 = "\",\"branch\":\"";
    let l4 = "\"}}";
    let n = s.unicode_len();
    if !match_lit(s, 0, l1) {
        proof {
            assert forall|rev: Seq<char>, prev: Seq<char>, br: Seq<char>|
                plain(rev) && plain(prev) && plain(br) && s@ == #[trigger] marker_json_spec(
                    rev,
                    prev,
                    br,
                ) implies false by {
                lemma_json_decompose(s@, rev, prev, br);
            }
        }
        return None;
    }
    let pos1 = l1.unicode_len();
    let scan1 = scan_field(s, pos1);
    let (f1, q1) = match scan1 {
        Some(fq) => fq,
        None => {
            proof {
                assert forall|rev: Seq<char>, prev: Seq<char>, br: Seq<char>|
                    plain(rev) && plain(prev) && plain(br) && s@ == #[trigger] marker_json_spec(
                        rev,
                        prev,
                        br,
                    ) implies false by {
                    lemma_json_decompose(s@, rev, prev, br);
                    let e1 = lit_open().len() + rev.len();
                    assert(s@[e1 as int] == '"');
                }
            }
            return None;
        },
    };
    if !match_lit(s, q1, l2) {
        proof {
            assert forall|rev: Seq<char>, prev: Seq<char>, br: Seq<char>|
                plain(rev) && plain(prev) && plain(br) && s@ == #[trigger] marker_json_spec(
                    rev,
                    prev,
                    br,
                ) implies false by {
                lemma_json_decompose(s@, rev, prev, br);
                let c1 = lit_open().len() as int;
                let e1 = c1 + rev.len();
                lemma_first_quote(s@, c1, q1 as int, e1);
            }
        }
        return None;
    }
    let pos2 = q1 + l2.unicode_len();
    let scan2 = scan_field(s, pos2);
    let (f2, q2) = match scan2 {
        Some(fq) => fq,
        None => {
            proof {
                assert forall|rev: Seq<char>, prev: Seq<char>, br: Seq<char>|
                    plain(rev) && plain(prev) && plain(br) && s@ == #[trigger] marker_json_spec(
                        rev,
                        prev,
                        br,
                    ) implies false by {
                    lemma_json_decompose(s@, rev, prev, br);
                    let c1 = lit_open().len() as int;
                    let e1 = c1 + rev.len();
                    lemma_first_quote(s@, c1, q1 as int, e1);
                    let e2 = e1 + lit_previous().len() + prev.len();
                    assert(s@[e2] == '"');
                }
            }
            return None;
        },
    };
    if !match_lit(s, q2, l3) {
        proof {
            assert forall|rev: Seq<char>, prev: Seq<char>, br: Seq<char>|
                plain(rev) && plain(prev) && plain(br) && s@ == #[trigger] marker_json_spec(
                    rev,
                    prev,
                    br,
                ) implies false by {
                lemma_json_decompose(s@, rev, prev, br);
                let c1 = lit_open().len() as int;
                let e1 = c1 + rev.len();
                lemma_first_quote(s@, c1, q1 as int, e1);
                let c2 = e1 + lit_previous().len();
                let e2 = c2 + prev.len();
                lemma_first_quote(s@, c2, q2 as int, e2);
            }
        }
        return None;
    }
    let pos3 = q2 + l3.unicode_len();
    let scan3 = scan_field(s, pos3);
    let (f3, q3) = match scan3 {
        Some(fq) => fq,
        None => {
            proof {
                assert forall|rev: Seq<char>, prev: Seq<char>, br: Seq<char>|
                    plain(rev) && plain(prev) && plain(br) && s@ == #[trigger] marker_json_spec(
                        rev,
                        prev,
                        br,
                    ) implies false by {
                    lemma_json_decompose(s@, rev, prev, br);
                    let c1 = lit_open().len() as int;
                    let e1 = c1 + rev.len();
                    lemma_first_quote(s@, c1, q1 as int, e1);
                    let c2 = e1 + lit_previous().len();
                    let e2 = c2 + prev.len();
                    lemma_first_quote(s@, c2, q2 as int, e2);
                    let e3 = e2 + lit_branch().len() + br.len();
                    assert(s@[e3] == '"');
                }
            }
            return None;
        },
    };
    if !match_lit(s, q3, l4) {
        proof {
            assert forall|rev: Seq<char>, prev: Seq<char>, br: Seq<char>|
                plain(rev) && plain(prev) && plain(br) && s@ == #[trigger] marker_json_spec(
                    rev,
                    prev,
                    br,
                ) implies false by {
                lemma_json_decompose(s@, rev, prev, br);
                let c1 = lit_open().len() as int;
                let e1 = c1 + rev.len();
                lemma_first_quote(s@, c1, q1 as int, e1);
                let c2 = e1 + lit_previous().len();
                let e2 = c2 + prev.len();
                lemma_first_quote(s@, c2, q2 as int, e2);
                let c3 = e2 + lit_branch().len();
                let e3 = c3 + br.len();
                lemma_first_quote(s@, c3, q3 as int, e3);
            }
        }
        return None;
    }
    if q3 + l4.unicode_len() != n {
        proof {
            assert forall|rev: Seq<char>, prev: Seq<char>, br: Seq<char>|
                plain(rev) && plain(prev) && plain(br) && s@ == #[trigger] marker_json_spec(
                    rev,
                    prev,
                    br,
                ) implies false by {
                lemma_json_decompose(s@, rev, prev, br);
                let c1 = lit_open().len() as int;
                let e1 = c1 + rev.len();
                lemma_first_quote(s@, c1, q1 as int, e1);
                let c2 = e1 + lit_previous().len();
                let e2 = c2 + prev.len();
                lemma_first_quote(s@, c2, q2 as int, e2);
                let c3 = e2 + lit_branch().len();
                let e3 = c3 + br.len();
                lemma_first_quote(s@, c3, q3 as int, e3);
            }
        }
        return None;
    }
    let m = Revision { admin: Admin { revision: f1, previous: f2, branch: f3 } };
    proof {
        assert(s@ =~= marker_json_spec(m.admin.revision@, m.admin.previous@, m.admin.branch@));
        assert forall|rev: Seq<char>, prev: Seq<char>, br: Seq<char>|
            plain(rev) && plain(prev) && plain(br) && s@ == #[trigger] marker_json_spec(
                rev,
                prev,
                br,
            ) implies m.admin.revision@ == rev && m.admin.previous@ == prev && m.admin.branch@
            == br by {
            lemma_json_decompose(s@, rev, prev, br);
            let c1 = lit_open().len() as int;
            let e1 = c1 + rev.len();
            lemma_first_quote(s@, c1, q1 as int, e1);
            let c2 = e1 + lit_previous().len();
            let e2 = c2 + prev.len();
            lemma_first_quote(s@, c2, q2 as int, e2);
            let c3 = e2 + lit_branch().len();
            let e3 = c3 + br.len();
            lemma_first_quote(s@, c3, q3 as int, e3);
            assert(m.admin.revision@ =~= rev);
            assert(m.admin.previous@ =~= prev);
            assert(m.admin.branch@ =~= br);
        }
    }
    Some(m)
}

} // verus!
