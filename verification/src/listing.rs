//! Decoding a name-and-status diff listing: one line per change, a
//! status word, a tab, and the path — with renames and copies listing
//! the old path first and the new one second.

use vstd::prelude::*;
use vstd::string::*;
use crate::plan::{ChangeKind, DiffEntry};

verus! {

/// The change kind a status word's first letter names. Anything that is
/// not an addition, a deletion, a rename, or a copy counts as a
/// modification.
pub open spec fn kind_of_spec(c: char) -> ChangeKind {
    if c == 'A' {
        ChangeKind::Added
    } else if c == 'D' {
        ChangeKind::Deleted
    } else if c == 'R' || c == 'C' {
        ChangeKind::Renamed
    } else {
        ChangeKind::Modified
    }
}

/// The index of the first `t` at or after `from`, or -1 when there is
/// none.
pub open spec fn first_at(s: Seq<char>, from: int, t: char) -> int
    decreases s.len() - from,
{
    if from < 0 || from >= s.len() {
        -1
    } else if s[from] == t {
        from
    } else {
        first_at(s, from + 1, t)
    }
}

/// An occurrence with none before it is the first.
proof fn lemma_first_at_found(s: Seq<char>, from: int, i: int, t: char)
    requires
        0 <= from <= i < s.len(),
        s[i] == t,
        forall|j: int| from <= j < i ==> s[j] != t,
    ensures
        first_at(s, from, t) == i,
    decreases i - from,
{
    if from < i {
        lemma_first_at_found(s, from + 1, i, t);
    }
}

/// No occurrence at all means -1.
proof fn lemma_first_at_none(s: Seq<char>, from: int, t: char)
    requires
        0 <= from <= s.len(),
        forall|j: int| from <= j < s.len() ==> s[j] != t,
    ensures
        first_at(s, from, t) == -1,
    decreases s.len() - from,
{
    if from < s.len() {
        lemma_first_at_none(s, from + 1, t);
    }
}

/// What one listing line denotes: the changed path and the change kind,
/// or nothing when the line is not status-tab-path shaped. A rename or
/// copy takes the second path; every other change takes the first.
pub open spec fn entry_of_line(line: Seq<char>) -> Option<(Seq<char>, ChangeKind)> {
    let t1 = first_at(line, 0, '\t');
    if t1 <= 0 {
        None
    } else {
        let kind = kind_of_spec(line[0]);
        let t2 = first_at(line, t1 + 1, '\t');
        if t2 == -1 {
            Some((line.subrange(t1 + 1, line.len() as int), kind))
        } else if kind is Renamed {
            Some((line.subrange(t2 + 1, line.len() as int), kind))
        } else {
            Some((line.subrange(t1 + 1, t2), kind))
        }
    }
}

/// What a whole listing denotes: the entries of its newline-separated
/// lines, in order, or nothing when any line is malformed. An empty
/// listing denotes no entries.
pub open spec fn listing_of(s: Seq<char>) -> Option<Seq<(Seq<char>, ChangeKind)>>
    decreases s.len(),
{
    if s.len() == 0 {
        Some(Seq::empty())
    } else {
        let e = first_at(s, 0, '\n');
        if 0 <= e && e < s.len() {
            match entry_of_line(s.take(e)) {
                None => None,
                Some(x) => match listing_of(s.skip(e + 1)) {
                    None => None,
                    Some(rest) => Some(seq![x] + rest),
                },
            }
        } else {
            match entry_of_line(s) {
                None => None,
                Some(x) => Some(seq![x]),
            }
        }
    }
}

/// The denotation of already-decoded entries.
pub open spec fn entries_model(v: Seq<DiffEntry>) -> Seq<(Seq<char>, ChangeKind)> {
    v.map_values(|e: DiffEntry| (e.path@, e.kind))
}

/// The index of the first `target` at or after `start`, scanning the
/// characters one by one.
fn find_char(s: &str, start: usize, target: char) -> (r: Option<usize>)
    requires
        start <= s@.len(),
    ensures
        r matches Some(i) ==> start <= i < s@.len() && s@[i as int] == target && forall|j: int|
            start <= j < i ==> s@[j] != target,
        r is None ==> forall|j: int| start <= j < s@.len() ==> s@[j] != target,
{
    let n = s.unicode_len();
    let mut i: usize = start;
    while i < n
        invariant
            start <= i <= n,
            n == s@.len(),
            forall|j: int| start <= j < i ==> s@[j] != target,
        decreases n - i,
    {
        if s.get_char(i) == target {
            return Some(i);
        }
        i = i + 1;
    }
    None
}

/// The executable form of `kind_of_spec`.
fn kind_of(c: char) -> (k: ChangeKind)
    ensures
        k == kind_of_spec(c),
{
    if c == 'A' {
        ChangeKind::Added
    } else if c == 'D' {
        ChangeKind::Deleted
    } else if c == 'R' || c == 'C' {
        ChangeKind::Renamed
    } else {
        ChangeKind::Modified
    }
}

/// Decode one listing line.
fn parse_line(line: &str) -> (r: Option<DiffEntry>)
    ensures
        r is Some <==> entry_of_line(line@) is Some,
        r matches Some(d) ==> entry_of_line(line@) matches Some(x) && d.path@ == x.0 && d.kind
            == x.1,
{
    let n = line.unicode_len();
    let t1 = match find_char(line, 0, '\t') {
        None => {
            proof {
                lemma_first_at_none(line@, 0, '\t');
            }
            return None;
        },
        Some(t1) => t1,
    };
    proof {
        lemma_first_at_found(line@, 0, t1 as int, '\t');
    }
    if t1 == 0 {
        return None;
    }
    let kind = kind_of(line.get_char(0));
    match find_char(line, t1 + 1, '\t') {
        None => {
            proof {
                lemma_first_at_none(line@, t1 + 1, '\t');
            }
            let path = line.substring_char(t1 + 1, n).to_owned();
            Some(DiffEntry { path, kind })
        },
        Some(t2) => {
            proof {
                lemma_first_at_found(line@, t1 + 1, t2 as int, '\t');
            }
            let path = match kind {
                ChangeKind::Renamed => line.substring_char(t2 + 1, n).to_owned(),
                _ => line.substring_char(t1 + 1, t2).to_owned(),
            };
            Some(DiffEntry { path, kind })
        },
    }
}

/// Decode a whole name-and-status listing into diff entries, line by
/// line; any malformed line rejects the whole listing.
pub fn parse_name_status(text: &str) -> (r: Option<Vec<DiffEntry>>)
    ensures
        r is Some <==> listing_of(text@) is Some,
        r matches Some(v) ==> listing_of(text@) == Some(entries_model(v@)),
{
    let n = text.unicode_len();
    let mut acc: Vec<DiffEntry> = Vec::new();
    let mut at: usize = 0;
    proof {
        assert(text@.skip(0) =~= text@);
        assert(entries_model(acc@) =~= Seq::<(Seq<char>, ChangeKind)>::empty());
    }
    while at < n
        invariant
            at <= n,
            n == text@.len(),
            listing_of(text@.skip(at as int)) matches Some(rest) ==> listing_of(text@) == Some(
                entries_model(acc@) + rest,
            ),
            listing_of(text@.skip(at as int)) is None ==> listing_of(text@) is None,
        decreases n - at,
    {
        let ghost suffix = text@.skip(at as int);
        let line_end = match find_char(text, at, '\n') {
            Some(e) => e,
            None => n,
        };
        proof {
            assert(suffix.len() == n - at);
            assert(forall|j: int| 0 <= j < suffix.len() ==> suffix[j] == text@[at + j]);
            if line_end < n {
                assert(suffix[line_end - at] == '\n');
                assert forall|j: int| 0 <= j < line_end - at implies suffix[j] != '\n' by {
                    assert(text@[at + j] != '\n');
                }
                lemma_first_at_found(suffix, 0, line_end - at, '\n');
            } else {
                assert forall|j: int| 0 <= j < suffix.len() implies suffix[j] != '\n' by {
                    assert(text@[at + j] != '\n');
                }
                lemma_first_at_none(suffix, 0, '\n');
            }
        }
        let line = text.substring_char(at, line_end);
        proof {
            if line_end < n {
                assert(line@ =~= suffix.take(line_end - at));
            } else {
                assert(line@ =~= suffix);
            }
        }
        let entry = match parse_line(line) {
            None => {
                return None;
            },
            Some(entry) => entry,
        };
        let ghost pre = acc@;
        acc.push(entry);
        proof {
            let x = entry_of_line(line@)->0;
            assert(entries_model(acc@) =~= entries_model(pre) + seq![x]);
            if line_end < n {
                assert(suffix.skip(line_end - at + 1) =~= text@.skip(line_end + 1));
                if listing_of(text@.skip(line_end + 1)) is Some {
                    let rest = listing_of(text@.skip(line_end + 1))->0;
                    assert(listing_of(suffix) == Some(seq![x] + rest));
                    assert(entries_model(pre) + (seq![x] + rest) =~= entries_model(acc@) + rest);
                }
            } else {
                assert(listing_of(suffix) == Some(seq![x]));
                assert(text@.skip(n as int) =~= Seq::<char>::empty());
                assert(listing_of(text@.skip(n as int)) == Some(
                    Seq::<(Seq<char>, ChangeKind)>::empty(),
                ));
                assert(entries_model(pre) + seq![x] =~= entries_model(acc@) + Seq::<(
                    Seq<char>,
                    ChangeKind,
                )>::empty());
            }
        }
        at = if line_end < n {
            line_end + 1
        } else {
            n
        };
    }
    proof {
        assert(text@.skip(n as int) =~= Seq::<char>::empty());
        assert(listing_of(text@.skip(n as int)) == Some(Seq::<(Seq<char>, ChangeKind)>::empty()));
        assert(entries_model(acc@) + Seq::<(Seq<char>, ChangeKind)>::empty() =~= entries_model(
            acc@,
        ));
    }
    Some(acc)
}

} // verus!
