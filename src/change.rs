//! Changed files of a pull request and the revisions each one is read at.
use vstd::prelude::*;

verus! {

/// How a file changed in a pull request.
#[derive(Clone, Copy, Debug, PartialEq, Eq, Structural)]
pub enum ChangeKind {
    Added,
    Removed,
    Modified,
    Renamed,
    Copied,
    Changed,
    Unchanged,
}

/// A changed file: its path and how it changed.
pub struct FileChange {
    pub filename: String,
    pub status: ChangeKind,
}

/// Which revisions a file is read at: (base, head). Renamed, copied and
/// otherwise changed files are read at neither and so are not diffed.
pub open spec fn reads_at(kind: ChangeKind) -> (bool, bool) {
    match kind {
        ChangeKind::Added => (false, true),
        ChangeKind::Removed => (true, false),
        ChangeKind::Modified => (true, true),
        _ => (false, false),
    }
}

/// The commits a file with the given change is read at: the base sha when
/// the file exists before the change, the head sha when it exists after.
pub fn status_to_sha(kind: ChangeKind, base_sha: &str, head_sha: &str) -> (r: (
    Option<String>,
    Option<String>,
))
    ensures
        r.0 is Some <==> reads_at(kind).0,
        r.1 is Some <==> reads_at(kind).1,
        r.0 matches Some(s) ==> s@ == base_sha@,
        r.1 matches Some(s) ==> s@ == head_sha@,
{
    match kind {
        ChangeKind::Added => (None, Some(String::from_str(head_sha))),
        ChangeKind::Removed => (Some(String::from_str(base_sha)), None),
        ChangeKind::Modified => (Some(String::from_str(base_sha)), Some(String::from_str(head_sha))),
        _ => (None, None),
    }
}

/// The positions, in order, of the files whose change is `kind`.
pub open spec fn positions_of(files: Seq<FileChange>, kind: ChangeKind) -> Seq<int>
    decreases files.len(),
{
    if files.len() == 0 {
        Seq::empty()
    } else {
        let prev = positions_of(files.drop_last(), kind);
        if files.last().status == kind {
            prev.push(files.len() - 1)
        } else {
            prev
        }
    }
}

/// The positions, in order, of the files whose change is `kind`.
pub fn filter_on_status(files: &Vec<FileChange>, kind: ChangeKind) -> (r: Vec<usize>)
    ensures
        r@.map_values(|i: usize| i as int) == positions_of(files@, kind),
{
    let mut out: Vec<usize> = Vec::new();
    let mut i: usize = 0;
    while i < files.len()
        invariant
            i <= files.len(),
            out@.map_values(|k: usize| k as int) == positions_of(files@.take(i as int), kind),
        decreases files.len() - i,
    {
        proof {
            assert(files@.take(i + 1).drop_last() =~= files@.take(i as int));
        }
        if files[i].status == kind {
            let ghost before = out@;
            out.push(i);
            assert(out@.map_values(|k: usize| k as int) =~= before.map_values(|k: usize| k as int).push(
                i as int,
            ));
        }
        i = i + 1;
    }
    assert(files@.take(i as int) =~= files@);
    out
}

} // verus!
