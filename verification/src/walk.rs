//! The recursive file enumerator: a depth-first walk over a snapshot of a
//! filesystem subtree, applying the extension filter and appending the
//! qualifying file paths to one flat list.
//!
//! The caller observes the filesystem (that part is I/O and stays outside
//! the library) and hands in an `FsEntry` tree; every decision about which
//! paths end up in the list, and in what order, is made and verified here.

use vstd::prelude::*;

use crate::error::LoaderError;
use crate::filter::{accepts, add_file, suffix_views};
use crate::strutil::views;

verus! {

/// A snapshot of one filesystem node, as the caller observed it.
pub enum FsEntry {
    /// A regular file.
    File { path: String },
    /// A directory with its children, in the order the system reported them.
    Dir { path: String, entries: Vec<FsEntry> },
    /// A path that exists but is neither a regular file nor a directory.
    Other { path: String },
    /// A path that does not exist (meaningful only as the root of a walk).
    Missing { path: String },
}

/// The paths a depth-first walk of `e` under filter `sfx` collects, in
/// traversal order. Non-file, non-directory entries below the root are
/// skipped silently.
pub open spec fn collected(e: FsEntry, sfx: Option<Seq<Seq<char>>>) -> Seq<Seq<char>>
    decreases e,
{
    match e {
        FsEntry::File { path } => if accepts(sfx, path@) {
            seq![path@]
        } else {
            Seq::empty()
        },
        FsEntry::Dir { path: _, entries } => collected_list(entries@, sfx),
        FsEntry::Other { .. } => Seq::empty(),
        FsEntry::Missing { .. } => Seq::empty(),
    }
}

/// The concatenation of the walks of a directory's children, in order.
pub open spec fn collected_list(es: Seq<FsEntry>, sfx: Option<Seq<Seq<char>>>) -> Seq<Seq<char>>
    decreases es,
{
    if es.len() == 0 {
        Seq::empty()
    } else {
        collected(es[0], sfx) + collected_list(es.drop_first(), sfx)
    }
}

proof fn lemma_collected_list_push(es: Seq<FsEntry>, x: FsEntry, sfx: Option<Seq<Seq<char>>>)
    ensures
        collected_list(es.push(x), sfx) == collected_list(es, sfx) + collected(x, sfx),
    decreases es.len(),
{
    if es.len() == 0 {
        assert(es.push(x)[0] == x);
        assert(es.push(x).drop_first() =~= Seq::<FsEntry>::empty());
        assert(collected_list(es.push(x), sfx) == collected(x, sfx) + collected_list(
            Seq::<FsEntry>::empty(),
            sfx,
        ));
        assert(collected(x, sfx) + Seq::<Seq<char>>::empty() =~= collected(x, sfx));
        assert(collected_list(es, sfx) + collected(x, sfx) =~= collected(x, sfx));
    } else {
        assert(es.push(x).drop_first() =~= es.drop_first().push(x));
        lemma_collected_list_push(es.drop_first(), x, sfx);
        assert(collected_list(es.push(x), sfx) =~= collected_list(es, sfx) + collected(x, sfx));
    }
}

/// The outcome owed for each kind of root: an error for a missing or
/// special root, success for a file or directory root.
pub open spec fn root_outcome(entry: FsEntry, r: Result<(), LoaderError>) -> bool {
    match entry {
        FsEntry::Missing { path } => match r {
            Err(e) => e matches LoaderError::NotFound { path: p } && p@ == path@,
            Ok(_) => false,
        },
        FsEntry::Other { path } => match r {
            Err(e) => e matches LoaderError::NotADirectory { path: p } && p@ == path@,
            Ok(_) => false,
        },
        _ => r is Ok,
    }
}

/// Walk the snapshot rooted at `entry` depth-first, appending every
/// qualifying file path to `files`.
///
/// A missing root fails with `NotFound`, a root that is neither file nor
/// directory with `NotADirectory`; in both cases `files` is untouched.
pub fn list_files(files: &mut Vec<String>, entry: &FsEntry, suffixes: Option<&Vec<String>>) -> (r:
    Result<(), LoaderError>)
    ensures
        root_outcome(*entry, r),
        r is Ok ==> views(final(files)@) == views(old(files)@) + collected(
            *entry,
            suffix_views(suffixes),
        ),
        r is Err ==> final(files)@ == old(files)@,
{
    match entry {
        FsEntry::Missing { path } => Err(LoaderError::NotFound { path: path.clone() }),
        FsEntry::Other { path } => Err(LoaderError::NotADirectory { path: path.clone() }),
        FsEntry::File { path } => {
            add_file(files, suffixes, path.as_str());
            proof {
                if accepts(suffix_views(suffixes), path@) {
                    assert(views(old(files)@).push(path@) =~= views(old(files)@) + seq![path@]);
                } else {
                    assert(views(files@) =~= views(old(files)@) + Seq::<Seq<char>>::empty());
                }
            }
            Ok(())
        },
        FsEntry::Dir { path: _, entries } => {
            walk_entries(files, entries, suffixes);
            Ok(())
        },
    }
}

/// Walk a directory's children in order, descending depth-first.
fn walk_entries(files: &mut Vec<String>, entries: &Vec<FsEntry>, suffixes: Option<&Vec<String>>)
    ensures
        views(final(files)@) == views(old(files)@) + collected_list(
            entries@,
            suffix_views(suffixes),
        ),
    decreases entries@,
{
    let ghost sfx = suffix_views(suffixes);
    let n = entries.len();
    let mut i: usize = 0;
    proof {
        assert(entries@.subrange(0, 0) =~= Seq::<FsEntry>::empty());
        assert(views(files@) =~= views(files@) + collected_list(
            entries@.subrange(0, 0),
            sfx,
        ));
    }
    while i < n
        invariant
            i <= n,
            n == entries.len(),
            sfx == suffix_views(suffixes),
            views(files@) == views(old(files)@) + collected_list(
                entries@.subrange(0, i as int),
                sfx,
            ),
        decreases n - i,
    {
        let e = &entries[i];
        let ghost pre = files@;
        match e {
            FsEntry::File { path } => {
                add_file(files, suffixes, path.as_str());
                proof {
                    if accepts(sfx, path@) {
                        assert(views(pre).push(path@) =~= views(pre) + seq![path@]);
                    }
                    assert(views(files@) =~= views(pre) + collected(entries@[i as int], sfx));
                }
            },
            FsEntry::Dir { path: _, entries: sub } => {
                walk_entries(files, sub, suffixes);
            },
            FsEntry::Other { .. } => {
                proof {
                    assert(views(files@) =~= views(pre) + collected(entries@[i as int], sfx));
                }
            },
            FsEntry::Missing { .. } => {
                proof {
                    assert(views(files@) =~= views(pre) + collected(entries@[i as int], sfx));
                }
            },
        }
        proof {
            assert(entries@.subrange(0, i + 1) =~= entries@.subrange(0, i as int).push(
                entries@[i as int],
            ));
            lemma_collected_list_push(entries@.subrange(0, i as int), entries@[i as int], sfx);
            assert(views(files@) =~= views(old(files)@) + collected_list(
                entries@.subrange(0, i + 1),
                sfx,
            ));
        }
        i = i + 1;
    }
    proof {
        assert(entries@.subrange(0, n as int) =~= entries@);
    }
}

/// Enumerating an unchanged tree twice yields the same paths: the collected
/// list is a function of the snapshot and the filter alone, so two walks
/// agree element for element, and in particular as multisets.
pub proof fn lemma_enumeration_idempotent(
    r1: Seq<Seq<char>>,
    r2: Seq<Seq<char>>,
    e: FsEntry,
    sfx: Option<Seq<Seq<char>>>,
)
    requires
        r1 == collected(e, sfx),
        r2 == collected(e, sfx),
    ensures
        r1 == r2,
        r1.to_multiset() == r2.to_multiset(),
{
}

} // verus!
