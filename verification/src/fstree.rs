//! A snapshot of a directory tree, and the depth-first search the update
//! pipeline runs over an extracted package to locate the tool's executable.
//! The tree is built outside the library by whatever reads the disk; a
//! directory that could not be read is represented without entries, so an
//! unreadable subtree is skipped rather than aborting the search.

use vstd::prelude::*;
use crate::text::{chars_of, eq_chars};

verus! {

/// One node of a directory-tree snapshot.
pub enum FsEntry {
    /// A plain file.
    File { name: String },
    /// A directory and the entries that were read from it, in the order
    /// they were listed.
    Dir { name: String, entries: Vec<FsEntry> },
}

/// The mathematical content of an [`FsEntry`].
pub enum FsView {
    File(Seq<char>),
    Dir(Seq<char>, Seq<FsView>),
}

/// The view of a tree node.
pub open spec fn fs_view(e: FsEntry) -> FsView
    decreases e,
{
    match e {
        FsEntry::File { name } => FsView::File(name@),
        FsEntry::Dir { name, entries } => FsView::Dir(name@, fs_views(entries@)),
    }
}

/// The views of a list of tree nodes, in order.
pub open spec fn fs_views(ts: Seq<FsEntry>) -> Seq<FsView>
    decreases ts,
{
    if ts.len() == 0 {
        Seq::empty()
    } else {
        seq![fs_view(ts[0])] + fs_views(ts.drop_first())
    }
}

proof fn lemma_fs_views(ts: Seq<FsEntry>)
    ensures
        fs_views(ts).len() == ts.len(),
        forall|i: int| 0 <= i < ts.len() ==> fs_views(ts)[i] == fs_view(ts[i]),
    decreases ts,
{
    if ts.len() > 0 {
        lemma_fs_views(ts.drop_first());
        assert(forall|i: int| 1 <= i < ts.len() ==> ts.drop_first()[i - 1] == ts[i]);
    }
}

/// The first match for `fname` under one entry, in depth-first order: a
/// file's own name when it matches, or the path through a directory to the
/// first match among its entries.
pub open spec fn spec_find_entry(e: FsView, fname: Seq<char>) -> Option<Seq<Seq<char>>>
    decreases e,
{
    match e {
        FsView::File(n) => if n == fname {
            Some(seq![n])
        } else {
            None
        },
        FsView::Dir(n, es) => match spec_find_list(es, fname) {
            Some(p) => Some(seq![n] + p),
            None => None,
        },
    }
}

/// The first match for `fname` among a list of entries, in order.
pub open spec fn spec_find_list(es: Seq<FsView>, fname: Seq<char>) -> Option<Seq<Seq<char>>>
    decreases es,
{
    if es.len() == 0 {
        None
    } else {
        match spec_find_entry(es[0], fname) {
            Some(p) => Some(p),
            None => spec_find_list(es.drop_first(), fname),
        }
    }
}

/// The first match for `fname` below a root node: the root must be a
/// directory, and the returned path names the entries from just below the
/// root down to the matching file.
pub open spec fn spec_find_file(e: FsView, fname: Seq<char>) -> Option<Seq<Seq<char>>> {
    match e {
        FsView::Dir(_, es) => spec_find_list(es, fname),
        FsView::File(_) => None,
    }
}

fn find_entry(e: &FsEntry, fname: &Vec<char>) -> (r: Option<Vec<String>>)
    ensures
        match r {
            Some(p) => spec_find_entry(fs_view(*e), fname@) == Some(
                p@.map_values(|s: String| s@),
            ),
            None => spec_find_entry(fs_view(*e), fname@) is None,
        },
    decreases *e,
{
    match e {
        FsEntry::File { name } => {
            proof {
                assert(fs_view(*e) == FsView::File(name@));
            }
            let nv = chars_of(name.as_str());
            if eq_chars(&nv, fname) {
                let mut p: Vec<String> = Vec::new();
                p.push(name.clone());
                proof {
                    assert(p@.map_values(|s: String| s@) =~= seq![name@]);
                }
                Some(p)
            } else {
                None
            }
        },
        FsEntry::Dir { name, entries } => {
            proof {
                assert(fs_view(*e) == FsView::Dir(name@, fs_views(entries@)));
                assert(decreases_to!(*e => *entries));
            }
            match find_list(entries, fname) {
                Some(mut p) => {
                    let ghost p0 = p@;
                    p.insert(0, name.clone());
                    proof {
                        assert(p@.map_values(|s: String| s@) =~= seq![name@] + p0.map_values(
                            |s: String| s@,
                        ));
                    }
                    Some(p)
                },
                None => None,
            }
        },
    }
}

fn find_list(entries: &Vec<FsEntry>, fname: &Vec<char>) -> (r: Option<Vec<String>>)
    ensures
        match r {
            Some(p) => spec_find_list(fs_views(entries@), fname@) == Some(
                p@.map_values(|s: String| s@),
            ),
            None => spec_find_list(fs_views(entries@), fname@) is None,
        },
    decreases entries@,
{
    let ghost es = fs_views(entries@);
    proof {
        lemma_fs_views(entries@);
        assert(es.skip(0) =~= es);
    }
    let mut i: usize = 0;
    while i < entries.len()
        invariant
            i <= entries@.len(),
            es == fs_views(entries@),
            es.len() == entries@.len(),
            forall|k: int| 0 <= k < entries@.len() ==> es[k] == fs_view(entries@[k]),
            spec_find_list(es, fname@) == spec_find_list(es.skip(i as int), fname@),
        decreases entries@.len() - i,
    {
        proof {
            assert(es.skip(i as int).len() > 0);
            assert(es.skip(i as int)[0] == es[i as int]);
            assert(es.skip(i as int).drop_first() =~= es.skip(i + 1));
            assert(decreases_to!(entries@ => entries@[i as int]));
        }
        match find_entry(&entries[i], fname) {
            Some(p) => {
                return Some(p);
            },
            None => (),
        }
        i = i + 1;
    }
    proof {
        assert(es.skip(es.len() as int) =~= Seq::<FsView>::empty());
    }
    None
}

/// Searches the tree below `root` depth first for a file named exactly
/// `fname`, returning the names along the path to the first match in
/// traversal order, or nothing when no file in the tree has that name.
pub fn find_file(root: &FsEntry, fname: &str) -> (r: Option<Vec<String>>)
    ensures
        match r {
            Some(p) => spec_find_file(fs_view(*root), fname@) == Some(
                p@.map_values(|s: String| s@),
            ),
            None => spec_find_file(fs_view(*root), fname@) is None,
        },
{
    let f = chars_of(fname);
    match root {
        FsEntry::Dir { name, entries } => {
            proof {
                assert(fs_view(*root) == FsView::Dir(name@, fs_views(entries@)));
            }
            find_list(entries, &f)
        },
        FsEntry::File { name } => {
            proof {
                assert(fs_view(*root) == FsView::File(name@));
            }
            None
        },
    }
}

} // verus!
