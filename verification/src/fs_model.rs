//! An explicit model of the filesystem: a list of absolute paths, each with
//! what the filesystem reports for it — a listable directory, a directory
//! whose listing fails, a regular file with its recorded facts, or an entry
//! that cannot be accessed at all.
//!
//! The model is flat: an entry's children are the entries whose path has it
//! as parent directory, in the order they stand in the list. A path that
//! occurs twice is understood by its first occurrence; the operations below
//! read and rewrite the first occurrence only.
use vstd::prelude::*;

use crate::file_metadata::FileFacts;
use crate::strutil::{self, parent_dir_of};

verus! {

/// What the filesystem reports for one path.
#[derive(Debug, Clone, Copy)]
pub enum EntryInfo {
    /// A directory whose entries can be listed.
    Dir,
    /// A directory whose listing fails (permission denial and the like).
    UnlistableDir,
    /// A regular file (or symlink to one) with its recorded facts.
    File(FileFacts),
    /// An entry that cannot be accessed at all.
    UnreadableEntry,
}

/// One path of the model with its reported information.
#[derive(Debug, Clone)]
pub struct FsEntry {
    pub path: String,
    pub info: EntryInfo,
}

/// The filesystem model.
#[derive(Debug, Clone)]
pub struct FsModel {
    pub entries: Vec<FsEntry>,
}

impl View for FsModel {
    type V = Seq<(Seq<char>, EntryInfo)>;

    open spec fn view(&self) -> Seq<(Seq<char>, EntryInfo)> {
        self.entries@.map(|i: int, e: FsEntry| (e.path@, e.info))
    }
}

/// Well-formedness of a model: every path occurs at most once. A model
/// built from a real filesystem has this by construction, and every
/// operation of the library preserves it.
pub open spec fn wf(fsv: Seq<(Seq<char>, EntryInfo)>) -> bool {
    forall|i: int, j: int| 0 <= i < j < fsv.len() ==> fsv[i].0 != fsv[j].0
}

/// Whether some entry of the model has path `q`.
pub open spec fn has_path(fsv: Seq<(Seq<char>, EntryInfo)>, q: Seq<char>) -> bool {
    exists|i: int| 0 <= i < fsv.len() && fsv[i].0 == q
}

/// Every path of the model after `spec_set` is the written one or one the
/// model already had.
pub proof fn lemma_set_paths(fsv: Seq<(Seq<char>, EntryInfo)>, p: Seq<char>, info: EntryInfo)
    ensures
        forall|idx: int|
            0 <= idx < spec_set(fsv, p, info).len() ==> ((#[trigger] spec_set(fsv, p, info)[idx]).0
                == p || has_path(fsv, spec_set(fsv, p, info)[idx].0)),
    decreases fsv.len(),
{
    if fsv.len() == 0 {
    } else if fsv[0].0 == p {
        let r = seq![(p, info)] + fsv.drop_first();
        assert forall|idx: int| 0 <= idx < r.len() implies (#[trigger] r[idx]).0 == p || has_path(
            fsv,
            r[idx].0,
        ) by {
            if idx > 0 {
                assert(r[idx] == fsv[idx]);
            }
        }
    } else {
        lemma_set_paths(fsv.drop_first(), p, info);
        let r = seq![fsv[0]] + spec_set(fsv.drop_first(), p, info);
        assert forall|idx: int| 0 <= idx < r.len() implies (#[trigger] r[idx]).0 == p || has_path(
            fsv,
            r[idx].0,
        ) by {
            if idx == 0 {
                assert(r[0] == fsv[0]);
                assert(fsv[0].0 == fsv[0].0);
            } else {
                assert(r[idx] == spec_set(fsv.drop_first(), p, info)[idx - 1]);
                if r[idx].0 != p {
                    let w = choose|k: int|
                        0 <= k < fsv.drop_first().len() && fsv.drop_first()[k].0 == r[idx].0;
                    assert(fsv[w + 1].0 == r[idx].0);
                }
            }
        }
    }
}

/// Every path of the model after `spec_remove` is one the model already
/// had.
pub proof fn lemma_remove_paths(fsv: Seq<(Seq<char>, EntryInfo)>, p: Seq<char>)
    ensures
        forall|idx: int|
            0 <= idx < spec_remove(fsv, p).len() ==> has_path(
                fsv,
                (#[trigger] spec_remove(fsv, p)[idx]).0,
            ),
    decreases fsv.len(),
{
    if fsv.len() == 0 {
    } else if fsv[0].0 == p {
        assert forall|idx: int| 0 <= idx < spec_remove(fsv, p).len() implies has_path(
            fsv,
            (#[trigger] spec_remove(fsv, p)[idx]).0,
        ) by {
            assert(spec_remove(fsv, p)[idx] == fsv[idx + 1]);
        }
    } else {
        lemma_remove_paths(fsv.drop_first(), p);
        let r = seq![fsv[0]] + spec_remove(fsv.drop_first(), p);
        assert forall|idx: int| 0 <= idx < r.len() implies has_path(fsv, (#[trigger] r[idx]).0) by {
            if idx == 0 {
                assert(r[0] == fsv[0]);
            } else {
                assert(r[idx] == spec_remove(fsv.drop_first(), p)[idx - 1]);
                let w = choose|k: int|
                    0 <= k < fsv.drop_first().len() && fsv.drop_first()[k].0 == r[idx].0;
                assert(fsv[w + 1].0 == r[idx].0);
            }
        }
    }
}

/// Writing an entry keeps every path unique.
pub proof fn lemma_set_wf(fsv: Seq<(Seq<char>, EntryInfo)>, p: Seq<char>, info: EntryInfo)
    requires
        wf(fsv),
    ensures
        wf(spec_set(fsv, p, info)),
    decreases fsv.len(),
{
    if fsv.len() == 0 {
    } else if fsv[0].0 == p {
        let r = seq![(p, info)] + fsv.drop_first();
        assert forall|i: int, j: int| 0 <= i < j < r.len() implies r[i].0 != r[j].0 by {
            if i > 0 {
                assert(r[i] == fsv[i]);
            }
            assert(r[j] == fsv[j]);
        }
    } else {
        assert(wf(fsv.drop_first())) by {
            assert forall|i: int, j: int|
                0 <= i < j < fsv.drop_first().len() implies fsv.drop_first()[i].0
                != fsv.drop_first()[j].0 by {
                assert(fsv.drop_first()[i] == fsv[i + 1]);
                assert(fsv.drop_first()[j] == fsv[j + 1]);
            }
        }
        lemma_set_wf(fsv.drop_first(), p, info);
        lemma_set_paths(fsv.drop_first(), p, info);
        let inner = spec_set(fsv.drop_first(), p, info);
        let r = seq![fsv[0]] + inner;
        assert forall|i: int, j: int| 0 <= i < j < r.len() implies r[i].0 != r[j].0 by {
            if i == 0 {
                assert(r[0] == fsv[0]);
                assert(r[j] == inner[j - 1]);
                if inner[j - 1].0 == p {
                } else {
                    assert(has_path(fsv.drop_first(), inner[j - 1].0));
                    let w = choose|k: int|
                        0 <= k < fsv.drop_first().len() && fsv.drop_first()[k].0 == inner[j - 1].0;
                    assert(fsv[w + 1].0 == inner[j - 1].0);
                }
            } else {
                assert(r[i] == inner[i - 1]);
                assert(r[j] == inner[j - 1]);
            }
        }
    }
}

/// Removing an entry keeps every path unique.
pub proof fn lemma_remove_wf(fsv: Seq<(Seq<char>, EntryInfo)>, p: Seq<char>)
    requires
        wf(fsv),
    ensures
        wf(spec_remove(fsv, p)),
    decreases fsv.len(),
{
    if fsv.len() == 0 {
    } else if fsv[0].0 == p {
        let r = fsv.drop_first();
        assert forall|i: int, j: int| 0 <= i < j < r.len() implies r[i].0 != r[j].0 by {
            assert(r[i] == fsv[i + 1]);
            assert(r[j] == fsv[j + 1]);
        }
    } else {
        assert(wf(fsv.drop_first())) by {
            assert forall|i: int, j: int|
                0 <= i < j < fsv.drop_first().len() implies fsv.drop_first()[i].0
                != fsv.drop_first()[j].0 by {
                assert(fsv.drop_first()[i] == fsv[i + 1]);
                assert(fsv.drop_first()[j] == fsv[j + 1]);
            }
        }
        lemma_remove_wf(fsv.drop_first(), p);
        lemma_remove_paths(fsv.drop_first(), p);
        let inner = spec_remove(fsv.drop_first(), p);
        let r = seq![fsv[0]] + inner;
        assert forall|i: int, j: int| 0 <= i < j < r.len() implies r[i].0 != r[j].0 by {
            if i == 0 {
                assert(r[0] == fsv[0]);
                assert(r[j] == inner[j - 1]);
                assert(has_path(fsv.drop_first(), inner[j - 1].0));
                let w = choose|k: int|
                    0 <= k < fsv.drop_first().len() && fsv.drop_first()[k].0 == inner[j - 1].0;
                assert(fsv[w + 1].0 == inner[j - 1].0);
            } else {
                assert(r[i] == inner[i - 1]);
                assert(r[j] == inner[j - 1]);
            }
        }
    }
}

/// The information recorded for `p`: that of its first occurrence.
pub open spec fn spec_lookup(fsv: Seq<(Seq<char>, EntryInfo)>, p: Seq<char>) -> Option<EntryInfo>
    decreases fsv.len(),
{
    if fsv.len() == 0 {
        None
    } else if fsv[0].0 == p {
        Some(fsv[0].1)
    } else {
        spec_lookup(fsv.drop_first(), p)
    }
}

/// The model after recording `info` for `p`: the first occurrence of `p` is
/// rewritten, or the entry appended when `p` is new.
pub open spec fn spec_set(
    fsv: Seq<(Seq<char>, EntryInfo)>,
    p: Seq<char>,
    info: EntryInfo,
) -> Seq<(Seq<char>, EntryInfo)>
    decreases fsv.len(),
{
    if fsv.len() == 0 {
        seq![(p, info)]
    } else if fsv[0].0 == p {
        seq![(p, info)] + fsv.drop_first()
    } else {
        seq![fsv[0]] + spec_set(fsv.drop_first(), p, info)
    }
}

/// The model with the first occurrence of `p` removed.
pub open spec fn spec_remove(fsv: Seq<(Seq<char>, EntryInfo)>, p: Seq<char>) -> Seq<
    (Seq<char>, EntryInfo),
>
    decreases fsv.len(),
{
    if fsv.len() == 0 {
        fsv
    } else if fsv[0].0 == p {
        fsv.drop_first()
    } else {
        seq![fsv[0]] + spec_remove(fsv.drop_first(), p)
    }
}

/// How `spec_lookup` reads a model after `spec_set`.
pub proof fn lemma_lookup_set(
    fsv: Seq<(Seq<char>, EntryInfo)>,
    p: Seq<char>,
    info: EntryInfo,
    q: Seq<char>,
)
    ensures
        spec_lookup(spec_set(fsv, p, info), q) == if q == p {
            Some(info)
        } else {
            spec_lookup(fsv, q)
        },
    decreases fsv.len(),
{
    if fsv.len() == 0 {
        assert(spec_set(fsv, p, info) =~= seq![(p, info)]);
        reveal_with_fuel(spec_lookup, 2);
    } else if fsv[0].0 == p {
        let s = seq![(p, info)] + fsv.drop_first();
        assert(s[0] == (p, info));
        assert(s.drop_first() =~= fsv.drop_first());
    } else {
        let s = seq![fsv[0]] + spec_set(fsv.drop_first(), p, info);
        assert(s[0] == fsv[0]);
        assert(s.drop_first() =~= spec_set(fsv.drop_first(), p, info));
        lemma_lookup_set(fsv.drop_first(), p, info, q);
    }
}

/// How `spec_lookup` reads a model after `spec_remove`: any path other than
/// the removed one reads as before; the removed one reads as the model
/// without its first occurrence would have it.
pub proof fn lemma_lookup_remove(fsv: Seq<(Seq<char>, EntryInfo)>, p: Seq<char>, q: Seq<char>)
    requires
        q != p,
    ensures
        spec_lookup(spec_remove(fsv, p), q) == spec_lookup(fsv, q),
    decreases fsv.len(),
{
    if fsv.len() == 0 {
    } else if fsv[0].0 == p {
    } else {
        let s = seq![fsv[0]] + spec_remove(fsv.drop_first(), p);
        assert(s[0] == fsv[0]);
        assert(s.drop_first() =~= spec_remove(fsv.drop_first(), p));
        lemma_lookup_remove(fsv.drop_first(), p, q);
    }
}

/// Removing a path from a well-formed model leaves no occurrence to find.
pub proof fn lemma_lookup_remove_gone(fsv: Seq<(Seq<char>, EntryInfo)>, p: Seq<char>)
    requires
        wf(fsv),
    ensures
        spec_lookup(spec_remove(fsv, p), p) is None,
    decreases fsv.len(),
{
    if fsv.len() == 0 {
    } else if fsv[0].0 == p {
        lemma_lookup_none(fsv.drop_first(), p);
    } else {
        let s = seq![fsv[0]] + spec_remove(fsv.drop_first(), p);
        assert(s[0] == fsv[0]);
        assert(s.drop_first() =~= spec_remove(fsv.drop_first(), p));
        lemma_lookup_remove_gone(fsv.drop_first(), p);
    }
}

/// A path that occurs nowhere in the model reads as absent.
pub proof fn lemma_lookup_none(fsv: Seq<(Seq<char>, EntryInfo)>, p: Seq<char>)
    requires
        forall|i: int| 0 <= i < fsv.len() ==> fsv[i].0 != p,
    ensures
        spec_lookup(fsv, p) is None,
    decreases fsv.len(),
{
    if fsv.len() > 0 {
        lemma_lookup_none(fsv.drop_first(), p);
    }
}

/// A looked-up path is one of the model's paths, so no longer than the
/// longest of them.
pub proof fn lemma_lookup_len_le_max(fsv: Seq<(Seq<char>, EntryInfo)>, p: Seq<char>)
    requires
        spec_lookup(fsv, p) is Some,
    ensures
        p.len() <= max_path_len(fsv),
    decreases fsv.len(),
{
    if fsv.len() > 0 && fsv[0].0 != p {
        lemma_lookup_len_le_max(fsv.drop_first(), p);
    }
}

/// The length of the longest path in the model.
pub open spec fn max_path_len(fsv: Seq<(Seq<char>, EntryInfo)>) -> nat
    decreases fsv.len(),
{
    if fsv.len() == 0 {
        0
    } else {
        let rest = max_path_len(fsv.drop_first());
        if fsv[0].0.len() > rest {
            fsv[0].0.len()
        } else {
            rest
        }
    }
}

/// Whether `p` names an immediate child of `dir`: it is nonempty, its
/// parent directory is `dir`, and it is not `dir` itself (the root `"/"`
/// and the empty path are their own parents, and a directory's listing
/// never contains the directory).
pub open spec fn is_child_of(p: Seq<char>, dir: Seq<char>) -> bool {
    p.len() > 0 && p != dir && parent_dir_of(p) == dir
}

/// A child's path is strictly longer than its directory's.
pub proof fn lemma_child_longer(p: Seq<char>, dir: Seq<char>)
    requires
        is_child_of(p, dir),
    ensures
        p.len() > dir.len(),
{
    crate::strutil::lemma_last_index_of_bounds(p, '/');
    let li = crate::strutil::last_index_of(p, '/');
    if li == 0 {
        if p.len() == 1 {
            assert(p.subrange(0, 1) =~= p);
        }
    }
}

/// The paths of the immediate children of `dir`, in model order.
pub open spec fn children_paths(fsv: Seq<(Seq<char>, EntryInfo)>, dir: Seq<char>) -> Seq<Seq<char>>
    decreases fsv.len(),
{
    if fsv.len() == 0 {
        Seq::empty()
    } else if is_child_of(fsv[0].0, dir) {
        seq![fsv[0].0] + children_paths(fsv.drop_first(), dir)
    } else {
        children_paths(fsv.drop_first(), dir)
    }
}

/// Every listed child is indeed a child of the directory.
pub proof fn lemma_children_are_children(fsv: Seq<(Seq<char>, EntryInfo)>, dir: Seq<char>)
    ensures
        forall|idx: int|
            0 <= idx < children_paths(fsv, dir).len() ==> is_child_of(
                #[trigger] children_paths(fsv, dir)[idx],
                dir,
            ),
    decreases fsv.len(),
{
    if fsv.len() > 0 {
        lemma_children_are_children(fsv.drop_first(), dir);
        if is_child_of(fsv[0].0, dir) {
            let r = seq![fsv[0].0] + children_paths(fsv.drop_first(), dir);
            assert forall|idx: int| 0 <= idx < r.len() implies is_child_of(
                #[trigger] r[idx],
                dir,
            ) by {
                if idx > 0 {
                    assert(r[idx] == children_paths(fsv.drop_first(), dir)[idx - 1]);
                }
            }
        }
    }
}

/// Appending an entry appends its path to the children exactly when it is a
/// child.
pub proof fn lemma_children_paths_push(
    fsv: Seq<(Seq<char>, EntryInfo)>,
    e: (Seq<char>, EntryInfo),
    dir: Seq<char>,
)
    ensures
        children_paths(fsv.push(e), dir) == if is_child_of(e.0, dir) {
            children_paths(fsv, dir).push(e.0)
        } else {
            children_paths(fsv, dir)
        },
    decreases fsv.len(),
{
    if fsv.len() == 0 {
        assert(fsv.push(e)[0] == e);
        assert(fsv.push(e).drop_first() =~= Seq::<(Seq<char>, EntryInfo)>::empty());
        assert(children_paths(Seq::<(Seq<char>, EntryInfo)>::empty(), dir) =~= Seq::<
            Seq<char>,
        >::empty());
        if is_child_of(e.0, dir) {
            assert(children_paths(fsv.push(e), dir) =~= children_paths(fsv, dir).push(e.0));
        } else {
            assert(children_paths(fsv.push(e), dir) =~= children_paths(fsv, dir));
        }
    } else {
        assert(fsv.push(e)[0] == fsv[0]);
        assert(fsv.push(e).drop_first() =~= fsv.drop_first().push(e));
        lemma_children_paths_push(fsv.drop_first(), e, dir);
        if is_child_of(e.0, dir) {
            assert(children_paths(fsv.push(e), dir) =~= children_paths(fsv, dir).push(e.0));
        } else {
            assert(children_paths(fsv.push(e), dir) =~= children_paths(fsv, dir));
        }
    }
}

/// The length of the longest path the model reports a directory at.
pub open spec fn max_dir_len(fsv: Seq<(Seq<char>, EntryInfo)>) -> nat
    decreases fsv.len(),
{
    if fsv.len() == 0 {
        0
    } else {
        let here: nat = if fsv[0].1 is Dir || fsv[0].1 is UnlistableDir {
            fsv[0].0.len()
        } else {
            0
        };
        let rest = max_dir_len(fsv.drop_first());
        if here > rest {
            here
        } else {
            rest
        }
    }
}

/// Whether the model reports something directory-like at `p`.
pub open spec fn lookup_dirlike(fsv: Seq<(Seq<char>, EntryInfo)>, p: Seq<char>) -> bool {
    spec_lookup(fsv, p) matches Some(i) && (i is Dir || i is UnlistableDir)
}

/// Writing a non-directory entry over a path that holds no directory
/// leaves the longest directory path as it was.
pub proof fn lemma_max_dir_len_set_nondir(
    fsv: Seq<(Seq<char>, EntryInfo)>,
    p: Seq<char>,
    info: EntryInfo,
)
    requires
        !lookup_dirlike(fsv, p),
        !(info is Dir || info is UnlistableDir),
    ensures
        max_dir_len(spec_set(fsv, p, info)) == max_dir_len(fsv),
    decreases fsv.len(),
{
    if fsv.len() == 0 {
        let r = seq![(p, info)];
        assert(r[0] == (p, info));
        assert(r.drop_first() =~= Seq::<(Seq<char>, EntryInfo)>::empty());
        assert(max_dir_len(Seq::<(Seq<char>, EntryInfo)>::empty()) == 0);
    } else if fsv[0].0 == p {
        let r = seq![(p, info)] + fsv.drop_first();
        assert(r[0] == (p, info));
        assert(r.drop_first() =~= fsv.drop_first());
    } else {
        lemma_max_dir_len_set_nondir(fsv.drop_first(), p, info);
        let r = seq![fsv[0]] + spec_set(fsv.drop_first(), p, info);
        assert(r[0] == fsv[0]);
        assert(r.drop_first() =~= spec_set(fsv.drop_first(), p, info));
    }
}

/// Removing a path that holds no directory leaves the longest directory
/// path as it was.
pub proof fn lemma_max_dir_len_remove_nondir(fsv: Seq<(Seq<char>, EntryInfo)>, p: Seq<char>)
    requires
        !lookup_dirlike(fsv, p),
    ensures
        max_dir_len(spec_remove(fsv, p)) == max_dir_len(fsv),
    decreases fsv.len(),
{
    if fsv.len() == 0 {
    } else if fsv[0].0 == p {
    } else {
        lemma_max_dir_len_remove_nondir(fsv.drop_first(), p);
        let r = seq![fsv[0]] + spec_remove(fsv.drop_first(), p);
        assert(r[0] == fsv[0]);
        assert(r.drop_first() =~= spec_remove(fsv.drop_first(), p));
    }
}

/// A path the model reports a directory at is no longer than the longest
/// directory path.
pub proof fn lemma_dirlike_len_le_max(fsv: Seq<(Seq<char>, EntryInfo)>, p: Seq<char>)
    requires
        lookup_dirlike(fsv, p),
    ensures
        p.len() <= max_dir_len(fsv),
    decreases fsv.len(),
{
    if fsv.len() > 0 && fsv[0].0 != p {
        lemma_dirlike_len_le_max(fsv.drop_first(), p);
    }
}

pub proof fn lemma_max_dir_len_push(fsv: Seq<(Seq<char>, EntryInfo)>, e: (Seq<char>, EntryInfo))
    ensures
        max_dir_len(fsv.push(e)) == {
            let here: nat = if e.1 is Dir || e.1 is UnlistableDir {
                e.0.len()
            } else {
                0
            };
            if here > max_dir_len(fsv) {
                here
            } else {
                max_dir_len(fsv)
            }
        },
    decreases fsv.len(),
{
    if fsv.len() == 0 {
        assert(fsv.push(e)[0] == e);
        assert(fsv.push(e).drop_first() =~= Seq::<(Seq<char>, EntryInfo)>::empty());
        assert(max_dir_len(Seq::<(Seq<char>, EntryInfo)>::empty()) == 0);
    } else {
        assert(fsv.push(e)[0] == fsv[0]);
        assert(fsv.push(e).drop_first() =~= fsv.drop_first().push(e));
        lemma_max_dir_len_push(fsv.drop_first(), e);
    }
}

impl FsModel {
    /// An empty model.
    pub fn new() -> (r: FsModel)
        ensures
            r@ == Seq::<(Seq<char>, EntryInfo)>::empty(),
    {
        let r = FsModel { entries: Vec::new() };
        proof {
            assert(r@ =~= Seq::<(Seq<char>, EntryInfo)>::empty());
        }
        r
    }

    /// The information recorded for `p`, if any.
    pub fn get(&self, p: &str) -> (r: Option<EntryInfo>)
        ensures
            r == spec_lookup(self@, p@),
    {
        let n = self.entries.len();
        let mut i: usize = 0;
        while i < n
            invariant
                n == self.entries.len(),
                0 <= i <= n,
                forall|j: int| 0 <= j < i ==> self@[j].0 != p@,
            decreases n - i,
        {
            if strutil::str_eq(self.entries[i].path.as_str(), p) {
                proof {
                    lemma_lookup_first_match(self@, p@, i as int);
                }
                return Some(self.entries[i].info);
            }
            i = i + 1;
        }
        proof {
            lemma_lookup_none(self@, p@);
        }
        None
    }

    /// Records `info` for `p`, rewriting the first occurrence or appending.
    pub fn put(&mut self, p: &str, info: EntryInfo)
        ensures
            final(self)@ == spec_set(old(self)@, p@, info),
    {
        let ghost fsv0 = self@;
        let n = self.entries.len();
        let mut i: usize = 0;
        while i < n
            invariant
                n == self.entries.len(),
                self@ == fsv0,
                fsv0 == old(self)@,
                0 <= i <= n,
                forall|j: int| 0 <= j < i ==> self@[j].0 != p@,
            decreases n - i,
        {
            if strutil::str_eq(self.entries[i].path.as_str(), p) {
                self.entries.set(i, FsEntry { path: strutil::str_copy(p), info });
                proof {
                    lemma_set_first_match(fsv0, p@, info, i as int);
                    assert(self@ =~= fsv0.update(i as int, (p@, info)));
                }
                return ;
            }
            i = i + 1;
        }
        self.entries.push(FsEntry { path: strutil::str_copy(p), info });
        proof {
            lemma_set_no_match(fsv0, p@, info);
            assert(self@ =~= fsv0.push((p@, info)));
        }
    }

    /// Removes the first occurrence of `p`, if any.
    pub fn drop_path(&mut self, p: &str)
        ensures
            final(self)@ == spec_remove(old(self)@, p@),
    {
        let ghost fsv0 = self@;
        let n = self.entries.len();
        let mut i: usize = 0;
        while i < n
            invariant
                n == self.entries.len(),
                self@ == fsv0,
                fsv0 == old(self)@,
                0 <= i <= n,
                forall|j: int| 0 <= j < i ==> self@[j].0 != p@,
            decreases n - i,
        {
            if strutil::str_eq(self.entries[i].path.as_str(), p) {
                self.entries.remove(i);
                proof {
                    lemma_remove_first_match(fsv0, p@, i as int);
                    assert(self@ =~= fsv0.remove(i as int));
                }
                return ;
            }
            i = i + 1;
        }
        proof {
            lemma_remove_no_match(fsv0, p@);
            assert(self@ =~= fsv0);
        }
    }

    /// The paths of the immediate children of `dir`, in model order.
    pub fn children_of(&self, dir: &str) -> (r: Vec<String>)
        ensures
            r.deep_view() == children_paths(self@, dir@),
    {
        let n = self.entries.len();
        let mut r: Vec<String> = Vec::new();
        let mut i: usize = 0;
        proof {
            assert(self@.subrange(0, 0) =~= Seq::<(Seq<char>, EntryInfo)>::empty());
            assert(r.deep_view() =~= children_paths(self@.subrange(0, 0), dir@));
        }
        while i < n
            invariant
                n == self.entries.len(),
                0 <= i <= n,
                r.deep_view() == children_paths(self@.subrange(0, i as int), dir@),
            decreases n - i,
        {
            let pd = strutil::parent_dir(self.entries[i].path.as_str());
            let nonempty = self.entries[i].path.unicode_len() > 0;
            let itself = strutil::str_eq(self.entries[i].path.as_str(), dir);
            proof {
                assert(self@.subrange(0, i + 1) =~= self@.subrange(0, i as int).push(self@[i as int]));
                lemma_children_paths_push(self@.subrange(0, i as int), self@[i as int], dir@);
            }
            if nonempty && !itself && strutil::str_eq(pd, dir) {
                r.push(strutil::str_copy(self.entries[i].path.as_str()));
                proof {
                    assert(r.deep_view() =~= children_paths(self@.subrange(0, i + 1), dir@));
                }
            } else {
                proof {
                    assert(r.deep_view() =~= children_paths(self@.subrange(0, i + 1), dir@));
                }
            }
            i = i + 1;
        }
        proof {
            assert(self@.subrange(0, n as int) =~= self@);
        }
        r
    }

    /// The length of the longest path the model reports a directory at.
    pub fn max_dir_path_len(&self) -> (r: usize)
        ensures
            r as nat == max_dir_len(self@),
    {
        let n = self.entries.len();
        let mut r: usize = 0;
        let mut i: usize = 0;
        proof {
            assert(self@.subrange(0, 0) =~= Seq::<(Seq<char>, EntryInfo)>::empty());
        }
        while i < n
            invariant
                n == self.entries.len(),
                0 <= i <= n,
                r as nat == max_dir_len(self@.subrange(0, i as int)),
            decreases n - i,
        {
            proof {
                assert(self@.subrange(0, i + 1) =~= self@.subrange(0, i as int).push(self@[i as int]));
                lemma_max_dir_len_push(self@.subrange(0, i as int), self@[i as int]);
            }
            let dirlike = matches!(self.entries[i].info, EntryInfo::Dir | EntryInfo::UnlistableDir);
            if dirlike {
                let l = self.entries[i].path.unicode_len();
                if l > r {
                    r = l;
                }
            }
            i = i + 1;
        }
        proof {
            assert(self@.subrange(0, n as int) =~= self@);
        }
        r
    }
}

/// When `p` first occurs at `k`, `spec_lookup` reads that entry.
pub proof fn lemma_lookup_first_match(fsv: Seq<(Seq<char>, EntryInfo)>, p: Seq<char>, k: int)
    requires
        0 <= k < fsv.len(),
        fsv[k].0 == p,
        forall|j: int| 0 <= j < k ==> fsv[j].0 != p,
    ensures
        spec_lookup(fsv, p) == Some(fsv[k].1),
    decreases k,
{
    if k > 0 {
        lemma_lookup_first_match(fsv.drop_first(), p, k - 1);
    }
}

/// When `p` first occurs at `k`, `spec_set` rewrites exactly that entry.
pub proof fn lemma_set_first_match(
    fsv: Seq<(Seq<char>, EntryInfo)>,
    p: Seq<char>,
    info: EntryInfo,
    k: int,
)
    requires
        0 <= k < fsv.len(),
        fsv[k].0 == p,
        forall|j: int| 0 <= j < k ==> fsv[j].0 != p,
    ensures
        spec_set(fsv, p, info) == fsv.update(k, (p, info)),
    decreases k,
{
    if k == 0 {
        assert(spec_set(fsv, p, info) =~= fsv.update(0, (p, info)));
    } else {
        lemma_set_first_match(fsv.drop_first(), p, info, k - 1);
        assert(spec_set(fsv, p, info) =~= fsv.update(k, (p, info)));
    }
}

/// When `p` does not occur, `spec_set` appends.
pub proof fn lemma_set_no_match(fsv: Seq<(Seq<char>, EntryInfo)>, p: Seq<char>, info: EntryInfo)
    requires
        forall|j: int| 0 <= j < fsv.len() ==> fsv[j].0 != p,
    ensures
        spec_set(fsv, p, info) == fsv.push((p, info)),
    decreases fsv.len(),
{
    if fsv.len() == 0 {
        assert(spec_set(fsv, p, info) =~= fsv.push((p, info)));
    } else {
        lemma_set_no_match(fsv.drop_first(), p, info);
        assert(spec_set(fsv, p, info) =~= fsv.push((p, info)));
    }
}

/// When `p` first occurs at `k`, `spec_remove` removes exactly that entry.
pub proof fn lemma_remove_first_match(fsv: Seq<(Seq<char>, EntryInfo)>, p: Seq<char>, k: int)
    requires
        0 <= k < fsv.len(),
        fsv[k].0 == p,
        forall|j: int| 0 <= j < k ==> fsv[j].0 != p,
    ensures
        spec_remove(fsv, p) == fsv.remove(k),
    decreases k,
{
    if k == 0 {
        assert(spec_remove(fsv, p) =~= fsv.remove(0));
    } else {
        lemma_remove_first_match(fsv.drop_first(), p, k - 1);
        assert(spec_remove(fsv, p) =~= fsv.remove(k));
    }
}

/// When `p` does not occur, `spec_remove` changes nothing.
pub proof fn lemma_remove_no_match(fsv: Seq<(Seq<char>, EntryInfo)>, p: Seq<char>)
    requires
        forall|j: int| 0 <= j < fsv.len() ==> fsv[j].0 != p,
    ensures
        spec_remove(fsv, p) == fsv,
    decreases fsv.len(),
{
    if fsv.len() == 0 {
    } else {
        lemma_remove_no_match(fsv.drop_first(), p);
        assert(spec_remove(fsv, p) =~= fsv);
    }
}

} // verus!
