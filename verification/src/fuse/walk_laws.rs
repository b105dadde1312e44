//! The walk below a directory finds everything.

use crate::fuse::fs::{item_dirs, item_paths};
use crate::fuse::state_loader::RealItem;
use crate::path::PathModel;
use vstd::prelude::*;

verus! {

/// A walk: what was found, the directories still to list, and those that were listed.
#[verifier::ext_equal]
pub struct WalkModel {
    pub found: Seq<PathModel>,
    pub stack: Seq<PathModel>,
    pub listed: Seq<PathModel>,
}

/// A walk at its start.
pub open spec fn walk_start(root: PathModel) -> WalkModel {
    WalkModel { found: Seq::empty(), stack: seq![root], listed: Seq::empty() }
}

/// A walk one directory further, where `ls` says what the host lists: the next
/// directory is taken and listed.
pub open spec fn walk_step(ls: spec_fn(PathModel) -> Seq<RealItem>, w: WalkModel) -> WalkModel {
    if w.stack.len() == 0 {
        w
    } else {
        let dir = w.stack.last();
        WalkModel {
            found: w.found + item_paths(ls(dir)),
            stack: w.stack.drop_last() + item_dirs(ls(dir)),
            listed: w.listed.push(dir),
        }
    }
}

/// A walk some directories further.
pub open spec fn walk_run(
    ls: spec_fn(PathModel) -> Seq<RealItem>,
    root: PathModel,
    n: nat,
) -> WalkModel
    decreases n,
{
    if n == 0 {
        walk_start(root)
    } else {
        walk_step(ls, walk_run(ls, root, (n - 1) as nat))
    }
}

/// Whether all of one list stand in another.
pub open spec fn all_in(a: Seq<PathModel>, b: Seq<PathModel>) -> bool {
    forall|i: int| 0 <= i < a.len() ==> b.contains(#[trigger] a[i])
}

/// Whether a path stands in the listing of a directory that was listed.
pub open spec fn seen_in(
    ls: spec_fn(PathModel) -> Seq<RealItem>,
    listed: Seq<PathModel>,
    p: PathModel,
) -> bool {
    exists|k: int| 0 <= k < listed.len() && item_paths(ls(#[trigger] listed[k])).contains(p)
}

/// What holds of a walk at every point: the start is listed or to be listed, what
/// listed directories hold is found, and their directories are listed or to be.
pub open spec fn walk_ok(
    ls: spec_fn(PathModel) -> Seq<RealItem>,
    root: PathModel,
    w: WalkModel,
) -> bool {
    &&& (w.listed + w.stack).contains(root)
    &&& forall|k: int|
        0 <= k < w.listed.len() ==> all_in(item_paths(ls(#[trigger] w.listed[k])), w.found)
            && all_in(item_dirs(ls(w.listed[k])), w.listed + w.stack)
    &&& forall|i: int| 0 <= i < w.found.len() ==> seen_in(ls, w.listed, #[trigger] w.found[i])
}

proof fn lemma_all_in_grows(a: Seq<PathModel>, b: Seq<PathModel>, c: Seq<PathModel>)
    requires
        all_in(a, b),
        forall|x: PathModel| #[trigger] b.contains(x) ==> c.contains(x),
    ensures
        all_in(a, c),
{
    assert forall|i: int| 0 <= i < a.len() implies c.contains(#[trigger] a[i]) by {
        assert(b.contains(a[i]));
    }
}

proof fn lemma_walk_step(
    ls: spec_fn(PathModel) -> Seq<RealItem>,
    root: PathModel,
    w: WalkModel,
)
    requires
        walk_ok(ls, root, w),
    ensures
        walk_ok(ls, root, walk_step(ls, w)),
{
    let v = walk_step(ls, w);
    if w.stack.len() > 0 {
        let dir = w.stack.last();
        let known = w.listed + w.stack;
        let now = v.listed + v.stack;
        assert forall|x: PathModel| #[trigger] known.contains(x) implies now.contains(x) by {
            let i = choose|i: int| 0 <= i < known.len() && known[i] == x;
            if i < w.listed.len() {
                assert(now[i] == x);
            } else if i == known.len() - 1 {
                assert(now[w.listed.len() as int] == x);
            } else {
                assert(now[i + 1] == x);
            }
        }
        assert forall|x: PathModel| #[trigger] w.found.contains(x) implies v.found.contains(x) by {
            let i = choose|i: int| 0 <= i < w.found.len() && w.found[i] == x;
            assert(v.found[i] == x);
        }
        assert forall|k: int| 0 <= k < v.listed.len() implies all_in(
            item_paths(ls(#[trigger] v.listed[k])),
            v.found,
        ) && all_in(item_dirs(ls(v.listed[k])), now) by {
            if k < w.listed.len() {
                assert(v.listed[k] == w.listed[k]);
                lemma_all_in_grows(item_paths(ls(w.listed[k])), w.found, v.found);
                lemma_all_in_grows(item_dirs(ls(w.listed[k])), known, now);
            } else {
                let paths = item_paths(ls(dir));
                let dirs = item_dirs(ls(dir));
                assert forall|i: int| 0 <= i < paths.len() implies v.found.contains(
                    #[trigger] paths[i],
                ) by {
                    assert(v.found[w.found.len() + i] == paths[i]);
                }
                assert forall|i: int| 0 <= i < dirs.len() implies now.contains(
                    #[trigger] dirs[i],
                ) by {
                    assert(now[v.listed.len() + w.stack.len() - 1 + i] == dirs[i]);
                }
            }
        }
        assert forall|i: int| 0 <= i < v.found.len() implies seen_in(
            ls,
            v.listed,
            #[trigger] v.found[i],
        ) by {
            if i < w.found.len() {
                let p = w.found[i];
                assert(seen_in(ls, w.listed, p));
                let k = choose|k: int|
                    0 <= k < w.listed.len() && item_paths(ls(#[trigger] w.listed[k])).contains(p);
                assert(v.listed[k] == w.listed[k]);
            } else {
                let k = w.listed.len() as int;
                assert(v.listed[k] == dir);
                assert(item_paths(ls(dir))[i - w.found.len()] == v.found[i]);
            }
        }
    }
}

proof fn lemma_walk_ok(ls: spec_fn(PathModel) -> Seq<RealItem>, root: PathModel, n: nat)
    ensures
        walk_ok(ls, root, walk_run(ls, root, n)),
    decreases n,
{
    if n == 0 {
        let w = walk_start(root);
        assert((w.listed + w.stack)[0] == root);
    } else {
        lemma_walk_ok(ls, root, (n - 1) as nat);
        lemma_walk_step(ls, root, walk_run(ls, root, (n - 1) as nat));
    }
}

/// A walk that has nothing left to list found exactly what lies below its start: the
/// start was listed, what a listed directory holds was found and its directories were
/// listed in turn, and nothing else was found.
pub proof fn law_walk_finds_all(ls: spec_fn(PathModel) -> Seq<RealItem>, root: PathModel, n: nat)
    requires
        walk_run(ls, root, n).stack.len() == 0,
    ensures
        ({
            let w = walk_run(ls, root, n);
            &&& w.listed.contains(root)
            &&& forall|k: int|
                0 <= k < w.listed.len() ==> all_in(item_paths(ls(#[trigger] w.listed[k])), w.found)
                    && all_in(item_dirs(ls(w.listed[k])), w.listed)
            &&& forall|i: int|
                0 <= i < w.found.len() ==> seen_in(ls, w.listed, #[trigger] w.found[i])
        }),
{
    let w = walk_run(ls, root, n);
    lemma_walk_ok(ls, root, n);
    assert(w.listed + w.stack =~= w.listed);
}

} // verus!
