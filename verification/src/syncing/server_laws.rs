//! What the daemon promises across requests.

use crate::path::{
    empty_path, is_normal, is_under, parent_of, strip_path_prefix, tail_names, PathModel,
};
use crate::syncing::closure::{
    empty_tree, known, shallowest_first, tree_children, tree_descendants, tree_insert_all,
    tree_remove, tree_subtree, TreeModel,
};
use crate::syncing::closure_laws::{
    law_children, law_descendants, law_from_paths, law_insert, law_remove, law_subtree, regular,
    tree_ok,
};
use crate::syncing::disk::{lists_table, MetaModel};
use crate::syncing::proto::{file_entry, EntryModel, FileMetadata, Request, Response};
use crate::syncing::server::{
    access_marked, dispatched, entries_moved, entry_at, is_object_reply, listed_paths, moved_path,
    moved_paths, put_entry, ready_object, started, table_of, tree_renamed, whited_out,
    with_entries, ServerModel, Step,
};
use crate::tables::EntryTableModel;
use vstd::prelude::*;

verus! {

/// A consistent state: the tree is consistent and knows every path with an entry.
pub open spec fn state_ok(s: ServerModel) -> bool {
    &&& tree_ok(s.tree)
    &&& forall|p: PathModel| #[trigger] s.entries.contains_key(p) ==> known(s.tree, p)
}

/// Whether a path can move along when `from` becomes `to`.
pub open spec fn movable(t: TreeModel, from: PathModel, to: PathModel) -> bool {
    &&& regular(to)
    &&& forall|p: PathModel| #[trigger]
        known(t, p) && is_under(p, from) ==> to.1.len() + p.1.len() - from.1.len() <= u32::MAX
}

/// Whether nothing but `p` itself has an entry at or below `p`.
pub open spec fn alone(s: ServerModel, p: PathModel) -> bool {
    forall|q: PathModel| #[trigger] s.entries.contains_key(q) && is_under(q, p) ==> q == p
}

/// The requests after which a consistent state is consistent again: paths that can
/// be stored, and files that are deleted or renamed with nothing stored below them.
pub open spec fn request_ok(s: ServerModel, request: Request) -> bool {
    match request {
        Request::EnsureFileObject { path, .. } => regular(path@),
        Request::EnsureFileObjectFromReal { path, .. } => regular(path@),
        Request::UpsertFileEntry { path, .. } => regular(path@),
        Request::PutDir { path, .. } => regular(path@),
        Request::PutSymlink { path, .. } => regular(path@),
        Request::PutWhiteout { path } => regular(path@),
        Request::DeleteFile { path } => alone(s, path@),
        Request::RenameFile { from, to } => alone(s, from@) && movable(s.tree, from@, to@),
        Request::RenameTree { from, to } => movable(s.tree, from@, to@),
        _ => true,
    }
}

pub proof fn lemma_moved(p: PathModel, from: PathModel, to: PathModel)
    requires
        regular(p),
        regular(to),
        from != empty_path(),
        is_under(p, from),
        to.1.len() + p.1.len() - from.1.len() <= u32::MAX,
    ensures
        regular(moved_path(p, from, to)),
        moved_path(p, from, to) == (to.0, to.1 + p.1.skip(from.1.len() as int)),
        is_under(moved_path(p, from, to), to),
{
    let rest: PathModel = (false, p.1.skip(from.1.len() as int));
    assert(strip_path_prefix(p, from) == Some(rest));
    let q = moved_path(p, from, to);
    if rest == empty_path() {
        assert(rest.1.len() == 0);
        assert(to.1 + p.1.skip(from.1.len() as int) =~= to.1);
    } else {
        if rest.1.len() > 0 {
            assert(rest.1[0] == p.1[from.1.len() as int]);
            assert(is_normal(p.1[from.1.len() as int]));
        }
        assert(tail_names(to, rest) == rest.1);
    }
    assert(q.1 =~= to.1 + rest.1);
    assert forall|i: int| 0 <= i < q.1.len() implies is_normal(#[trigger] q.1[i]) by {
        if i < to.1.len() {
            assert(q.1[i] == to.1[i]);
        } else {
            assert(q.1[i] == p.1[i - to.1.len() + from.1.len()]);
        }
    }
    assert(to.1 =~= q.1.subrange(0, to.1.len() as int));
    if q == empty_path() {
        assert(to.1.len() == 0);
        assert(to == empty_path());
    }
}

proof fn lemma_under_self(p: PathModel)
    ensures
        is_under(p, p),
{
    assert(p.1 =~= p.1.subrange(0, p.1.len() as int));
}

/// Inserting paths keeps a tree consistent and adds what leads to them.
proof fn lemma_insert_all(t: TreeModel, s: Seq<PathModel>)
    requires
        tree_ok(t),
        forall|i: int| 0 <= i < s.len() ==> regular(#[trigger] s[i]),
    ensures
        tree_ok(tree_insert_all(t, s)),
        forall|x: PathModel| #[trigger] known(t, x) ==> known(tree_insert_all(t, s), x),
        forall|i: int| 0 <= i < s.len() ==> known(tree_insert_all(t, s), #[trigger] s[i]),
    decreases s.len(),
{
    if s.len() > 0 {
        let init = s.drop_last();
        assert forall|i: int| 0 <= i < init.len() implies regular(#[trigger] init[i]) by {
            assert(init[i] == s[i]);
        }
        lemma_insert_all(t, init);
        assert(regular(s[s.len() - 1]));
        law_insert(tree_insert_all(t, init), s.last());
        lemma_under_self(s.last());
        assert forall|i: int| 0 <= i < s.len() implies known(tree_insert_all(t, s), #[trigger] s[i]) by {
            if i < init.len() {
                assert(s[i] == init[i]);
                assert(known(tree_insert_all(t, init), init[i]));
            }
        }
    }
}

/// Moving part of a consistent tree keeps it consistent: the moved paths and the
/// paths outside are known.
proof fn lemma_tree_renamed(t: TreeModel, from: PathModel, to: PathModel)
    requires
        tree_ok(t),
        movable(t, from, to),
    ensures
        tree_ok(tree_renamed(t, from, to)),
        forall|x: PathModel| #[trigger]
            known(t, x) && !(known(t, from) && is_under(x, from)) ==> known(tree_renamed(t, from, to), x),
        forall|x: PathModel|
            known(t, from) && #[trigger] known(t, x) && is_under(x, from) ==> known(
                tree_renamed(t, from, to),
                moved_path(x, from, to),
            ),
{
    let s = tree_subtree(t, from);
    let moved = moved_paths(s, from, to);
    law_subtree(t, from);
    law_remove(t, from);
    assert forall|i: int| 0 <= i < moved.len() implies regular(#[trigger] moved[i]) by {
        assert(s.contains(s[i]));
        lemma_moved(s[i], from, to);
    }
    lemma_insert_all(tree_remove(t, from), moved);
    assert forall|x: PathModel| #[trigger]
        known(t, x) && !(known(t, from) && is_under(x, from)) implies known(tree_renamed(t, from, to), x) by {
        assert(known(tree_remove(t, from), x));
    }
    assert forall|x: PathModel| known(t, from) && #[trigger] known(t, x) && is_under(x, from) implies known(
        tree_renamed(t, from, to),
        moved_path(x, from, to),
    ) by {
        assert(s.contains(x));
        let i = choose|i: int| 0 <= i < s.len() && s[i] == x;
        assert(moved[i] == moved_path(x, from, to));
    }
}

/// After the entries of a list moved, a path with an entry either kept its own or
/// is where a path of the list went; a path of the list that nothing moved onto
/// afterwards is gone.
proof fn lemma_entries_moved_keys(m: EntryTableModel, s: Seq<PathModel>, from: PathModel, to: PathModel)
    ensures
        forall|q: PathModel| #[trigger]
            entries_moved(m, s, from, to).contains_key(q) ==> (m.contains_key(q) && !s.contains(q)) || (exists|
                i: int,
            |
                0 <= i < s.len() && q == moved_path(#[trigger] s[i], from, to)),
    decreases s.len(),
{
    if s.len() > 0 {
        let init = s.drop_last();
        let before = entries_moved(m, init, from, to);
        let after = entries_moved(m, s, from, to);
        lemma_entries_moved_keys(m, init, from, to);
        assert forall|q: PathModel| #[trigger] after.contains_key(q) implies (m.contains_key(q) && !s.contains(q)) || (
        exists|i: int| 0 <= i < s.len() && q == moved_path(#[trigger] s[i], from, to)) by {
            if before.contains_key(s.last()) && q == moved_path(s.last(), from, to) {
                assert(q == moved_path(s[s.len() - 1], from, to));
            } else {
                assert(before.contains_key(q));
                assert(q != s.last());
                if exists|i: int| 0 <= i < init.len() && q == moved_path(#[trigger] init[i], from, to) {
                    let i = choose|i: int| 0 <= i < init.len() && q == moved_path(#[trigger] init[i], from, to);
                    assert(q == moved_path(s[i], from, to));
                } else {
                    assert(!init.contains(q));
                    if s.contains(q) {
                        let i = choose|i: int| 0 <= i < s.len() && s[i] == q;
                        assert(init[i] == q);
                    }
                }
            }
        }
    }
}

/// Every request with storable paths keeps the state consistent: the tree knows
/// every path with an entry.  A file is deleted or renamed by `DeleteFile` and
/// `RenameFile` alone; a directory with stored entries moves by `RenameTree`.
pub proof fn law_dispatch_keeps_state_ok(pre: ServerModel, request: Request, post: ServerModel, step: Step)
    requires
        state_ok(pre),
        request_ok(pre, request),
        dispatched(pre, request, post, step),
    ensures
        state_ok(post),
{
    match request {
        Request::EnsureFileObject { path, meta } => {
            law_insert(pre.tree, path@);
            lemma_under_self(path@);
        },
        Request::EnsureFileObjectFromReal { path, meta } => {
            law_insert(pre.tree, path@);
            lemma_under_self(path@);
        },
        Request::UpsertFileEntry { path, object_id, meta } => {
            law_insert(pre.tree, path@);
            lemma_under_self(path@);
        },
        Request::PutDir { path, meta } => {
            law_insert(pre.tree, path@);
            lemma_under_self(path@);
        },
        Request::PutSymlink { path, target, meta } => {
            law_insert(pre.tree, path@);
            lemma_under_self(path@);
        },
        Request::PutWhiteout { path } => {
            law_insert(pre.tree, path@);
            lemma_under_self(path@);
        },
        Request::DeleteFile { path } => {
            law_remove(pre.tree, path@);
            assert forall|p: PathModel| #[trigger] post.entries.contains_key(p) implies known(post.tree, p) by {
                assert(pre.entries.contains_key(p));
            }
        },
        Request::RenameFile { from, to } => {
            if pre.entries.contains_key(from@) {
                lemma_tree_renamed(pre.tree, from@, to@);
                lemma_under_self(from@);
                assert(known(pre.tree, from@));
                lemma_moved_self(from@, to@);
                assert forall|p: PathModel| #[trigger] post.entries.contains_key(p) implies known(post.tree, p) by {
                    if p != to@ {
                        assert(pre.entries.contains_key(p));
                        assert(p != from@);
                    }
                }
            }
        },
        Request::RenameTree { from, to } => {
            lemma_tree_renamed(pre.tree, from@, to@);
            law_subtree(pre.tree, from@);
            let s = tree_subtree(pre.tree, from@);
            lemma_entries_moved_keys(pre.entries, s, from@, to@);
            assert forall|p: PathModel| #[trigger] post.entries.contains_key(p) implies known(post.tree, p) by {
                if exists|i: int| 0 <= i < s.len() && p == moved_path(#[trigger] s[i], from@, to@) {
                    let i = choose|i: int| 0 <= i < s.len() && p == moved_path(#[trigger] s[i], from@, to@);
                    assert(s.contains(s[i]));
                    assert(known(pre.tree, s[i]));
                } else {
                    assert(pre.entries.contains_key(p) && !s.contains(p));
                    assert(known(pre.tree, p));
                }
            }
        },
        _ => {},
    }
}

proof fn lemma_moved_self(from: PathModel, to: PathModel)
    requires
        from != empty_path(),
    ensures
        moved_path(from, from, to) == to,
{
    lemma_under_self(from);
    assert(from.1.skip(from.1.len() as int) =~= Seq::<Seq<u8>>::empty());
}

/// After the outcome of a written object is taken in, the state is consistent.
pub proof fn law_attach_keeps_state_ok(s: ServerModel, p: PathModel, id: u64, meta: FileMetadata)
    requires
        state_ok(s),
        regular(p),
    ensures
        state_ok(put_entry(s, p, file_entry(id, meta))),
{
    law_insert(s.tree, p);
    lemma_under_self(p);
}

/// A stored entry is what a later read of its path gets; reads of other paths get
/// what they got before.
pub proof fn law_get_after_put(s: ServerModel, p: PathModel, e: EntryModel, q: PathModel)
    ensures
        entry_at(put_entry(s, p, e).entries, p) == Some(e),
        q != p ==> entry_at(put_entry(s, p, e).entries, q) == entry_at(s.entries, q),
{
}

/// Once a file has an object, asking for its object again gives the same one,
/// from the store or from the host alike, and makes no new one.
pub proof fn law_ensure_is_stable(
    s: ServerModel,
    p: PathModel,
    id: u64,
    meta: FileMetadata,
    request: Request,
    post: ServerModel,
    step: Step,
)
    requires
        match request {
            Request::EnsureFileObject { path, .. } => path@ == p,
            Request::EnsureFileObjectFromReal { path, .. } => path@ == p,
            _ => false,
        },
        dispatched(put_entry(s, p, file_entry(id, meta)), request, post, step),
    ensures
        step matches Step::Reply(r) && is_object_reply(r, s, id),
        post.next_id == s.next_id,
        ready_object(post.entries, p) == Some(id),
{
}

/// The first access to a path is logged, and only the first: until a line was written
/// every request asks for one, from then on none does, and other paths are as before.
pub proof fn law_first_access_logged(
    s: ServerModel,
    p: PathModel,
    q: PathModel,
    request: Request,
    post: ServerModel,
    step: Step,
)
    requires
        request matches Request::LogAccess { path, .. } && path@ == p,
    ensures
        dispatched(s, request, post, step) ==> post == s && (step is AppendLog <==> !s.logged.contains(p)),
        dispatched(access_marked(s, p), request, post, step) ==> post == access_marked(s, p) && step
            == Step::Reply(Response::LogAccess),
        q != p ==> (access_marked(s, p).logged.contains(q) <==> s.logged.contains(q)),
{
}

/// Whether a path is whited out.
pub open spec fn is_whiteout_at(s: ServerModel, p: PathModel) -> bool {
    s.entries.contains_key(p) && s.entries[p].entry_type is Whiteout
}

/// A deleted file is not found; a removed whiteout is not found; an entry that is
/// no whiteout survives the removal of whiteouts.
pub proof fn law_deletions(
    pre: ServerModel,
    request: Request,
    post: ServerModel,
    step: Step,
    p: PathModel,
)
    requires
        dispatched(pre, request, post, step),
    ensures
        request matches Request::DeleteFile { path } ==> (entry_at(post.entries, path@) is None && (p
            != path@ ==> entry_at(post.entries, p) == entry_at(pre.entries, p))),
        request matches Request::DeleteWhiteout { path } ==> {
            &&& (entry_at(post.entries, path@) matches Some(e) ==> !(e.entry_type is Whiteout))
            &&& !is_whiteout_at(pre, p) ==> entry_at(post.entries, p) == entry_at(pre.entries, p)
        },
{
}

proof fn lemma_with_entries(m: EntryTableModel, s: Seq<PathModel>)
    requires
        s.no_duplicates(),
    ensures
        forall|p: PathModel, e: EntryModel| #[trigger]
            with_entries(m, s).contains((p, e)) <==> s.contains(p) && m.contains_key(p) && m[p] == e,
        with_entries(m, s).no_duplicates(),
    decreases s.len(),
{
    if s.len() > 0 {
        let init = s.drop_last();
        let last = s.last();
        assert(init.no_duplicates()) by {
            assert forall|i: int, j: int| 0 <= i < init.len() && 0 <= j < init.len() && i != j implies init[i]
                != init[j] by {
                assert(s[i] != s[j]);
            }
        }
        lemma_with_entries(m, init);
        assert(!init.contains(last)) by {
            if init.contains(last) {
                let i = choose|i: int| 0 <= i < init.len() && init[i] == last;
                assert(s[i] != s[s.len() - 1]);
            }
        }
        assert forall|p: PathModel| #[trigger] s.contains(p) <==> init.contains(p) || p == last by {
            if init.contains(p) {
                let i = choose|i: int| 0 <= i < init.len() && init[i] == p;
                assert(s[i] == p);
            }
            if p == last {
                assert(s[s.len() - 1] == p);
            }
            if s.contains(p) && p != last {
                let i = choose|i: int| 0 <= i < s.len() && s[i] == p;
                assert(init[i] == p);
            }
        }
        let before = with_entries(m, init);
        let after = with_entries(m, s);
        if m.contains_key(last) {
            let row = (last, m[last]);
            assert(after == before.push(row));
            assert forall|x: (PathModel, EntryModel)| #[trigger] after.contains(x) <==> before.contains(x) || x
                == row by {
                if before.contains(x) {
                    let i = choose|i: int| 0 <= i < before.len() && before[i] == x;
                    assert(after[i] == x);
                }
                if x == row {
                    assert(after[before.len() as int] == x);
                }
                if after.contains(x) && x != row {
                    let i = choose|i: int| 0 <= i < after.len() && after[i] == x;
                    assert(before[i] == x);
                }
            }
            assert(!before.contains(row));
            assert forall|i: int, j: int| 0 <= i < after.len() && 0 <= j < after.len() && i != j implies after[i]
                != after[j] by {
                if i == before.len() {
                    assert(before[j] != row) by {
                        if before[j] == row {
                            assert(before.contains(row));
                        }
                    }
                } else if j == before.len() {
                    assert(before[i] != row) by {
                        if before[i] == row {
                            assert(before.contains(row));
                        }
                    }
                }
            }
        }
        assert forall|p: PathModel, e: EntryModel| #[trigger] after.contains((p, e)) <==> s.contains(p)
            && m.contains_key(p) && m[p] == e by {
            assert(before.contains((p, e)) <==> init.contains(p) && m.contains_key(p) && m[p] == e);
        }
    } else {
        assert(with_entries(m, s) =~= Seq::<(PathModel, EntryModel)>::empty());
    }
}

/// Listing a directory of a consistent state gives every entry whose parent is
/// that directory, and nothing else, each once.
pub proof fn law_listing(s: ServerModel, dir: PathModel)
    requires
        state_ok(s),
        dir != empty_path(),
    ensures
        with_entries(s.entries, tree_children(s.tree, dir)).no_duplicates(),
        forall|p: PathModel, e: EntryModel| #[trigger]
            with_entries(s.entries, tree_children(s.tree, dir)).contains((p, e)) <==> entry_at(s.entries, p) == Some(e)
                && parent_of(p) == Some(dir),
{
    law_children(s.tree, dir);
    lemma_with_entries(s.entries, tree_children(s.tree, dir));
    assert forall|p: PathModel, e: EntryModel| #[trigger]
        with_entries(s.entries, tree_children(s.tree, dir)).contains((p, e)) <==> entry_at(s.entries, p) == Some(e)
            && parent_of(p) == Some(dir) by {
        if s.entries.contains_key(p) {
            assert(known(s.tree, p));
        }
    }
}

/// The whiteouts listed below a path of a consistent state are exactly the paths
/// below it that are whited out.
pub proof fn law_whiteouts(s: ServerModel, dir: PathModel)
    requires
        state_ok(s),
        dir != empty_path(),
    ensures
        forall|p: PathModel| #[trigger]
            whited_out(s.entries, tree_descendants(s.tree, dir)).contains(p) <==> is_under(p, dir) && p != dir && (
            entry_at(s.entries, p) matches Some(e) && e.entry_type is Whiteout),
{
    let below = tree_descendants(s.tree, dir);
    law_descendants(s.tree, dir);
    lemma_whited_out(s.entries, below);
    assert forall|p: PathModel| #[trigger] whited_out(s.entries, below).contains(p) <==> is_under(p, dir) && p != dir && (
    entry_at(s.entries, p) matches Some(e) && e.entry_type is Whiteout) by {
        if s.entries.contains_key(p) && is_under(p, dir) {
            assert(known(s.tree, p));
            assert(known(s.tree, dir));
        }
    }
}

proof fn lemma_whited_out(m: EntryTableModel, s: Seq<PathModel>)
    ensures
        forall|p: PathModel| #[trigger]
            whited_out(m, s).contains(p) <==> s.contains(p) && m.contains_key(p) && m[p].entry_type is Whiteout,
    decreases s.len(),
{
    if s.len() > 0 {
        let init = s.drop_last();
        let last = s.last();
        lemma_whited_out(m, init);
        let before = whited_out(m, init);
        let after = whited_out(m, s);
        assert forall|p: PathModel| #[trigger] after.contains(p) <==> s.contains(p) && m.contains_key(p)
            && m[p].entry_type is Whiteout by {
            if after.contains(p) {
                let i = choose|i: int| 0 <= i < after.len() && after[i] == p;
                if i < before.len() {
                    assert(before[i] == p);
                    assert(before.contains(p));
                    let k = choose|k: int| 0 <= k < init.len() && init[k] == p;
                    assert(s[k] == p);
                } else {
                    assert(s[s.len() - 1] == p);
                }
            }
            if s.contains(p) && m.contains_key(p) && m[p].entry_type is Whiteout {
                let i = choose|i: int| 0 <= i < s.len() && s[i] == p;
                if i < init.len() {
                    assert(init[i] == p);
                    assert(before.contains(p));
                    let k = choose|k: int| 0 <= k < before.len() && before[k] == p;
                    assert(after[k] == p);
                } else {
                    assert(after[after.len() - 1] == p);
                }
            }
        }
    } else {
        assert(whited_out(m, s) =~= Seq::<PathModel>::empty());
    }
}

/// What a snapshot lists is what a restart puts back.
proof fn lemma_table_of(v: Seq<(PathModel, EntryModel)>)
    requires
        forall|i: int, j: int| 0 <= i < j < v.len() ==> (#[trigger] v[i]).0 != (#[trigger] v[j]).0,
    ensures
        forall|p: PathModel| #[trigger]
            table_of(v).contains_key(p) <==> exists|i: int| 0 <= i < v.len() && (#[trigger] v[i]).0 == p,
        forall|i: int| 0 <= i < v.len() ==> table_of(v)[(#[trigger] v[i]).0] == v[i].1,
    decreases v.len(),
{
    if v.len() > 0 {
        let init = v.drop_last();
        assert forall|i: int, j: int| 0 <= i < j < init.len() implies (#[trigger] init[i]).0 != (
        #[trigger] init[j]).0 by {
            assert(v[i].0 != v[j].0);
        }
        lemma_table_of(init);
        assert forall|p: PathModel| #[trigger] table_of(v).contains_key(p) <==> exists|i: int|
            0 <= i < v.len() && (#[trigger] v[i]).0 == p by {
            if table_of(v).contains_key(p) {
                if p == v.last().0 {
                    assert(v[v.len() - 1].0 == p);
                } else {
                    assert(table_of(init).contains_key(p));
                    let i = choose|i: int| 0 <= i < init.len() && (#[trigger] init[i]).0 == p;
                    assert(v[i].0 == p);
                }
            }
            if exists|i: int| 0 <= i < v.len() && (#[trigger] v[i]).0 == p {
                let i = choose|i: int| 0 <= i < v.len() && (#[trigger] v[i]).0 == p;
                if i < init.len() {
                    assert(init[i].0 == p);
                    assert(table_of(init).contains_key(p));
                }
            }
        }
        assert forall|i: int| 0 <= i < v.len() implies table_of(v)[(#[trigger] v[i]).0] == v[i].1 by {
            if i < init.len() {
                assert(init[i] == v[i]);
                assert(v[i].0 != v[v.len() - 1].0);
            }
        }
    }
}

/// A daemon restarted from a snapshot has the entries, the object numbering and
/// the names of the one that wrote it, and starts consistent.
pub proof fn law_restart(s: ServerModel, v: Seq<(PathModel, EntryModel)>)
    requires
        lists_table(v, s.entries),
        forall|p: PathModel| #[trigger] s.entries.contains_key(p) ==> regular(p),
    ensures
        ({
            let meta = MetaModel {
                shm_name: s.shm_name,
                abi_version: s.abi_version,
                next_id: s.next_id,
            };
            let again = started(s.sandbox_dir, meta, v);
            &&& again.entries == s.entries
            &&& again.next_id == s.next_id
            &&& again.shm_name == s.shm_name
            &&& again.abi_version == s.abi_version
            &&& state_ok(again)
        }),
{
    lemma_table_of(v);
    assert(table_of(v) =~= s.entries) by {
        assert forall|p: PathModel| #[trigger] table_of(v).contains_key(p) <==> s.entries.contains_key(p) by {
            if table_of(v).contains_key(p) {
                let i = choose|i: int| 0 <= i < v.len() && (#[trigger] v[i]).0 == p;
                assert(s.entries.contains_key(v[i].0));
            }
        }
        assert forall|p: PathModel| #[trigger] table_of(v).contains_key(p) implies table_of(v)[p] == s.entries[p] by {
            let i = choose|i: int| 0 <= i < v.len() && (#[trigger] v[i]).0 == p;
            assert(table_of(v)[v[i].0] == v[i].1);
        }
    }
    let paths = listed_paths(v);
    assert forall|x: PathModel| #[trigger] paths.contains(x) implies regular(x) by {
        let i = choose|i: int| 0 <= i < paths.len() && paths[i] == x;
        assert(s.entries.contains_key(v[i].0));
    }
    law_from_paths(paths);
    assert forall|p: PathModel| #[trigger] s.entries.contains_key(p) implies known(
        tree_insert_all(empty_tree(), shallowest_first(paths)),
        p,
    ) by {
        let i = choose|i: int| 0 <= i < v.len() && (#[trigger] v[i]).0 == p;
        assert(paths[i] == p);
        assert(paths.contains(p));
        lemma_under_self(p);
    }
}

/// Renaming a tree moves every entry of the tree to the same place below the new
/// name and leaves the entries elsewhere alone, where neither name lies below the
/// other.
pub proof fn law_rename_tree_moves(s: ServerModel, from: PathModel, to: PathModel, p: PathModel)
    requires
        state_ok(s),
        known(s.tree, from),
        movable(s.tree, from, to),
        !is_under(to, from),
        !is_under(from, to),
    ensures
        ({
            let after = entries_moved(s.entries, tree_subtree(s.tree, from), from, to);
            &&& is_under(p, from) ==> entry_at(after, p) is None
            &&& is_under(p, from) && s.entries.contains_key(p) ==> entry_at(
                after,
                moved_path(p, from, to),
            ) == entry_at(s.entries, p)
            &&& !is_under(p, from) && !is_under(p, to) ==> entry_at(after, p) == entry_at(s.entries, p)
        }),
{
    let t = tree_subtree(s.tree, from);
    law_subtree(s.tree, from);
    lemma_under_self(from);
    lemma_under_self(to);
    assert forall|i: int| 0 <= i < t.len() implies known(s.tree, #[trigger] t[i]) && is_under(t[i], from) by {
        assert(t.contains(t[i]));
    }
    lemma_entries_moved(s, t, from, to, p);
    if is_under(p, from) && s.entries.contains_key(p) {
        assert(known(s.tree, p));
        assert(t.contains(p));
    }
    if is_under(p, from) && !t.contains(p) {
        assert(!s.entries.contains_key(p)) by {
            if s.entries.contains_key(p) {
                assert(known(s.tree, p));
            }
        }
    }
}

/// No path lies below two names of which neither lies below the other.
proof fn lemma_apart(p: PathModel, a: PathModel, b: PathModel)
    requires
        is_under(p, a),
        is_under(p, b),
    ensures
        is_under(a, b) || is_under(b, a),
{
    if a.1.len() <= b.1.len() {
        assert(a.1 =~= b.1.subrange(0, a.1.len() as int)) by {
            assert forall|i: int| 0 <= i < a.1.len() implies a.1[i] == b.1[i] by {
                assert(p.1.subrange(0, a.1.len() as int)[i] == a.1[i]);
                assert(p.1.subrange(0, b.1.len() as int)[i] == b.1[i]);
            }
        }
    } else {
        assert(b.1 =~= a.1.subrange(0, b.1.len() as int)) by {
            assert forall|i: int| 0 <= i < b.1.len() implies a.1[i] == b.1[i] by {
                assert(p.1.subrange(0, a.1.len() as int)[i] == a.1[i]);
                assert(p.1.subrange(0, b.1.len() as int)[i] == b.1[i]);
            }
        }
    }
}

proof fn lemma_entries_moved(s: ServerModel, t: Seq<PathModel>, from: PathModel, to: PathModel, p: PathModel)
    requires
        tree_ok(s.tree),
        t.no_duplicates(),
        from != empty_path(),
        movable(s.tree, from, to),
        !is_under(to, from),
        !is_under(from, to),
        forall|i: int| 0 <= i < t.len() ==> known(s.tree, #[trigger] t[i]) && is_under(t[i], from),
    ensures
        ({
            let after = entries_moved(s.entries, t, from, to);
            &&& t.contains(p) ==> entry_at(after, p) is None
            &&& t.contains(p) && s.entries.contains_key(p) ==> entry_at(after, moved_path(p, from, to))
                == entry_at(s.entries, p)
            &&& !t.contains(p) && !is_under(p, to) ==> entry_at(after, p) == entry_at(s.entries, p)
        }),
    decreases t.len(),
{
    if t.len() > 0 {
        let init = t.drop_last();
        let last = t.last();
        assert(init.no_duplicates()) by {
            assert forall|i: int, j: int| 0 <= i < init.len() && 0 <= j < init.len() && i != j implies init[i]
                != init[j] by {
                assert(t[i] != t[j]);
            }
        }
        assert forall|i: int| 0 <= i < init.len() implies known(s.tree, #[trigger] init[i]) && is_under(init[i], from) by {
            assert(init[i] == t[i]);
        }
        assert(known(s.tree, t[t.len() - 1]) && is_under(t[t.len() - 1], from));
        lemma_moved(last, from, to);
        assert(!init.contains(last)) by {
            if init.contains(last) {
                let i = choose|i: int| 0 <= i < init.len() && init[i] == last;
                assert(t[i] != t[t.len() - 1]);
            }
        }
        if is_under(last, to) {
            lemma_apart(last, from, to);
        }
        lemma_entries_moved(s, init, from, to, p);
        lemma_entries_moved(s, init, from, to, last);
        if t.contains(p) {
            let i = choose|i: int| 0 <= i < t.len() && t[i] == p;
            assert(known(s.tree, t[i]) && is_under(t[i], from));
            lemma_moved(p, from, to);
            if is_under(p, to) {
                lemma_apart(p, from, to);
            }
            if i < init.len() {
                assert(init[i] == p);
                assert(init.contains(p));
                assert(p != last);
                // Different paths go to different places.
                if moved_path(p, from, to) == moved_path(last, from, to) {
                    let k = from.1.len() as int;
                    let a = to.1 + p.1.skip(k);
                    let b = to.1 + last.1.skip(k);
                    assert(a == b);
                    assert(a.len() == to.1.len() + p.1.len() - k);
                    assert(p.1.len() == last.1.len());
                    assert(p.1 =~= last.1) by {
                        assert forall|j: int| 0 <= j < p.1.len() implies p.1[j] == last.1[j] by {
                            if j < k {
                                assert(p.1.subrange(0, k)[j] == from.1[j]);
                                assert(last.1.subrange(0, k)[j] == from.1[j]);
                            } else {
                                assert(a[to.1.len() + (j - k)] == p.1.skip(k)[j - k]);
                                assert(b[to.1.len() + (j - k)] == last.1.skip(k)[j - k]);
                            }
                        }
                    }
                }
                // Nothing moves onto a path of the old tree.
                if moved_path(p, from, to) == last {
                    assert(is_under(last, to));
                }
            }
        } else {
            assert(!init.contains(p)) by {
                if init.contains(p) {
                    let i = choose|i: int| 0 <= i < init.len() && init[i] == p;
                    assert(t[i] == p);
                }
            }
            assert(p != last) by {
                assert(t[t.len() - 1] == last);
            }
        }
    }
}

} // verus!
