//! What a listing of a directory holds.

use crate::fuse::attr::FileKind;
use crate::fuse::decision::{decision_for, visible_item};
use crate::fuse::fs::{
    dir_above, listing_of, numbered, page_of, readdir_begun, readdir_resumed, shown_items,
    with_numbers, ReaddirNext,
};
use crate::fuse::inode::{ino_for, inodes_with, InodeModel};
use crate::fuse::ops::{OpModel, Outcome};
use crate::fuse::policy::AccessMode;
use crate::fuse::state::{ReaddirChildState, ReaddirState};
use crate::fuse::state_loader::{
    fuse_for, fuse_view, merges, real_for, real_view, ItemType, RealItem,
};
use crate::names::{has_name, lemma_names_distinct, lemma_one_row, maps_to};
use crate::path::{file_name_of, FsPath, PathModel};
use crate::syncing::proto::{EntryType, FuseEntry, RequestModel, Response};
use vstd::prelude::*;

verus! {

/// A listing for the kernel: inode number, kind and name of each entry.
pub type Listing = Seq<(u64, FileKind, Seq<u8>)>;

/// Whether a listing shows a name as a kind, behind the two directories it begins with.
pub open spec fn shows(l: Listing, name: Seq<u8>, kind: FileKind) -> bool {
    exists|i: int| 2 <= i < l.len() && (#[trigger] l[i]).1 == kind && l[i].2 == name
}

/// Whether names are different in all rows.
spec fn rows_differ(rows: Seq<(Seq<u8>, ReaddirChildState)>) -> bool {
    forall|i: int, j: int| 0 <= i < j < rows.len() ==> (#[trigger] rows[i]).0 != (#[trigger] rows[j]).0
}

/// Whether an item is what a row shows as.
spec fn item_of(
    mode: AccessMode,
    row: (Seq<u8>, ReaddirChildState),
    item: (Seq<u8>, FileKind, PathModel),
) -> bool {
    item.0 == row.0 && visible_item(row.1, decision_for(mode, row.1)) == Some((item.1, item.2))
}

/// Every shown item is what some row shows as.
proof fn lemma_shown_from(
    mode: AccessMode,
    rows: Seq<(Seq<u8>, ReaddirChildState)>,
    k: int,
) -> (i: int)
    requires
        0 <= k < shown_items(mode, rows).len(),
    ensures
        0 <= i < rows.len(),
        item_of(mode, rows[i], shown_items(mode, rows)[k]),
    decreases rows.len(),
{
    let init = rows.drop_last();
    let before = shown_items(mode, init);
    if k < before.len() {
        assert(shown_items(mode, rows)[k] == before[k]);
        let i = lemma_shown_from(mode, init, k);
        assert(init[i] == rows[i]);
        i
    } else {
        rows.len() - 1
    }
}

/// Every row that shows is a shown item.
proof fn lemma_shown_of(
    mode: AccessMode,
    rows: Seq<(Seq<u8>, ReaddirChildState)>,
    i: int,
) -> (k: int)
    requires
        0 <= i < rows.len(),
        visible_item(rows[i].1, decision_for(mode, rows[i].1)) is Some,
    ensures
        0 <= k < shown_items(mode, rows).len(),
        item_of(mode, rows[i], shown_items(mode, rows)[k]),
    decreases rows.len(),
{
    let init = rows.drop_last();
    let before = shown_items(mode, init);
    if i < init.len() {
        assert(init[i] == rows[i]);
        let k = lemma_shown_of(mode, init, i);
        assert(shown_items(mode, rows)[k] == before[k]);
        k
    } else {
        before.len() as int
    }
}

/// No name is shown twice.
proof fn lemma_shown_once(
    mode: AccessMode,
    rows: Seq<(Seq<u8>, ReaddirChildState)>,
    k: int,
    l: int,
)
    requires
        rows_differ(rows),
        0 <= k < l < shown_items(mode, rows).len(),
    ensures
        shown_items(mode, rows)[k].0 != shown_items(mode, rows)[l].0,
    decreases rows.len(),
{
    let init = rows.drop_last();
    let before = shown_items(mode, init);
    let after = shown_items(mode, rows);
    assert(after[k] == before[k]);
    if l < before.len() {
        assert(rows_differ(init)) by {
            assert forall|i: int, j: int| 0 <= i < j < init.len() implies (#[trigger] init[i]).0 != (
            #[trigger] init[j]).0 by {
                assert(rows[i].0 != rows[j].0);
            }
        }
        assert(after[l] == before[l]);
        lemma_shown_once(mode, init, k, l);
    } else {
        let i = lemma_shown_from(mode, init, k);
        assert(init[i] == rows[i]);
        assert(rows[i].0 != rows[rows.len() - 1].0);
    }
}

/// A number that a path has stays its number.
proof fn lemma_number_stays(t: InodeModel, p: PathModel, q: PathModel)
    ensures
        ino_for(inodes_with(t, p), p) == ino_for(t, p),
        inodes_with(t, p).inos.contains_key(p),
        t.inos.contains_key(p) ==> inodes_with(t, q).inos.contains_key(p) && ino_for(
            inodes_with(t, q),
            p,
        ) == ino_for(t, p),
{
}

/// The entries of a listing are its items, each with the number that its path has once
/// all have theirs.
proof fn lemma_with_numbers(t: InodeModel, items: Seq<(Seq<u8>, FileKind, PathModel)>)
    ensures
        with_numbers(t, items).len() == items.len(),
        forall|i: int|
            0 <= i < items.len() ==> {
                &&& (#[trigger] with_numbers(t, items)[i]).1 == items[i].1
                &&& with_numbers(t, items)[i].2 == items[i].0
                &&& with_numbers(t, items)[i].0 == ino_for(numbered(t, items), items[i].2)
                &&& numbered(t, items).inos.contains_key(items[i].2)
            },
    decreases items.len(),
{
    if items.len() > 0 {
        let init = items.drop_last();
        lemma_with_numbers(t, init);
        let mid = numbered(t, init);
        let last = items.last();
        lemma_number_stays(mid, last.2, last.2);
        assert forall|i: int| 0 <= i < items.len() implies {
            &&& (#[trigger] with_numbers(t, items)[i]).1 == items[i].1
            &&& with_numbers(t, items)[i].2 == items[i].0
            &&& with_numbers(t, items)[i].0 == ino_for(numbered(t, items), items[i].2)
            &&& numbered(t, items).inos.contains_key(items[i].2)
        } by {
            if i < init.len() {
                assert(with_numbers(t, items)[i] == with_numbers(t, init)[i]);
                assert(init[i] == items[i]);
                lemma_number_stays(mid, items[i].2, last.2);
            }
        }
    }
}

/// The two entries that a listing begins with: the directory itself under its own
/// number, and the one above it.
pub proof fn law_listing_begins(t: InodeModel, ino: u64, path: PathModel, state: ReaddirState)
    ensures
        ({
            let l = listing_of(t, ino, path, state);
            &&& l.len() >= 2
            &&& l[0] == (ino, FileKind::Directory, seq![46u8])
            &&& l[1].1 == FileKind::Directory
            &&& l[1].2 == seq![46u8, 46u8]
            &&& path.1.len() > 0 ==> l[1].0 == ino_for(t, (path.0, path.1.drop_last()))
            &&& path.1.len() == 0 ==> l[1].0 == ino_for(t, (true, Seq::empty()))
        }),
{
    assert(crate::path::dot() =~= seq![46u8]);
    assert(crate::path::dot_dot() =~= seq![46u8, 46u8]);
}

/// A name shows as a kind exactly where its row does.
proof fn lemma_shows(
    t: InodeModel,
    ino: u64,
    path: PathModel,
    state: ReaddirState,
    name: Seq<u8>,
    child: ReaddirChildState,
    kind: FileKind,
)
    requires
        state.children.wf(),
        maps_to(state.children@, name, child),
    ensures
        shows(listing_of(t, ino, path, state), name, kind) <==> (visible_item(
            child,
            decision_for(state.access_mode, child),
        ) matches Some(item) && item.0 == kind),
{
    let mode = state.access_mode;
    let rows = state.children@;
    let items = shown_items(mode, rows);
    let t1 = inodes_with(t, dir_above(path));
    lemma_with_numbers(t1, items);
    let tail = with_numbers(t1, items);
    let l = listing_of(t, ino, path, state);
    assert(l.len() == tail.len() + 2);
    let a = choose|a: int| 0 <= a < rows.len() && #[trigger] rows[a] == (name, child);
    let seen = visible_item(child, decision_for(mode, child));
    if shows(l, name, kind) {
        let i = choose|i: int| 2 <= i < l.len() && (#[trigger] l[i]).1 == kind && l[i].2 == name;
        assert(l[i] == tail[i - 2]);
        let b = lemma_shown_from(mode, rows, i - 2);
        lemma_one_row(rows, a, b);
        assert(seen == Some((kind, items[i - 2].2)));
    }
    if seen is Some && (seen->0).0 == kind {
        let k = lemma_shown_of(mode, rows, a);
        assert(tail[k].1 == items[k].1 && tail[k].2 == items[k].0);
        assert(l[k + 2] == tail[k]);
        assert(shows(l, name, kind));
    }
}

/// Every name shows exactly as it should, whatever the name is: a whiteout hides it; the
/// sandbox's entry shows under its kind, except that on a path that passes through the
/// host's entry comes first; the host's entry shows where the sandbox has none and the
/// path is not the sandbox's own.
pub proof fn law_listing_shows_names(
    t: InodeModel,
    ino: u64,
    path: PathModel,
    state: ReaddirState,
    name: Seq<u8>,
    child: ReaddirChildState,
    kind: FileKind,
)
    requires
        state.children.wf(),
        maps_to(state.children@, name, child),
    ensures
        ({
            let mode = state.access_mode;
            let hidden = child.fuse matches Some(f) && f.entry_type is Whiteout;
            let by_host = !hidden && child.real is Some && (mode is Passthrough || (mode is CopyOnWrite
                && child.fuse is None));
            let by_sandbox = !hidden && child.fuse is Some && !by_host;
            shows(listing_of(t, ino, path, state), name, kind) <==> (by_host && child.real->0.kind == kind) || (
            by_sandbox && match child.fuse->0.entry_type {
                EntryType::File => kind is RegularFile,
                EntryType::Dir => kind is Directory,
                EntryType::Symlink => kind is Symlink,
                EntryType::Whiteout => false,
            })
        }),
{
    lemma_shows(t, ino, path, state, name, child, kind);
}

/// A listing shows no other names, and none twice; each entry has the number under which
/// its path is known afterwards.
pub proof fn law_listing_shows_nothing_else(
    t: InodeModel,
    ino: u64,
    path: PathModel,
    state: ReaddirState,
    i: int,
    j: int,
)
    requires
        state.children.wf(),
        2 <= i < listing_of(t, ino, path, state).len(),
    ensures
        ({
            let l = listing_of(t, ino, path, state);
            let after = numbered(
                inodes_with(t, dir_above(path)),
                shown_items(state.access_mode, state.children@),
            );
            &&& 2 <= j < l.len() && i != j ==> l[i].2 != l[j].2
            &&& exists|child: ReaddirChildState| #[trigger]
                maps_to(state.children@, l[i].2, child) && ((child.fuse matches Some(f) && l[i].0
                    == ino_for(after, f.path@)) || (child.real matches Some(r) && l[i].0 == ino_for(
                    after,
                    r.path@,
                )))
        }),
{
    let mode = state.access_mode;
    let rows = state.children@;
    lemma_names_distinct(rows);
    let items = shown_items(mode, rows);
    let t1 = inodes_with(t, dir_above(path));
    lemma_with_numbers(t1, items);
    let tail = with_numbers(t1, items);
    let l = listing_of(t, ino, path, state);
    assert(l[i] == tail[i - 2]);
    let b = lemma_shown_from(mode, rows, i - 2);
    assert(rows[b] == (l[i].2, rows[b].1));
    assert(maps_to(rows, l[i].2, rows[b].1));
    if 2 <= j < l.len() && i != j {
        assert(l[j] == tail[j - 2]);
        if i < j {
            lemma_shown_once(mode, rows, i - 2, j - 2);
        } else {
            lemma_shown_once(mode, rows, j - 2, i - 2);
        }
    }
}

/// What the host side of a name is, by the last entry of that name.
proof fn lemma_real_for(items: Seq<RealItem>, name: Seq<u8>, i: int)
    requires
        0 <= i < items.len(),
        items[i].name@ == name,
        forall|k: int| i < k < items.len() ==> (#[trigger] items[k]).name@ != name,
    ensures
        real_for(items, name) is Some,
        (real_for(items, name)->0).1 == items[i].path@,
        (real_for(items, name)->0).0 == match items[i].item_type {
            Some(ItemType::Dir) => FileKind::Directory,
            Some(ItemType::Symlink) => FileKind::Symlink,
            _ => FileKind::RegularFile,
        },
    decreases items.len(),
{
    if i < items.len() - 1 {
        assert(items[items.len() - 1].name@ != name);
        let init = items.drop_last();
        assert forall|k: int| i < k < init.len() implies (#[trigger] init[k]).name@ != name by {
            assert(init[k] == items[k]);
        }
        lemma_real_for(init, name, i);
    }
}

proof fn lemma_real_none(items: Seq<RealItem>, name: Seq<u8>)
    ensures
        real_for(items, name) is None <==> forall|k: int|
            0 <= k < items.len() ==> (#[trigger] items[k]).name@ != name,
    decreases items.len(),
{
    if items.len() > 0 {
        let init = items.drop_last();
        lemma_real_none(init, name);
        if real_for(items, name) is None {
            assert forall|k: int| 0 <= k < items.len() implies (#[trigger] items[k]).name@ != name by {
                if k < init.len() {
                    assert(init[k] == items[k]);
                }
            }
        } else if items.last().name@ != name {
            let k = choose|k: int| 0 <= k < init.len() && (#[trigger] init[k]).name@ == name;
            assert(items[k].name@ == name);
        } else {
            assert(items[items.len() - 1].name@ == name);
        }
    }
}

proof fn lemma_fuse_for(list: Seq<(FsPath, FuseEntry)>, name: Seq<u8>, i: int)
    requires
        0 <= i < list.len(),
        file_name_of(list[i].0@) == Some(name),
        forall|k: int| i < k < list.len() ==> file_name_of((#[trigger] list[k]).0@) != Some(name),
    ensures
        fuse_for(list, name) == Some((list[i].1.entry_type, list[i].0@)),
    decreases list.len(),
{
    if i < list.len() - 1 {
        assert(file_name_of(list[list.len() - 1].0@) != Some(name));
        let init = list.drop_last();
        assert forall|k: int| i < k < init.len() implies file_name_of((#[trigger] init[k]).0@) != Some(
            name,
        ) by {
            assert(init[k] == list[k]);
        }
        lemma_fuse_for(init, name, i);
    }
}

proof fn lemma_fuse_none(list: Seq<(FsPath, FuseEntry)>, name: Seq<u8>)
    ensures
        fuse_for(list, name) is None <==> forall|k: int|
            0 <= k < list.len() ==> file_name_of((#[trigger] list[k]).0@) != Some(name),
    decreases list.len(),
{
    if list.len() > 0 {
        let init = list.drop_last();
        lemma_fuse_none(init, name);
        if fuse_for(list, name) is None {
            assert forall|k: int| 0 <= k < list.len() implies file_name_of((#[trigger] list[k]).0@) != Some(
                name,
            ) by {
                if k < init.len() {
                    assert(init[k] == list[k]);
                }
            }
        } else if file_name_of(list.last().0@) != Some(name) {
            let k = choose|k: int| 0 <= k < init.len() && file_name_of((#[trigger] init[k]).0@) == Some(name);
            assert(file_name_of(list[k].0@) == Some(name));
        } else {
            assert(file_name_of(list[list.len() - 1].0@) == Some(name));
        }
    }
}

/// Whether the host listed a name.
pub open spec fn host_has(items: Seq<RealItem>, name: Seq<u8>) -> bool {
    exists|k: int| 0 <= k < items.len() && (#[trigger] items[k]).name@ == name
}

/// Whether the sandbox has an entry under a name.
pub open spec fn sandbox_has(list: Seq<(FsPath, FuseEntry)>, name: Seq<u8>) -> bool {
    exists|k: int|
        0 <= k < list.len() && (#[trigger] list[k]).0@.1.len() > 0 && list[k].0@.1.last() == name
}

/// The sandbox has an entry under a name exactly where the name has a sandbox side.
proof fn lemma_sandbox_has(list: Seq<(FsPath, FuseEntry)>, name: Seq<u8>)
    requires
        name != seq![46u8],
        name != seq![46u8, 46u8],
    ensures
        sandbox_has(list, name) <==> fuse_for(list, name) is Some,
{
    assert(crate::path::dot() =~= seq![46u8]);
    assert(crate::path::dot_dot() =~= seq![46u8, 46u8]);
    lemma_fuse_none(list, name);
    if sandbox_has(list, name) {
        let k = choose|k: int|
            0 <= k < list.len() && (#[trigger] list[k]).0@.1.len() > 0 && list[k].0@.1.last() == name;
        assert(file_name_of(list[k].0@) == Some(name));
    }
    if fuse_for(list, name) is Some {
        let k = choose|k: int| 0 <= k < list.len() && file_name_of((#[trigger] list[k]).0@) == Some(name);
        assert(list[k].0@.1.last() == name);
    }
}

proof fn lemma_row_of(state: ReaddirState, name: Seq<u8>) -> (child: ReaddirChildState)
    requires
        has_name(state.children@, name),
    ensures
        maps_to(state.children@, name, child),
{
    let rows = state.children@;
    let i = choose|i: int| 0 <= i < rows.len() && (#[trigger] rows[i]).0 == name;
    assert(rows[i] == (name, rows[i].1));
    rows[i].1
}

/// What the host lists shows in a listing under its own name and kind, whatever the name
/// is, where the sandbox has no entry under the name and the path is not the sandbox's
/// own; where it is, nothing of the host shows.
pub proof fn law_host_entries_show(
    t: InodeModel,
    ino: u64,
    path: PathModel,
    state: ReaddirState,
    items: Seq<RealItem>,
    list: Seq<(FsPath, FuseEntry)>,
    i: int,
    kind: FileKind,
)
    requires
        state.children.wf(),
        merges(state.children@, items, list),
        0 <= i < items.len(),
        forall|k: int| i < k < items.len() ==> (#[trigger] items[k]).name@ != items[i].name@,
        items[i].name@ != seq![46u8],
        items[i].name@ != seq![46u8, 46u8],
        !sandbox_has(list, items[i].name@),
    ensures
        shows(listing_of(t, ino, path, state), items[i].name@, kind) <==> !(state.access_mode is FuseOnly)
            && match items[i].item_type {
            Some(ItemType::Dir) => kind is Directory,
            Some(ItemType::Symlink) => kind is Symlink,
            _ => kind is RegularFile,
        },
{
    let name = items[i].name@;
    lemma_real_for(items, name, i);
    lemma_sandbox_has(list, name);
    assert(has_name(state.children@, name));
    let child = lemma_row_of(state, name);
    assert(real_view(child.real) == real_for(items, name));
    assert(fuse_view(child.fuse) == fuse_for(list, name));
    law_listing_shows_names(t, ino, path, state, name, child, kind);
}

/// What the sandbox has shows in a listing under its own name and kind, whatever the
/// name is and whatever the host has, except that on a path that passes through the host's
/// entry comes first; a whiteout never shows, and hides what the host has under its name.
pub proof fn law_sandbox_entries_show(
    t: InodeModel,
    ino: u64,
    path: PathModel,
    state: ReaddirState,
    items: Seq<RealItem>,
    list: Seq<(FsPath, FuseEntry)>,
    i: int,
    name: Seq<u8>,
    kind: FileKind,
)
    requires
        state.children.wf(),
        merges(state.children@, items, list),
        0 <= i < list.len(),
        list[i].0@.1.len() > 0,
        list[i].0@.1.last() == name,
        forall|k: int|
            i < k < list.len() && (#[trigger] list[k]).0@.1.len() > 0 ==> list[k].0@.1.last() != name,
        name != seq![46u8],
        name != seq![46u8, 46u8],
    ensures
        !(state.access_mode is Passthrough && host_has(items, name)) ==> (shows(
            listing_of(t, ino, path, state),
            name,
            kind,
        ) <==> match list[i].1.entry_type {
            EntryType::File => kind is RegularFile,
            EntryType::Dir => kind is Directory,
            EntryType::Symlink => kind is Symlink,
            EntryType::Whiteout => false,
        }),
        list[i].1.entry_type is Whiteout ==> !shows(listing_of(t, ino, path, state), name, kind),
{
    assert(crate::path::dot() =~= seq![46u8]);
    assert(crate::path::dot_dot() =~= seq![46u8, 46u8]);
    assert forall|k: int| i < k < list.len() implies file_name_of((#[trigger] list[k]).0@) != Some(name) by {
        if list[k].0@.1.len() > 0 {
            assert(list[k].0@.1.last() != name);
        }
    }
    lemma_fuse_for(list, name, i);
    lemma_real_none(items, name);
    assert(has_name(state.children@, name));
    let child = lemma_row_of(state, name);
    assert(real_view(child.real) == real_for(items, name));
    assert(fuse_view(child.fuse) == fuse_for(list, name));
    law_listing_shows_names(t, ino, path, state, name, child, kind);
}

/// A listing shows only what the host listed or the sandbox has.
pub proof fn law_listing_invents_nothing(
    t: InodeModel,
    ino: u64,
    path: PathModel,
    state: ReaddirState,
    items: Seq<RealItem>,
    list: Seq<(FsPath, FuseEntry)>,
    name: Seq<u8>,
    kind: FileKind,
)
    requires
        state.children.wf(),
        merges(state.children@, items, list),
        name != seq![46u8],
        name != seq![46u8, 46u8],
        shows(listing_of(t, ino, path, state), name, kind),
    ensures
        host_has(items, name) || sandbox_has(list, name),
        state.access_mode is FuseOnly ==> sandbox_has(list, name),
{
    let l = listing_of(t, ino, path, state);
    let i = choose|i: int| 2 <= i < l.len() && (#[trigger] l[i]).1 == kind && l[i].2 == name;
    law_listing_shows_nothing_else(t, ino, path, state, i, i);
    let child = choose|child: ReaddirChildState| #[trigger] maps_to(state.children@, l[i].2, child);
    law_listing_shows_names(t, ino, path, state, name, child, kind);
    lemma_sandbox_has(list, name);
    lemma_real_none(items, name);
    assert(real_view(child.real) == real_for(items, name));
    assert(fuse_view(child.fuse) == fuse_for(list, name));
}

/// Listing a directory asks the host and then the daemon for what the directory holds; a
/// host that cannot list it counts as one that has nothing there.  What both listed is
/// merged under the mode of the directory.
pub proof fn law_listing_asks_both(
    path: FsPath,
    mode: AccessMode,
    items: Vec<RealItem>,
    failed: bool,
    e: crate::error::Error,
    list: Vec<(FsPath, FuseEntry)>,
    n0: ReaddirNext,
    n1: ReaddirNext,
    n2: ReaddirNext,
)
    requires
        readdir_begun(path, n0),
        n0 matches ReaddirNext::Do { task, .. } ==> readdir_resumed(
            task,
            mode,
            if failed {
                Outcome::Failed(e)
            } else {
                Outcome::Listing(items)
            },
            n1,
        ),
        n1 matches ReaddirNext::Do { task, .. } ==> readdir_resumed(
            task,
            mode,
            Outcome::Reply(Response::DirEntries(list)),
            n2,
        ),
    ensures
        n0 matches ReaddirNext::Do { op, .. } && op@ == OpModel::ListDir(path@),
        n1 matches ReaddirNext::Do { op, .. } && op@ == OpModel::Daemon(
            RequestModel::ReadDirAll { path: path@ },
        ),
        n2 matches ReaddirNext::Finished(Ok(state)) && state.access_mode == mode && state.children.wf()
            && merges(
            state.children@,
            if failed {
                Seq::empty()
            } else {
                items@
            },
            list@,
        ),
{
}

/// Reading a listing from its start gives all of it, in order, each entry with the
/// position behind it.
pub proof fn law_listing_from_start(s: Listing, i: int)
    ensures
        page_of(s, 0).len() == s.len(),
        0 <= i < s.len() ==> page_of(s, 0)[i] == (i + 1, s[i]),
        page_of(s, s.len() as int).len() == 0,
{
}

} // verus!
