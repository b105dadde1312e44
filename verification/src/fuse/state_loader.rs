//! Gathers what the decisions look at from what the host and the daemon said.

use crate::bytes::copy_bytes;
use crate::error::{ClientError, Error};
use crate::fuse::attr::FileKind;
use crate::fuse::policy::Policy;
use crate::fuse::state::{
    CreateState, FuseChild, MkdirState, OpenState, ReaddirChildState, ReaddirState, ReadlinkState,
    RealChild, RenameState, RmdirState, SetattrState, StatState, UnlinkState,
};
use crate::fuse::decision::{is_whited_out, object_of};
use crate::names::{has_name, maps_to, NameMap};
use crate::path::{file_name_of, FsPath, PathModel};
use crate::syncing::proto::{EntryType, FuseEntry};
use vstd::prelude::*;

verus! {

/// The state for looking up a path, given whether the host has it and what the
/// daemon answered.
pub fn load_stat_state<P: Policy>(
    policy: &P,
    path: &FsPath,
    real_exists: bool,
    fuse_entry: Result<Option<FuseEntry>, ClientError>,
) -> (r: Result<StatState, Error>)
    ensures
        match fuse_entry {
            Ok(e) => r matches Ok(s) && s.access_mode == policy.spec_classify(path@)
                && s.real_exists == real_exists && s.fuse_entry == e,
            Err(e) => r matches Err(err) && err == Error::SyncingClient(e),
        },
{
    let access_mode = policy.classify(path);
    match fuse_entry {
        Ok(fuse_entry) => Ok(StatState { access_mode, real_exists, fuse_entry }),
        Err(e) => Err(Error::SyncingClient(e)),
    }
}

/// What the host says an entry of a directory is.
#[derive(Debug, Clone, Copy, PartialEq, Eq, Structural)]
pub enum ItemType {
    Dir,
    Symlink,
    Other,
}

/// An entry of a host directory; the type is missing where the host did not say.
#[derive(Debug)]
pub struct RealItem {
    pub name: Vec<u8>,
    pub path: FsPath,
    pub item_type: Option<ItemType>,
}

/// The kind that a host entry is listed as.
pub open spec fn item_kind(t: Option<ItemType>) -> FileKind {
    match t {
        Some(ItemType::Dir) => FileKind::Directory,
        Some(ItemType::Symlink) => FileKind::Symlink,
        _ => FileKind::RegularFile,
    }
}

/// The last host entry with a name.
pub open spec fn real_for(items: Seq<RealItem>, name: Seq<u8>) -> Option<(FileKind, PathModel)>
    decreases items.len(),
{
    if items.len() == 0 {
        None
    } else if items.last().name@ == name {
        Some((item_kind(items.last().item_type), items.last().path@))
    } else {
        real_for(items.drop_last(), name)
    }
}

/// The last sandbox entry whose path ends in a name.
pub open spec fn fuse_for(list: Seq<(FsPath, FuseEntry)>, name: Seq<u8>) -> Option<(EntryType, PathModel)>
    decreases list.len(),
{
    if list.len() == 0 {
        None
    } else if file_name_of(list.last().0@) == Some(name) {
        Some((list.last().1.entry_type, list.last().0@))
    } else {
        fuse_for(list.drop_last(), name)
    }
}

/// What the host side of a name is.
pub open spec fn real_view(c: Option<RealChild>) -> Option<(FileKind, PathModel)> {
    match c {
        Some(x) => Some((x.kind, x.path@)),
        None => None,
    }
}

/// What the sandbox side of a name is.
pub open spec fn fuse_view(c: Option<FuseChild>) -> Option<(EntryType, PathModel)> {
    match c {
        Some(x) => Some((x.entry_type, x.path@)),
        None => None,
    }
}

/// Whether names stand for what the host and the daemon listed.
pub open spec fn merges(
    rows: Seq<(Seq<u8>, ReaddirChildState)>,
    items: Seq<RealItem>,
    list: Seq<(FsPath, FuseEntry)>,
) -> bool {
    &&& forall|n: Seq<u8>| #[trigger]
        has_name(rows, n) <==> real_for(items, n) is Some || fuse_for(list, n) is Some
    &&& forall|n: Seq<u8>, c: ReaddirChildState| #[trigger]
        maps_to(rows, n, c) ==> real_view(c.real) == real_for(items, n) && fuse_view(c.fuse)
            == fuse_for(list, n)
}

/// What a name stands for so far; nothing where it is new.
fn take_slot(children: &mut NameMap<ReaddirChildState>, name: &[u8]) -> (r: ReaddirChildState)
    requires
        old(children).wf(),
    ensures
        final(children).wf(),
        !has_name(final(children)@, name@),
        maps_to(old(children)@, name@, r) || (!has_name(old(children)@, name@) && r.real is None
            && r.fuse is None),
        forall|n: Seq<u8>, v: ReaddirChildState|
            n != name@ ==> (#[trigger] maps_to(final(children)@, n, v) <==> maps_to(
                old(children)@,
                n,
                v,
            )),
{
    match children.take(name) {
        Some(slot) => slot,
        None => ReaddirChildState { real: None, fuse: None },
    }
}

proof fn lemma_names_of_rows(rows: Seq<(Seq<u8>, ReaddirChildState)>, n: Seq<u8>)
    ensures
        has_name(rows, n) <==> exists|v: ReaddirChildState| #[trigger] maps_to(rows, n, v),
{
    if has_name(rows, n) {
        let i = choose|i: int| 0 <= i < rows.len() && (#[trigger] rows[i]).0 == n;
        assert(rows[i] == (n, rows[i].1));
        assert(maps_to(rows, n, rows[i].1));
    }
    if exists|v: ReaddirChildState| #[trigger] maps_to(rows, n, v) {
        let v = choose|v: ReaddirChildState| #[trigger] maps_to(rows, n, v);
        let i = choose|i: int| 0 <= i < rows.len() && #[trigger] rows[i] == (n, v);
        assert(rows[i].0 == n);
    }
}

/// Adds a host entry to the names.
fn put_real(children: &mut NameMap<ReaddirChildState>, item: &RealItem, Ghost(items): Ghost<Seq<RealItem>>)
    requires
        old(children).wf(),
        items.len() > 0,
        items.last() == *item,
        merges(old(children)@, items.drop_last(), Seq::empty()),
    ensures
        final(children).wf(),
        merges(final(children)@, items, Seq::empty()),
{
    let ghost pre = children@;
    let ghost none = Seq::<(FsPath, FuseEntry)>::empty();
    let kind = match item.item_type {
        Some(ItemType::Dir) => FileKind::Directory,
        Some(ItemType::Symlink) => FileKind::Symlink,
        _ => FileKind::RegularFile,
    };
    let mut slot = take_slot(children, item.name.as_slice());
    let ghost before = slot;
    slot.real = Some(RealChild { kind, path: item.path.copy() });
    let ghost slot_v = slot;
    children.insert(copy_bytes(item.name.as_slice()), slot);
    proof {
        let post = children@;
        assert forall|n: Seq<u8>, c: ReaddirChildState| #[trigger] maps_to(post, n, c) implies real_view(c.real)
            == real_for(items, n) && fuse_view(c.fuse) == fuse_for(none, n) by {
            if n == item.name@ {
                assert(c == slot_v);
            } else {
                assert(maps_to(pre, n, c));
            }
        }
        assert forall|n: Seq<u8>| #[trigger] has_name(post, n) <==> real_for(items, n) is Some || fuse_for(none, n) is Some by {
            lemma_names_of_rows(post, n);
            lemma_names_of_rows(pre, n);
            if n != item.name@ {
                if has_name(post, n) {
                    let v = choose|v: ReaddirChildState| #[trigger] maps_to(post, n, v);
                    assert(maps_to(pre, n, v));
                }
                if has_name(pre, n) {
                    let v = choose|v: ReaddirChildState| #[trigger] maps_to(pre, n, v);
                    assert(maps_to(post, n, v));
                }
            } else {
                assert(maps_to(post, n, slot_v));
            }
        }
    }
}

/// Adds a sandbox entry to the names, where its path ends in one.
fn put_fuse(
    children: &mut NameMap<ReaddirChildState>,
    path: &FsPath,
    entry: &FuseEntry,
    Ghost(items): Ghost<Seq<RealItem>>,
    Ghost(list): Ghost<Seq<(FsPath, FuseEntry)>>,
)
    requires
        old(children).wf(),
        list.len() > 0,
        list.last() == (*path, *entry),
        merges(old(children)@, items, list.drop_last()),
    ensures
        final(children).wf(),
        merges(final(children)@, items, list),
{
    let ghost pre = children@;
    match path.file_name() {
        None => {
            proof {
                assert forall|n: Seq<u8>| fuse_for(list, n) == #[trigger] fuse_for(list.drop_last(), n) by {}
                assert forall|n: Seq<u8>, c: ReaddirChildState| #[trigger] maps_to(pre, n, c) implies real_view(c.real)
                    == real_for(items, n) && fuse_view(c.fuse) == fuse_for(list, n) by {
                    assert(fuse_for(list, n) == fuse_for(list.drop_last(), n));
                }
                assert forall|n: Seq<u8>| #[trigger] has_name(pre, n) <==> real_for(items, n) is Some || fuse_for(list, n) is Some by {
                    assert(fuse_for(list, n) == fuse_for(list.drop_last(), n));
                }
            }
        },
        Some(name) => {
            let ghost nv = name@;
            let mut slot = take_slot(children, name.as_slice());
            slot.fuse = Some(FuseChild { entry_type: entry.entry_type, path: path.copy() });
            let ghost slot_v = slot;
            children.insert(name, slot);
            proof {
                let post = children@;
                assert forall|n: Seq<u8>, c: ReaddirChildState| #[trigger] maps_to(post, n, c) implies real_view(c.real)
                    == real_for(items, n) && fuse_view(c.fuse) == fuse_for(list, n) by {
                    if n == nv {
                        assert(c == slot_v);
                    } else {
                        assert(maps_to(pre, n, c));
                    }
                }
                assert forall|n: Seq<u8>| #[trigger] has_name(post, n) <==> real_for(items, n) is Some || fuse_for(list, n) is Some by {
                    lemma_names_of_rows(post, n);
                    lemma_names_of_rows(pre, n);
                    if n != nv {
                        if has_name(post, n) {
                            let v = choose|v: ReaddirChildState| #[trigger] maps_to(post, n, v);
                            assert(maps_to(pre, n, v));
                        }
                        if has_name(pre, n) {
                            let v = choose|v: ReaddirChildState| #[trigger] maps_to(pre, n, v);
                            assert(maps_to(post, n, v));
                        }
                    } else {
                        assert(maps_to(post, n, slot_v));
                    }
                }
            }
        },
    }
}

/// The state for listing a directory, given what the host listed, where it could,
/// and what the daemon answered.
pub fn load_readdir_state<P: Policy>(
    policy: &P,
    path: &FsPath,
    host_items: &Vec<RealItem>,
    fuse_entries: Result<Vec<(FsPath, FuseEntry)>, ClientError>,
) -> (r: Result<ReaddirState, Error>)
    ensures
        match fuse_entries {
            Ok(list) => r matches Ok(s) && s.access_mode == policy.spec_classify(path@) && s.children.wf()
                && merges(s.children@, host_items@, list@),
            Err(e) => r matches Err(err) && err == Error::SyncingClient(e),
        },
{
    let access_mode = policy.classify(path);
    let list = match fuse_entries {
        Ok(list) => list,
        Err(e) => {
            return Err(Error::SyncingClient(e));
        },
    };
    let mut children: NameMap<ReaddirChildState> = NameMap::new();
    let ghost none = Seq::<(FsPath, FuseEntry)>::empty();
    let mut i: usize = 0;
    proof {
        assert(host_items@.take(0) =~= Seq::<RealItem>::empty());
        assert(merges(children@, host_items@.take(0), none));
    }
    while i < host_items.len()
        invariant
            i <= host_items.len(),
            none == Seq::<(FsPath, FuseEntry)>::empty(),
            children.wf(),
            merges(children@, host_items@.take(i as int), none),
        decreases host_items.len() - i,
    {
        proof {
            assert(host_items@.take(i + 1).drop_last() =~= host_items@.take(i as int));
        }
        put_real(&mut children, &host_items[i], Ghost(host_items@.take(i + 1)));
        i = i + 1;
    }
    proof {
        assert(host_items@.take(host_items@.len() as int) =~= host_items@);
        assert(list@.take(0) =~= none);
    }
    let mut j: usize = 0;
    while j < list.len()
        invariant
            j <= list.len(),
            children.wf(),
            merges(children@, host_items@, list@.take(j as int)),
        decreases list.len() - j,
    {
        proof {
            assert(list@.take(j + 1).drop_last() =~= list@.take(j as int));
            assert(list@.take(j + 1).last() == list@[j as int]);
        }
        put_fuse(
            &mut children,
            &list[j].0,
            &list[j].1,
            Ghost(host_items@),
            Ghost(list@.take(j + 1)),
        );
        j = j + 1;
    }
    proof {
        assert(list@.take(list@.len() as int) =~= list@);
    }
    Ok(ReaddirState { access_mode, children })
}

/// The object to ask the daemon for before a file is opened.
pub fn object_to_find(fuse_entry: &Option<FuseEntry>) -> (r: Option<u64>)
    ensures
        r == object_of(*fuse_entry),
{
    match fuse_entry {
        Some(e) => e.object_id,
        None => None,
    }
}

/// The state for opening a file, given whether the host has it and what the daemon
/// answered about it and about its object.
pub fn load_open_state<P: Policy>(
    policy: &P,
    path: &FsPath,
    need_write: bool,
    truncate_requested: bool,
    real_exists: bool,
    fuse_entry: Result<Option<FuseEntry>, ClientError>,
    object_path: Option<FsPath>,
) -> (r: Result<OpenState, Error>)
    ensures
        match fuse_entry {
            Ok(e) => r matches Ok(s) && s.access_mode == policy.spec_classify(path@) && s.path@ == path@
                && s.need_write == need_write && s.truncate_requested == truncate_requested
                && s.real_exists == real_exists && s.fuse_entry == e && s.object_path == object_path,
            Err(e) => r matches Err(err) && err == Error::SyncingClient(e),
        },
{
    let access_mode = policy.classify(path);
    match fuse_entry {
        Ok(fuse_entry) => Ok(
            OpenState {
                access_mode,
                path: path.copy(),
                need_write,
                truncate_requested,
                real_exists,
                fuse_entry,
                object_path,
            },
        ),
        Err(e) => Err(Error::SyncingClient(e)),
    }
}

/// The state for creating a file.
pub fn load_create_state<P: Policy>(policy: &P, path: &FsPath) -> (r: CreateState)
    ensures
        r.access_mode == policy.spec_classify(path@),
        r.path@ == path@,
{
    CreateState { access_mode: policy.classify(path), path: path.copy() }
}

/// The state for removing a file.
pub fn load_unlink_state<P: Policy>(policy: &P, path: &FsPath) -> (r: UnlinkState)
    ensures
        r.access_mode == policy.spec_classify(path@),
        r.path@ == path@,
{
    UnlinkState { access_mode: policy.classify(path), path: path.copy() }
}

/// The state for removing a directory.
pub fn load_rmdir_state<P: Policy>(policy: &P, path: &FsPath) -> (r: RmdirState)
    ensures
        r.access_mode == policy.spec_classify(path@),
        r.path@ == path@,
{
    RmdirState { access_mode: policy.classify(path), path: path.copy() }
}

/// The state for changing attributes.
pub fn load_setattr_state<P: Policy>(
    policy: &P,
    path: &FsPath,
    fh_present: bool,
    has_open_handle: bool,
    mode: Option<u32>,
    uid: Option<u32>,
    gid: Option<u32>,
    size: Option<u64>,
) -> (r: SetattrState)
    ensures
        r.access_mode == policy.spec_classify(path@),
        r.path@ == path@,
        r.fh_present == fh_present,
        r.has_open_handle == has_open_handle,
        r.mode == mode,
        r.uid == uid,
        r.gid == gid,
        r.size == size,
{
    SetattrState {
        access_mode: policy.classify(path),
        path: path.copy(),
        fh_present,
        has_open_handle,
        mode,
        uid,
        gid,
        size,
    }
}

/// The state for reading a link, given what the daemon answered.
pub fn load_readlink_state<P: Policy>(
    policy: &P,
    path: &FsPath,
    fuse_entry: Result<Option<FuseEntry>, ClientError>,
) -> (r: Result<ReadlinkState, Error>)
    ensures
        match fuse_entry {
            Ok(e) => r matches Ok(s) && s.access_mode == policy.spec_classify(path@) && s.path@ == path@
                && s.fuse_entry == e,
            Err(e) => r matches Err(err) && err == Error::SyncingClient(e),
        },
{
    match fuse_entry {
        Ok(fuse_entry) => Ok(
            ReadlinkState { access_mode: policy.classify(path), path: path.copy(), fuse_entry },
        ),
        Err(e) => Err(Error::SyncingClient(e)),
    }
}

/// The state for making a directory.
pub fn load_mkdir_state<P: Policy>(policy: &P, path: &FsPath) -> (r: MkdirState)
    ensures
        r.access_mode == policy.spec_classify(path@),
        r.path@ == path@,
{
    MkdirState { access_mode: policy.classify(path), path: path.copy() }
}

/// The state for renaming, given what the daemon answered about both names; an
/// error about the old name comes first.
pub fn load_rename_state<P: Policy>(
    policy: &P,
    from: &FsPath,
    to: &FsPath,
    from_entry: Result<Option<FuseEntry>, ClientError>,
    to_entry: Result<Option<FuseEntry>, ClientError>,
) -> (r: Result<RenameState, Error>)
    ensures
        match (from_entry, to_entry) {
            (Err(e), _) => r matches Err(err) && err == Error::SyncingClient(e),
            (Ok(_), Err(e)) => r matches Err(err) && err == Error::SyncingClient(e),
            (Ok(e), Ok(_)) => r matches Ok(s) && s.access_mode == policy.spec_classify(from@)
                && s.from@ == from@ && s.to@ == to@ && s.from_entry == e,
        },
{
    match from_entry {
        Err(e) => Err(Error::SyncingClient(e)),
        Ok(from_entry) => match to_entry {
            Err(e) => Err(Error::SyncingClient(e)),
            Ok(_) => Ok(
                RenameState {
                    access_mode: policy.classify(from),
                    from: from.copy(),
                    to: to.copy(),
                    from_entry,
                },
            ),
        },
    }
}

/// Whether an entry hides a host file.
pub fn fuse_entry_is_whiteout(entry: &Option<FuseEntry>) -> (r: bool)
    ensures
        r == is_whited_out(*entry),
{
    match entry {
        Some(e) => e.entry_type == EntryType::Whiteout,
        None => false,
    }
}

} // verus!
