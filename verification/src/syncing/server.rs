//! The daemon: what each request changes and how it is answered.
//!
//! A request is answered at once, or after one piece of work on the disk whose
//! outcome decides the answer.

use crate::path::{
    child_path, copy_key, empty_path, join_path, key_model, path_views, strip_path_prefix, FsPath,
    PathModel,
};
use crate::syncing::closure::{
    empty_tree, shallowest_first, tree_children, tree_descendants, tree_insert, tree_insert_all,
    tree_remove, tree_subtree, PathTree, TreeModel,
};
use crate::syncing::disk::{
    access_log, access_log_path, data_dir_of, lists_table, objects_dir, objects_name, FuseMap,
    MetaModel, SandboxMeta,
};
use crate::syncing::object::{object_path_of, ObjectStore};
use crate::syncing::proto::{
    dir_entry, file_entry, listing_views, opt_entry, symlink_entry, whiteout_entry, EntryModel,
    EntryType, FileMetadata, FuseEntry, Request, Response,
};
use crate::tables::{
    entries_in, entry_table_get, entry_table_insert, entry_table_new, entry_table_pairs,
    entry_table_remove, inos_in, path_ino_table_get, path_ino_table_insert, path_ino_table_new,
    EntryTable, EntryTableModel, PathInoTable,
};
use vstd::prelude::*;

verus! {

/// What the daemon's state is.
#[verifier::ext_equal]
pub struct ServerModel {
    pub entries: EntryTableModel,
    pub tree: TreeModel,
    pub objects_dir: PathModel,
    pub next_id: u64,
    pub sandbox_dir: PathModel,
    pub shm_name: Seq<char>,
    pub abi_version: u32,
    /// The paths whose first access was logged since the daemon started.
    pub logged: Set<PathModel>,
}

/// What a request asks to have done on the disk before it is answered.
#[derive(Debug)]
pub enum Step {
    /// Answer now.
    Reply(Response),
    /// Write a new object that holds nothing, for the file `path`.
    CreateObject { id: u64, object: FsPath, path: FsPath, meta: FileMetadata },
    /// Copy the host file `path` to a new object.
    CopyObject { id: u64, object: FsPath, path: FsPath, meta: FileMetadata },
    /// Look whether the file of an object is there.
    ProbeObject { id: u64, object: FsPath },
    /// Add a line to the file `log`, for the first access to `path`.
    AppendLog { log: FsPath, path: FsPath, operation: String, pid: u32 },
    /// Write the state out.
    WriteSnapshot { stored: SandboxMeta, map: FuseMap },
}

/// The entry of a path.
pub open spec fn entry_at(m: EntryTableModel, p: PathModel) -> Option<EntryModel> {
    if m.contains_key(p) {
        Some(m[p])
    } else {
        None
    }
}

/// The state with an entry under a path that the tree then knows.
pub open spec fn put_entry(s: ServerModel, p: PathModel, e: EntryModel) -> ServerModel {
    ServerModel { entries: s.entries.insert(p, e), tree: tree_insert(s.tree, p), ..s }
}

/// The object of a path that is already a file with contents.
pub open spec fn ready_object(m: EntryTableModel, p: PathModel) -> Option<u64> {
    match entry_at(m, p) {
        Some(e) => if e.entry_type is File && e.object_id is Some && e.symlink_target is None {
            e.object_id
        } else {
            None
        },
        None => None,
    }
}

/// The state once the first access to a path was logged.
pub open spec fn access_marked(s: ServerModel, p: PathModel) -> ServerModel {
    ServerModel { logged: s.logged.insert(p), ..s }
}

/// The number after `id`; after the last comes zero.
pub open spec fn id_after(id: u64) -> u64 {
    if id == u64::MAX {
        0
    } else {
        (id + 1) as u64
    }
}

/// Where a path goes when `from` becomes `to`.
pub open spec fn moved_path(p: PathModel, from: PathModel, to: PathModel) -> PathModel {
    match strip_path_prefix(p, from) {
        Some(rest) => if rest == empty_path() {
            to
        } else {
            join_path(to, rest)
        },
        None => to,
    }
}

/// Where the paths of a list go when `from` becomes `to`.
pub open spec fn moved_paths(s: Seq<PathModel>, from: PathModel, to: PathModel) -> Seq<PathModel> {
    Seq::new(s.len(), |i: int| moved_path(s[i], from, to))
}

/// The tree after `from`, with everything below it, became `to`.
pub open spec fn tree_renamed(t: TreeModel, from: PathModel, to: PathModel) -> TreeModel {
    tree_insert_all(tree_remove(t, from), moved_paths(tree_subtree(t, from), from, to))
}

/// The entries after those of the paths of a list moved, one after the other.
pub open spec fn entries_moved(
    m: EntryTableModel,
    s: Seq<PathModel>,
    from: PathModel,
    to: PathModel,
) -> EntryTableModel
    decreases s.len(),
{
    if s.len() == 0 {
        m
    } else {
        let before = entries_moved(m, s.drop_last(), from, to);
        let p = s.last();
        if before.contains_key(p) {
            before.remove(p).insert(moved_path(p, from, to), before[p])
        } else {
            before
        }
    }
}

/// The paths of a list that have an entry, with their entries.
pub open spec fn with_entries(m: EntryTableModel, s: Seq<PathModel>) -> Seq<(PathModel, EntryModel)>
    decreases s.len(),
{
    if s.len() == 0 {
        Seq::empty()
    } else {
        let before = with_entries(m, s.drop_last());
        if m.contains_key(s.last()) {
            before.push((s.last(), m[s.last()]))
        } else {
            before
        }
    }
}

/// The paths of a list that are whited out.
pub open spec fn whited_out(m: EntryTableModel, s: Seq<PathModel>) -> Seq<PathModel>
    decreases s.len(),
{
    if s.len() == 0 {
        Seq::empty()
    } else {
        let before = whited_out(m, s.drop_last());
        if m.contains_key(s.last()) && m[s.last()].entry_type is Whiteout {
            before.push(s.last())
        } else {
            before
        }
    }
}

/// The stored metadata of a state.
pub open spec fn meta_of(s: ServerModel) -> MetaModel {
    MetaModel { shm_name: s.shm_name, abi_version: s.abi_version, next_id: s.next_id }
}

/// What a list of entries puts into an empty table; a later one for a path wins.
pub open spec fn table_of(v: Seq<(PathModel, EntryModel)>) -> EntryTableModel
    decreases v.len(),
{
    if v.len() == 0 {
        EntryTableModel::empty()
    } else {
        table_of(v.drop_last()).insert(v.last().0, v.last().1)
    }
}

/// The paths of a list of entries.
pub open spec fn listed_paths(v: Seq<(PathModel, EntryModel)>) -> Seq<PathModel> {
    Seq::new(v.len(), |i: int| v[i].0)
}

/// The answer to a request for the contents of a file that are there.
pub open spec fn is_object_reply(r: Response, s: ServerModel, id: u64) -> bool {
    r matches Response::EnsureFileObject { id: rid, path } && rid == id && path@ == object_path_of(
        s.objects_dir,
        id,
    )
}

/// An error answer with a message.
pub open spec fn is_error(r: Response, msg: Seq<char>) -> bool {
    r matches Response::Error(text) && text@ == msg
}

/// What becomes of the state, and the answer, once the file of a new object was written
/// or not.
pub open spec fn object_taken_in(
    pre: ServerModel,
    path: PathModel,
    id: u64,
    meta: FileMetadata,
    outcome: Result<(), String>,
    post: ServerModel,
    r: Response,
) -> bool {
    match outcome {
        Ok(_) => post == put_entry(pre, path, file_entry(id, meta)) && is_object_reply(r, pre, id),
        Err(text) => post == pre && is_error(r, text@),
    }
}

/// The answer once the file of an object was looked for.
pub open spec fn is_probe_reply(s: ServerModel, id: u64, on_disk: bool, r: Response) -> bool {
    if on_disk {
        r matches Response::GetObjectPath { path } && path@ == object_path_of(s.objects_dir, id)
    } else {
        r is NotFound
    }
}

/// The answer once the state was written out or not.
pub open spec fn is_snapshot_reply(outcome: Result<(), String>, r: Response) -> bool {
    match outcome {
        Ok(_) => r is Flush,
        Err(text) => is_error(r, text@),
    }
}

/// What becomes of the state, and the answer, once the first access to a path was logged
/// or not.
pub open spec fn log_taken_in(
    pre: ServerModel,
    path: PathModel,
    outcome: Result<(), String>,
    post: ServerModel,
    r: Response,
) -> bool {
    match outcome {
        Ok(_) => post == access_marked(pre, path) && r is LogAccess,
        Err(text) => post == pre && is_error(r, text@),
    }
}

/// What a request does to the state before it is answered, and the step it takes.
pub open spec fn dispatched(pre: ServerModel, request: Request, post: ServerModel, step: Step) -> bool {
    match request {
        Request::EnsureFileObject { path, meta } => match ready_object(pre.entries, path@) {
            Some(id) => post == put_entry(pre, path@, file_entry(id, meta)) && (step matches Step::Reply(
                r,
            ) && is_object_reply(r, pre, id)),
            None => post == (ServerModel { next_id: id_after(pre.next_id), ..pre }) && (
            step matches Step::CreateObject { id, object, path: p, meta: m } && id == pre.next_id
                && object@ == object_path_of(pre.objects_dir, id) && p@ == path@ && m == meta),
        },
        Request::EnsureFileObjectFromReal { path, meta } => match ready_object(pre.entries, path@) {
            Some(id) => post == put_entry(pre, path@, file_entry(id, meta)) && (step matches Step::Reply(
                r,
            ) && is_object_reply(r, pre, id)),
            None => post == (ServerModel { next_id: id_after(pre.next_id), ..pre }) && (
            step matches Step::CopyObject { id, object, path: p, meta: m } && id == pre.next_id
                && object@ == object_path_of(pre.objects_dir, id) && p@ == path@ && m == meta),
        },
        Request::GetObjectPath { id } => post == pre && (step matches Step::ProbeObject {
            id: oid,
            object,
        } && oid == id && object@ == object_path_of(pre.objects_dir, id)),
        Request::UpsertFileEntry { path, object_id, meta } => post == put_entry(
            pre,
            path@,
            file_entry(object_id, meta),
        ) && step == Step::Reply(Response::UpsertFileEntry),
        Request::PutFileMeta { path, meta } => if pre.entries.contains_key(path@) {
            post == (ServerModel {
                entries: pre.entries.insert(
                    path@,
                    EntryModel { metadata: meta, ..pre.entries[path@] },
                ),
                ..pre
            }) && step == Step::Reply(Response::PutFileMeta)
        } else {
            post == pre && (step matches Step::Reply(r) && is_error(r, "File not found"@))
        },
        Request::GetFileMeta { path } => post == pre && step == Step::Reply(
            Response::GetFileMeta(
                match entry_at(pre.entries, path@) {
                    Some(e) => Some(e.metadata),
                    None => None,
                },
            ),
        ),
        Request::GetEntry { path } => post == pre && (step matches Step::Reply(
            Response::GetEntry(e),
        ) && opt_entry(e) == entry_at(pre.entries, path@)),
        Request::DeleteFile { path } => post == (ServerModel {
            entries: pre.entries.remove(path@),
            tree: tree_remove(pre.tree, path@),
            ..pre
        }) && step == Step::Reply(Response::DeleteFile),
        Request::RenameFile { from, to } => if pre.entries.contains_key(from@) {
            post == (ServerModel {
                entries: pre.entries.remove(from@).insert(to@, pre.entries[from@]),
                tree: tree_renamed(pre.tree, from@, to@),
                ..pre
            }) && step == Step::Reply(Response::RenameFile)
        } else {
            post == pre && (step matches Step::Reply(r) && is_error(r, "Source path not found"@))
        },
        Request::PutDir { path, meta } => post == put_entry(pre, path@, dir_entry(meta)) && step
            == Step::Reply(Response::PutDir),
        Request::PutSymlink { path, target, meta } => post == put_entry(
            pre,
            path@,
            symlink_entry(target@, meta),
        ) && step == Step::Reply(Response::PutSymlink),
        Request::PutWhiteout { path } => post == put_entry(pre, path@, whiteout_entry()) && step
            == Step::Reply(Response::PutWhiteout),
        Request::DeleteWhiteout { path } => step == Step::Reply(Response::DeleteWhiteout) && if pre.entries.contains_key(
            path@,
        ) && pre.entries[path@].entry_type is Whiteout {
            post == (ServerModel { entries: pre.entries.remove(path@), ..pre })
        } else {
            post == pre
        },
        Request::ReadDirAll { path } => post == pre && (step matches Step::Reply(
            Response::DirEntries(v),
        ) && listing_views(v@) == with_entries(pre.entries, tree_children(pre.tree, path@))),
        Request::ListWhiteoutUnder { path } => post == pre && (step matches Step::Reply(
            Response::WhiteoutPaths(v),
        ) && path_views(v@) == whited_out(pre.entries, tree_descendants(pre.tree, path@))),
        Request::RenameTree { from, to } => post == (ServerModel {
            entries: entries_moved(pre.entries, tree_subtree(pre.tree, from@), from@, to@),
            tree: tree_renamed(pre.tree, from@, to@),
            ..pre
        }) && step == Step::Reply(Response::RenameTree),
        Request::LogAccess { path, operation, pid } => post == pre && if pre.logged.contains(path@) {
            step == Step::Reply(Response::LogAccess)
        } else {
            step matches Step::AppendLog { log, path: p, operation: o, pid: n } && log@ == child_path(
                data_dir_of(pre.sandbox_dir),
                access_log(),
            ) && p@ == path@ && o@ == operation@ && n == pid
        },
        Request::Flush => post == pre && (step matches Step::WriteSnapshot { stored, map } && stored@
            == meta_of(pre) && lists_table(listing_views(map.entries@), pre.entries)),
    }
}

/// The daemon's state.
pub struct ServerState {
    objects: ObjectStore,
    fuse_map: EntryTable,
    path_tree: PathTree,
    sandbox_dir: FsPath,
    shm_name: String,
    abi_version: u32,
    logged: PathInoTable,
}

impl View for ServerState {
    type V = ServerModel;

    closed spec fn view(&self) -> ServerModel {
        ServerModel {
            entries: entries_in(self.fuse_map),
            tree: self.path_tree@,
            objects_dir: self.objects.spec_dir(),
            next_id: self.objects.spec_next_id(),
            sandbox_dir: self.sandbox_dir@,
            shm_name: self.shm_name@,
            abi_version: self.abi_version,
            logged: inos_in(self.logged).dom(),
        }
    }
}

/// The state that the daemon starts in.
pub open spec fn started(
    sandbox_dir: PathModel,
    meta: MetaModel,
    entries: Seq<(PathModel, EntryModel)>,
) -> ServerModel {
    ServerModel {
        entries: table_of(entries),
        tree: tree_insert_all(empty_tree(), shallowest_first(listed_paths(entries))),
        objects_dir: child_path(data_dir_of(sandbox_dir), objects_name()),
        next_id: meta.next_id,
        sandbox_dir,
        shm_name: meta.shm_name,
        abi_version: meta.abi_version,
        logged: Set::empty(),
    }
}

/// Builds the daemon's state from what was stored.
pub fn build_server_state(sandbox_dir: &FsPath, meta: SandboxMeta, map: FuseMap) -> (r: ServerState)
    ensures
        r@ == started(sandbox_dir@, meta@, listing_views(map.entries@)),
{
    let ghost listing = listing_views(map.entries@);
    let mut table = entry_table_new();
    let mut paths: Vec<FsPath> = Vec::new();
    let mut i: usize = 0;
    while i < map.entries.len()
        invariant
            i <= map.entries.len(),
            listing == listing_views(map.entries@),
            entries_in(table) == table_of(listing.take(i as int)),
            paths.len() == i,
            forall|k: int| 0 <= k < i ==> (#[trigger] paths@[k])@ == listing[k].0,
        decreases map.entries.len() - i,
    {
        proof {
            assert(listing.take(i + 1).drop_last() =~= listing.take(i as int));
        }
        entry_table_insert(&mut table, map.entries[i].0.to_key(), map.entries[i].1.copy());
        paths.push(map.entries[i].0.copy());
        i = i + 1;
    }
    proof {
        assert(listing.take(listing.len() as int) =~= listing);
        assert(path_views(paths@) =~= listed_paths(listing));
    }
    let path_tree = PathTree::from_paths(&paths);
    let logged = path_ino_table_new();
    assert(inos_in(logged).dom() =~= Set::empty());
    ServerState {
        objects: ObjectStore::new(objects_dir(sandbox_dir), meta.next_id),
        fuse_map: table,
        path_tree,
        sandbox_dir: sandbox_dir.copy(),
        shm_name: meta.shm_name,
        abi_version: meta.abi_version,
        logged,
    }
}

/// Where a path goes when `from` becomes `to`.
fn move_path(p: &FsPath, from: &FsPath, to: &FsPath) -> (r: FsPath)
    ensures
        r@ == moved_path(p@, from@, to@),
{
    match p.strip_prefix(from) {
        Some(rest) => if rest.is_empty() {
            to.copy()
        } else {
            to.join(&rest)
        },
        None => to.copy(),
    }
}

impl ServerState {
    /// The metadata and entries to store.
    pub fn snapshot_state(&self) -> (r: (SandboxMeta, FuseMap))
        ensures
            r.0@ == meta_of(self@),
            lists_table(listing_views(r.1.entries@), self@.entries),
    {
        let mut pairs = entry_table_pairs(&self.fuse_map);
        let ghost all = pairs@;
        let mut entries: Vec<(FsPath, FuseEntry)> = Vec::new();
        let mut i: usize = 0;
        while i < pairs.len()
            invariant
                i <= pairs.len(),
                pairs@ == all,
                entries.len() == i,
                forall|k: int|
                    0 <= k < i ==> (#[trigger] entries@[k]).0@ == key_model(all[k].0) && entries@[k].1@
                        == all[k].1@,
            decreases pairs.len() - i,
        {
            entries.push((FsPath::from_key(copy_key(&pairs[i].0)), pairs[i].1.copy()));
            i = i + 1;
        }
        proof {
            let v = listing_views(entries@);
            let m = self@.entries;
            assert forall|k: int, l: int| 0 <= k < l < v.len() implies (#[trigger] v[k]).0 != (#[trigger] v[l]).0 by {
                assert(v[k].0 == key_model(all[k].0) && v[l].0 == key_model(all[l].0));
            }
            assert forall|k: int| 0 <= k < v.len() implies m.contains_key((#[trigger] v[k]).0) && m[v[k].0]
                == v[k].1 by {
                assert(v[k].0 == key_model(all[k].0));
            }
            assert forall|p: PathModel| #[trigger] m.contains_key(p) implies exists|k: int|
                0 <= k < v.len() && (#[trigger] v[k]).0 == p by {
                let k = choose|k: int| 0 <= k < all.len() && key_model(#[trigger] all[k].0) == p;
                assert(v[k].0 == p);
            }
        }
        let meta = SandboxMeta {
            shm_name: self.shm_name.clone(),
            abi_version: self.abi_version,
            next_id: self.objects.next_id(),
        };
        (meta, FuseMap { entries })
    }

    /// The directory that the sandbox was made in.
    pub fn sandbox_dir(&self) -> (r: &FsPath)
        ensures
            r@ == self@.sandbox_dir,
    {
        &self.sandbox_dir
    }

    /// Puts an entry under a path that the tree then knows.
    fn upsert(&mut self, path: &FsPath, entry: FuseEntry)
        ensures
            final(self)@ == put_entry(old(self)@, path@, entry@),
    {
        entry_table_insert(&mut self.fuse_map, path.to_key(), entry);
        self.upsert_tree(path);
    }

    /// Makes the tree know a path.
    fn upsert_tree(&mut self, path: &FsPath)
        ensures
            final(self)@ == (ServerModel { tree: tree_insert(old(self)@.tree, path@), ..old(self)@ }),
    {
        self.path_tree.insert(path);
    }

    /// Makes the tree forget a path and everything below it.
    fn delete_tree(&mut self, path: &FsPath)
        ensures
            final(self)@ == (ServerModel { tree: tree_remove(old(self)@.tree, path@), ..old(self)@ }),
    {
        let _ = self.path_tree.remove(path);
    }

    /// Moves a path, and everything below it, in the tree.
    fn rename_tree(&mut self, from: &FsPath, to: &FsPath)
        ensures
            final(self)@ == (ServerModel {
                tree: tree_renamed(old(self)@.tree, from@, to@),
                ..old(self)@
            }),
    {
        let ghost pre = self@;
        let subtree = self.path_tree.subtree_paths(from);
        let ghost s = path_views(subtree@);
        let ghost moved = moved_paths(s, from@, to@);
        let _ = self.path_tree.remove(from);
        let ghost start = self@.tree;
        let mut i: usize = 0;
        while i < subtree.len()
            invariant
                i <= subtree.len(),
                s == path_views(subtree@),
                moved == moved_paths(s, from@, to@),
                self@ == (ServerModel {
                    tree: tree_insert_all(start, moved.take(i as int)),
                    ..pre
                }),
            decreases subtree.len() - i,
        {
            proof {
                assert(moved.take(i + 1).drop_last() =~= moved.take(i as int));
                assert(moved.take(i + 1).last() == moved_path(subtree@[i as int]@, from@, to@));
            }
            let new_path = move_path(&subtree[i], from, to);
            self.path_tree.insert(&new_path);
            i = i + 1;
        }
        proof {
            assert(moved.take(moved.len() as int) =~= moved);
        }
    }

    /// The object of a path that is already a file with contents.
    fn ready_id(&self, path: &FsPath) -> (r: Option<u64>)
        ensures
            r == ready_object(self@.entries, path@),
    {
        match entry_table_get(&self.fuse_map, &path.to_key()) {
            Some(entry) => {
                if entry.entry_type == EntryType::File && entry.symlink_target.is_none() {
                    entry.object_id
                } else {
                    None
                }
            },
            None => None,
        }
    }

    /// Answers for a file whose contents are the object `id`.
    fn attach_object(&mut self, path: &FsPath, id: u64, meta: FileMetadata) -> (r: Response)
        ensures
            final(self)@ == put_entry(old(self)@, path@, file_entry(id, meta)),
            is_object_reply(r, old(self)@, id),
    {
        let object = self.objects.path_for(id);
        let entry = FuseEntry {
            entry_type: EntryType::File,
            metadata: meta,
            object_id: Some(id),
            symlink_target: None,
        };
        self.upsert(path, entry);
        Response::EnsureFileObject { id, path: object }
    }

    /// Answers after the file of a new object was written or not.
    pub fn object_written(
        &mut self,
        path: &FsPath,
        id: u64,
        meta: FileMetadata,
        outcome: Result<(), String>,
    ) -> (r: Response)
        ensures
            object_taken_in(old(self)@, path@, id, meta, outcome, final(self)@, r),
    {
        match outcome {
            Ok(_) => self.attach_object(path, id, meta),
            Err(text) => Response::Error(text),
        }
    }

    /// Answers after the file of an object was looked for.
    pub fn object_probed(&self, id: u64, on_disk: bool) -> (r: Response)
        ensures
            is_probe_reply(self@, id, on_disk, r),
    {
        match self.objects.find(id, on_disk) {
            Ok(path) => Response::GetObjectPath { path },
            Err(_) => Response::NotFound,
        }
    }

    /// Answers after the state was written out or not.
    pub fn snapshot_written(outcome: Result<(), String>) -> (r: Response)
        ensures
            is_snapshot_reply(outcome, r),
    {
        match outcome {
            Ok(_) => Response::Flush,
            Err(text) => Response::Error(text),
        }
    }

    /// Answers after the first access to a path was logged or not.
    pub fn access_logged(&mut self, path: &FsPath, pid: u32, outcome: Result<(), String>) -> (r: Response)
        ensures
            log_taken_in(old(self)@, path@, outcome, final(self)@, r),
    {
        match outcome {
            Ok(_) => {
                path_ino_table_insert(&mut self.logged, path.to_key(), pid as u64);
                proof {
                    assert(self@.logged =~= old(self)@.logged.insert(path@));
                }
                Response::LogAccess
            },
            Err(text) => Response::Error(text),
        }
    }

    /// The entries of the paths of a list that have one.
    fn list_entries(&self, paths: &Vec<FsPath>) -> (r: Vec<(FsPath, FuseEntry)>)
        ensures
            listing_views(r@) == with_entries(self@.entries, path_views(paths@)),
    {
        let ghost s = path_views(paths@);
        let mut found: Vec<(FsPath, FuseEntry)> = Vec::new();
        let mut i: usize = 0;
        while i < paths.len()
            invariant
                i <= paths.len(),
                s == path_views(paths@),
                listing_views(found@) =~= with_entries(self@.entries, s.take(i as int)),
            decreases paths.len() - i,
        {
            let ghost before = listing_views(found@);
            proof {
                assert(s.take(i + 1).drop_last() =~= s.take(i as int));
                assert(s.take(i + 1).last() == paths@[i as int]@);
            }
            match entry_table_get(&self.fuse_map, &paths[i].to_key()) {
                Some(entry) => {
                    found.push((paths[i].copy(), entry));
                    proof {
                        assert(listing_views(found@) =~= before.push(
                            (paths@[i as int]@, self@.entries[paths@[i as int]@]),
                        ));
                    }
                },
                None => {},
            }
            i = i + 1;
        }
        proof {
            assert(s.take(s.len() as int) =~= s);
        }
        found
    }

    /// The paths of a list that are whited out.
    fn list_whiteouts(&self, paths: &Vec<FsPath>) -> (r: Vec<FsPath>)
        ensures
            path_views(r@) == whited_out(self@.entries, path_views(paths@)),
    {
        let ghost s = path_views(paths@);
        let mut found: Vec<FsPath> = Vec::new();
        let mut i: usize = 0;
        while i < paths.len()
            invariant
                i <= paths.len(),
                s == path_views(paths@),
                path_views(found@) =~= whited_out(self@.entries, s.take(i as int)),
            decreases paths.len() - i,
        {
            let ghost before = path_views(found@);
            proof {
                assert(s.take(i + 1).drop_last() =~= s.take(i as int));
                assert(s.take(i + 1).last() == paths@[i as int]@);
            }
            match entry_table_get(&self.fuse_map, &paths[i].to_key()) {
                Some(entry) => {
                    if entry.is_whiteout() {
                        found.push(paths[i].copy());
                        proof {
                            assert(path_views(found@) =~= before.push(paths@[i as int]@));
                        }
                    }
                },
                None => {},
            }
            i = i + 1;
        }
        proof {
            assert(s.take(s.len() as int) =~= s);
        }
        found
    }

    /// Moves the entries of the paths of a list.
    fn move_entries(&mut self, paths: &Vec<FsPath>, from: &FsPath, to: &FsPath)
        ensures
            final(self)@ == (ServerModel {
                entries: entries_moved(old(self)@.entries, path_views(paths@), from@, to@),
                ..old(self)@
            }),
    {
        let ghost pre = self@;
        let ghost s = path_views(paths@);
        let mut i: usize = 0;
        while i < paths.len()
            invariant
                i <= paths.len(),
                s == path_views(paths@),
                self@ == (ServerModel {
                    entries: entries_moved(pre.entries, s.take(i as int), from@, to@),
                    ..pre
                }),
            decreases paths.len() - i,
        {
            proof {
                assert(s.take(i + 1).drop_last() =~= s.take(i as int));
                assert(s.take(i + 1).last() == paths@[i as int]@);
            }
            let ghost before = self@.entries;
            match entry_table_remove(&mut self.fuse_map, &paths[i].to_key()) {
                Some(entry) => {
                    let new_path = move_path(&paths[i], from, to);
                    entry_table_insert(&mut self.fuse_map, new_path.to_key(), entry);
                },
                None => {
                    assert(self@.entries =~= before);
                },
            }
            i = i + 1;
        }
        proof {
            assert(s.take(s.len() as int) =~= s);
        }
    }

    /// Takes a request: changes the state, and answers or names the work to do first.
    pub fn dispatch(&mut self, request: Request) -> (step: Step)
        ensures
            dispatched(old(self)@, request, final(self)@, step),
    {
        match request {
            Request::EnsureFileObject { path, meta } => match self.ready_id(&path) {
                Some(id) => Step::Reply(self.attach_object(&path, id, meta)),
                None => {
                    let write = self.objects.alloc_empty();
                    Step::CreateObject { id: write.id, object: write.path, path, meta }
                },
            },
            Request::EnsureFileObjectFromReal { path, meta } => match self.ready_id(&path) {
                Some(id) => Step::Reply(self.attach_object(&path, id, meta)),
                None => {
                    let id: u64 = self.objects.reserve();
                    let object = self.objects.path_for(id);
                    Step::CopyObject { id, object, path, meta }
                },
            },
            Request::GetObjectPath { id } => {
                let object = self.objects.path_for(id);
                Step::ProbeObject { id, object }
            },
            Request::UpsertFileEntry { path, object_id, meta } => {
                let entry = FuseEntry {
                    entry_type: EntryType::File,
                    metadata: meta,
                    object_id: Some(object_id),
                    symlink_target: None,
                };
                self.upsert(&path, entry);
                Step::Reply(Response::UpsertFileEntry)
            },
            Request::PutFileMeta { path, meta } => {
                let ghost pre = self@;
                match entry_table_remove(&mut self.fuse_map, &path.to_key()) {
                    Some(entry) => {
                        let changed = FuseEntry {
                            entry_type: entry.entry_type,
                            metadata: meta,
                            object_id: entry.object_id,
                            symlink_target: entry.symlink_target,
                        };
                        entry_table_insert(&mut self.fuse_map, path.to_key(), changed);
                        proof {
                            assert(self@.entries =~= pre.entries.insert(
                                path@,
                                EntryModel { metadata: meta, ..pre.entries[path@] },
                            ));
                        }
                        Step::Reply(Response::PutFileMeta)
                    },
                    None => {
                        proof {
                            assert(self@.entries =~= pre.entries);
                        }
                        Step::Reply(Response::error("File not found"))
                    },
                }
            },
            Request::GetFileMeta { path } => {
                let meta = match entry_table_get(&self.fuse_map, &path.to_key()) {
                    Some(entry) => Some(entry.metadata),
                    None => None,
                };
                Step::Reply(Response::GetFileMeta(meta))
            },
            Request::GetEntry { path } => Step::Reply(
                Response::GetEntry(entry_table_get(&self.fuse_map, &path.to_key())),
            ),
            Request::DeleteFile { path } => {
                let _ = entry_table_remove(&mut self.fuse_map, &path.to_key());
                self.delete_tree(&path);
                Step::Reply(Response::DeleteFile)
            },
            Request::RenameFile { from, to } => {
                let ghost pre = self@;
                match entry_table_remove(&mut self.fuse_map, &from.to_key()) {
                    Some(entry) => {
                        entry_table_insert(&mut self.fuse_map, to.to_key(), entry);
                        self.rename_tree(&from, &to);
                        Step::Reply(Response::RenameFile)
                    },
                    None => {
                        proof {
                            assert(self@.entries =~= pre.entries);
                        }
                        Step::Reply(Response::error("Source path not found"))
                    },
                }
            },
            Request::PutDir { path, meta } => {
                let entry = FuseEntry {
                    entry_type: EntryType::Dir,
                    metadata: meta,
                    object_id: None,
                    symlink_target: None,
                };
                self.upsert(&path, entry);
                Step::Reply(Response::PutDir)
            },
            Request::PutSymlink { path, target, meta } => {
                let entry = FuseEntry {
                    entry_type: EntryType::Symlink,
                    metadata: meta,
                    object_id: None,
                    symlink_target: Some(target),
                };
                self.upsert(&path, entry);
                Step::Reply(Response::PutSymlink)
            },
            Request::PutWhiteout { path } => {
                let entry = FuseEntry {
                    entry_type: EntryType::Whiteout,
                    metadata: FileMetadata {
                        size: 0,
                        mode: 0,
                        uid: 0,
                        gid: 0,
                        mtime: 0,
                        atime: 0,
                        ctime: 0,
                    },
                    object_id: None,
                    symlink_target: None,
                };
                self.upsert(&path, entry);
                Step::Reply(Response::PutWhiteout)
            },
            Request::DeleteWhiteout { path } => {
                match entry_table_get(&self.fuse_map, &path.to_key()) {
                    Some(entry) => {
                        if entry.is_whiteout() {
                            let _ = entry_table_remove(&mut self.fuse_map, &path.to_key());
                        }
                    },
                    None => {},
                }
                Step::Reply(Response::DeleteWhiteout)
            },
            Request::ReadDirAll { path } => {
                let children = self.path_tree.children_of(&path);
                Step::Reply(Response::DirEntries(self.list_entries(&children)))
            },
            Request::ListWhiteoutUnder { path } => {
                let below = self.path_tree.descendants_of(&path);
                Step::Reply(Response::WhiteoutPaths(self.list_whiteouts(&below)))
            },
            Request::RenameTree { from, to } => {
                let subtree = self.path_tree.subtree_paths(&from);
                self.move_entries(&subtree, &from, &to);
                self.rename_tree(&from, &to);
                Step::Reply(Response::RenameTree)
            },
            Request::LogAccess { path, operation, pid } => {
                match path_ino_table_get(&self.logged, &path.to_key()) {
                    Some(_) => Step::Reply(Response::LogAccess),
                    None => {
                        let log = access_log_path(&self.sandbox_dir);
                        Step::AppendLog { log, path, operation, pid }
                    },
                }
            },
            Request::Flush => {
                let (stored, map) = self.snapshot_state();
                Step::WriteSnapshot { stored, map }
            },
        }
    }
}

} // verus!
