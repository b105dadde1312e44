//! What looking paths up finds, and the attributes that are shown of it.

use crate::error::{Error, IoError};
use crate::fuse::attr::{attr_made, attr_of_raw, FileKind, RawStat, RealStat};
use crate::fuse::decision::stat_decision;
use crate::fuse::fs::path_in;
use crate::fuse::inner::{
    entry_found, found_attr, meta_of_stat, handle_after, mode_resumed, mode_started, stat_begun, stat_resumed,
    ModeNext, StatFound, StatNext,
};
use crate::fuse::inode::{ino_for, inodes_new, inodes_ok, inodes_with, InodeModel};
use crate::fuse::ops::{OpModel, Outcome};
use crate::fuse::policy::AccessMode;
use crate::path::PathModel;
use crate::syncing::proto::{EntryType, FileMetadata, FuseEntry, RequestModel, Response};
use vstd::prelude::*;

verus! {

/// Where a path is found: what passes through on the host; what is the sandbox's own in
/// the sandbox; what is copied on write in the sandbox where it has an entry, and on the
/// host where it has none.  A whiteout is not found, and neither is what is nowhere.
pub proof fn law_where_paths_are_found(mode: AccessMode, on_host: bool, entry: Option<FuseEntry>)
    ensures
        ({
            let hidden = entry matches Some(e) && e.entry_type is Whiteout;
            let there = entry is Some && !hidden;
            let d = stat_decision(mode, on_host, entry);
            &&& d is UseReal <==> on_host && (mode is Passthrough || (mode is CopyOnWrite && entry is None))
            &&& d is UseFuse <==> there && !(mode is Passthrough)
            &&& mode is FuseOnly ==> (d is NotFound <==> !there)
            &&& mode is CopyOnWrite ==> (d is NotFound <==> hidden || (entry is None && !on_host))
            &&& mode is Passthrough ==> (d is NotFound <==> !on_host)
        }),
{
}

/// Looking a path up, from the first question to the answer: the host and the daemon are
/// asked whether they have it; a host file is found as the host reports it, an entry of the
/// sandbox by its kind and metadata, and what is nowhere is not found.
pub proof fn law_looking_up(
    path: PathModel,
    mode: AccessMode,
    on_host: bool,
    entry: Option<FuseEntry>,
    s: RealStat,
    n0: StatNext,
    n1: StatNext,
    n2: StatNext,
    n3: StatNext,
)
    requires
        stat_begun(path, n0),
        n0 matches StatNext::Do { task, .. } ==> stat_resumed(task, mode, Outcome::Flag(on_host), n1),
        n1 matches StatNext::Do { task, .. } ==> stat_resumed(
            task,
            mode,
            Outcome::Reply(Response::GetEntry(entry)),
            n2,
        ),
        n2 matches StatNext::Do { op, task } ==> stat_resumed(
            task,
            mode,
            if op@ is Stat {
                Outcome::Stat(s)
            } else {
                Outcome::Reply(Response::GetEntry(entry))
            },
            n3,
        ),
    ensures
        ({
            let hidden = entry matches Some(e) && e.entry_type is Whiteout;
            let there = entry is Some && !hidden;
            let by_host = on_host && (mode is Passthrough || (mode is CopyOnWrite && entry is None));
            let by_sandbox = there && !(mode is Passthrough);
            &&& n0 matches StatNext::Do { op, .. } && op@ == OpModel::LinkExists(path)
            &&& n1 matches StatNext::Do { op, .. } && op@ == OpModel::Daemon(
                RequestModel::GetEntry { path },
            )
            &&& by_host ==> (n2 matches StatNext::Do { op, .. } && op@ == OpModel::Stat(path)) && n3
                == StatNext::Finished(Ok(StatFound::Host(s)))
            &&& by_sandbox ==> (n2 matches StatNext::Do { op, .. } && op@ == OpModel::Daemon(
                RequestModel::GetEntry { path },
            )) && (n3 matches StatNext::Finished(Ok(StatFound::Entry { kind, meta })) && meta
                == entry->0.metadata && (entry->0.entry_type is Dir ==> kind is Directory) && (
            entry->0.entry_type is Symlink ==> kind is Symlink))
            &&& !by_host && !by_sandbox ==> n2 == StatNext::Finished(
                Err(Error::Io(IoError::Os(2))),
            )
        }),
{
}

/// Looking a path up by its mode alone gives the same: a host file as the host reports
/// it, an entry of the sandbox by its kind and metadata; what is copied on write and has
/// no entry, or a whiteout, is then looked for on the host, and nothing else is.
pub proof fn law_looking_up_by_mode(
    path: PathModel,
    mode: AccessMode,
    entry: Option<FuseEntry>,
    s: RealStat,
    n1: ModeNext,
    n2: ModeNext,
    n3: ModeNext,
)
    requires
        mode_started(mode, path, n1),
        n1 matches ModeNext::Do { op, task } ==> mode_resumed(
            task,
            if op@ is Stat {
                Outcome::Stat(s)
            } else {
                Outcome::Reply(Response::GetEntry(entry))
            },
            n2,
        ),
        n2 matches ModeNext::Do { task, .. } ==> mode_resumed(task, Outcome::Stat(s), n3),
    ensures
        ({
            let there = entry matches Some(e) && !(e.entry_type is Whiteout);
            &&& mode is Passthrough ==> (n1 matches ModeNext::Do { op, .. } && op@ == OpModel::Stat(path))
                && n2 == ModeNext::Finished(Ok(StatFound::Host(s)))
            &&& !(mode is Passthrough) ==> (n1 matches ModeNext::Do { op, .. } && op@ == OpModel::Daemon(
                RequestModel::GetEntry { path },
            ))
            &&& !(mode is Passthrough) && there ==> (n2 matches ModeNext::Finished(
                Ok(StatFound::Entry { meta, .. }),
            ) && meta == entry->0.metadata)
            &&& mode is FuseOnly && !there ==> n2 == ModeNext::Finished(
                Err(Error::Io(IoError::Os(2))),
            )
            &&& mode is CopyOnWrite && !there ==> (n2 matches ModeNext::Do { op, .. } && op@
                == OpModel::Stat(path)) && n3 == ModeNext::Finished(Ok(StatFound::Host(s)))
        }),
{
    if !(mode is Passthrough) {
        let outcome = Outcome::Reply(Response::GetEntry(entry));
        assert(crate::fuse::inner::entry_answer(outcome, entry_found(entry)));
    }
}

/// What an entry is found as: its metadata as they are, and its kind; an entry for a file
/// whose mode is that of a link or a directory is found as one.
pub proof fn law_entries_are_found(e: FuseEntry)
    ensures
        e.entry_type is Whiteout <==> entry_found(Some(e)) is Err,
        entry_found(None) == Err::<StatFound, Error>(Error::Io(IoError::Os(2))),
        entry_found(Some(e)) matches Ok(f) ==> (f matches StatFound::Entry { kind, meta } && meta
            == e.metadata && match e.entry_type {
            EntryType::Dir => kind is Directory,
            EntryType::Symlink => kind is Symlink,
            EntryType::File => if e.metadata.mode & 0o170000 == 0o120000 {
                kind is Symlink
            } else if e.metadata.mode & 0o170000 == 0o040000 {
                kind is Directory
            } else {
                kind is RegularFile
            },
            EntryType::Whiteout => false,
        }),
{
}

/// The attributes shown of an entry of the sandbox: its size, owner, permissions and
/// times as stored, and as many blocks of 512 bytes as the size needs.
pub proof fn law_entry_attributes(ino: u64, kind: FileKind, meta: FileMetadata)
    requires
        meta.size + 511 <= u64::MAX,
        meta.mtime <= i64::MAX,
        meta.atime <= i64::MAX,
        meta.ctime <= i64::MAX,
    ensures
        ({
            let a = found_attr(ino, StatFound::Entry { kind, meta });
            &&& a.ino == ino
            &&& a.kind == kind
            &&& a.size == meta.size
            &&& a.size <= 512 * a.blocks < a.size + 512
            &&& a.perm == (meta.mode & 0o7777) as u16
            &&& a.uid == meta.uid
            &&& a.gid == meta.gid
            &&& a.mtime == meta.mtime
            &&& a.atime == meta.atime
            &&& a.ctime == meta.ctime
            &&& a.nlink == 1
        }),
{
}

/// The attributes shown of a host file are the host's, except that the numbers of nobody
/// show as zero.
pub proof fn law_host_attributes(ino: u64, s: RealStat)
    ensures
        ({
            let a = found_attr(ino, StatFound::Host(s));
            &&& a.ino == ino
            &&& s.is_dir ==> a.kind is Directory
            &&& !s.is_dir && s.is_symlink ==> a.kind is Symlink
            &&& !s.is_dir && !s.is_symlink ==> a.kind is RegularFile
            &&& a.size == s.size
            &&& a.blocks == s.blocks
            &&& a.perm == (s.mode & 0o7777) as u16
            &&& s.uid < 65534 ==> a.uid == s.uid
            &&& s.uid >= 65534 ==> a.uid == 0
            &&& s.gid < 65534 ==> a.gid == s.gid
            &&& s.gid >= 65534 ==> a.gid == 0
            &&& a.mtime == s.mtime
            &&& a.atime == s.atime
            &&& a.ctime == s.ctime
            &&& s.nlink <= u32::MAX ==> a.nlink == s.nlink
            &&& s.rdev <= u32::MAX ==> a.rdev == s.rdev
            &&& s.blksize <= u32::MAX ==> a.blksize == s.blksize
        }),
{
}

/// The attributes of an open file are those that the system reports of it.
pub proof fn law_open_file_attributes(ino: u64, s: RawStat)
    requires
        0 <= s.st_size,
        0 <= s.st_blocks,
    ensures
        ({
            let a = attr_of_raw(ino, s);
            &&& a.ino == ino
            &&& a.size == s.st_size
            &&& a.blocks == s.st_blocks
            &&& a.perm == (s.st_mode & 0o7777) as u16
            &&& a.uid == s.st_uid
            &&& a.gid == s.st_gid
            &&& a.mtime == s.st_mtime
            &&& a.atime == s.st_atime
            &&& a.ctime == s.st_ctime
            &&& s.st_nlink <= u32::MAX ==> a.nlink == s.st_nlink
            &&& s.st_mode & 0o040000 != 0 ==> a.kind is Directory
            &&& s.st_mode & 0o040000 == 0 && s.st_mode & 0o120000 == 0 ==> a.kind is RegularFile
        }),
{
}

/// The attributes of a file that was just made: empty, made now, by the caller, with the
/// permissions asked for.
pub proof fn law_made_attributes(ino: u64, kind: FileKind, mode: u32, uid: u32, gid: u32, now: i64)
    ensures
        ({
            let a = attr_made(ino, kind, mode, uid, gid, now);
            &&& a.ino == ino
            &&& a.kind == kind
            &&& a.size == 0
            &&& a.blocks == 0
            &&& a.perm == (mode & 0o7777) as u16
            &&& a.uid == uid
            &&& a.gid == gid
            &&& a.mtime == now
            &&& a.atime == now
            &&& a.ctime == now
            &&& a.nlink == 1
        }),
{
}

/// The metadata that are stored of a host file are the host's; times before the epoch
/// count as the epoch.
pub proof fn law_stored_metadata(s: RealStat)
    ensures
        ({
            let m = meta_of_stat(s);
            &&& m.size == s.size
            &&& m.mode == s.mode
            &&& m.uid == s.uid
            &&& m.gid == s.gid
            &&& s.mtime >= 0 ==> m.mtime == s.mtime
            &&& s.atime >= 0 ==> m.atime == s.atime
            &&& s.ctime >= 0 ==> m.ctime == s.ctime
            &&& s.mtime < 0 ==> m.mtime == 0
            &&& s.atime < 0 ==> m.atime == 0
            &&& s.ctime < 0 ==> m.ctime == 0
        }),
{
}

/// A path gets a number that is its own and keeps it; a new number is larger than every
/// number before it; the root has the number one.
pub proof fn law_numbers_are_kept(t: InodeModel, p: PathModel, q: PathModel, root: PathModel)
    requires
        inodes_ok(t),
        t.next_ino < u64::MAX,
    ensures
        ino_for(inodes_with(t, p), p) == ino_for(t, p),
        t.inos.contains_key(q) ==> ino_for(inodes_with(t, p), q) == ino_for(t, q),
        t.inos.contains_key(q) && q != p ==> ino_for(t, p) != ino_for(t, q),
        !t.inos.contains_key(p) ==> inodes_with(t, p).next_ino == t.next_ino + 1,
        inodes_ok(inodes_new(root)),
        ino_for(inodes_new(root), root) == 1,
{
    if t.inos.contains_key(q) {
        assert(t.paths.contains_key(t.inos[q]));
    }
    if t.inos.contains_key(p) {
        assert(t.paths.contains_key(t.inos[p]));
    }
}

/// A name in a directory leads one level down, two dots lead one level up, and the root
/// is above itself.
pub proof fn law_names_lead(parent: PathModel, name: Seq<u8>)
    requires
        parent.0,
    ensures
        name.len() > 0 && !name.contains(47) && name != seq![46u8] && name != seq![46u8, 46u8] ==> path_in(
            parent,
            name,
        ) == (parent.0, parent.1.push(name)),
        parent.1.len() > 0 ==> path_in(parent, seq![46u8, 46u8]) == (parent.0, parent.1.drop_last()),
        parent.1.len() == 0 ==> path_in(parent, seq![46u8, 46u8]) == parent,
{
    assert(crate::path::dot() =~= seq![46u8]);
    assert(crate::path::dot_dot() =~= seq![46u8, 46u8]);
    if name.len() > 0 && !name.contains(47) && name != seq![46u8] && name != seq![46u8, 46u8] {
        crate::syncing::request_laws::lemma_name_below(parent, name);
    }
}

/// A new handle has a number that none before it had, as long as there are numbers.
pub proof fn law_handles_differ(fh: u64)
    requires
        fh < u64::MAX,
    ensures
        handle_after(fh) == fh + 1,
{
}

} // verus!
