//! File attributes as the kernel sees them.

use crate::errno::{PERM_BITS, S_IFDIR, S_IFLNK};
use crate::syncing::proto::FileMetadata;
use vstd::prelude::*;

verus! {

/// What kind of file an attribute or a directory entry stands for.
#[derive(Debug, Clone, Copy, PartialEq, Eq, Structural)]
pub enum FileKind {
    NamedPipe,
    CharDevice,
    BlockDevice,
    Directory,
    RegularFile,
    Symlink,
    Socket,
}

/// Attributes of a file; times are in seconds since the epoch.
#[derive(Debug, Clone, Copy, PartialEq, Eq, Structural)]
pub struct FileAttr {
    pub ino: u64,
    pub size: u64,
    pub blocks: u64,
    pub atime: i64,
    pub mtime: i64,
    pub ctime: i64,
    pub crtime: i64,
    pub kind: FileKind,
    pub perm: u16,
    pub nlink: u32,
    pub uid: u32,
    pub gid: u32,
    pub rdev: u32,
    pub blksize: u32,
    pub flags: u32,
}

/// What the host reports of a file.
#[derive(Debug, Clone, Copy, PartialEq, Eq, Structural)]
pub struct RealStat {
    pub is_dir: bool,
    pub is_symlink: bool,
    pub size: u64,
    pub blocks: u64,
    pub atime: i64,
    pub mtime: i64,
    pub ctime: i64,
    pub mode: u32,
    pub nlink: u64,
    pub uid: u32,
    pub gid: u32,
    pub rdev: u64,
    pub blksize: u64,
}

/// What the system call `stat` fills in.
#[derive(Debug, Clone, Copy, PartialEq, Eq, Structural)]
pub struct RawStat {
    pub st_mode: u32,
    pub st_size: i64,
    pub st_blocks: i64,
    pub st_atime: i64,
    pub st_mtime: i64,
    pub st_ctime: i64,
    pub st_nlink: u64,
    pub st_uid: u32,
    pub st_gid: u32,
    pub st_rdev: u64,
}

/// The block size reported for files of the sandbox.
pub const BLOCK_SIZE: u32 = 4096;

/// The first of the user and group numbers that stand for nobody.
pub const FIRST_NOBODY: u32 = 65534;

/// A signed count of seconds as a time.
pub fn system_time_from_unix_i64(secs: i64) -> (r: i64)
    ensures
        r == secs,
{
    secs
}

/// The time that an unsigned count of seconds becomes: the epoch where the time is
/// out of range.
pub open spec fn time_of_u64(secs: u64) -> i64 {
    if secs <= i64::MAX {
        secs as i64
    } else {
        0
    }
}

/// An unsigned count of seconds as a time.
pub fn system_time_from_unix_u64(secs: u64) -> (r: i64)
    ensures
        r == time_of_u64(secs),
{
    if secs <= i64::MAX as u64 {
        secs as i64
    } else {
        0
    }
}

/// The number shown for a user or group number: zero for nobody.
pub open spec fn shown_id(id: u32) -> u32 {
    if id >= FIRST_NOBODY {
        0
    } else {
        id
    }
}

/// The number shown for a user or group number.
pub fn map_nobody(id: u32) -> (r: u32)
    ensures
        r == shown_id(id),
{
    if id >= FIRST_NOBODY {
        0
    } else {
        id
    }
}

/// What kind of file the host reports, for attributes.
pub open spec fn kind_of_stat(s: RealStat) -> FileKind {
    if s.is_dir {
        FileKind::Directory
    } else if s.is_symlink {
        FileKind::Symlink
    } else {
        FileKind::RegularFile
    }
}

/// The attributes of a host file.
pub open spec fn attr_of_stat(ino: u64, s: RealStat) -> FileAttr {
    FileAttr {
        ino,
        size: s.size,
        blocks: s.blocks,
        atime: s.atime,
        mtime: s.mtime,
        ctime: s.ctime,
        crtime: s.ctime,
        kind: kind_of_stat(s),
        perm: (s.mode & PERM_BITS) as u16,
        nlink: s.nlink as u32,
        uid: shown_id(s.uid),
        gid: shown_id(s.gid),
        rdev: s.rdev as u32,
        blksize: s.blksize as u32,
        flags: 0,
    }
}

/// The attributes of a host file.
pub fn attr_from_meta(ino: u64, s: &RealStat) -> (r: FileAttr)
    ensures
        r == attr_of_stat(ino, *s),
{
    let kind = if s.is_dir {
        FileKind::Directory
    } else if s.is_symlink {
        FileKind::Symlink
    } else {
        FileKind::RegularFile
    };
    FileAttr {
        ino,
        size: s.size,
        blocks: s.blocks,
        atime: system_time_from_unix_i64(s.atime),
        mtime: system_time_from_unix_i64(s.mtime),
        ctime: system_time_from_unix_i64(s.ctime),
        crtime: system_time_from_unix_i64(s.ctime),
        kind,
        perm: (s.mode & PERM_BITS) as u16,
        nlink: s.nlink as u32,
        uid: map_nobody(s.uid),
        gid: map_nobody(s.gid),
        rdev: s.rdev as u32,
        blksize: s.blksize as u32,
        flags: 0,
    }
}

/// The attributes of a file that `stat` reported: a directory where the mode has
/// the directory bit, otherwise a link where it has any bit of a link.
pub open spec fn attr_of_raw(ino: u64, s: RawStat) -> FileAttr {
    FileAttr {
        ino,
        size: s.st_size as u64,
        blocks: s.st_blocks as u64,
        atime: s.st_atime,
        mtime: s.st_mtime,
        ctime: s.st_ctime,
        crtime: s.st_ctime,
        kind: if s.st_mode & S_IFDIR != 0 {
            FileKind::Directory
        } else if s.st_mode & S_IFLNK != 0 {
            FileKind::Symlink
        } else {
            FileKind::RegularFile
        },
        perm: (s.st_mode & PERM_BITS) as u16,
        nlink: s.st_nlink as u32,
        uid: s.st_uid,
        gid: s.st_gid,
        rdev: s.st_rdev as u32,
        blksize: BLOCK_SIZE,
        flags: 0,
    }
}

/// The attributes of a file that `stat` reported.
pub fn attr_from_nix_stat(ino: u64, s: &RawStat) -> (r: FileAttr)
    ensures
        r == attr_of_raw(ino, *s),
{
    let kind = if s.st_mode & S_IFDIR != 0 {
        FileKind::Directory
    } else if s.st_mode & S_IFLNK != 0 {
        FileKind::Symlink
    } else {
        FileKind::RegularFile
    };
    FileAttr {
        ino,
        size: s.st_size as u64,
        blocks: s.st_blocks as u64,
        atime: system_time_from_unix_i64(s.st_atime),
        mtime: system_time_from_unix_i64(s.st_mtime),
        ctime: system_time_from_unix_i64(s.st_ctime),
        crtime: system_time_from_unix_i64(s.st_ctime),
        kind,
        perm: (s.st_mode & PERM_BITS) as u16,
        nlink: s.st_nlink as u32,
        uid: s.st_uid,
        gid: s.st_gid,
        rdev: s.st_rdev as u32,
        blksize: BLOCK_SIZE,
        flags: 0,
    }
}

/// The attributes of a file of the sandbox.
pub open spec fn attr_of_entry(ino: u64, m: FileMetadata, kind: FileKind) -> FileAttr {
    FileAttr {
        ino,
        size: m.size,
        blocks: ((m.size + 511) / 512) as u64,
        atime: time_of_u64(m.atime),
        mtime: time_of_u64(m.mtime),
        ctime: time_of_u64(m.ctime),
        crtime: time_of_u64(m.ctime),
        kind,
        perm: (m.mode & PERM_BITS) as u16,
        nlink: 1,
        uid: m.uid,
        gid: m.gid,
        rdev: 0,
        blksize: BLOCK_SIZE,
        flags: 0,
    }
}

/// The attributes of a file of the sandbox.
pub fn attr_from_daemon(ino: u64, m: &FileMetadata, kind: FileKind) -> (r: FileAttr)
    requires
        m.size + 511 <= u64::MAX,
    ensures
        r == attr_of_entry(ino, *m, kind),
{
    FileAttr {
        ino,
        size: m.size,
        blocks: (m.size + 511) / 512,
        atime: system_time_from_unix_u64(m.atime),
        mtime: system_time_from_unix_u64(m.mtime),
        ctime: system_time_from_unix_u64(m.ctime),
        crtime: system_time_from_unix_u64(m.ctime),
        kind,
        perm: (m.mode & PERM_BITS) as u16,
        nlink: 1,
        uid: m.uid,
        gid: m.gid,
        rdev: 0,
        blksize: BLOCK_SIZE,
        flags: 0,
    }
}

/// The attributes of a file that was just made and cannot be looked at.
pub open spec fn attr_made(ino: u64, kind: FileKind, mode: u32, uid: u32, gid: u32, now: i64) -> FileAttr {
    FileAttr {
        ino,
        size: 0,
        blocks: 0,
        atime: now,
        mtime: now,
        ctime: now,
        crtime: now,
        kind,
        perm: (mode & PERM_BITS) as u16,
        nlink: 1,
        uid,
        gid,
        rdev: 0,
        blksize: BLOCK_SIZE,
        flags: 0,
    }
}

/// The attributes of a file that was just made and cannot be looked at.
pub fn fresh_attr(ino: u64, kind: FileKind, mode: u32, uid: u32, gid: u32, now: i64) -> (r: FileAttr)
    ensures
        r == attr_made(ino, kind, mode, uid, gid, now),
{
    FileAttr {
        ino,
        size: 0,
        blocks: 0,
        atime: now,
        mtime: now,
        ctime: now,
        crtime: now,
        kind,
        perm: (mode & PERM_BITS) as u16,
        nlink: 1,
        uid,
        gid,
        rdev: 0,
        blksize: BLOCK_SIZE,
        flags: 0,
    }
}

} // verus!
