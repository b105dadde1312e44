//! Entries of the sandbox and the messages between the file system and the daemon.

use crate::bytes::copy_bytes;
use crate::path::{FsPath, PathModel};
use vstd::prelude::*;

verus! {

/// What an entry records of a file: size, mode, owner and times in seconds.
#[derive(Debug, Clone, Copy, PartialEq, Eq, Structural)]
pub struct FileMetadata {
    pub size: u64,
    pub mode: u32,
    pub uid: u32,
    pub gid: u32,
    pub mtime: u64,
    pub atime: u64,
    pub ctime: u64,
}

/// What kind of thing an entry stands for; a whiteout hides a host file.
#[derive(Debug, Clone, Copy, PartialEq, Eq, Structural)]
pub enum EntryType {
    File,
    Dir,
    Symlink,
    Whiteout,
}

/// An entry of the sandbox.
#[derive(Debug)]
pub struct FuseEntry {
    pub entry_type: EntryType,
    pub metadata: FileMetadata,
    pub object_id: Option<u64>,
    pub symlink_target: Option<Vec<u8>>,
}

/// What an entry is, its link target as a byte string.
pub struct EntryModel {
    pub entry_type: EntryType,
    pub metadata: FileMetadata,
    pub object_id: Option<u64>,
    pub symlink_target: Option<Seq<u8>>,
}

/// The byte string of an optional byte vector.
pub open spec fn opt_bytes(o: Option<Vec<u8>>) -> Option<Seq<u8>> {
    match o {
        Some(v) => Some(v@),
        None => None,
    }
}

impl View for FuseEntry {
    type V = EntryModel;

    open spec fn view(&self) -> EntryModel {
        EntryModel {
            entry_type: self.entry_type,
            metadata: self.metadata,
            object_id: self.object_id,
            symlink_target: opt_bytes(self.symlink_target),
        }
    }
}

/// What an optional entry is.
pub open spec fn opt_entry(o: Option<FuseEntry>) -> Option<EntryModel> {
    match o {
        Some(e) => Some(e@),
        None => None,
    }
}

/// The metadata of a whiteout.
pub open spec fn zero_metadata() -> FileMetadata {
    FileMetadata { size: 0, mode: 0, uid: 0, gid: 0, mtime: 0, atime: 0, ctime: 0 }
}

/// A file entry whose contents are the object `id`.
pub open spec fn file_entry(id: u64, meta: FileMetadata) -> EntryModel {
    EntryModel {
        entry_type: EntryType::File,
        metadata: meta,
        object_id: Some(id),
        symlink_target: None,
    }
}

/// A directory entry.
pub open spec fn dir_entry(meta: FileMetadata) -> EntryModel {
    EntryModel { entry_type: EntryType::Dir, metadata: meta, object_id: None, symlink_target: None }
}

/// A link entry.
pub open spec fn symlink_entry(target: Seq<u8>, meta: FileMetadata) -> EntryModel {
    EntryModel {
        entry_type: EntryType::Symlink,
        metadata: meta,
        object_id: None,
        symlink_target: Some(target),
    }
}

/// A whiteout entry.
pub open spec fn whiteout_entry() -> EntryModel {
    EntryModel {
        entry_type: EntryType::Whiteout,
        metadata: zero_metadata(),
        object_id: None,
        symlink_target: None,
    }
}

/// A request to the daemon.
#[derive(Debug)]
pub enum Request {
    EnsureFileObject { path: FsPath, meta: FileMetadata },
    EnsureFileObjectFromReal { path: FsPath, meta: FileMetadata },
    GetObjectPath { id: u64 },
    UpsertFileEntry { path: FsPath, object_id: u64, meta: FileMetadata },
    PutFileMeta { path: FsPath, meta: FileMetadata },
    GetFileMeta { path: FsPath },
    GetEntry { path: FsPath },
    DeleteFile { path: FsPath },
    RenameFile { from: FsPath, to: FsPath },
    PutDir { path: FsPath, meta: FileMetadata },
    PutSymlink { path: FsPath, target: Vec<u8>, meta: FileMetadata },
    PutWhiteout { path: FsPath },
    DeleteWhiteout { path: FsPath },
    ReadDirAll { path: FsPath },
    ListWhiteoutUnder { path: FsPath },
    RenameTree { from: FsPath, to: FsPath },
    LogAccess { path: FsPath, operation: String, pid: u32 },
    Flush,
}

/// What a request is, its paths by their components.
pub enum RequestModel {
    EnsureFileObject { path: PathModel, meta: FileMetadata },
    EnsureFileObjectFromReal { path: PathModel, meta: FileMetadata },
    GetObjectPath { id: u64 },
    UpsertFileEntry { path: PathModel, object_id: u64, meta: FileMetadata },
    PutFileMeta { path: PathModel, meta: FileMetadata },
    GetFileMeta { path: PathModel },
    GetEntry { path: PathModel },
    DeleteFile { path: PathModel },
    RenameFile { from: PathModel, to: PathModel },
    PutDir { path: PathModel, meta: FileMetadata },
    PutSymlink { path: PathModel, target: Seq<u8>, meta: FileMetadata },
    PutWhiteout { path: PathModel },
    DeleteWhiteout { path: PathModel },
    ReadDirAll { path: PathModel },
    ListWhiteoutUnder { path: PathModel },
    RenameTree { from: PathModel, to: PathModel },
    LogAccess { path: PathModel, operation: Seq<char>, pid: u32 },
    Flush,
}

impl View for Request {
    type V = RequestModel;

    open spec fn view(&self) -> RequestModel {
        match *self {
            Request::EnsureFileObject { path, meta } => RequestModel::EnsureFileObject {
                path: path@,
                meta,
            },
            Request::EnsureFileObjectFromReal { path, meta } => RequestModel::EnsureFileObjectFromReal {
                path: path@,
                meta,
            },
            Request::GetObjectPath { id } => RequestModel::GetObjectPath { id },
            Request::UpsertFileEntry { path, object_id, meta } => RequestModel::UpsertFileEntry {
                path: path@,
                object_id,
                meta,
            },
            Request::PutFileMeta { path, meta } => RequestModel::PutFileMeta { path: path@, meta },
            Request::GetFileMeta { path } => RequestModel::GetFileMeta { path: path@ },
            Request::GetEntry { path } => RequestModel::GetEntry { path: path@ },
            Request::DeleteFile { path } => RequestModel::DeleteFile { path: path@ },
            Request::RenameFile { from, to } => RequestModel::RenameFile { from: from@, to: to@ },
            Request::PutDir { path, meta } => RequestModel::PutDir { path: path@, meta },
            Request::PutSymlink { path, target, meta } => RequestModel::PutSymlink {
                path: path@,
                target: target@,
                meta,
            },
            Request::PutWhiteout { path } => RequestModel::PutWhiteout { path: path@ },
            Request::DeleteWhiteout { path } => RequestModel::DeleteWhiteout { path: path@ },
            Request::ReadDirAll { path } => RequestModel::ReadDirAll { path: path@ },
            Request::ListWhiteoutUnder { path } => RequestModel::ListWhiteoutUnder { path: path@ },
            Request::RenameTree { from, to } => RequestModel::RenameTree { from: from@, to: to@ },
            Request::LogAccess { path, operation, pid } => RequestModel::LogAccess {
                path: path@,
                operation: operation@,
                pid,
            },
            Request::Flush => RequestModel::Flush,
        }
    }
}

/// The daemon's answer.
#[derive(Debug)]
pub enum Response {
    EnsureFileObject { id: u64, path: FsPath },
    GetObjectPath { path: FsPath },
    UpsertFileEntry,
    PutFileMeta,
    GetFileMeta(Option<FileMetadata>),
    GetEntry(Option<FuseEntry>),
    DeleteFile,
    RenameFile,
    PutDir,
    PutSymlink,
    PutWhiteout,
    DeleteWhiteout,
    DirEntries(Vec<(FsPath, FuseEntry)>),
    WhiteoutPaths(Vec<FsPath>),
    RenameTree,
    LogAccess,
    Flush,
    Done,
    NotFound,
    Error(String),
}

/// The paths and entries of a listing.
pub open spec fn listing_views(v: Seq<(FsPath, FuseEntry)>) -> Seq<(PathModel, EntryModel)> {
    Seq::new(v.len(), |i: int| (v[i].0@, v[i].1@))
}

impl Response {
    /// An error answer with a message.
    pub fn error(msg: &str) -> (r: Response)
        ensures
            r matches Response::Error(text) && text@ == msg@,
    {
        Response::Error(String::from_str(msg))
    }
}

impl FuseEntry {
    /// Whether the entry hides a host file.
    pub fn is_whiteout(&self) -> (r: bool)
        ensures
            r == (self@.entry_type is Whiteout),
    {
        self.entry_type == EntryType::Whiteout
    }

    /// Whether the entry is a file.
    pub fn is_file(&self) -> (r: bool)
        ensures
            r == (self@.entry_type is File),
    {
        self.entry_type == EntryType::File
    }

    /// Whether the entry is a directory.
    pub fn is_dir(&self) -> (r: bool)
        ensures
            r == (self@.entry_type is Dir),
    {
        self.entry_type == EntryType::Dir
    }

    /// Whether the entry is a link.
    pub fn is_symlink(&self) -> (r: bool)
        ensures
            r == (self@.entry_type is Symlink),
    {
        self.entry_type == EntryType::Symlink
    }

    /// A copy of the entry.
    pub fn copy(&self) -> (r: FuseEntry)
        ensures
            r@ == self@,
    {
        let symlink_target = match &self.symlink_target {
            Some(t) => Some(copy_bytes(t.as_slice())),
            None => None,
        };
        FuseEntry {
            entry_type: self.entry_type,
            metadata: self.metadata,
            object_id: self.object_id,
            symlink_target,
        }
    }
}

} // verus!
