//! What the daemon keeps on disk: where it lies, what it starts from, and the
//! lines of the access log.

use crate::path::{child_path, path_views, FsPath, PathModel};
use crate::syncing::object::ObjectStore;
use crate::syncing::proto::{EntryModel, FuseEntry};
use crate::tables::EntryTableModel;
use crate::text::{decimal, decimal_text, to_utf8_lossy, utf8_lossy};
use crate::path::render_path;
use crate::text::hex_text;
use vstd::prelude::*;

verus! {

/// The version of the stored format.
pub const ABI_VERSION: u32 = 2;

/// The number that the first object of a sandbox gets.
pub const FIRST_OBJECT_ID: u64 = 1;

/// What the daemon stores about itself.
#[derive(Debug)]
pub struct SandboxMeta {
    pub shm_name: String,
    pub abi_version: u32,
    pub next_id: u64,
}

/// What stored metadata is.
pub struct MetaModel {
    pub shm_name: Seq<char>,
    pub abi_version: u32,
    pub next_id: u64,
}

impl View for SandboxMeta {
    type V = MetaModel;

    open spec fn view(&self) -> MetaModel {
        MetaModel {
            shm_name: self.shm_name@,
            abi_version: self.abi_version,
            next_id: self.next_id,
        }
    }
}

/// The metadata of a new sandbox.
pub open spec fn fresh_meta(shm_name: Seq<char>) -> MetaModel {
    MetaModel { shm_name, abi_version: ABI_VERSION, next_id: FIRST_OBJECT_ID }
}

/// The stored entries: each path with its entry.
#[derive(Debug)]
pub struct FuseMap {
    pub entries: Vec<(FsPath, FuseEntry)>,
}

/// Whether a listing holds each path of a table once, with its entry.
pub open spec fn lists_table(v: Seq<(PathModel, EntryModel)>, m: EntryTableModel) -> bool {
    &&& forall|i: int, j: int| 0 <= i < j < v.len() ==> (#[trigger] v[i]).0 != (#[trigger] v[j]).0
    &&& forall|i: int|
        0 <= i < v.len() ==> m.contains_key((#[trigger] v[i]).0) && m[v[i].0] == v[i].1
    &&& forall|p: PathModel| #[trigger]
        m.contains_key(p) ==> exists|i: int| 0 <= i < v.len() && (#[trigger] v[i]).0 == p
}

/// Where the daemon's data lies.
pub open spec fn data_dir_of(sandbox_dir: PathModel) -> PathModel {
    child_path(child_path(sandbox_dir, dot_sandbox()), data_name())
}

/// The file name `.sandbox`.
pub open spec fn dot_sandbox() -> Seq<u8> {
    seq![46u8, 115, 97, 110, 100, 98, 111, 120]
}

/// The file name `data`.
pub open spec fn data_name() -> Seq<u8> {
    seq![100u8, 97, 116, 97]
}

/// The file name `objects`.
pub open spec fn objects_name() -> Seq<u8> {
    seq![111u8, 98, 106, 101, 99, 116, 115]
}

/// The file name `metadata.bin`.
pub open spec fn metadata_bin() -> Seq<u8> {
    seq![109u8, 101, 116, 97, 100, 97, 116, 97, 46, 98, 105, 110]
}

/// The file name `data.bin`.
pub open spec fn data_bin() -> Seq<u8> {
    seq![100u8, 97, 116, 97, 46, 98, 105, 110]
}

/// The file name `daemon.sock`.
pub open spec fn daemon_sock() -> Seq<u8> {
    seq![100u8, 97, 101, 109, 111, 110, 46, 115, 111, 99, 107]
}

/// The file name `access.log`.
pub open spec fn access_log() -> Seq<u8> {
    seq![97u8, 99, 99, 101, 115, 115, 46, 108, 111, 103]
}

/// The daemon's directory below the sandbox.
pub fn state_dir(sandbox_dir: &FsPath) -> (r: FsPath)
    ensures
        r@ == child_path(sandbox_dir@, dot_sandbox()),
{
    let name: Vec<u8> = vec![46u8, 115, 97, 110, 100, 98, 111, 120];
    assert(name@ =~= dot_sandbox());
    sandbox_dir.child(name.as_slice())
}

/// Where the daemon's data lies.
pub fn data_dir(sandbox_dir: &FsPath) -> (r: FsPath)
    ensures
        r@ == data_dir_of(sandbox_dir@),
{
    let name: Vec<u8> = vec![100u8, 97, 116, 97];
    assert(name@ =~= data_name());
    state_dir(sandbox_dir).child(name.as_slice())
}

/// Where accesses are logged.
pub fn access_log_path(sandbox_dir: &FsPath) -> (r: FsPath)
    ensures
        r@ == child_path(data_dir_of(sandbox_dir@), access_log()),
{
    let name: Vec<u8> = vec![97u8, 99, 99, 101, 115, 115, 46, 108, 111, 103];
    assert(name@ =~= access_log());
    data_dir(sandbox_dir).child(name.as_slice())
}

/// Where the objects lie.
pub fn objects_dir(sandbox_dir: &FsPath) -> (r: FsPath)
    ensures
        r@ == child_path(data_dir_of(sandbox_dir@), objects_name()),
{
    let name: Vec<u8> = vec![111u8, 98, 106, 101, 99, 116, 115];
    assert(name@ =~= objects_name());
    data_dir(sandbox_dir).child(name.as_slice())
}

/// The file with the metadata.
pub fn meta_path(sandbox_dir: &FsPath) -> (r: FsPath)
    ensures
        r@ == child_path(data_dir_of(sandbox_dir@), metadata_bin()),
{
    let name: Vec<u8> = vec![109u8, 101, 116, 97, 100, 97, 116, 97, 46, 98, 105, 110];
    assert(name@ =~= metadata_bin());
    data_dir(sandbox_dir).child(name.as_slice())
}

/// The file with the entries.
pub fn map_path(sandbox_dir: &FsPath) -> (r: FsPath)
    ensures
        r@ == child_path(data_dir_of(sandbox_dir@), data_bin()),
{
    let name: Vec<u8> = vec![100u8, 97, 116, 97, 46, 98, 105, 110];
    assert(name@ =~= data_bin());
    data_dir(sandbox_dir).child(name.as_slice())
}

/// The socket of the daemon.
pub fn socket_path(sandbox_dir: &FsPath) -> (r: FsPath)
    ensures
        r@ == child_path(child_path(sandbox_dir@, dot_sandbox()), daemon_sock()),
{
    let name: Vec<u8> = vec![100u8, 97, 101, 109, 111, 110, 46, 115, 111, 99, 107];
    assert(name@ =~= daemon_sock());
    state_dir(sandbox_dir).child(name.as_slice())
}

/// Whether the daemon starts from metadata and entries, given what was stored.
pub open spec fn is_loaded(
    meta: Option<SandboxMeta>,
    map: Option<FuseMap>,
    m: MetaModel,
    entries: Seq<(FsPath, FuseEntry)>,
) -> bool {
    &&& match meta {
        Some(stored) => m == stored@,
        None => m == fresh_meta(Seq::empty()),
    }
    &&& match map {
        Some(stored) => entries == stored.entries@,
        None => entries.len() == 0,
    }
}

/// What the daemon starts from: what was stored, or a fresh state for what was not.
pub fn load(meta: Option<SandboxMeta>, map: Option<FuseMap>) -> (r: (SandboxMeta, FuseMap))
    ensures
        is_loaded(meta, map, r.0@, r.1.entries@),
        map matches Some(m) ==> r.1 == m,
{
    let meta = match meta {
        Some(m) => m,
        None => SandboxMeta {
            shm_name: String::new(),
            abi_version: ABI_VERSION,
            next_id: FIRST_OBJECT_ID,
        },
    };
    let map = match map {
        Some(m) => m,
        None => FuseMap { entries: Vec::new() },
    };
    (meta, map)
}

/// What a new sandbox needs on disk: directories, in order, and the first files.
#[derive(Debug)]
pub struct InitPlan {
    pub dirs: Vec<FsPath>,
    pub meta: SandboxMeta,
    pub map: FuseMap,
}

/// The directories of a new sandbox.
pub open spec fn init_dirs(sandbox_dir: PathModel) -> Seq<PathModel> {
    let objects = child_path(data_dir_of(sandbox_dir), objects_name());
    seq![data_dir_of(sandbox_dir), objects] + Seq::new(
        256,
        |i: int| child_path(objects, hex_text(i as u64, 2)),
    )
}

/// Plans a new sandbox whose shared memory is called `shm_name`.
pub fn init_sandbox(sandbox_dir: &FsPath, shm_name: &str) -> (r: InitPlan)
    ensures
        path_views(r.dirs@) == init_dirs(sandbox_dir@),
        r.meta@ == fresh_meta(shm_name@),
        r.map.entries@.len() == 0,
{
    let objects = objects_dir(sandbox_dir);
    let mut dirs: Vec<FsPath> = Vec::new();
    dirs.push(data_dir(sandbox_dir));
    dirs.push(objects.copy());
    let ghost head = path_views(dirs@);
    let mut shards = ObjectStore::shard_dirs(&objects);
    let ghost tail = path_views(shards@);
    dirs.append(&mut shards);
    proof {
        assert(path_views(dirs@) =~= head + tail);
        assert(head =~= seq![data_dir_of(sandbox_dir@), objects@]);
        assert(path_views(dirs@) =~= init_dirs(sandbox_dir@));
    }
    InitPlan {
        dirs,
        meta: SandboxMeta {
            shm_name: String::from_str(shm_name),
            abi_version: ABI_VERSION,
            next_id: FIRST_OBJECT_ID,
        },
        map: FuseMap { entries: Vec::new() },
    }
}

/// The format of the time in the access log.
pub const LOG_TIME_FORMAT: &'static str = "%Y-%m-%d %H:%M:%S%.3f";

/// The text of a time, in seconds and nanoseconds since the epoch, in UTC.
pub uninterp spec fn utc_text(secs: i64, nanos: u32, format: Seq<char>) -> Option<Seq<char>>;

/// `chrono::DateTime::from_timestamp` and `format`: a time that chrono can count
/// as text; what the text is, is named, not described.
#[verifier::external_body]
pub(crate) fn format_utc(secs: i64, nanos: u32, format: &str) -> (r: Option<String>)
    requires
        format@ == LOG_TIME_FORMAT@,
    ensures
        match r {
            Some(s) => utc_text(secs, nanos, format@) == Some(s@),
            None => utc_text(secs, nanos, format@) is None,
        },
{
    chrono::DateTime::from_timestamp(secs, nanos).map(|t| t.format(format).to_string())
}

/// A line of the access log, given the text of the time.
pub open spec fn log_line_of(time: Seq<u8>, pid: u32, operation: Seq<u8>, path: PathModel) -> Seq<u8> {
    seq![91u8] + time + seq![93u8, 32] + decimal_text(pid as nat) + seq![32u8] + operation + seq![32u8]
        + utf8_lossy(render_path(path)) + seq![10u8]
}

/// Writes a line of the access log, given the text of the time.
pub fn log_line(time: &[u8], pid: u32, operation: &[u8], path: &FsPath) -> (r: Vec<u8>)
    ensures
        r@ == log_line_of(time@, pid, operation@, path@),
{
    let mut line: Vec<u8> = Vec::new();
    line.push(91);
    line.extend_from_slice(time);
    line.push(93);
    line.push(32);
    let digits = decimal(pid as u64);
    line.extend_from_slice(digits.as_slice());
    line.push(32);
    line.extend_from_slice(operation);
    line.push(32);
    let shown = to_utf8_lossy(path.to_bytes().as_slice());
    line.extend_from_slice(shown.as_slice());
    line.push(10);
    assert(line@ =~= log_line_of(time@, pid, operation@, path@));
    line
}

/// Writes a line of the access log for an access at a time since the epoch; none
/// where the calendar does not reach that time.
pub fn access_log_line(
    secs: i64,
    nanos: u32,
    pid: u32,
    operation: &str,
    path: &FsPath,
) -> (r: Option<Vec<u8>>)
    ensures
        match utc_text(secs, nanos, LOG_TIME_FORMAT@) {
            Some(time) => r matches Some(line) && line@ == log_line_of(
                vstd::utf8::encode_utf8(time),
                pid,
                vstd::utf8::encode_utf8(operation@),
                path@,
            ),
            None => r is None,
        },
{
    match format_utc(secs, nanos, LOG_TIME_FORMAT) {
        Some(time) => Some(log_line(time.as_str().as_bytes(), pid, operation.as_bytes(), path)),
        None => None,
    }
}

/// A line of the access log: the time in brackets, the process, the operation and the
/// path, with a space between each two, and a line break at the end.
pub proof fn law_log_lines(time: Seq<u8>, pid: u32, operation: Seq<u8>, path: PathModel)
    ensures
        ({
            let line = log_line_of(time, pid, operation, path);
            let digits = decimal_text(pid as nat);
            let shown = utf8_lossy(render_path(path));
            let a = time.len() as int + 3;
            let b = a + digits.len() + 1;
            let c = b + operation.len() + 1;
            &&& line.len() == c + shown.len() + 1
            &&& line[0] == 91
            &&& line.subrange(1, 1 + time.len() as int) == time
            &&& line[a - 2] == 93
            &&& line[a - 1] == 32
            &&& line.subrange(a, a + digits.len()) == digits
            &&& line[b - 1] == 32
            &&& line.subrange(b, b + operation.len()) == operation
            &&& line[c - 1] == 32
            &&& line.subrange(c, c + shown.len()) == shown
            &&& line.last() == 10
        }),
{
    let line = log_line_of(time, pid, operation, path);
    let digits = decimal_text(pid as nat);
    let shown = utf8_lossy(render_path(path));
    let a = time.len() as int + 3;
    let b = a + digits.len() + 1;
    let c = b + operation.len() + 1;
    assert(line.subrange(1, 1 + time.len() as int) =~= time);
    assert(line.subrange(a, a + digits.len()) =~= digits);
    assert(line.subrange(b, b + operation.len()) =~= operation);
    assert(line.subrange(c, c + shown.len()) =~= shown);
}

} // verus!
