use cas::error::ClientError;
use cas::path::FsPath;
use cas::syncing::client::{
    delete_file, ensure_file_object, flush, frame_header, frame_length, get_entry, get_file_meta,
    get_object_path, list_whiteout_under, log_access, put_file_meta, read_dir_all, rename_file,
};
use cas::syncing::disk::{
    access_log_line, init_sandbox, load, log_line, map_path, meta_path, socket_path, FuseMap,
    SandboxMeta,
};
use cas::syncing::proto::{EntryType, FileMetadata, FuseEntry, Request, Response};
use cas::syncing::server::{build_server_state, ServerState, Step};

fn path(s: &str) -> FsPath {
    FsPath::parse(s.as_bytes())
}

fn shown(p: &FsPath) -> String {
    String::from_utf8(p.to_bytes()).expect("utf-8 path")
}

fn meta(size: u64) -> FileMetadata {
    FileMetadata { size, mode: 0o100644, uid: 1, gid: 2, mtime: 3, atime: 4, ctime: 5 }
}

fn start() -> ServerState {
    let (m, map) = load(None, None);
    build_server_state(&path("/p"), m, map)
}

fn reply(state: &mut ServerState, request: Request) -> Response {
    match state.dispatch(request) {
        Step::Reply(r) => r,
        other => panic!("no reply but {other:?}"),
    }
}

fn put_file(state: &mut ServerState, p: &str, id: u64) {
    let r = reply(
        state,
        Request::UpsertFileEntry { path: path(p), object_id: id, meta: meta(10) },
    );
    assert!(matches!(r, Response::UpsertFileEntry));
}

fn entry(state: &mut ServerState, p: &str) -> Option<FuseEntry> {
    get_entry(reply(state, Request::GetEntry { path: path(p) })).expect("entry")
}

fn names(state: &mut ServerState, p: &str) -> Vec<String> {
    let mut v: Vec<String> = read_dir_all(reply(state, Request::ReadDirAll { path: path(p) }))
        .expect("listing")
        .iter()
        .map(|(q, _)| shown(q))
        .collect();
    v.sort();
    v
}

#[test]
fn what_is_put_is_got() {
    let mut s = start();
    put_file(&mut s, "/a/b", 7);
    let e = entry(&mut s, "/a/b").expect("there");
    assert_eq!(e.entry_type, EntryType::File);
    assert_eq!(e.object_id, Some(7));
    assert_eq!(e.metadata, meta(10));
    assert!(entry(&mut s, "/a").is_none());
    reply(&mut s, Request::PutSymlink { path: path("/l"), target: b"/t".to_vec(), meta: meta(2) });
    assert_eq!(entry(&mut s, "/l").expect("link").symlink_target, Some(b"/t".to_vec()));
    reply(&mut s, Request::PutDir { path: path("/d"), meta: meta(0) });
    assert!(entry(&mut s, "/d").expect("dir").is_dir());
}

#[test]
fn a_file_without_object_gets_a_new_one() {
    let mut s = start();
    let step = s.dispatch(Request::EnsureFileObject { path: path("/f"), meta: meta(1) });
    let (id, object) = match step {
        Step::CreateObject { id, object, path: p, meta: m } => {
            assert_eq!(shown(&p), "/f");
            assert_eq!(m, meta(1));
            (id, object)
        }
        other => panic!("unexpected {other:?}"),
    };
    assert_eq!(id, 1);
    assert_eq!(shown(&object), "/p/.sandbox/data/objects/01/0000000000000001");
    let r = s.object_written(&path("/f"), id, meta(1), Ok(()));
    let (rid, rpath) = ensure_file_object(r).expect("object");
    assert_eq!((rid, shown(&rpath)), (1, shown(&object)));

    let again = reply(&mut s, Request::EnsureFileObject { path: path("/f"), meta: meta(9) });
    assert_eq!(ensure_file_object(again).expect("object").0, 1);
    assert_eq!(entry(&mut s, "/f").expect("file").metadata, meta(9));
}

#[test]
fn a_copy_of_a_host_file_gets_a_new_object() {
    let mut s = start();
    let step = s.dispatch(Request::EnsureFileObjectFromReal { path: path("/f"), meta: meta(1) });
    assert!(matches!(step, Step::CopyObject { id: 1, .. }));
    let r = s.object_written(&path("/f"), 1, meta(1), Err("disk full".to_string()));
    assert!(matches!(r, Response::Error(text) if text == "disk full"));
    assert!(entry(&mut s, "/f").is_none());
}

#[test]
fn objects_are_probed_on_disk() {
    let mut s = start();
    assert!(matches!(
        s.dispatch(Request::GetObjectPath { id: 5 }),
        Step::ProbeObject { id: 5, .. }
    ));
    let found = get_object_path(s.object_probed(5, true)).expect("there");
    assert_eq!(shown(&found), "/p/.sandbox/data/objects/05/0000000000000005");
    assert!(matches!(s.object_probed(5, false), Response::NotFound));
}

#[test]
fn metadata_is_changed_only_where_there_is_an_entry() {
    let mut s = start();
    put_file(&mut s, "/f", 3);
    put_file_meta(reply(&mut s, Request::PutFileMeta { path: path("/f"), meta: meta(99) }))
        .expect("stored");
    assert_eq!(
        get_file_meta(reply(&mut s, Request::GetFileMeta { path: path("/f") })).expect("meta"),
        Some(meta(99))
    );
    let refused =
        put_file_meta(reply(&mut s, Request::PutFileMeta { path: path("/g"), meta: meta(1) }));
    assert!(matches!(refused, Err(ClientError::Server(text)) if text == "File not found"));
    assert_eq!(
        get_file_meta(reply(&mut s, Request::GetFileMeta { path: path("/g") })).expect("meta"),
        None
    );
}

#[test]
fn listings_show_direct_children() {
    let mut s = start();
    put_file(&mut s, "/a/b", 1);
    put_file(&mut s, "/a/c/d", 2);
    put_file(&mut s, "/e", 3);
    assert_eq!(names(&mut s, "/a"), vec!["/a/b"]);
    assert_eq!(names(&mut s, "/"), vec!["/e"]);
    reply(&mut s, Request::PutDir { path: path("/a"), meta: meta(0) });
    assert_eq!(names(&mut s, "/"), vec!["/a", "/e"]);
}

#[test]
fn deleted_files_are_gone() {
    let mut s = start();
    put_file(&mut s, "/a/b", 1);
    delete_file(reply(&mut s, Request::DeleteFile { path: path("/a/b") })).expect("deleted");
    assert!(entry(&mut s, "/a/b").is_none());
    assert!(names(&mut s, "/a").is_empty());
}

#[test]
fn whiteouts_come_and_go() {
    let mut s = start();
    reply(&mut s, Request::PutWhiteout { path: path("/a/x") });
    put_file(&mut s, "/a/y", 1);
    assert!(entry(&mut s, "/a/x").expect("whiteout").is_whiteout());
    let under =
        list_whiteout_under(reply(&mut s, Request::ListWhiteoutUnder { path: path("/a") }))
            .expect("list");
    assert_eq!(under.iter().map(shown).collect::<Vec<_>>(), vec!["/a/x"]);
    reply(&mut s, Request::DeleteWhiteout { path: path("/a/x") });
    reply(&mut s, Request::DeleteWhiteout { path: path("/a/y") });
    assert!(entry(&mut s, "/a/x").is_none());
    assert!(entry(&mut s, "/a/y").is_some());
}

#[test]
fn a_file_is_renamed() {
    let mut s = start();
    put_file(&mut s, "/a/b", 4);
    rename_file(reply(&mut s, Request::RenameFile { from: path("/a/b"), to: path("/c") }))
        .expect("renamed");
    assert!(entry(&mut s, "/a/b").is_none());
    assert_eq!(entry(&mut s, "/c").expect("moved").object_id, Some(4));
    assert_eq!(names(&mut s, "/"), vec!["/c"]);
    let refused =
        rename_file(reply(&mut s, Request::RenameFile { from: path("/x"), to: path("/y") }));
    assert!(matches!(refused, Err(ClientError::Server(text)) if text == "Source path not found"));
}

#[test]
fn a_tree_is_renamed_with_all_below() {
    let mut s = start();
    reply(&mut s, Request::PutDir { path: path("/a"), meta: meta(0) });
    put_file(&mut s, "/a/b", 4);
    put_file(&mut s, "/a/c/d", 5);
    reply(&mut s, Request::RenameTree { from: path("/a"), to: path("/z") });
    assert!(entry(&mut s, "/a").is_none());
    assert!(entry(&mut s, "/a/b").is_none());
    assert!(entry(&mut s, "/z").expect("dir").is_dir());
    assert_eq!(entry(&mut s, "/z/b").expect("file").object_id, Some(4));
    assert_eq!(entry(&mut s, "/z/c/d").expect("file").object_id, Some(5));
    assert_eq!(names(&mut s, "/z"), vec!["/z/b"]);
}

#[test]
fn a_restart_keeps_what_was_stored() {
    let mut s = start();
    put_file(&mut s, "/a/b", 4);
    s.dispatch(Request::EnsureFileObject { path: path("/f"), meta: meta(1) });
    let (stored, map) = match s.dispatch(Request::Flush) {
        Step::WriteSnapshot { stored, map } => (stored, map),
        other => panic!("unexpected {other:?}"),
    };
    assert_eq!(stored.next_id, 2);
    flush(ServerState::snapshot_written(Ok(()))).expect("flushed");
    assert!(flush(ServerState::snapshot_written(Err("full".to_string()))).is_err());
    let mut t = build_server_state(&path("/p"), stored, map);
    assert_eq!(entry(&mut t, "/a/b").expect("kept").object_id, Some(4));
    assert_eq!(names(&mut t, "/a"), vec!["/a/b"]);
    assert!(matches!(
        t.dispatch(Request::EnsureFileObject { path: path("/g"), meta: meta(1) }),
        Step::CreateObject { id: 2, .. }
    ));
}

#[test]
fn the_first_access_to_a_path_is_logged() {
    let ask = |p: &str| Request::LogAccess {
        path: path(p),
        operation: "open".to_string(),
        pid: 1,
    };
    let mut s = start();
    match s.dispatch(ask("/x")) {
        Step::AppendLog { log, path: p, operation, pid } => {
            assert_eq!(log.to_bytes(), b"/p/.sandbox/data/access.log");
            assert_eq!(p.to_bytes(), b"/x");
            assert_eq!((operation.as_str(), pid), ("open", 1));
        }
        other => panic!("unexpected step: {other:?}"),
    }
    let refused = log_access(s.access_logged(&path("/x"), 1, Err("full".to_string())));
    assert!(matches!(refused, Err(ClientError::Server(text)) if text == "full"));
    assert!(matches!(s.dispatch(ask("/x")), Step::AppendLog { .. }));

    log_access(s.access_logged(&path("/x"), 1, Ok(()))).expect("logged");
    log_access(reply(&mut s, ask("/x"))).expect("logged before");
    assert!(matches!(s.dispatch(ask("/y")), Step::AppendLog { .. }));
}

#[test]
fn an_answer_to_something_else_is_unexpected() {
    let refused = get_entry(Response::PutDir);
    assert!(matches!(refused, Err(ClientError::Server(text)) if text == "Unexpected response"));
}

#[test]
fn frames_say_how_long_they_are() {
    assert_eq!(frame_header(&[0u8; 300]), vec![44, 1, 0, 0]);
    assert_eq!(frame_length(&[44, 1, 0, 0]), 300);
    assert_eq!(frame_length(&frame_header(b"abc")), 3);
}

#[test]
fn a_fresh_state_counts_from_one() {
    let (m, map) = load(None, None);
    assert_eq!((m.shm_name.as_str(), m.abi_version, m.next_id), ("", 2, 1));
    assert!(map.entries.is_empty());
    let stored = SandboxMeta { shm_name: "/cas-x".to_string(), abi_version: 2, next_id: 9 };
    let (m, _) = load(Some(stored), Some(FuseMap { entries: Vec::new() }));
    assert_eq!((m.shm_name.as_str(), m.next_id), ("/cas-x", 9));
}

#[test]
fn the_files_of_a_sandbox() {
    let root = path("/p");
    assert_eq!(shown(&meta_path(&root)), "/p/.sandbox/data/metadata.bin");
    assert_eq!(shown(&map_path(&root)), "/p/.sandbox/data/data.bin");
    assert_eq!(shown(&socket_path(&root)), "/p/.sandbox/daemon.sock");
    let plan = init_sandbox(&root, "/cas-y");
    assert_eq!(plan.dirs.len(), 258);
    assert_eq!(shown(&plan.dirs[0]), "/p/.sandbox/data");
    assert_eq!(shown(&plan.dirs[1]), "/p/.sandbox/data/objects");
    assert_eq!(shown(&plan.dirs[257]), "/p/.sandbox/data/objects/ff");
    assert_eq!(plan.meta.shm_name, "/cas-y");
}

#[test]
fn lines_of_the_access_log() {
    assert_eq!(
        log_line(b"now", 12, b"open", &path("/a b")),
        b"[now] 12 open /a b\n".to_vec()
    );
    let line = access_log_line(0, 5_000_000, 1, "open", &path("/x")).expect("a time");
    assert_eq!(line, b"[1970-01-01 00:00:00.005] 1 open /x\n".to_vec());
    let line = access_log_line(1_700_000_000, 0, 42, "read", &FsPath::parse(b"/\xff")).expect("a time");
    assert_eq!(
        String::from_utf8(line).expect("utf-8"),
        "[2023-11-14 22:13:20.000] 42 read /\u{fffd}\n"
    );
    assert!(access_log_line(i64::MAX, 0, 1, "open", &path("/x")).is_none());
}
