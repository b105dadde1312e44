use cas::config::config::Config;
use cas::config::policy::ConfigPolicy;
use cas::errno::{
    EBADF, EINVAL, EIO, ENOENT, ENOTSUP, EPERM, O_APPEND, O_PATH, O_TRUNC, S_IFDIR, S_IFLNK, S_IFMT,
    S_IFREG,
};
use cas::error::{err_to_errno, ClientError, Error, IoError};
use cas::fuse::attr::{FileKind, RealStat};
use cas::fuse::executor::{
    change_meta, execute_setattr_on_open_handle, file_meta_with_now, store_handle_meta, PlanRun,
    PlanStep,
};
use cas::fuse::fs::{
    check_export_component, check_handle, create, handle_flags, is_sqlite_wal_file, lock_length,
    mkdir, open, path_of_child, readdir, readdir_entries, readdir_page, readlink, rename, rmdir,
    seek_position, seek_target, setattr, setattr_store, symlink, unlink, wants_backing, DirWalk,
    OpenDone, OpenJob, OpenTaskNext, ReaddirNext, ReadlinkNext, RenameNext, SeekTo, SetattrStart,
};
use cas::fuse::inner::{
    kind_from_entry, meta_from_stat, stat_fuse_path, stat_path,
    unix_i64_to_u64_saturating, Inner, ModeNext, StatFound, StatNext,
};
use cas::fuse::inode::InodeTable;
use cas::fuse::ops::{create_how, open_how, wants_truncate, wants_write, Op, Outcome};
use cas::fuse::policy::AccessMode;
use cas::fuse::state_loader::{ItemType, RealItem};
use cas::path::FsPath;
use cas::syncing::proto::{EntryType, FileMetadata, FuseEntry, Request, Response};

fn path(s: &str) -> FsPath {
    FsPath::parse(s.as_bytes())
}

fn shown(p: &FsPath) -> String {
    String::from_utf8(p.to_bytes()).expect("utf-8 path")
}

/// Paths below `/p` pass through, `/secret` stays in the sandbox, `/quiet` is not
/// logged, and all else is copied on write.
fn policy() -> ConfigPolicy {
    let config = Config {
        whitelist: Vec::new(),
        blacklist: vec!["/secret".to_string(), "/secret/**".to_string()],
        disable_log: vec!["/quiet/**".to_string()],
        log_level: None,
        log: None,
    };
    ConfigPolicy::from_config(&config, &path("/p"), None, None).expect("policy")
}

fn meta(size: u64) -> FileMetadata {
    FileMetadata { size, mode: 0o100644, uid: 1, gid: 2, mtime: 3, atime: 4, ctime: 5 }
}

fn entry(entry_type: EntryType, object_id: Option<u64>) -> FuseEntry {
    FuseEntry { entry_type, metadata: meta(7), object_id, symlink_target: None }
}

fn stat(is_dir: bool) -> RealStat {
    RealStat {
        is_dir,
        is_symlink: false,
        size: 5,
        blocks: 8,
        atime: -1,
        mtime: 2,
        ctime: 3,
        mode: 0o100600,
        nlink: 1,
        uid: 4,
        gid: 5,
        rdev: 0,
        blksize: 4096,
    }
}

fn line(op: &Op) -> String {
    match op {
        Op::Daemon(r) => match r {
            Request::EnsureFileObject { path, .. } => format!("ensure {}", shown(path)),
            Request::EnsureFileObjectFromReal { path, .. } => {
                format!("ensure copy {}", shown(path))
            }
            Request::GetObjectPath { id } => format!("locate {id}"),
            Request::GetFileMeta { path } => format!("get meta {}", shown(path)),
            Request::PutFileMeta { path, meta } => {
                format!("put meta {} {} {:o}", shown(path), meta.size, meta.mode)
            }
            Request::GetEntry { path } => format!("get {}", shown(path)),
            Request::DeleteFile { path } => format!("delete {}", shown(path)),
            Request::RenameFile { from, to } => format!("rename {} {}", shown(from), shown(to)),
            Request::PutDir { path, meta } => format!("put dir {} {:o}", shown(path), meta.mode),
            Request::PutSymlink { path, target, meta } => format!(
                "put link {} {} {:o}",
                shown(path),
                String::from_utf8(target.clone()).unwrap(),
                meta.mode
            ),
            Request::PutWhiteout { path } => format!("whiteout {}", shown(path)),
            Request::DeleteWhiteout { path } => format!("uncover {}", shown(path)),
            Request::ReadDirAll { path } => format!("list {}", shown(path)),
            Request::RenameTree { from, to } => {
                format!("rename tree {} {}", shown(from), shown(to))
            }
            Request::LogAccess { path, operation, pid } => {
                format!("log {} {} {}", shown(path), operation, pid)
            }
            other => format!("{other:?}"),
        },
        Op::Exists(p) => format!("host exists {}", shown(p)),
        Op::LinkExists(p) => format!("host link exists {}", shown(p)),
        Op::Stat(p) => format!("host stat {}", shown(p)),
        Op::ListDir(p) => format!("host list {}", shown(p)),
        Op::ReadLink(p) => format!("host readlink {}", shown(p)),
        Op::RemoveFile(p) => format!("host remove {}", shown(p)),
        Op::RemoveDir(p) => format!("host rmdir {}", shown(p)),
        Op::Rename { from, to } => format!("host rename {} {}", shown(from), shown(to)),
        Op::MakeSymlink { path, .. } => format!("host symlink {}", shown(path)),
        Op::MakeDir(p) => format!("host mkdir {}", shown(p)),
        Op::SetMode { path, mode } => format!("host mode {} {:o}", shown(path), mode),
        Op::SetOwner { path, uid, gid } => {
            format!("host owner {} {:?} {:?}", shown(path), uid, gid)
        }
        Op::SetLength { path, size } => format!("host length {} {}", shown(path), size),
        Op::Open { path, how } => format!(
            "open {} r{} w{} a{} c{}",
            shown(path),
            how.read as u8,
            how.write as u8,
            how.append as u8,
            how.create as u8
        ),
        Op::CopyFile { from, to } => format!("copy {} {}", shown(from), shown(to)),
        other => format!("{other:?}"),
    }
}

fn plan(steps: &[PlanStep]) -> Vec<String> {
    steps
        .iter()
        .map(|s| format!("{}{}", if s.must { "" } else { "try " }, line(&s.op)))
        .collect()
}

fn job(p: &str, flags: i32) -> OpenJob {
    OpenJob { path: path(p), flags, uid: 10, gid: 20, now: 30 }
}

/// Runs an open with the outcomes that a function gives, and tells what was done.
fn run_open<F: FnMut(&str) -> Outcome>(
    mut next: OpenTaskNext,
    mut answer: F,
) -> (Vec<String>, Result<OpenDone, i32>) {
    let policy = policy();
    let mut done = Vec::new();
    loop {
        match next {
            OpenTaskNext::Do { op, task } => {
                let l = line(&op);
                let outcome = answer(&l);
                done.push(l);
                next = task.resume(&policy, outcome);
            }
            OpenTaskNext::Finished(r) => return (done, r),
        }
    }
}

#[test]
fn a_first_write_copies_the_file_into_the_sandbox() {
    let start = open(&policy(), job("/etc/x", libc::O_WRONLY), 77);
    let (done, result) = run_open(start, |l| match l {
        "log /etc/x open 77" => Outcome::Failed(Error::os(EIO)),
        "get /etc/x" => Outcome::Reply(Response::GetEntry(None)),
        "host exists /etc/x" => Outcome::Flag(true),
        "ensure copy /etc/x" => {
            Outcome::Reply(Response::EnsureFileObject { id: 9, path: path("/o/9") })
        }
        "uncover /etc/x" => Outcome::Reply(Response::DeleteWhiteout),
        _ => Outcome::Done,
    });
    assert_eq!(
        done,
        vec![
            "log /etc/x open 77",
            "get /etc/x",
            "host exists /etc/x",
            "ensure copy /etc/x",
            "copy /etc/x /o/9",
            "uncover /etc/x",
            "open /o/9 r1 w1 a0 c0",
        ]
    );
    assert_eq!(result, Ok(OpenDone { object_id: Some(9), direct_io: false }));
}

#[test]
fn reading_a_host_file_opens_it_for_reading_only() {
    let start = open(&policy(), job("/quiet/x", libc::O_RDONLY), 1);
    let (done, result) = run_open(start, |l| match l {
        "get /quiet/x" => Outcome::Reply(Response::GetEntry(None)),
        "host exists /quiet/x" => Outcome::Flag(true),
        _ => Outcome::Done,
    });
    assert_eq!(done, vec!["get /quiet/x", "host exists /quiet/x", "open /quiet/x r1 w0 a0 c0"]);
    assert_eq!(result, Ok(OpenDone { object_id: None, direct_io: false }));
}

#[test]
fn reading_a_stored_file_opens_its_object() {
    let start = open(&policy(), job("/quiet/a-wal", libc::O_RDONLY), 1);
    let (done, result) = run_open(start, |l| match l {
        "get /quiet/a-wal" => {
            Outcome::Reply(Response::GetEntry(Some(entry(EntryType::File, Some(4)))))
        }
        "locate 4" => Outcome::Reply(Response::GetObjectPath { path: path("/o/4") }),
        "host exists /quiet/a-wal" => Outcome::Flag(true),
        _ => Outcome::Done,
    });
    assert_eq!(
        done,
        vec![
            "get /quiet/a-wal",
            "locate 4",
            "host exists /quiet/a-wal",
            "locate 4",
            "open /o/4 r1 w0 a0 c0",
        ]
    );
    assert_eq!(result, Ok(OpenDone { object_id: Some(4), direct_io: true }));
}

#[test]
fn a_whited_out_file_cannot_be_opened() {
    let start = open(&policy(), job("/quiet/x", libc::O_RDWR), 1);
    let (_, result) = run_open(start, |l| match l {
        "get /quiet/x" => Outcome::Reply(Response::GetEntry(Some(entry(EntryType::Whiteout, None)))),
        _ => Outcome::Flag(true),
    });
    assert_eq!(result, Err(ENOENT));
}

#[test]
fn a_refusing_daemon_fails_an_open() {
    let start = open(&policy(), job("/quiet/x", libc::O_RDONLY), 1);
    let (_, result) = run_open(start, |_| Outcome::Reply(Response::error("no")));
    assert_eq!(result, Err(EIO));
    let start = open(&policy(), job("/quiet/x", libc::O_RDONLY), 1);
    let (_, result) = run_open(start, |_| Outcome::Failed(Error::os(13)));
    assert_eq!(result, Err(13));
}

#[test]
fn new_files_are_made_where_the_mode_says() {
    let (done, _) = run_open(create(&policy(), job("/p/new", libc::O_WRONLY), 0o640), |_| Outcome::Done);
    assert_eq!(done, vec!["open /p/new r1 w1 a0 c1"]);
    let (done, result) = run_open(create(&policy(), job("/etc/new", libc::O_WRONLY), 0o640), |l| {
        match l {
            "ensure /etc/new" => {
                Outcome::Reply(Response::EnsureFileObject { id: 2, path: path("/o/2") })
            }
            _ => Outcome::Done,
        }
    });
    assert_eq!(done[0], "ensure /etc/new");
    assert!(!done.iter().any(|l| l.starts_with("copy")));
    assert_eq!(result.map(|d| d.object_id), Ok(Some(2)));
}

#[test]
fn open_flags_say_what_is_wanted() {
    assert!(wants_write(libc::O_WRONLY));
    assert!(wants_write(libc::O_RDWR));
    assert!(!wants_write(libc::O_RDONLY));
    assert!(wants_truncate(libc::O_WRONLY | libc::O_TRUNC));
    assert!(!wants_truncate(libc::O_WRONLY));
    let how = open_how(libc::O_RDWR | libc::O_APPEND);
    assert!(how.read && how.write && how.append && !how.create);
    let how = create_how(libc::O_WRONLY, 0o100600);
    assert!(how.write && how.create);
}

#[test]
fn handles_bypass_the_cache_or_have_a_backing_file() {
    let plain = OpenDone { object_id: None, direct_io: false };
    let direct = OpenDone { object_id: None, direct_io: true };
    assert!(wants_backing(&plain));
    assert!(!wants_backing(&direct));
    assert!(handle_flags(&plain, true).passthrough);
    assert!(!handle_flags(&plain, false).passthrough);
    assert!(handle_flags(&direct, false).direct_io);
}

#[test]
fn write_ahead_logs_are_known_by_name() {
    assert!(is_sqlite_wal_file(&path("/a/db-wal")));
    assert!(!is_sqlite_wal_file(&path("/a/db-wal2")));
    assert!(!is_sqlite_wal_file(&FsPath::parse(b"/a/\xff-wal")));
    assert!(!is_sqlite_wal_file(&path("/")));
}

#[test]
fn plans_follow_the_mode() {
    let p = policy();
    assert_eq!(plan(&unlink(&p, &path("/p/x"))), vec!["host remove /p/x"]);
    assert_eq!(plan(&unlink(&p, &path("/etc/x"))).last().unwrap(), "whiteout /etc/x");
    assert_eq!(plan(&rmdir(&p, &path("/p/d"), &Vec::new())), vec!["host rmdir /p/d"]);
    let below = vec![path("/etc/d/a"), path("/etc/d/b")];
    let lines = plan(&rmdir(&p, &path("/etc/d"), &below));
    for gone in ["whiteout /etc/d", "whiteout /etc/d/a", "whiteout /etc/d/b"] {
        assert!(lines.iter().any(|l| l.ends_with(gone)), "{gone} in {lines:?}");
    }
    assert!(!lines.iter().any(|l| l.contains("host")));
    let lines = plan(&mkdir(&p, &path("/p/d"), 0o755, 1, 2, 3));
    assert!(lines[0].starts_with("host mkdir /p/d"));
    let lines = plan(&mkdir(&p, &path("/secret/d"), 0o755, 1, 2, 3));
    assert!(lines.iter().any(|l| l.ends_with("put dir /secret/d 40755")), "{lines:?}");
    let lines = plan(&symlink(&p, &path("/etc/l"), b"/t", 1, 2, 3));
    assert!(lines.iter().any(|l| l.ends_with("put link /etc/l /t 120777")), "{lines:?}");
    assert_eq!(plan(&symlink(&p, &path("/p/l"), b"/t", 1, 2, 3)), vec!["host symlink /p/l"]);
}

#[test]
fn a_plan_stops_at_the_first_step_that_must_succeed() {
    let mut run = PlanRun::new(vec![
        PlanStep { op: Op::RemoveFile(path("/a")), must: false },
        PlanStep { op: Op::RemoveFile(path("/b")), must: true },
        PlanStep { op: Op::RemoveFile(path("/c")), must: true },
    ]);
    assert_eq!(run.next_op().map(line), Some("host remove /a".to_string()));
    assert!(run.advance(Outcome::Failed(Error::os(5))).is_none());
    assert_eq!(run.next_op().map(line), Some("host remove /b".to_string()));
    let e = run.advance(Outcome::Failed(Error::os(13))).expect("must succeed");
    assert_eq!(err_to_errno(&e), 13);
}

#[test]
fn renames_move_an_entry_or_a_tree() {
    let p = policy();
    let moves = |from: &str, to: &str, e: Option<FuseEntry>| {
        let mut e = Some(e);
        let mut next = rename(path(from), path(to));
        loop {
            match next {
                RenameNext::Do { op: _, task } => {
                    let answer = e.take().unwrap_or(None);
                    next = task.resume(&p, Outcome::Reply(Response::GetEntry(answer)));
                }
                RenameNext::Finished(r) => return plan(&r.expect("plan")),
            }
        }
    };
    assert_eq!(moves("/p/a", "/p/b", None), vec!["host rename /p/a /p/b"]);
    let lines = moves("/etc/a", "/etc/b", Some(entry(EntryType::Dir, None)));
    assert!(lines.iter().any(|l| l.ends_with("rename tree /etc/a /etc/b")), "{lines:?}");
    let lines = moves("/etc/a", "/etc/b", Some(entry(EntryType::File, Some(1))));
    assert!(lines.iter().any(|l| l.ends_with("rename /etc/a /etc/b")), "{lines:?}");
    let failed = match rename(path("/a"), path("/b")) {
        RenameNext::Do { task, .. } => task.resume(&p, Outcome::Failed(Error::os(7))),
        other => other,
    };
    assert!(matches!(failed, RenameNext::Finished(Err(Error::Io(IoError::Os(7))))));
}

#[test]
fn links_are_read_where_they_are_stored() {
    let p = policy();
    let target = |at: &str, e: Option<FuseEntry>, second: Outcome| {
        let next = match readlink(path(at)) {
            ReadlinkNext::Do { task, .. } => {
                task.resume(&p, Outcome::Reply(Response::GetEntry(e)))
            }
            other => other,
        };
        match next {
            ReadlinkNext::Do { op, task } => match task.resume(&p, second) {
                ReadlinkNext::Finished(r) => (line(&op), r.ok()),
                other => panic!("unexpected {other:?}"),
            },
            ReadlinkNext::Finished(r) => ("none".to_string(), r.ok()),
        }
    };
    let mut link = entry(EntryType::Symlink, None);
    link.symlink_target = Some(b"/t".to_vec());
    let again = Outcome::Reply(Response::GetEntry(Some(link.copy())));
    assert_eq!(target("/etc/l", Some(link), again), ("get /etc/l".to_string(), Some(b"/t".to_vec())));
    assert_eq!(
        target("/p/l", None, Outcome::Bytes(b"/u".to_vec())),
        ("host readlink /p/l".to_string(), Some(b"/u".to_vec()))
    );
    assert_eq!(
        target("/etc/l", Some(entry(EntryType::Whiteout, None)), Outcome::Done),
        ("none".to_string(), None)
    );
}

fn item(dir: &str, name: &str, item_type: ItemType) -> RealItem {
    RealItem {
        name: name.as_bytes().to_vec(),
        path: path(&format!("{dir}/{name}")),
        item_type: Some(item_type),
    }
}

#[test]
fn listings_merge_host_and_sandbox() {
    let p = policy();
    let host = vec![item("/etc", "a", ItemType::Other), item("/etc", "b", ItemType::Dir)];
    let stored = vec![
        (path("/etc/a"), entry(EntryType::Whiteout, None)),
        (path("/etc/c"), entry(EntryType::File, Some(1))),
    ];
    let next = match readdir(path("/etc")) {
        ReaddirNext::Do { op, task } => {
            assert_eq!(line(&op), "host list /etc");
            task.resume(&p, Outcome::Listing(host))
        }
        other => other,
    };
    let next = match next {
        ReaddirNext::Do { op, task } => {
            assert_eq!(line(&op), "list /etc");
            task.resume(&p, Outcome::Reply(Response::DirEntries(stored)))
        }
        other => other,
    };
    let state = match next {
        ReaddirNext::Finished(r) => r.expect("state"),
        other => panic!("unexpected {other:?}"),
    };
    let mut inner = Inner::new();
    let etc = inner.ino_of(&path("/etc"));
    let items = readdir_entries(&mut inner, etc, &path("/etc"), &state).expect("listing");
    let names: Vec<(String, FileKind)> =
        items.iter().map(|i| (String::from_utf8(i.name.clone()).unwrap(), i.kind)).collect();
    assert_eq!(
        names,
        vec![
            (".".to_string(), FileKind::Directory),
            ("..".to_string(), FileKind::Directory),
            ("b".to_string(), FileKind::Directory),
            ("c".to_string(), FileKind::RegularFile),
        ]
    );
    assert_eq!(items[0].ino, etc);
    assert_eq!(items[1].ino, 1);
    assert_eq!(items[2].ino, inner.ino_of(&path("/etc/b")));

    let first = readdir_page(&items, 0);
    assert_eq!(first.iter().map(|(n, _)| *n).collect::<Vec<u64>>(), vec![1, 2, 3, 4]);
    let rest = readdir_page(&items, first[1].0);
    assert_eq!(rest.len(), 2);
    assert_eq!((rest[0].0, rest[0].1.name.as_slice()), (3, b"b".as_slice()));
    assert!(readdir_page(&items, rest[1].0).is_empty());
    assert!(readdir_page(&items, u64::MAX).is_empty());
}

#[test]
fn inode_numbers_stay() {
    let mut t = InodeTable::new(&FsPath::root());
    assert_eq!(t.get_ino(&path("/")), Some(1));
    let a = t.get_or_insert(&path("/a"));
    let b = t.get_or_insert(&path("/b"));
    assert_eq!((a, b), (2, 3));
    assert_eq!(t.get_or_insert(&path("/a")), a);
    assert_eq!(t.get_path(b).map(|p| shown(&p)), Some("/b".to_string()));
    assert!(t.get_path(99).is_none());
    assert!(t.get_ino(&path("/c")).is_none());
}

#[test]
fn handles_are_numbered() {
    let mut inner = Inner::new();
    let a = inner.alloc_fh();
    let b = inner.alloc_fh();
    assert_eq!(b, a + 1);
    assert_eq!(inner.path_of(1).map(|p| shown(&p)), Some("/".to_string()));
    assert!(inner.resolve_ino(5).is_none());
}

#[test]
fn attributes_come_from_where_the_file_is() {
    let p = policy();
    let found = |at: &str, on_host: bool, e: Option<FuseEntry>| {
        let mut next = stat_path(&path(at));
        let mut e = Some(e);
        loop {
            match next {
                StatNext::Do { op, task } => {
                    let outcome = match &op {
                        Op::Daemon(_) => match e.take() {
                            Some(e) => Outcome::Reply(Response::GetEntry(e)),
                            None => Outcome::Reply(Response::GetEntry(Some(entry(
                                EntryType::File,
                                Some(1),
                            )))),
                        },
                        Op::Stat(_) => Outcome::Stat(stat(false)),
                        _ => Outcome::Flag(on_host),
                    };
                    next = task.resume(&p, outcome);
                }
                StatNext::Finished(r) => return r,
            }
        }
    };
    assert!(matches!(found("/etc/x", true, None), Ok(StatFound::Host(_))));
    assert!(matches!(
        found("/etc/x", true, Some(entry(EntryType::File, Some(1)))),
        Ok(StatFound::Entry { kind: FileKind::RegularFile, .. })
    ));
    assert!(found("/etc/x", false, None).is_err());
    assert!(found("/etc/x", true, Some(entry(EntryType::Whiteout, None))).is_err());
}

#[test]
fn small_helpers() {
    assert_eq!(unix_i64_to_u64_saturating(-1), 0);
    assert_eq!(unix_i64_to_u64_saturating(9), 9);
    assert_eq!(kind_from_entry(&entry(EntryType::Dir, None)), Some(FileKind::Directory));
    assert_eq!(kind_from_entry(&entry(EntryType::Whiteout, None)), None);
    let m = meta_from_stat(&stat(false));
    assert_eq!((m.size, m.atime, m.mtime, m.uid, m.gid), (5, 0, 2, 4, 5));
    assert!(stat_fuse_path(&None).is_err());
    assert!(stat_fuse_path(&Some(entry(EntryType::Symlink, None))).is_ok());
    let now = file_meta_with_now(1, 2, 3, 4, 5);
    assert_eq!((now.size, now.mode, now.mtime, now.atime, now.ctime), (1, 2, 5, 5, 5));
}

#[test]
fn a_path_is_looked_up_by_its_mode() {
    let step = |next: ModeNext| match next {
        ModeNext::Do { op, task } => (line(&op), task),
        ModeNext::Finished(result) => panic!("finished: {result:?}"),
    };
    let nothing = || Outcome::Reply(Response::GetEntry(None));
    let (first, task) = step(Inner::stat_path(AccessMode::Passthrough, &path("/x")));
    assert_eq!(first, "host stat /x");
    assert!(matches!(
        task.resume(Outcome::Stat(stat(false))),
        ModeNext::Finished(Ok(StatFound::Host(_)))
    ));

    let (first, task) = step(Inner::stat_path(AccessMode::FuseOnly, &path("/x")));
    assert_eq!(first, "get /x");
    assert!(matches!(
        task.resume(nothing()),
        ModeNext::Finished(Err(Error::Io(IoError::Os(ENOENT))))
    ));

    let (first, task) = step(Inner::stat_path(AccessMode::CopyOnWrite, &path("/x")));
    assert_eq!(first, "get /x");
    let (second, _) = step(task.resume(nothing()));
    assert_eq!(second, "host stat /x");
    let (_, task) = step(Inner::stat_path(AccessMode::CopyOnWrite, &path("/x")));
    let known = Outcome::Reply(Response::GetEntry(Some(entry(EntryType::Dir, None))));
    assert!(matches!(task.resume(known), ModeNext::Finished(Ok(StatFound::Entry { .. }))));
    let (_, task) = step(Inner::stat_path(AccessMode::CopyOnWrite, &path("/x")));
    assert!(matches!(
        task.resume(Outcome::Failed(Error::os(EIO))),
        ModeNext::Finished(Err(Error::Io(IoError::Os(EIO))))
    ));
}

#[test]
fn what_a_handle_looks_like_at_the_end_is_stored() {
    let steps = execute_setattr_on_open_handle(7, Some(0o600), None, None, Some(3), true);
    let stored: Vec<bool> = steps
        .iter()
        .map(|s| store_handle_meta(s, &path("/x"), &Outcome::Stat(stat(false)), 8).is_some())
        .collect();
    assert_eq!(stored, vec![false, false, false, false, true]);
    let last = &steps[4];
    assert!(!last.must);
    let op = store_handle_meta(last, &path("/x"), &Outcome::Stat(stat(false)), 8).expect("stored");
    assert!(line(&op).starts_with("put meta /x 5"));
    assert!(store_handle_meta(last, &path("/x"), &Outcome::Failed(Error::os(EIO)), 8).is_none());
    assert!(execute_setattr_on_open_handle(7, None, None, None, None, false).is_empty());
}

#[test]
fn numbers_are_those_of_the_machine() {
    assert_eq!(
        (EPERM, ENOENT, EIO, EBADF, EINVAL, ENOTSUP),
        (libc::EPERM, libc::ENOENT, libc::EIO, libc::EBADF, libc::EINVAL, libc::ENOTSUP)
    );
    assert_eq!((O_APPEND, O_TRUNC, O_PATH), (libc::O_APPEND, libc::O_TRUNC, libc::O_PATH));
    assert_eq!(
        (S_IFMT, S_IFREG, S_IFDIR, S_IFLNK),
        (libc::S_IFMT, libc::S_IFREG, libc::S_IFDIR, libc::S_IFLNK)
    );
    assert!(wants_write(libc::O_WRONLY | libc::O_PATH));
    assert!(!wants_write(libc::O_PATH));
}

#[test]
fn attributes_are_changed_where_the_file_is() {
    let p = policy();
    match setattr(&p, &path("/p/x"), None, false, Some(0o600), None, None, Some(3)) {
        SetattrStart::Plan(steps) => {
            let lines = plan(&steps);
            assert!(lines.iter().any(|l| l.ends_with("host mode /p/x 600")), "{lines:?}");
            assert!(lines.iter().any(|l| l.ends_with("host length /p/x 3")), "{lines:?}");
        }
        other => panic!("unexpected {other:?}"),
    }
    match setattr(&p, &path("/etc/x"), None, false, None, None, None, Some(3)) {
        SetattrStart::AskMeta(op) => assert_eq!(line(&op), "get meta /etc/x"),
        other => panic!("unexpected {other:?}"),
    }
    let known = Outcome::Reply(Response::GetFileMeta(Some(meta(9))));
    let op = setattr_store(&path("/etc/x"), known, None, None, None, Some(3), 50).expect("stored");
    assert_eq!(line(&op), "put meta /etc/x 3 100644");
    let unknown = Outcome::Reply(Response::GetFileMeta(None));
    assert!(setattr_store(&path("/x"), unknown, None, None, None, Some(3), 50).is_none());
    let m = change_meta(meta(9), None, Some(5), None, Some(3), 50);
    assert_eq!((m.size, m.uid, m.gid), (3, 5, 2));
}

#[test]
fn names_lead_to_children_or_up() {
    assert!(check_export_component(b".."));
    assert!(!check_export_component(b"..."));
    assert_eq!(shown(&path_of_child(&path("/a"), b"b")), "/a/b");
    assert_eq!(shown(&path_of_child(&path("/a/b"), b"..")), "/a");
    assert_eq!(shown(&path_of_child(&path("/"), b"..")), "/");
}

#[test]
fn positions_and_locks() {
    assert_eq!(seek_target(0, -5), Some(SeekTo::Start(0)));
    assert_eq!(seek_target(0, 5), Some(SeekTo::Start(5)));
    assert_eq!(seek_target(1, -5), Some(SeekTo::Current(-5)));
    assert_eq!(seek_target(2, -5), Some(SeekTo::End(-5)));
    assert_eq!(seek_target(3, 0), None);
    assert_eq!(seek_position(u64::MAX), i64::MAX);
    assert_eq!(lock_length(10, 19), 10);
    assert_eq!(lock_length(10, u64::MAX), 0);
    assert_eq!(lock_length(10, 5), 1);
    assert_eq!(check_handle(false, true), Err(ENOENT));
    assert_eq!(check_handle(true, false), Err(EBADF));
    assert_eq!(check_handle(true, true), Ok(()));
}

#[test]
fn a_walk_finds_what_lies_below() {
    let mut walk = DirWalk::new(&path("/d"));
    while let Some(dir) = walk.next_dir() {
        let items = match shown(&dir).as_str() {
            "/d" => vec![item("/d", "a", ItemType::Other), item("/d", "s", ItemType::Dir)],
            "/d/s" => vec![item("/d/s", "b", ItemType::Symlink)],
            other => panic!("unexpected {other}"),
        };
        walk.listed(&items);
    }
    let found: Vec<String> = walk.into_found().iter().map(shown).collect();
    assert_eq!(found, vec!["/d/a", "/d/s", "/d/s/b"]);
}

#[test]
fn errors_become_error_numbers() {
    assert_eq!(err_to_errno(&Error::os(13)), 13);
    assert_eq!(err_to_errno(&Error::os(0)), EIO);
    assert_eq!(err_to_errno(&Error::os(-3)), EIO);
    assert_eq!(err_to_errno(&Error::Io(IoError::Missing)), EIO);
    assert_eq!(err_to_errno(&Error::Io(IoError::Other("x".to_string()))), EIO);
    assert_eq!(err_to_errno(&Error::SyncingClient(ClientError::NotFound)), ENOENT);
    assert_eq!(err_to_errno(&Error::SyncingClient(ClientError::Io(IoError::Os(11)))), 11);
    assert_eq!(err_to_errno(&Error::SyncingClient(ClientError::Server("x".to_string()))), EIO);
    assert!(Error::os(ENOENT).not_found());
    assert!(!Error::SyncingClient(ClientError::NotFound).not_found());
}
