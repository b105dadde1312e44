use std::time::{Duration, SystemTime, UNIX_EPOCH};

use cas::fuse::attr::{
    attr_from_daemon, attr_from_meta, attr_from_nix_stat, fresh_attr, map_nobody,
    system_time_from_unix_i64, system_time_from_unix_u64, FileKind, RawStat, RealStat,
};
use cas::syncing::proto::FileMetadata;

fn at(secs: i64) -> SystemTime {
    if secs >= 0 {
        UNIX_EPOCH + Duration::from_secs(secs as u64)
    } else {
        UNIX_EPOCH - Duration::from_secs(secs.unsigned_abs())
    }
}

#[test]
fn unix_i64_negative_is_handled() {
    let t = at(system_time_from_unix_i64(-1));
    assert!(UNIX_EPOCH.duration_since(t).is_ok());
}

#[test]
fn unix_u64_huge_does_not_panic() {
    let t = at(system_time_from_unix_u64(u64::MAX));
    assert_eq!(t, UNIX_EPOCH);
}

#[test]
fn ordinary_times_are_kept() {
    assert_eq!(system_time_from_unix_i64(-5), -5);
    assert_eq!(system_time_from_unix_i64(1_700_000_000), 1_700_000_000);
    assert_eq!(system_time_from_unix_u64(1_700_000_000), 1_700_000_000);
}

#[test]
fn nobody_is_shown_as_root() {
    assert_eq!(map_nobody(65533), 65533);
    assert_eq!(map_nobody(65534), 0);
    assert_eq!(map_nobody(1000), 1000);
}

#[test]
fn host_attributes_are_taken_over() {
    let s = RealStat {
        is_dir: false,
        is_symlink: false,
        size: 1000,
        blocks: 2,
        atime: 1,
        mtime: 2,
        ctime: 3,
        mode: 0o100644,
        nlink: 1,
        uid: 10,
        gid: 20,
        rdev: 0,
        blksize: 4096,
    };
    let a = attr_from_meta(7, &s);
    assert_eq!(a.ino, 7);
    assert_eq!(a.size, 1000);
    assert_eq!(a.blocks, 2);
    assert_eq!((a.atime, a.mtime, a.ctime), (1, 2, 3));
    assert_eq!(a.kind, FileKind::RegularFile);
    assert_eq!(a.perm, 0o644);
    assert_eq!((a.uid, a.gid), (10, 20));
    let dir = RealStat { is_dir: true, ..s };
    assert_eq!(attr_from_meta(7, &dir).kind, FileKind::Directory);
    let link = RealStat { is_symlink: true, ..s };
    assert_eq!(attr_from_meta(7, &link).kind, FileKind::Symlink);
}

#[test]
fn raw_attributes_are_taken_over() {
    let s = RawStat {
        st_mode: 0o040755,
        st_size: 4096,
        st_blocks: 8,
        st_atime: 1,
        st_mtime: 2,
        st_ctime: 3,
        st_nlink: 2,
        st_uid: 1,
        st_gid: 1,
        st_rdev: 0,
    };
    let a = attr_from_nix_stat(9, &s);
    assert_eq!(a.kind, FileKind::Directory);
    assert_eq!(a.perm, 0o755);
    assert_eq!(a.size, 4096);
    assert_eq!(a.nlink, 2);
}

#[test]
fn stored_attributes_count_blocks_of_512_bytes() {
    let m = FileMetadata { size: 1025, mode: 0o640, uid: 1, gid: 2, mtime: 5, atime: 6, ctime: 7 };
    let a = attr_from_daemon(3, &m, FileKind::RegularFile);
    assert_eq!(a.size, 1025);
    assert_eq!(a.blocks, 3);
    assert_eq!(a.perm, 0o640);
    assert_eq!((a.mtime, a.atime, a.ctime), (5, 6, 7));
}

#[test]
fn a_new_file_is_empty() {
    let a = fresh_attr(4, FileKind::RegularFile, 0o100600, 1, 2, 99);
    assert_eq!(a.size, 0);
    assert_eq!(a.perm, 0o600);
    assert_eq!((a.mtime, a.uid, a.gid), (99, 1, 2));
}
