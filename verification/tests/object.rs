use cas::path::FsPath;
use cas::syncing::object::{ObjectError, ObjectStore};

fn path(s: &str) -> FsPath {
    FsPath::parse(s.as_bytes())
}

fn shown(p: &FsPath) -> String {
    String::from_utf8(p.to_bytes()).expect("utf-8 path")
}

#[test]
fn test_sharding_distributes_ids() {
    let mut store = ObjectStore::new(path("/objects"), 1);

    let mut shards = std::collections::HashSet::new();
    for _ in 0..512 {
        let write = store.put(b"test");
        assert_eq!(write.data, b"test".to_vec());
        shards.insert(write.id & 0xff);
    }

    assert!(
        shards.len() > 1,
        "Expected distribution across multiple shards, got {}",
        shards.len()
    );
}

#[test]
fn test_object_path_low_byte_shard() {
    let store = ObjectStore::new(path("/tmp/store"), 0);

    assert_eq!(shown(&store.object_path(0)), "/tmp/store/00/0000000000000000");
    assert_eq!(shown(&store.object_path(1)), "/tmp/store/01/0000000000000001");
    assert_eq!(shown(&store.object_path(255)), "/tmp/store/ff/00000000000000ff");
    assert_eq!(shown(&store.object_path(256)), "/tmp/store/00/0000000000000100");
    assert_eq!(shown(&store.object_path(0x0001_00ff)), "/tmp/store/ff/00000000000100ff");
}

#[test]
fn an_object_is_found_where_it_lies_on_disk() {
    let store = ObjectStore::new(path("/o"), 5);
    assert_eq!(shown(&store.find(4, true).expect("object")), "/o/04/0000000000000004");
    assert_eq!(store.find(4, false).err(), Some(ObjectError::NotFound(4)));
}

#[test]
fn ids_count_up_from_the_first() {
    let mut store = ObjectStore::new(path("/o"), 7);
    assert_eq!(store.reserve(), 7);
    assert_eq!(store.alloc_empty().id, 8);
    assert_eq!(store.next_id(), 9);
    store.set_next_id(20);
    assert_eq!(store.reserve(), 20);
}

#[test]
fn there_is_a_directory_for_every_low_byte() {
    let dirs = ObjectStore::shard_dirs(&path("/o"));
    assert_eq!(dirs.len(), 256);
    assert_eq!(shown(&dirs[0]), "/o/00");
    assert_eq!(shown(&dirs[10]), "/o/0a");
    assert_eq!(shown(&dirs[255]), "/o/ff");
}
