//! The object store: numbered files that hold the contents of sandbox files.

use crate::bytes::copy_bytes;
use crate::path::{
    child_path, is_component, law_parse_render, name_ok, parse_path, path_views, render_path,
    FsPath, PathModel, SLASH,
};
use crate::text::{hex, hex_digit, hex_text, nibble};
use vstd::prelude::*;

verus! {

/// Why an object cannot be had.
#[derive(Debug, Clone, Copy, PartialEq, Eq, Structural)]
pub enum ObjectError {
    NotFound(u64),
}

/// Where the object `id` lies: in the directory named after its low byte, under
/// its number in hexadecimal.
pub open spec fn object_path_of(dir: PathModel, id: u64) -> PathModel {
    child_path(child_path(dir, hex_text(id & 0xff, 2)), hex_text(id, 16))
}

/// A new object: its number, where it goes, and what it holds.
#[derive(Debug)]
pub struct ObjectWrite {
    pub id: u64,
    pub path: FsPath,
    pub data: Vec<u8>,
}

/// Numbers objects and places them below a directory.
#[derive(Debug)]
pub struct ObjectStore {
    dir: FsPath,
    next_id: u64,
}

impl ObjectStore {
    /// The directory of the store.
    pub closed spec fn spec_dir(&self) -> PathModel {
        self.dir@
    }

    /// The number that the next object gets.
    pub closed spec fn spec_next_id(&self) -> u64 {
        self.next_id
    }

    /// A store below `dir` whose next object gets the number `next_id`.
    pub fn new(dir: FsPath, next_id: u64) -> (r: ObjectStore)
        ensures
            r.spec_dir() == dir@,
            r.spec_next_id() == next_id,
    {
        ObjectStore { dir, next_id }
    }

    /// The directory of the store.
    pub fn dir(&self) -> (r: &FsPath)
        ensures
            r@ == self.spec_dir(),
    {
        &self.dir
    }

    /// The number that the next object gets.
    pub fn next_id(&self) -> (r: u64)
        ensures
            r == self.spec_next_id(),
    {
        self.next_id
    }

    /// Sets the number that the next object gets.
    pub fn set_next_id(&mut self, id: u64)
        ensures
            final(self).spec_next_id() == id,
            final(self).spec_dir() == old(self).spec_dir(),
    {
        self.next_id = id;
    }

    /// Takes the next number; after the last number comes zero.
    pub fn reserve(&mut self) -> (r: u64)
        ensures
            r == old(self).spec_next_id(),
            final(self).spec_next_id() == (if r == u64::MAX {
                0
            } else {
                r + 1
            }),
            final(self).spec_dir() == old(self).spec_dir(),
    {
        let id: u64 = self.next_id;
        self.next_id = if id == u64::MAX {
            0
        } else {
            id + 1
        };
        id
    }

    /// A new object that holds `data`.
    pub fn put(&mut self, data: &[u8]) -> (r: ObjectWrite)
        ensures
            r.id == old(self).spec_next_id(),
            r.path@ == object_path_of(old(self).spec_dir(), r.id),
            r.data@ == data@,
            final(self).spec_next_id() == (if r.id == u64::MAX {
                0
            } else {
                r.id + 1
            }),
            final(self).spec_dir() == old(self).spec_dir(),
    {
        let id: u64 = self.reserve();
        let path = self.object_path(id);
        ObjectWrite { id, path, data: copy_bytes(data) }
    }

    /// A new object that holds nothing.
    pub fn alloc_empty(&mut self) -> (r: ObjectWrite)
        ensures
            r.id == old(self).spec_next_id(),
            r.path@ == object_path_of(old(self).spec_dir(), r.id),
            r.data@.len() == 0,
            final(self).spec_next_id() == (if r.id == u64::MAX {
                0
            } else {
                r.id + 1
            }),
            final(self).spec_dir() == old(self).spec_dir(),
    {
        let none: Vec<u8> = Vec::new();
        self.put(none.as_slice())
    }

    /// Where the object `id` lies.
    pub fn path_for(&self, id: u64) -> (r: FsPath)
        ensures
            r@ == object_path_of(self.spec_dir(), id),
    {
        self.object_path(id)
    }

    /// The path to read the object `id` from, given whether a file is there.
    pub fn find(&self, id: u64, on_disk: bool) -> (r: Result<FsPath, ObjectError>)
        ensures
            match r {
                Ok(p) => on_disk && p@ == object_path_of(self.spec_dir(), id),
                Err(e) => !on_disk && e == ObjectError::NotFound(id),
            },
    {
        if !on_disk {
            return Err(ObjectError::NotFound(id));
        }
        Ok(self.object_path(id))
    }

    /// Where the object `id` lies.
    pub fn object_path(&self, id: u64) -> (r: FsPath)
        ensures
            r@ == object_path_of(self.spec_dir(), id),
    {
        let shard = hex(id & 0xff, 2);
        let name = hex(id, 16);
        self.dir.child(shard.as_slice()).child(name.as_slice())
    }

    /// The directories that must exist below `dir` before objects are written.
    pub fn shard_dirs(dir: &FsPath) -> (r: Vec<FsPath>)
        ensures
            path_views(r@) == Seq::new(256, |i: int| child_path(dir@, hex_text(i as u64, 2))),
    {
        let mut dirs: Vec<FsPath> = Vec::new();
        let mut i: u64 = 0;
        while i < 256
            invariant
                i <= 256,
                dirs.len() == i,
                forall|k: int|
                    0 <= k < i ==> (#[trigger] dirs@[k])@ == child_path(dir@, hex_text(k as u64, 2)),
            decreases 256 - i,
        {
            dirs.push(dir.child(hex(i, 2).as_slice()));
            i = i + 1;
        }
        assert(path_views(dirs@) =~= Seq::new(256, |i: int| child_path(dir@, hex_text(i as u64, 2))));
        dirs
    }
}

/// A hexadecimal number is a file name.
pub proof fn lemma_hex_is_name(n: u64, width: nat)
    requires
        0 < width <= 16,
    ensures
        parse_path(hex_text(n, width)) == (false, seq![hex_text(n, width)]),
{
    let name = hex_text(n, width);
    let p: PathModel = (false, seq![name]);
    assert forall|i: int| 0 <= i < name.len() implies #[trigger] name[i] >= 48 by {
        let k = (width - 1 - i) as u64;
        let s = (4 * k) as u64;
        assert((n >> s) & 15 < 16) by (bit_vector);
        assert(name[i] == hex_digit(nibble(n, k)));
    }
    assert(name != crate::path::dot()) by {
        if name == crate::path::dot() {
            assert(name[0] == 46);
        }
    }
    assert(!name.contains(SLASH));
    assert forall|i: int| 0 <= i < p.1.len() implies name_ok(#[trigger] p.1[i], i, p.0) by {
        assert(is_component(name, i, false));
    }
    law_parse_render(p);
    assert(render_path(p) == name);
}

/// An object lies two levels below the directory, and no two objects share a place.
pub proof fn law_object_paths(dir: PathModel, a: u64, b: u64)
    ensures
        object_path_of(dir, a) == (dir.0, dir.1 + seq![hex_text(a & 0xff, 2), hex_text(a, 16)]),
        object_path_of(dir, a) == object_path_of(dir, b) ==> a == b,
{
    lemma_object_path(dir, a);
    lemma_object_path(dir, b);
    if object_path_of(dir, a) == object_path_of(dir, b) {
        let pa = object_path_of(dir, a).1;
        let pb = object_path_of(dir, b).1;
        assert(pa[dir.1.len() as int + 1] == hex_text(a, 16));
        assert(pb[dir.1.len() as int + 1] == hex_text(b, 16));
        crate::text::law_hex_injective(a, b);
    }
}

proof fn lemma_object_path(dir: PathModel, id: u64)
    ensures
        object_path_of(dir, id) == (dir.0, dir.1 + seq![hex_text(id & 0xff, 2), hex_text(id, 16)]),
{
    let shard = hex_text(id & 0xff, 2);
    let name = hex_text(id, 16);
    lemma_hex_is_name(id & 0xff, 2);
    lemma_hex_is_name(id, 16);
    assert(shard.len() == 2 && name.len() == 16);
    assert(seq![shard][0].len() != 1 && seq![name][0].len() != 1);
    assert(crate::path::dot().len() == 1);
    assert(object_path_of(dir, id).1 =~= dir.1 + seq![shard, name]);
}

} // verus!
