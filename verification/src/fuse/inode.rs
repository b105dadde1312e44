//! Inode numbers: each path of a session gets one and keeps it.

use crate::path::{FsPath, PathModel};
use crate::tables::{
    ino_table_get, ino_table_insert, ino_table_new, inos_in, path_ino_table_get,
    path_ino_table_insert, path_ino_table_new, paths_in, InoTable, InoTableModel, PathInoTable,
    PathInoTableModel,
};
use vstd::prelude::*;

verus! {

/// The number of the root of the mounted tree.
pub const ROOT_INO: u64 = 1;

/// The first number that is handed out.
pub const FIRST_INO: u64 = 2;

/// What a table of inode numbers is.
#[verifier::ext_equal]
pub struct InodeModel {
    pub paths: InoTableModel,
    pub inos: PathInoTableModel,
    pub next_ino: u64,
}

/// The table with only the root.
pub open spec fn inodes_new(root: PathModel) -> InodeModel {
    InodeModel {
        paths: InoTableModel::empty().insert(ROOT_INO, root),
        inos: PathInoTableModel::empty().insert(root, ROOT_INO),
        next_ino: FIRST_INO,
    }
}

/// The number of a path: its own where it has one, otherwise the next.
pub open spec fn ino_for(t: InodeModel, p: PathModel) -> u64 {
    if t.inos.contains_key(p) {
        t.inos[p]
    } else {
        t.next_ino
    }
}

/// The table once a path has a number; after the last number comes zero.
pub open spec fn inodes_with(t: InodeModel, p: PathModel) -> InodeModel {
    if t.inos.contains_key(p) {
        t
    } else {
        InodeModel {
            paths: t.paths.insert(t.next_ino, p),
            inos: t.inos.insert(p, t.next_ino),
            next_ino: if t.next_ino == u64::MAX {
                0
            } else {
                (t.next_ino + 1) as u64
            },
        }
    }
}

/// Numbers and paths belong together one to one, and no number that will be handed
/// out is taken.
pub open spec fn inodes_ok(t: InodeModel) -> bool {
    &&& forall|p: PathModel| #[trigger]
        t.inos.contains_key(p) ==> t.paths.contains_key(t.inos[p]) && t.paths[t.inos[p]] == p
    &&& forall|i: u64| #[trigger]
        t.paths.contains_key(i) ==> t.inos.contains_key(t.paths[i]) && t.inos[t.paths[i]] == i && i < t.next_ino
    &&& t.paths.contains_key(ROOT_INO)
}

/// Inode numbers of a session.
pub struct InodeTable {
    ino_to_path: InoTable,
    path_to_ino: PathInoTable,
    next_ino: u64,
}

impl View for InodeTable {
    type V = InodeModel;

    closed spec fn view(&self) -> InodeModel {
        InodeModel {
            paths: paths_in(self.ino_to_path),
            inos: inos_in(self.path_to_ino),
            next_ino: self.next_ino,
        }
    }
}

impl InodeTable {
    /// A table in which the root has its number.
    pub fn new(root: &FsPath) -> (r: InodeTable)
        ensures
            r@ == inodes_new(root@),
            inodes_ok(r@),
    {
        let mut ino_to_path = ino_table_new();
        let mut path_to_ino = path_ino_table_new();
        ino_table_insert(&mut ino_to_path, ROOT_INO, root.to_key());
        path_ino_table_insert(&mut path_to_ino, root.to_key(), ROOT_INO);
        InodeTable { ino_to_path, path_to_ino, next_ino: FIRST_INO }
    }

    /// The number of a path, handed out now where it had none.
    pub fn get_or_insert(&mut self, path: &FsPath) -> (r: u64)
        ensures
            r == ino_for(old(self)@, path@),
            final(self)@ == inodes_with(old(self)@, path@),
    {
        match path_ino_table_get(&self.path_to_ino, &path.to_key()) {
            Some(ino) => {
                return ino;
            },
            None => {},
        }
        let ino: u64 = self.next_ino;
        self.next_ino = if ino == u64::MAX {
            0
        } else {
            ino + 1
        };
        ino_table_insert(&mut self.ino_to_path, ino, path.to_key());
        path_ino_table_insert(&mut self.path_to_ino, path.to_key(), ino);
        ino
    }

    /// The path of a number.
    pub fn get_path(&self, ino: u64) -> (r: Option<FsPath>)
        ensures
            match r {
                Some(p) => self@.paths.contains_key(ino) && self@.paths[ino] == p@,
                None => !self@.paths.contains_key(ino),
            },
    {
        match ino_table_get(&self.ino_to_path, ino) {
            Some(key) => Some(FsPath::from_key(key)),
            None => None,
        }
    }

    /// The number of a path that has one.
    pub fn get_ino(&self, path: &FsPath) -> (r: Option<u64>)
        ensures
            match r {
                Some(i) => self@.inos.contains_key(path@) && self@.inos[path@] == i,
                None => !self@.inos.contains_key(path@),
            },
    {
        path_ino_table_get(&self.path_to_ino, &path.to_key())
    }
}

/// Handing out a number keeps numbers and paths together one to one, as long as
/// there are numbers left; the number leads back to the path, and every number
/// handed out before still leads where it did.
pub proof fn law_inodes_stable(t: InodeModel, p: PathModel, i: u64)
    requires
        inodes_ok(t),
        t.next_ino < u64::MAX,
    ensures
        inodes_ok(inodes_with(t, p)),
        inodes_with(t, p).paths[ino_for(t, p)] == p,
        ino_for(inodes_with(t, p), p) == ino_for(t, p),
        t.paths.contains_key(i) ==> inodes_with(t, p).paths.contains_key(i) && inodes_with(t, p).paths[i]
            == t.paths[i],
{
}

/// No two paths share a number.
pub proof fn law_inodes_distinct(t: InodeModel, p: PathModel, q: PathModel)
    requires
        inodes_ok(t),
        t.inos.contains_key(p),
        t.inos.contains_key(q),
        t.inos[p] == t.inos[q],
    ensures
        p == q,
{
}

} // verus!
