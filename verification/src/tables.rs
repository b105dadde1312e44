//! The concurrent hash tables of the `dashmap` crate that the stores are built on.
//!
//! Each table gets a name for what it holds, as a map over paths, numbers and
//! entries, and one function per operation that the stores need.

use crate::path::{copy_key, key_model, PathKey, PathModel};
use crate::syncing::proto::{EntryModel, FuseEntry};
use dashmap::DashMap;
use vstd::prelude::*;

verus! {

/// `dashmap::DashMap`, carried as an opaque value.
#[verifier::external_type_specification]
#[verifier::external_body]
#[verifier::reject_recursive_types(K)]
#[verifier::reject_recursive_types(V)]
#[verifier::reject_recursive_types(S)]
pub struct ExDashMap<K, V, S>(dashmap::DashMap<K, V, S>);

/// A row of a path table: another path and how many levels away it is.
pub type Row = (PathKey, u32);

/// What a row is.
pub type RowModel = (PathModel, u32);

/// A table from paths to rows.
pub type RowTable = DashMap<PathKey, Vec<Row>>;

/// What a row table holds.
pub type RowTableModel = Map<PathModel, Seq<RowModel>>;

/// A table from paths to entries.
pub type EntryTable = DashMap<PathKey, FuseEntry>;

/// What an entry table holds.
pub type EntryTableModel = Map<PathModel, EntryModel>;

/// What a row is.
pub open spec fn row_model(r: Row) -> RowModel {
    (key_model(r.0), r.1)
}

/// What a list of rows is.
pub open spec fn row_models(v: Seq<Row>) -> Seq<RowModel> {
    Seq::new(v.len(), |i: int| row_model(v[i]))
}

/// Copies a list of rows.
pub fn copy_rows(v: &Vec<Row>) -> (r: Vec<Row>)
    ensures
        row_models(r@) == row_models(v@),
{
    let mut r: Vec<Row> = Vec::new();
    let mut i: usize = 0;
    while i < v.len()
        invariant
            i <= v.len(),
            r.len() == i,
            forall|k: int| 0 <= k < i ==> row_model(#[trigger] r@[k]) == row_model(v@[k]),
        decreases v.len() - i,
    {
        r.push((copy_key(&v[i].0), v[i].1));
        i = i + 1;
    }
    assert(row_models(r@) =~= row_models(v@));
    r
}

/// What a table from paths to rows holds.
pub uninterp spec fn rows_in(m: RowTable) -> RowTableModel;

/// `DashMap::new`: a table that holds nothing.
#[verifier::external_body]
pub(crate) fn row_table_new() -> (m: RowTable)
    ensures
        rows_in(m) == RowTableModel::empty(),
{
    DashMap::new()
}

/// `DashMap::contains_key`: whether the table holds the key.
#[verifier::external_body]
pub(crate) fn row_table_contains(m: &RowTable, k: &PathKey) -> (r: bool)
    ensures
        r == rows_in(*m).contains_key(key_model(*k)),
{
    m.contains_key(k)
}

/// `DashMap::view`: a copy of the rows under the key, where the table holds it.
#[verifier::external_body]
pub(crate) fn row_table_get(m: &RowTable, k: &PathKey) -> (r: Option<Vec<Row>>)
    ensures
        r is Some <==> rows_in(*m).contains_key(key_model(*k)),
        r is Some ==> row_models(r->0@) == rows_in(*m)[key_model(*k)],
{
    m.view(k, |_k, v| copy_rows(v))
}

/// `DashMap::insert`: the key now leads to the rows, whatever it led to before.
#[verifier::external_body]
pub(crate) fn row_table_insert(m: &mut RowTable, k: PathKey, v: Vec<Row>)
    ensures
        rows_in(*final(m)) == rows_in(*old(m)).insert(key_model(k), row_models(v@)),
{
    m.insert(k, v);
}

/// `DashMap::remove`: the key is gone, and its rows are handed out.
#[verifier::external_body]
pub(crate) fn row_table_remove(m: &mut RowTable, k: &PathKey) -> (r: Option<Vec<Row>>)
    ensures
        rows_in(*final(m)) == rows_in(*old(m)).remove(key_model(*k)),
        r is Some <==> rows_in(*old(m)).contains_key(key_model(*k)),
        r is Some ==> row_models(r->0@) == rows_in(*old(m))[key_model(*k)],
{
    m.remove(k).map(|kv| kv.1)
}

/// `DashMap::clear`: nothing is left.
#[verifier::external_body]
pub(crate) fn row_table_clear(m: &mut RowTable)
    ensures
        rows_in(*final(m)) == RowTableModel::empty(),
{
    m.clear()
}

/// Whether a list holds each key of a row table once, with its rows.
pub open spec fn lists_rows(v: Seq<(PathKey, Vec<Row>)>, m: RowTableModel) -> bool {
    &&& forall|i: int, j: int|
        0 <= i < j < v.len() ==> key_model(#[trigger] v[i].0) != key_model(#[trigger] v[j].0)
    &&& forall|i: int|
        0 <= i < v.len() ==> m.contains_key(key_model(#[trigger] v[i].0)) && m[key_model(v[i].0)]
            == row_models(v[i].1@)
    &&& forall|p: PathModel| #[trigger]
        m.contains_key(p) ==> exists|i: int|
            0 <= i < v.len() && key_model(#[trigger] v[i].0) == p
}

/// `DashMap::iter`: every key once, in no particular order, with a copy of its rows.
#[verifier::external_body]
pub(crate) fn row_table_pairs(m: &RowTable) -> (r: Vec<(PathKey, Vec<Row>)>)
    ensures
        lists_rows(r@, rows_in(*m)),
{
    m.iter().map(|e| (copy_key(e.key()), copy_rows(e.value()))).collect()
}

/// What a table from paths to entries holds.
pub uninterp spec fn entries_in(m: EntryTable) -> EntryTableModel;

/// `DashMap::new`: a table that holds nothing.
#[verifier::external_body]
pub(crate) fn entry_table_new() -> (m: EntryTable)
    ensures
        entries_in(m) == EntryTableModel::empty(),
{
    DashMap::new()
}

/// `DashMap::view`: a copy of the entry under the key, where the table holds it.
#[verifier::external_body]
pub(crate) fn entry_table_get(m: &EntryTable, k: &PathKey) -> (r: Option<FuseEntry>)
    ensures
        r is Some <==> entries_in(*m).contains_key(key_model(*k)),
        r is Some ==> r->0@ == entries_in(*m)[key_model(*k)],
{
    m.view(k, |_k, v| v.copy())
}

/// `DashMap::insert`: the key now leads to the entry, whatever it led to before.
#[verifier::external_body]
pub(crate) fn entry_table_insert(m: &mut EntryTable, k: PathKey, v: FuseEntry)
    ensures
        entries_in(*final(m)) == entries_in(*old(m)).insert(key_model(k), v@),
{
    m.insert(k, v);
}

/// `DashMap::remove`: the key is gone, and its entry is handed out.
#[verifier::external_body]
pub(crate) fn entry_table_remove(m: &mut EntryTable, k: &PathKey) -> (r: Option<FuseEntry>)
    ensures
        entries_in(*final(m)) == entries_in(*old(m)).remove(key_model(*k)),
        r is Some <==> entries_in(*old(m)).contains_key(key_model(*k)),
        r is Some ==> r->0@ == entries_in(*old(m))[key_model(*k)],
{
    m.remove(k).map(|kv| kv.1)
}

/// Whether a list holds each key of an entry table once, with its entry.
pub open spec fn lists_entries(v: Seq<(PathKey, FuseEntry)>, m: EntryTableModel) -> bool {
    &&& forall|i: int, j: int|
        0 <= i < j < v.len() ==> key_model(#[trigger] v[i].0) != key_model(#[trigger] v[j].0)
    &&& forall|i: int|
        0 <= i < v.len() ==> m.contains_key(key_model(#[trigger] v[i].0)) && m[key_model(v[i].0)]
            == v[i].1@
    &&& forall|p: PathModel| #[trigger]
        m.contains_key(p) ==> exists|i: int|
            0 <= i < v.len() && key_model(#[trigger] v[i].0) == p
}

/// `DashMap::iter`: every key once, in no particular order, with a copy of its entry.
#[verifier::external_body]
pub(crate) fn entry_table_pairs(m: &EntryTable) -> (r: Vec<(PathKey, FuseEntry)>)
    ensures
        lists_entries(r@, entries_in(*m)),
{
    m.iter().map(|e| (copy_key(e.key()), e.value().copy())).collect()
}

/// A table from inode numbers to paths.
pub type InoTable = DashMap<u64, PathKey>;

/// What a table from inode numbers to paths holds.
pub type InoTableModel = Map<u64, PathModel>;

/// A table from paths to numbers.
pub type PathInoTable = DashMap<PathKey, u64>;

/// What a table from paths to numbers holds.
pub type PathInoTableModel = Map<PathModel, u64>;

/// What a table from inode numbers to paths holds.
pub uninterp spec fn paths_in(m: InoTable) -> InoTableModel;

/// What a table from paths to numbers holds.
pub uninterp spec fn inos_in(m: PathInoTable) -> PathInoTableModel;

/// `DashMap::new`: a table that holds nothing.
#[verifier::external_body]
pub(crate) fn ino_table_new() -> (m: InoTable)
    ensures
        paths_in(m) == InoTableModel::empty(),
{
    DashMap::new()
}

/// `DashMap::view`: a copy of the path under the number, where the table holds it.
#[verifier::external_body]
pub(crate) fn ino_table_get(m: &InoTable, k: u64) -> (r: Option<PathKey>)
    ensures
        r is Some <==> paths_in(*m).contains_key(k),
        r is Some ==> key_model(r->0) == paths_in(*m)[k],
{
    m.view(&k, |_k, v| copy_key(v))
}

/// `DashMap::insert`: the number now leads to the path, whatever it led to before.
#[verifier::external_body]
pub(crate) fn ino_table_insert(m: &mut InoTable, k: u64, v: PathKey)
    ensures
        paths_in(*final(m)) == paths_in(*old(m)).insert(k, key_model(v)),
{
    m.insert(k, v);
}

/// `DashMap::new`: a table that holds nothing.
#[verifier::external_body]
pub(crate) fn path_ino_table_new() -> (m: PathInoTable)
    ensures
        inos_in(m) == PathInoTableModel::empty(),
{
    DashMap::new()
}

/// `DashMap::get`: the number under the path, where the table holds it.
#[verifier::external_body]
pub(crate) fn path_ino_table_get(m: &PathInoTable, k: &PathKey) -> (r: Option<u64>)
    ensures
        r is Some <==> inos_in(*m).contains_key(key_model(*k)),
        r is Some ==> r->0 == inos_in(*m)[key_model(*k)],
{
    m.get(k).map(|v| *v)
}

/// `DashMap::insert`: the path now leads to the number, whatever it led to before.
#[verifier::external_body]
pub(crate) fn path_ino_table_insert(m: &mut PathInoTable, k: PathKey, v: u64)
    ensures
        inos_in(*final(m)) == inos_in(*old(m)).insert(key_model(k), v),
{
    m.insert(k, v);
}

} // verus!
