//! The tree of the paths that the sandbox knows, kept as a transitive closure:
//! for every path, all the paths above it and all the paths below it.

use crate::path::{
    component_count, copy_key, depth_of, key_model, path_prefix, path_views, FsPath, PathKey,
    PathModel,
};
use crate::tables::{
    lists_rows, row_model, row_models, row_table_clear, row_table_contains, row_table_get,
    row_table_insert, row_table_new, row_table_pairs, row_table_remove, rows_in, Row, RowModel,
    RowTable, RowTableModel,
};
use vstd::prelude::*;

verus! {

/// The three indexes of the tree: the paths below each path, the paths above
/// each path, and the direct children of each path.
#[verifier::ext_equal]
pub struct TreeModel {
    pub by_ancestor: RowTableModel,
    pub by_descendant: RowTableModel,
    pub by_parent: RowTableModel,
}

/// A closure row: a path, a path below it, and the levels between them.
pub type ClosureRow = (PathModel, PathModel, u32);

/// The tree without any path.
pub open spec fn empty_tree() -> TreeModel {
    TreeModel {
        by_ancestor: RowTableModel::empty(),
        by_descendant: RowTableModel::empty(),
        by_parent: RowTableModel::empty(),
    }
}

/// The rows under a key; none where the key is missing.
pub open spec fn rows_at(m: RowTableModel, k: PathModel) -> Seq<RowModel> {
    if m.contains_key(k) {
        m[k]
    } else {
        Seq::empty()
    }
}

/// How many levels `p` lies below `a`.
pub open spec fn distance(p: PathModel, a: PathModel) -> u32 {
    (depth_of(p.1) - depth_of(a.1)) as u32
}

/// The path itself, its parent, and so on up; the empty path is left out.
pub open spec fn ancestor_at(p: PathModel, i: int) -> PathModel {
    path_prefix(p, p.1.len() - i)
}

/// The path and the paths above it, each with its distance.
pub open spec fn ancestor_rows(p: PathModel) -> Seq<RowModel> {
    Seq::new(
        component_count(p),
        |i: int| (ancestor_at(p, i), distance(p, ancestor_at(p, i))),
    )
}

/// A table with one more row under a key.
pub open spec fn push_row(m: RowTableModel, k: PathModel, row: RowModel) -> RowTableModel {
    m.insert(k, rows_at(m, k).push(row))
}

/// The tree with one more closure row.
pub open spec fn with_row(t: TreeModel, a: PathModel, d: PathModel, dist: u32) -> TreeModel {
    TreeModel {
        by_ancestor: push_row(t.by_ancestor, a, (d, dist)),
        by_descendant: push_row(t.by_descendant, d, (a, dist)),
        by_parent: if dist == 1 {
            push_row(t.by_parent, a, (d, dist))
        } else {
            t.by_parent
        },
    }
}

/// The tree with rows from each of `rows` to `d`.
pub open spec fn with_rows(t: TreeModel, d: PathModel, rows: Seq<RowModel>) -> TreeModel
    decreases rows.len(),
{
    if rows.len() == 0 {
        t
    } else {
        with_row(with_rows(t, d, rows.drop_last()), rows.last().0, d, rows.last().1)
    }
}

/// Whether the tree knows a path.
pub open spec fn known(t: TreeModel, p: PathModel) -> bool {
    t.by_descendant.contains_key(p)
}

/// The tree with `p`, where it was missing, below the paths that lead to it.
pub open spec fn with_path(t: TreeModel, p: PathModel) -> TreeModel {
    if known(t, p) {
        t
    } else {
        with_rows(t, p, ancestor_rows(p))
    }
}

/// The tree with the `j` shortest of the paths that lead to `p`.
pub open spec fn with_prefixes(t: TreeModel, p: PathModel, j: nat) -> TreeModel
    decreases j,
{
    if j == 0 {
        t
    } else {
        with_path(
            with_prefixes(t, p, (j - 1) as nat),
            ancestor_at(p, component_count(p) - j),
        )
    }
}

/// The tree with `p` and every path that leads to it.
pub open spec fn tree_insert(t: TreeModel, p: PathModel) -> TreeModel {
    with_prefixes(t, p, component_count(p))
}

/// The tree with every path of a list, taken in order.
pub open spec fn tree_insert_all(t: TreeModel, s: Seq<PathModel>) -> TreeModel
    decreases s.len(),
{
    if s.len() == 0 {
        t
    } else {
        tree_insert(tree_insert_all(t, s.drop_last()), s.last())
    }
}

/// The rows that lead to another path than `victim`.
pub open spec fn rows_without(rows: Seq<RowModel>, victim: PathModel) -> Seq<RowModel>
    decreases rows.len(),
{
    if rows.len() == 0 {
        Seq::empty()
    } else {
        let init = rows_without(rows.drop_last(), victim);
        if rows.last().0 != victim {
            init.push(rows.last())
        } else {
            init
        }
    }
}

/// A table without the rows from `k` to `victim`; a key with no row left goes.
pub open spec fn drop_row(m: RowTableModel, k: PathModel, victim: PathModel) -> RowTableModel {
    if m.contains_key(k) {
        let rest = rows_without(m[k], victim);
        if rest.len() == 0 {
            m.remove(k)
        } else {
            m.insert(k, rest)
        }
    } else {
        m
    }
}

/// A table without the rows from any of `rows` to `victim`.
pub open spec fn drop_rows(
    m: RowTableModel,
    rows: Seq<RowModel>,
    victim: PathModel,
) -> RowTableModel
    decreases rows.len(),
{
    if rows.len() == 0 {
        m
    } else {
        drop_row(drop_rows(m, rows.drop_last(), victim), rows.last().0, victim)
    }
}

/// The tree without one path.
pub open spec fn without_one(t: TreeModel, p: PathModel) -> TreeModel {
    let above = rows_at(t.by_descendant, p);
    TreeModel {
        by_ancestor: drop_rows(t.by_ancestor, above, p).remove(p),
        by_descendant: t.by_descendant.remove(p),
        by_parent: drop_rows(t.by_parent, above, p).remove(p),
    }
}

/// The tree without the paths of a list, taken in order.
pub open spec fn without_all(t: TreeModel, s: Seq<PathModel>) -> TreeModel
    decreases s.len(),
{
    if s.len() == 0 {
        t
    } else {
        without_one(without_all(t, s.drop_last()), s.last())
    }
}

/// The paths of rows.
pub open spec fn row_paths(rows: Seq<RowModel>) -> Seq<PathModel> {
    Seq::new(rows.len(), |i: int| rows[i].0)
}

/// The paths of the rows with a distance.
pub open spec fn far_paths(rows: Seq<RowModel>) -> Seq<PathModel>
    decreases rows.len(),
{
    if rows.len() == 0 {
        Seq::empty()
    } else {
        let init = far_paths(rows.drop_last());
        if rows.last().1 > 0 {
            init.push(rows.last().0)
        } else {
            init
        }
    }
}

/// The direct children of a path.
pub open spec fn tree_children(t: TreeModel, p: PathModel) -> Seq<PathModel> {
    row_paths(rows_at(t.by_parent, p))
}

/// The paths below a path.
pub open spec fn tree_descendants(t: TreeModel, p: PathModel) -> Seq<PathModel> {
    far_paths(rows_at(t.by_ancestor, p))
}

/// The paths above a path.
pub open spec fn tree_ancestors(t: TreeModel, p: PathModel) -> Seq<PathModel> {
    far_paths(rows_at(t.by_descendant, p))
}

/// A known path and the paths below it.
pub open spec fn tree_subtree(t: TreeModel, p: PathModel) -> Seq<PathModel> {
    if known(t, p) {
        seq![p] + tree_descendants(t, p)
    } else {
        Seq::empty()
    }
}

/// The paths of a list that have `k` components, the root counted as one.
pub open spec fn of_count(s: Seq<PathModel>, k: int) -> Seq<PathModel>
    decreases s.len(),
{
    if s.len() == 0 {
        Seq::empty()
    } else {
        let init = of_count(s.drop_last(), k);
        if component_count(s.last()) == k {
            init.push(s.last())
        } else {
            init
        }
    }
}

/// The paths of a list with at most `k` components, those with more first;
/// among equals the order stays.
pub open spec fn counts_down(s: Seq<PathModel>, k: int) -> Seq<PathModel>
    decreases k + 1,
{
    if k < 0 {
        Seq::empty()
    } else {
        of_count(s, k) + counts_down(s, k - 1)
    }
}

/// The largest component count in a list.
pub open spec fn max_count(s: Seq<PathModel>) -> nat
    decreases s.len(),
{
    if s.len() == 0 {
        0
    } else {
        let rest = max_count(s.drop_last());
        if component_count(s.last()) > rest {
            component_count(s.last())
        } else {
            rest
        }
    }
}

/// A list in the order in which it is removed: longer paths first.
pub open spec fn deepest_first(s: Seq<PathModel>) -> Seq<PathModel> {
    counts_down(s, max_count(s) as int)
}

/// The tree without a path and everything below it.
pub open spec fn tree_remove(t: TreeModel, p: PathModel) -> TreeModel {
    without_all(t, deepest_first(tree_subtree(t, p)))
}

/// The paths of a list that are `k` names deep.
pub open spec fn of_depth(s: Seq<PathModel>, k: int) -> Seq<PathModel>
    decreases s.len(),
{
    if s.len() == 0 {
        Seq::empty()
    } else {
        let init = of_depth(s.drop_last(), k);
        if depth_of(s.last().1) == k {
            init.push(s.last())
        } else {
            init
        }
    }
}

/// The paths of a list less than `k` names deep, shallow ones first; among
/// equals the order stays.
pub open spec fn depths_up(s: Seq<PathModel>, k: nat) -> Seq<PathModel>
    decreases k,
{
    if k == 0 {
        Seq::empty()
    } else {
        depths_up(s, (k - 1) as nat) + of_depth(s, k - 1)
    }
}

/// The largest depth in a list.
pub open spec fn max_depth(s: Seq<PathModel>) -> nat
    decreases s.len(),
{
    if s.len() == 0 {
        0
    } else {
        let rest = max_depth(s.drop_last());
        if depth_of(s.last().1) > rest {
            depth_of(s.last().1)
        } else {
            rest
        }
    }
}

/// A list in the order in which it is inserted: shallow paths first.
pub open spec fn shallowest_first(s: Seq<PathModel>) -> Seq<PathModel> {
    depths_up(s, max_depth(s) + 1)
}

/// The rows below `a` in a list of closure rows.
pub open spec fn rows_below(rows: Seq<ClosureRow>, a: PathModel) -> Seq<RowModel>
    decreases rows.len(),
{
    if rows.len() == 0 {
        Seq::empty()
    } else {
        let init = rows_below(rows.drop_last(), a);
        if rows.last().0 == a {
            init.push((rows.last().1, rows.last().2))
        } else {
            init
        }
    }
}

/// The tree that a list of closure rows builds.
pub open spec fn tree_of_rows(rows: Seq<ClosureRow>) -> TreeModel
    decreases rows.len(),
{
    if rows.len() == 0 {
        empty_tree()
    } else {
        with_row(
            tree_of_rows(rows.drop_last()),
            rows.last().0,
            rows.last().1,
            rows.last().2,
        )
    }
}

/// What a list of closure rows is.
pub open spec fn closure_views(v: Seq<(FsPath, FsPath, u32)>) -> Seq<ClosureRow> {
    Seq::new(v.len(), |i: int| (v[i].0@, v[i].1@, v[i].2))
}

/// A directory's depth is at most that of a path it leads to.
pub proof fn lemma_depth_take(names: Seq<Seq<u8>>, k: int)
    requires
        0 <= k <= names.len(),
    ensures
        depth_of(names.take(k)) <= depth_of(names) <= names.len(),
    decreases names.len(),
{
    if names.len() > 0 {
        if k == names.len() {
            assert(names.take(k) =~= names);
            lemma_depth_take(names.drop_last(), k - 1);
        } else {
            lemma_depth_take(names.drop_last(), k);
            assert(names.drop_last().take(k) =~= names.take(k));
        }
    }
}

/// Adds one row under a key of a table.
fn table_push(m: &mut RowTable, k: &PathKey, row: Row)
    ensures
        rows_in(*final(m)) == push_row(rows_in(*old(m)), key_model(*k), row_model(row)),
{
    let mut rows: Vec<Row> = match row_table_remove(m, k) {
        Some(rows) => rows,
        None => Vec::new(),
    };
    let ghost before = rows@;
    proof {
        assert(row_models(before) =~= rows_at(rows_in(*old(m)), key_model(*k)));
    }
    rows.push(row);
    proof {
        assert(row_models(rows@) =~= row_models(before).push(row_model(row)));
    }
    row_table_insert(m, copy_key(k), rows);
    proof {
        assert(rows_in(*m) =~= push_row(rows_in(*old(m)), key_model(*k), row_model(row)));
    }
}

/// Whether two table keys are the same path.
fn same_key(a: &PathKey, b: &PathKey) -> (r: bool)
    ensures
        r == (key_model(*a) == key_model(*b)),
{
    a.0 == b.0 && crate::bytes::same_byte_lists(&a.1, &b.1)
}

/// The rows that lead to another path than `victim`.
fn keep_others(rows: &Vec<Row>, victim: &PathKey) -> (r: Vec<Row>)
    ensures
        row_models(r@) == rows_without(row_models(rows@), key_model(*victim)),
{
    let mut kept: Vec<Row> = Vec::new();
    let mut i: usize = 0;
    while i < rows.len()
        invariant
            i <= rows.len(),
            row_models(kept@) =~= rows_without(row_models(rows@).take(i as int), key_model(*victim)),
        decreases rows.len() - i,
    {
        let ghost before = kept@;
        proof {
            assert(row_models(rows@).take(i + 1).drop_last() =~= row_models(rows@).take(i as int));
        }
        if !same_key(&rows[i].0, victim) {
            kept.push((copy_key(&rows[i].0), rows[i].1));
            proof {
                assert(row_models(kept@) =~= row_models(before).push(row_model(rows@[i as int])));
            }
        }
        i = i + 1;
    }
    proof {
        assert(row_models(rows@).take(rows@.len() as int) =~= row_models(rows@));
    }
    kept
}

/// Drops the rows from `k` to `victim`.
fn table_drop(m: &mut RowTable, k: &PathKey, victim: &PathKey)
    ensures
        rows_in(*final(m)) == drop_row(rows_in(*old(m)), key_model(*k), key_model(*victim)),
{
    match row_table_remove(m, k) {
        Some(rows) => {
            let kept = keep_others(&rows, victim);
            proof {
                assert(row_models(kept@).len() == kept@.len());
            }
            if kept.len() > 0 {
                row_table_insert(m, copy_key(k), kept);
                proof {
                    assert(rows_in(*m) =~= drop_row(
                        rows_in(*old(m)),
                        key_model(*k),
                        key_model(*victim),
                    ));
                }
            }
        },
        None => {
            proof {
                assert(rows_in(*m) =~= rows_in(*old(m)));
            }
        },
    }
}

/// The paths of rows.
fn paths_of_rows(rows: &Vec<Row>) -> (r: Vec<FsPath>)
    ensures
        path_views(r@) == row_paths(row_models(rows@)),
{
    let mut paths: Vec<FsPath> = Vec::new();
    let mut i: usize = 0;
    while i < rows.len()
        invariant
            i <= rows.len(),
            paths.len() == i,
            forall|k: int| 0 <= k < i ==> (#[trigger] paths@[k])@ == key_model(rows@[k].0),
        decreases rows.len() - i,
    {
        paths.push(FsPath::from_key(copy_key(&rows[i].0)));
        i = i + 1;
    }
    assert(path_views(paths@) =~= row_paths(row_models(rows@)));
    paths
}

/// The paths of the rows with a distance.
fn far_paths_of_rows(rows: &Vec<Row>) -> (r: Vec<FsPath>)
    ensures
        path_views(r@) == far_paths(row_models(rows@)),
{
    let mut paths: Vec<FsPath> = Vec::new();
    let mut i: usize = 0;
    while i < rows.len()
        invariant
            i <= rows.len(),
            path_views(paths@) =~= far_paths(row_models(rows@).take(i as int)),
        decreases rows.len() - i,
    {
        let ghost before = paths@;
        proof {
            assert(row_models(rows@).take(i + 1).drop_last() =~= row_models(rows@).take(i as int));
        }
        if rows[i].1 > 0 {
            paths.push(FsPath::from_key(copy_key(&rows[i].0)));
            proof {
                assert(path_views(paths@) =~= path_views(before).push(key_model(rows@[i as int].0)));
            }
        }
        i = i + 1;
    }
    proof {
        assert(row_models(rows@).take(rows@.len() as int) =~= row_models(rows@));
    }
    paths
}

/// A list with longer paths first; among equals the order stays.
fn sort_deepest_first(paths: &Vec<FsPath>) -> (r: Vec<FsPath>)
    ensures
        path_views(r@) == deepest_first(path_views(paths@)),
{
    let ghost s = path_views(paths@);
    let mut most: usize = 0;
    let mut most_rooted: bool = false;
    let mut i: usize = 0;
    while i < paths.len()
        invariant
            i <= paths.len(),
            s == path_views(paths@),
            most + (if most_rooted { 1int } else { 0int }) == max_count(s.take(i as int)),
        decreases paths.len() - i,
    {
        proof {
            assert(s.take(i + 1).drop_last() =~= s.take(i as int));
            assert(s.take(i + 1).last() == paths@[i as int]@);
        }
        let n = paths[i].name_count();
        let rooted = paths[i].is_absolute();
        if n > most && n - most == 1 && !rooted && most_rooted {
        } else if n > most || (n == most && rooted && !most_rooted) {
            most = n;
            most_rooted = rooted;
        }
        i = i + 1;
    }
    proof {
        assert(s.take(s.len() as int) =~= s);
    }
    let mut sorted: Vec<FsPath> = Vec::new();
    let mut names: usize = most;
    let mut rooted: bool = most_rooted;
    let mut done: bool = false;
    proof {
        assert(path_views(sorted@) =~= Seq::<PathModel>::empty());
    }
    while !done
        invariant
            s == path_views(paths@),
            !done ==> path_views(sorted@) + counts_down(
                s,
                names + (if rooted { 1int } else { 0int }),
            ) =~= deepest_first(s),
            done ==> path_views(sorted@) =~= deepest_first(s),
        decreases names + (if rooted { 1int } else { 0int }) + (if done { 0int } else { 1int }),
    {
        let ghost k = names + (if rooted { 1int } else { 0int });
        let ghost start = path_views(sorted@);
        let mut j: usize = 0;
        proof {
            assert(s.take(0) =~= Seq::<PathModel>::empty());
            assert(start + of_count(s.take(0), k) =~= start);
        }
        while j < paths.len()
            invariant
                j <= paths.len(),
                s == path_views(paths@),
                k == names + (if rooted { 1int } else { 0int }),
                path_views(sorted@) =~= start + of_count(s.take(j as int), k),
            decreases paths.len() - j,
        {
            let ghost before = path_views(sorted@);
            proof {
                assert(s.take(j + 1).drop_last() =~= s.take(j as int));
                assert(s.take(j + 1).last() == paths@[j as int]@);
            }
            if has_count(&paths[j], names, rooted) {
                let ghost before_v = sorted@;
                sorted.push(paths[j].copy());
                proof {
                    assert(path_views(sorted@) =~= before.push(paths@[j as int]@));
                }
            }
            j = j + 1;
        }
        proof {
            assert(s.take(s.len() as int) =~= s);
            assert(path_views(sorted@) =~= start + of_count(s, k));
            assert(start + counts_down(s, k) =~= (start + of_count(s, k)) + counts_down(s, k - 1));
        }
        if rooted {
            rooted = false;
        } else if names > 0 {
            names = names - 1;
        } else {
            done = true;
            proof {
                assert(counts_down(s, -1) =~= Seq::<PathModel>::empty());
            }
        }
    }
    sorted
}

/// Whether a path has as many components as a path of `names` names that is
/// rooted or not.
fn has_count(p: &FsPath, names: usize, rooted: bool) -> (r: bool)
    ensures
        r == (component_count(p@) == names + (if rooted { 1int } else { 0int })),
{
    let n = p.name_count();
    if p.is_absolute() == rooted {
        n == names
    } else if rooted {
        n > names && n - names == 1
    } else {
        names > n && names - n == 1
    }
}

/// A list with shallow paths first; among equals the order stays.
fn sort_shallowest_first(paths: &Vec<FsPath>) -> (r: Vec<FsPath>)
    ensures
        path_views(r@) == shallowest_first(path_views(paths@)),
{
    let ghost s = path_views(paths@);
    let mut most: usize = 0;
    let mut i: usize = 0;
    while i < paths.len()
        invariant
            i <= paths.len(),
            s == path_views(paths@),
            most == max_depth(s.take(i as int)),
        decreases paths.len() - i,
    {
        proof {
            assert(s.take(i + 1).drop_last() =~= s.take(i as int));
            assert(s.take(i + 1).last() == paths@[i as int]@);
        }
        let d = paths[i].depth();
        if d > most {
            most = d;
        }
        i = i + 1;
    }
    proof {
        assert(s.take(s.len() as int) =~= s);
    }
    let mut sorted: Vec<FsPath> = Vec::new();
    let mut k: usize = 0;
    let mut done: bool = false;
    proof {
        assert(path_views(sorted@) =~= depths_up(s, 0));
    }
    while !done
        invariant
            s == path_views(paths@),
            k <= most,
            most == max_depth(s),
            !done ==> path_views(sorted@) =~= depths_up(s, k as nat),
            done ==> path_views(sorted@) =~= shallowest_first(s),
        decreases most - k + (if done { 0int } else { 1int }),
    {
        let ghost start = path_views(sorted@);
        let mut j: usize = 0;
        proof {
            assert(s.take(0) =~= Seq::<PathModel>::empty());
            assert(start + of_depth(s.take(0), k as int) =~= start);
        }
        while j < paths.len()
            invariant
                j <= paths.len(),
                s == path_views(paths@),
                path_views(sorted@) =~= start + of_depth(s.take(j as int), k as int),
            decreases paths.len() - j,
        {
            let ghost before = path_views(sorted@);
            proof {
                assert(s.take(j + 1).drop_last() =~= s.take(j as int));
                assert(s.take(j + 1).last() == paths@[j as int]@);
            }
            if paths[j].depth() == k {
                sorted.push(paths[j].copy());
                proof {
                    assert(path_views(sorted@) =~= before.push(paths@[j as int]@));
                }
            }
            j = j + 1;
        }
        proof {
            assert(s.take(s.len() as int) =~= s);
            assert(path_views(sorted@) =~= depths_up(s, (k + 1) as nat));
        }
        if k < most {
            k = k + 1;
        } else {
            done = true;
        }
    }
    sorted
}

/// The tree of known paths.
pub struct PathTree {
    by_ancestor: RowTable,
    by_descendant: RowTable,
    by_parent: RowTable,
}

impl View for PathTree {
    type V = TreeModel;

    closed spec fn view(&self) -> TreeModel {
        TreeModel {
            by_ancestor: rows_in(self.by_ancestor),
            by_descendant: rows_in(self.by_descendant),
            by_parent: rows_in(self.by_parent),
        }
    }
}

impl PathTree {
    /// A tree that knows no path.
    pub fn new() -> (r: PathTree)
        ensures
            r@ == empty_tree(),
    {
        PathTree {
            by_ancestor: row_table_new(),
            by_descendant: row_table_new(),
            by_parent: row_table_new(),
        }
    }

    /// A tree of the paths of a list, inserted from the shallow ones on.
    pub fn from_paths(paths: &Vec<FsPath>) -> (r: PathTree)
        ensures
            r@ == tree_insert_all(empty_tree(), shallowest_first(path_views(paths@))),
    {
        let sorted = sort_shallowest_first(paths);
        let ghost s = path_views(sorted@);
        let mut tree = PathTree::new();
        let mut i: usize = 0;
        while i < sorted.len()
            invariant
                i <= sorted.len(),
                s == path_views(sorted@),
                tree@ == tree_insert_all(empty_tree(), s.take(i as int)),
            decreases sorted.len() - i,
        {
            proof {
                assert(s.take(i + 1).drop_last() =~= s.take(i as int));
            }
            tree.insert(&sorted[i]);
            i = i + 1;
        }
        proof {
            assert(s.take(s.len() as int) =~= s);
        }
        tree
    }

    /// Whether the tree knows a path.
    pub fn contains(&self, path: &FsPath) -> (r: bool)
        ensures
            r == known(self@, path@),
    {
        row_table_contains(&self.by_descendant, &path.to_key())
    }

    /// Makes the tree know a path and the paths that lead to it.
    pub fn insert(&mut self, path: &FsPath)
        ensures
            final(self)@ == tree_insert(old(self)@, path@),
    {
        let ghost t = self@;
        let n = path.name_count();
        let rooted = path.is_absolute();
        if !rooted && n == 0 {
            return;
        }
        let mut k: usize = if rooted {
            0
        } else {
            1
        };
        let mut done: bool = false;
        let ghost low = k as int;
        while !done
            invariant
                n == path@.1.len(),
                rooted == path@.0,
                low == if rooted { 0int } else { 1int },
                low <= k <= n,
                !done ==> self@ == with_prefixes(t, path@, (k - low) as nat),
                done ==> self@ == tree_insert(t, path@),
            decreases n - k + (if done { 0int } else { 1int }),
        {
            let prefix = path.prefix(k);
            proof {
                let j = k - low + 1;
                assert(component_count(path@) - j == n - k);
                assert(ancestor_at(path@, component_count(path@) - j) == prefix@);
            }
            if !self.contains(&prefix) {
                self.insert_all_rows(&prefix);
            }
            if k < n {
                k = k + 1;
            } else {
                done = true;
            }
        }
    }

    /// Adds the rows from every path that leads to `path`.
    fn insert_all_rows(&mut self, path: &FsPath)
        ensures
            final(self)@ == with_rows(old(self)@, path@, ancestor_rows(path@)),
    {
        let ghost t = self@;
        let ghost rows = ancestor_rows(path@);
        let above = PathTree::ancestors_with_distance(path);
        let mut i: usize = 0;
        while i < above.len()
            invariant
                i <= above.len(),
                rows == row_models(above@),
                self@ == with_rows(t, path@, rows.take(i as int)),
            decreases above.len() - i,
        {
            proof {
                assert(rows.take(i + 1).drop_last() =~= rows.take(i as int));
                assert(rows.take(i + 1).last() == row_model(above@[i as int]));
            }
            self.insert_row(&above[i].0, &path.to_key(), above[i].1);
            i = i + 1;
        }
        proof {
            assert(rows.take(rows.len() as int) =~= rows);
        }
    }

    /// Forgets a path and everything below it; hands out what was forgotten, the
    /// longer paths first.
    pub fn remove(&mut self, path: &FsPath) -> (r: Vec<FsPath>)
        ensures
            final(self)@ == tree_remove(old(self)@, path@),
            path_views(r@) == deepest_first(tree_subtree(old(self)@, path@)),
    {
        let ghost t = self@;
        if !self.contains(path) {
            let none: Vec<FsPath> = Vec::new();
            proof {
                let s = tree_subtree(t, path@);
                assert(s =~= Seq::<PathModel>::empty());
                assert(max_count(s) == 0);
                assert(of_count(s, 0) =~= Seq::<PathModel>::empty());
                assert(counts_down(s, -1) =~= Seq::<PathModel>::empty());
                assert(counts_down(s, 0) =~= Seq::<PathModel>::empty());
                assert(path_views(none@) =~= deepest_first(s));
                assert(without_all(t, deepest_first(s)) == t);
            }
            return none;
        }
        let subtree = sort_deepest_first(&self.subtree_paths(path));
        let ghost s = path_views(subtree@);
        let mut i: usize = 0;
        while i < subtree.len()
            invariant
                i <= subtree.len(),
                s == path_views(subtree@),
                self@ == without_all(t, s.take(i as int)),
            decreases subtree.len() - i,
        {
            proof {
                assert(s.take(i + 1).drop_last() =~= s.take(i as int));
                assert(s.take(i + 1).last() == subtree@[i as int]@);
            }
            self.remove_one(&subtree[i]);
            i = i + 1;
        }
        proof {
            assert(s.take(s.len() as int) =~= s);
        }
        subtree
    }

    /// The direct children of a path.
    pub fn children_of(&self, path: &FsPath) -> (r: Vec<FsPath>)
        ensures
            path_views(r@) == tree_children(self@, path@),
    {
        match row_table_get(&self.by_parent, &path.to_key()) {
            Some(rows) => paths_of_rows(&rows),
            None => {
                let none: Vec<FsPath> = Vec::new();
                assert(path_views(none@) =~= tree_children(self@, path@));
                none
            },
        }
    }

    /// The paths below a path.
    pub fn descendants_of(&self, path: &FsPath) -> (r: Vec<FsPath>)
        ensures
            path_views(r@) == tree_descendants(self@, path@),
    {
        match row_table_get(&self.by_ancestor, &path.to_key()) {
            Some(rows) => far_paths_of_rows(&rows),
            None => {
                let none: Vec<FsPath> = Vec::new();
                assert(path_views(none@) =~= tree_descendants(self@, path@));
                none
            },
        }
    }

    /// The paths above a path.
    pub fn ancestors_of(&self, path: &FsPath) -> (r: Vec<FsPath>)
        ensures
            path_views(r@) == tree_ancestors(self@, path@),
    {
        match row_table_get(&self.by_descendant, &path.to_key()) {
            Some(rows) => far_paths_of_rows(&rows),
            None => {
                let none: Vec<FsPath> = Vec::new();
                assert(path_views(none@) =~= tree_ancestors(self@, path@));
                none
            },
        }
    }

    /// A known path and the paths below it.
    pub fn subtree_paths(&self, path: &FsPath) -> (r: Vec<FsPath>)
        ensures
            path_views(r@) == tree_subtree(self@, path@),
    {
        let mut paths: Vec<FsPath> = Vec::new();
        if !self.contains(path) {
            assert(path_views(paths@) =~= tree_subtree(self@, path@));
            return paths;
        }
        paths.push(path.copy());
        let mut below = self.descendants_of(path);
        let ghost b = below@;
        paths.append(&mut below);
        proof {
            assert(path_views(paths@) =~= seq![path@] + path_views(b));
        }
        paths
    }

    /// Forgets every path.
    pub fn clear(&mut self)
        ensures
            final(self)@ == empty_tree(),
    {
        row_table_clear(&mut self.by_ancestor);
        row_table_clear(&mut self.by_descendant);
        row_table_clear(&mut self.by_parent);
    }

    /// The closure rows of the tree: for each path, the rows below it in the order
    /// in which they came; the paths in no particular order.
    pub fn rows(&self) -> (r: Vec<(FsPath, FsPath, u32)>)
        ensures
            forall|a: PathModel| #[trigger]
                rows_below(closure_views(r@), a) == rows_at(self@.by_ancestor, a),
    {
        let pairs = row_table_pairs(&self.by_ancestor);
        let mut out: Vec<(FsPath, FsPath, u32)> = Vec::new();
        let mut i: usize = 0;
        while i < pairs.len()
            invariant
                i <= pairs.len(),
                forall|a: PathModel| #[trigger]
                    rows_below(closure_views(out@), a) =~= pairs_below(pairs@.take(i as int), a),
            decreases pairs.len() - i,
        {
            let ghost start = out@;
            let rows = &pairs[i].1;
            let mut j: usize = 0;
            proof {
                assert forall|a: PathModel| #[trigger]
                    rows_below(closure_views(out@), a) =~= rows_below(closure_views(start), a)
                        + if key_model(pairs@[i as int].0) == a {
                        row_models(rows@).take(0)
                    } else {
                        Seq::empty()
                    } by {}
            }
            while j < rows.len()
                invariant
                    i < pairs.len(),
                    rows == pairs@[i as int].1,
                    j <= rows.len(),
                    forall|a: PathModel| #[trigger]
                        rows_below(closure_views(out@), a) =~= rows_below(closure_views(start), a)
                            + if key_model(pairs@[i as int].0) == a {
                            row_models(rows@).take(j as int)
                        } else {
                            Seq::empty()
                        },
                decreases rows.len() - j,
            {
                let ghost before = out@;
                out.push(
                    (
                        FsPath::from_key(copy_key(&pairs[i].0)),
                        FsPath::from_key(copy_key(&rows[j].0)),
                        rows[j].1,
                    ),
                );
                proof {
                    let c = closure_views(out@);
                    assert(c.drop_last() =~= closure_views(before));
                    assert forall|a: PathModel| #[trigger]
                        rows_below(c, a) =~= rows_below(closure_views(start), a)
                            + if key_model(pairs@[i as int].0) == a {
                            row_models(rows@).take(j + 1)
                        } else {
                            Seq::empty()
                        } by {
                        assert(rows_below(closure_views(before), a) =~= rows_below(closure_views(start), a)
                            + if key_model(pairs@[i as int].0) == a {
                            row_models(rows@).take(j as int)
                        } else {
                            Seq::empty()
                        });
                        assert(row_models(rows@).take(j + 1) =~= row_models(rows@).take(j as int).push(
                            row_model(rows@[j as int]),
                        ));
                    }
                }
                j = j + 1;
            }
            proof {
                assert(pairs@.take(i + 1).drop_last() =~= pairs@.take(i as int));
                assert(row_models(rows@).take(rows@.len() as int) =~= row_models(rows@));
                assert forall|a: PathModel| #[trigger]
                    rows_below(closure_views(out@), a) =~= pairs_below(pairs@.take(i + 1), a) by {
                    assert(rows_below(closure_views(start), a) =~= pairs_below(pairs@.take(i as int), a));
                }
            }
            i = i + 1;
        }
        proof {
            assert(pairs@.take(pairs@.len() as int) =~= pairs@);
            assert forall|a: PathModel| #[trigger]
                rows_below(closure_views(out@), a) == rows_at(self@.by_ancestor, a) by {
                lemma_pairs_below(pairs@, self@.by_ancestor, a);
            }
        }
        out
    }

    /// Adds one closure row.
    fn insert_row(&mut self, ancestor: &PathKey, descendant: &PathKey, distance: u32)
        ensures
            final(self)@ == with_row(
                old(self)@,
                key_model(*ancestor),
                key_model(*descendant),
                distance,
            ),
    {
        table_push(&mut self.by_ancestor, ancestor, (copy_key(descendant), distance));
        table_push(&mut self.by_descendant, descendant, (copy_key(ancestor), distance));
        if distance == 1 {
            table_push(&mut self.by_parent, ancestor, (copy_key(descendant), distance));
        }
    }

    /// Forgets one path.
    fn remove_one(&mut self, path: &FsPath)
        ensures
            final(self)@ == without_one(old(self)@, path@),
    {
        let ghost t = self@;
        let key = path.to_key();
        match row_table_remove(&mut self.by_descendant, &key) {
            Some(above) => {
                let ghost rows = row_models(above@);
                let mut i: usize = 0;
                while i < above.len()
                    invariant
                        i <= above.len(),
                        rows == row_models(above@),
                        path@ == key_model(key),
                        rows_in(self.by_descendant) == t.by_descendant.remove(path@),
                        rows_in(self.by_ancestor) == drop_rows(
                            t.by_ancestor,
                            rows.take(i as int),
                            path@,
                        ),
                        rows_in(self.by_parent) == drop_rows(
                            t.by_parent,
                            rows.take(i as int),
                            path@,
                        ),
                    decreases above.len() - i,
                {
                    proof {
                        assert(rows.take(i + 1).drop_last() =~= rows.take(i as int));
                        assert(rows.take(i + 1).last() == row_model(above@[i as int]));
                    }
                    table_drop(&mut self.by_ancestor, &above[i].0, &key);
                    table_drop(&mut self.by_parent, &above[i].0, &key);
                    i = i + 1;
                }
                proof {
                    assert(rows.take(rows.len() as int) =~= rows);
                }
            },
            None => {},
        }
        let _ = row_table_remove(&mut self.by_ancestor, &key);
        let _ = row_table_remove(&mut self.by_parent, &key);
    }

    /// The path and the paths above it, each with its distance.
    fn ancestors_with_distance(path: &FsPath) -> (r: Vec<Row>)
        ensures
            row_models(r@) == ancestor_rows(path@),
    {
        let total = path.depth();
        let n = path.name_count();
        let rooted = path.is_absolute();
        let mut rows: Vec<Row> = Vec::new();
        let mut k: usize = n;
        let ghost low = if rooted {
            0int
        } else {
            1int
        };
        let mut done: bool = !rooted && n == 0;
        while !done
            invariant
                n == path@.1.len(),
                total == depth_of(path@.1),
                rooted == path@.0,
                low == if rooted { 0int } else { 1int },
                k <= n,
                !done ==> low <= k && rows.len() == n - k,
                done ==> rows.len() == component_count(path@),
                forall|i: int|
                    0 <= i < rows.len() ==> row_model(#[trigger] rows@[i]) == (
                        ancestor_at(path@, i),
                        distance(path@, ancestor_at(path@, i)),
                    ),
            decreases k + (if done { 0int } else { 1int }),
        {
            let ancestor = path.prefix(k);
            let depth = ancestor.depth();
            proof {
                lemma_depth_take(path@.1, k as int);
                assert(ancestor@ == ancestor_at(path@, n - k));
            }
            let dist = total - depth;
            rows.push((ancestor.to_key(), dist as u32));
            if k > 0 && (rooted || k > 1) {
                k = k - 1;
            } else {
                done = true;
            }
        }
        proof {
            assert(row_models(rows@) =~= ancestor_rows(path@));
        }
        rows
    }

    /// The tree that closure rows build.
    pub fn from_rows(rows: &Vec<(FsPath, FsPath, u32)>) -> (r: PathTree)
        ensures
            r@ == tree_of_rows(closure_views(rows@)),
    {
        let ghost s = closure_views(rows@);
        let mut tree = PathTree::new();
        let mut i: usize = 0;
        while i < rows.len()
            invariant
                i <= rows.len(),
                s == closure_views(rows@),
                tree@ == tree_of_rows(s.take(i as int)),
            decreases rows.len() - i,
        {
            proof {
                assert(s.take(i + 1).drop_last() =~= s.take(i as int));
            }
            tree.insert_row(&rows[i].0.to_key(), &rows[i].1.to_key(), rows[i].2);
            i = i + 1;
        }
        proof {
            assert(s.take(s.len() as int) =~= s);
        }
        tree
    }
}

/// The rows under `a` in a list of keys and rows.
spec fn pairs_below(pairs: Seq<(PathKey, Vec<Row>)>, a: PathModel) -> Seq<RowModel>
    decreases pairs.len(),
{
    if pairs.len() == 0 {
        Seq::empty()
    } else {
        pairs_below(pairs.drop_last(), a) + if key_model(pairs.last().0) == a {
            row_models(pairs.last().1@)
        } else {
            Seq::empty()
        }
    }
}

/// A list of all keys and rows of a table holds under each key what the table holds.
proof fn lemma_pairs_below(pairs: Seq<(PathKey, Vec<Row>)>, m: RowTableModel, a: PathModel)
    requires
        lists_rows(pairs, m),
    ensures
        pairs_below(pairs, a) == rows_at(m, a),
{
    lemma_pairs_missing(pairs, a);
    if m.contains_key(a) {
        let i = choose|i: int| 0 <= i < pairs.len() && key_model(#[trigger] pairs[i].0) == a;
        lemma_pairs_found(pairs, a, i);
    } else {
        assert forall|i: int| 0 <= i < pairs.len() implies key_model(#[trigger] pairs[i].0) != a by {
            assert(m.contains_key(key_model(pairs[i].0)));
        }
    }
}

proof fn lemma_pairs_missing(pairs: Seq<(PathKey, Vec<Row>)>, a: PathModel)
    ensures
        (forall|i: int| 0 <= i < pairs.len() ==> key_model(#[trigger] pairs[i].0) != a)
            ==> pairs_below(pairs, a) == Seq::<RowModel>::empty(),
    decreases pairs.len(),
{
    if pairs.len() > 0 && (forall|i: int|
        0 <= i < pairs.len() ==> key_model(#[trigger] pairs[i].0) != a) {
        let init = pairs.drop_last();
        assert forall|i: int| 0 <= i < init.len() implies key_model(#[trigger] init[i].0) != a by {
            assert(init[i] == pairs[i]);
        }
        lemma_pairs_missing(init, a);
        assert(pairs[pairs.len() - 1] == pairs.last());
        assert(key_model(pairs[pairs.len() - 1].0) != a);
        assert(pairs_below(pairs, a) =~= Seq::<RowModel>::empty());
    }
}

proof fn lemma_pairs_found(pairs: Seq<(PathKey, Vec<Row>)>, a: PathModel, i: int)
    requires
        0 <= i < pairs.len(),
        key_model(pairs[i].0) == a,
        forall|j: int| 0 <= j < pairs.len() && j != i ==> key_model(#[trigger] pairs[j].0) != a,
    ensures
        pairs_below(pairs, a) == row_models(pairs[i].1@),
    decreases pairs.len(),
{
    let init = pairs.drop_last();
    assert forall|j: int| 0 <= j < init.len() && j != i implies key_model(#[trigger] init[j].0) != a by {
        assert(init[j] == pairs[j]);
    }
    if i == pairs.len() - 1 {
        lemma_pairs_missing(init, a);
        assert(pairs_below(pairs, a) =~= row_models(pairs[i].1@));
    } else {
        assert(init[i] == pairs[i]);
        lemma_pairs_found(init, a, i);
        assert(pairs[pairs.len() - 1] == pairs.last());
        assert(key_model(pairs[pairs.len() - 1].0) != a);
        assert(pairs_below(pairs, a) =~= row_models(pairs[i].1@));
    }
}

} // verus!
