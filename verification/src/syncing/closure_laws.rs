//! What the path tree promises as a whole.
//!
//! A tree is consistent when its three indexes describe one set of paths that is
//! closed upwards.  Every operation keeps a tree consistent, and on a consistent
//! tree every lookup answers exactly what the paths themselves say.

use crate::path::{
    component_count, depth_of, empty_path, is_normal, is_under, parent_of, path_plain, path_prefix,
    PathModel,
};
use crate::syncing::closure::{
    ancestor_at, ancestor_rows, counts_down, deepest_first, depths_up, distance, drop_row,
    drop_rows, empty_tree, far_paths, known, max_count, max_depth, of_count, of_depth, row_paths,
    rows_at, rows_below, rows_without, shallowest_first, tree_ancestors, tree_children,
    tree_descendants, tree_insert, tree_insert_all, tree_of_rows, tree_remove, tree_subtree,
    with_path, with_prefixes, with_row, with_rows, without_all, without_one, ClosureRow, TreeModel,
};
use crate::tables::{RowModel, RowTableModel};
use vstd::prelude::*;

verus! {

/// A path whose components all name something, and not more of them than a
/// distance can count.
pub open spec fn regular(p: PathModel) -> bool {
    path_plain(p) && p.1.len() <= u32::MAX && p != empty_path()
}

/// The rows below `a` are the known paths that `a` leads to, each once.
pub open spec fn below_ok(t: TreeModel, a: PathModel) -> bool {
    let rows = t.by_ancestor[a];
    &&& rows.no_duplicates()
    &&& forall|row: RowModel| #[trigger]
        rows.contains(row) <==> known(t, row.0) && is_under(row.0, a) && row.1 == distance(row.0, a)
}

/// The rows above `d` are the paths that lead to `d`, each once.
pub open spec fn above_ok(t: TreeModel, d: PathModel) -> bool {
    let rows = t.by_descendant[d];
    &&& rows.no_duplicates()
    &&& forall|row: RowModel| #[trigger]
        rows.contains(row) <==> is_under(d, row.0) && row.0 != empty_path() && row.1 == distance(
            d,
            row.0,
        )
}

/// The child rows of `a` are the known paths whose parent is `a`, each once.
pub open spec fn children_ok(t: TreeModel, a: PathModel) -> bool {
    let rows = rows_at(t.by_parent, a);
    &&& rows.no_duplicates()
    &&& forall|row: RowModel| #[trigger]
        rows.contains(row) <==> known(t, row.0) && parent_of(row.0) == Some(a) && row.1 == 1
}

/// A consistent tree.
pub open spec fn tree_ok(t: TreeModel) -> bool {
    &&& forall|d: PathModel| #[trigger] known(t, d) ==> regular(d) && above_ok(t, d) && below_ok(t, d)
    &&& forall|d: PathModel, a: PathModel|
        known(t, d) && #[trigger] is_under(d, a) && a != empty_path() ==> known(t, a)
    &&& forall|a: PathModel| #[trigger] t.by_ancestor.contains_key(a) <==> known(t, a)
    &&& forall|a: PathModel| a != empty_path() ==> #[trigger] children_ok(t, a)
    &&& forall|a: PathModel| #[trigger]
        t.by_parent.contains_key(a) ==> a != empty_path() && t.by_parent[a].len() > 0
}

proof fn lemma_push_contains<A>(s: Seq<A>, x: A)
    ensures
        forall|y: A| #[trigger] s.push(x).contains(y) <==> s.contains(y) || y == x,
        s.no_duplicates() && !s.contains(x) ==> s.push(x).no_duplicates(),
{
    assert forall|y: A| #[trigger] s.push(x).contains(y) <==> s.contains(y) || y == x by {
        if s.contains(y) {
            let i = choose|i: int| 0 <= i < s.len() && s[i] == y;
            assert(s.push(x)[i] == y);
        }
        if y == x {
            assert(s.push(x)[s.len() as int] == y);
        }
        if s.push(x).contains(y) && y != x {
            let i = choose|i: int| 0 <= i < s.push(x).len() && s.push(x)[i] == y;
            assert(s[i] == y);
        }
    }
    if s.no_duplicates() && !s.contains(x) {
        assert forall|i: int, j: int| 0 <= i < s.len() + 1 && 0 <= j < s.len() + 1 && i != j implies s.push(
            x,
        )[i] != s.push(x)[j] by {
            if i == s.len() {
                assert(s[j] != x);
            } else if j == s.len() {
                assert(s[i] != x);
            }
        }
    }
}

/// Among components that all name something, the depth is the number of components.
proof fn lemma_plain_depth(names: Seq<Seq<u8>>)
    requires
        forall|i: int| 0 <= i < names.len() ==> is_normal(#[trigger] names[i]),
    ensures
        depth_of(names) == names.len(),
    decreases names.len(),
{
    if names.len() > 0 {
        let init = names.drop_last();
        assert forall|i: int| 0 <= i < init.len() implies is_normal(#[trigger] init[i]) by {
            assert(init[i] == names[i]);
        }
        lemma_plain_depth(init);
        assert(is_normal(names[names.len() - 1]));
    }
}

/// How far a path lies below a directory that leads to it.
proof fn lemma_distance(d: PathModel, a: PathModel)
    requires
        regular(d),
        is_under(d, a),
    ensures
        distance(d, a) == d.1.len() - a.1.len(),
        a == path_prefix(d, a.1.len() as int),
        a != empty_path() ==> regular(a),
{
    assert(a.1 =~= d.1.take(a.1.len() as int));
    assert forall|i: int| 0 <= i < a.1.len() implies is_normal(#[trigger] a.1[i]) by {
        assert(a.1[i] == d.1[i]);
    }
    lemma_plain_depth(d.1);
    lemma_plain_depth(a.1);
}

/// The rows above a path lead to the paths above it, each once.
proof fn lemma_ancestor_rows(q: PathModel)
    requires
        regular(q),
    ensures
        forall|i: int|
            0 <= i < ancestor_rows(q).len() ==> (#[trigger] ancestor_rows(q)[i]).1 == i
                && ancestor_rows(q)[i].0.1.len() == q.1.len() - i && is_under(q, ancestor_rows(q)[i].0)
                && ancestor_rows(q)[i].0 != empty_path() && ancestor_rows(q)[i].1 == distance(q, ancestor_rows(q)[i].0),
        forall|x: PathModel|
            #[trigger] is_under(q, x) && x != empty_path() ==> 0 <= q.1.len() - x.1.len() < ancestor_rows(q).len()
                && ancestor_rows(q)[q.1.len() - x.1.len()].0 == x,
{
    let rows = ancestor_rows(q);
    assert forall|i: int| 0 <= i < rows.len() implies (#[trigger] rows[i]).1 == i && rows[i].0.1.len()
        == q.1.len() - i && is_under(q, rows[i].0) && rows[i].0 != empty_path() && rows[i].1 == distance(q, rows[i].0) by {
        let a = ancestor_at(q, i);
        assert(a.1.is_prefix_of(q.1));
        lemma_distance(q, a);
    }
    assert forall|x: PathModel| #[trigger] is_under(q, x) && x != empty_path() implies 0 <= q.1.len() - x.1.len()
        < rows.len() && rows[q.1.len() - x.1.len()].0 == x by {
        lemma_distance(q, x);
        if q.1.len() - x.1.len() == rows.len() {
            assert(x.1 =~= Seq::<Seq<u8>>::empty());
            assert(x == empty_path());
        }
    }
}

/// Rows to `d` from paths that are all different: what each index gains.
proof fn lemma_with_rows(t: TreeModel, d: PathModel, rows: Seq<RowModel>)
    requires
        forall|i: int, j: int| 0 <= i < j < rows.len() ==> (#[trigger] rows[i]).0 != (#[trigger] rows[j]).0,
    ensures
        rows_at(with_rows(t, d, rows).by_descendant, d) == rows_at(t.by_descendant, d) + rows,
        forall|x: PathModel|
            #![trigger with_rows(t, d, rows).by_descendant.contains_key(x)]
            x != d ==> (with_rows(t, d, rows).by_descendant.contains_key(x)
                == t.by_descendant.contains_key(x)),
        forall|x: PathModel|
            x != d ==> #[trigger] with_rows(t, d, rows).by_descendant[x] == t.by_descendant[x],
        rows.len() > 0 ==> with_rows(t, d, rows).by_descendant.contains_key(d),
        forall|i: int|
            0 <= i < rows.len() ==> {
                &&& with_rows(t, d, rows).by_ancestor.contains_key((#[trigger] rows[i]).0)
                &&& rows_at(with_rows(t, d, rows).by_ancestor, rows[i].0) == rows_at(
                    t.by_ancestor,
                    rows[i].0,
                ).push((d, rows[i].1))
                &&& rows[i].1 == 1 ==> with_rows(t, d, rows).by_parent.contains_key(rows[i].0)
                &&& rows[i].1 == 1 ==> rows_at(with_rows(t, d, rows).by_parent, rows[i].0) == rows_at(
                    t.by_parent,
                    rows[i].0,
                ).push((d, rows[i].1))
            },
        forall|x: PathModel|
            #![trigger with_rows(t, d, rows).by_ancestor.contains_key(x)]
            #![trigger rows_at(with_rows(t, d, rows).by_ancestor, x)]
            !row_paths(rows).contains(x) ==> with_rows(t, d, rows).by_ancestor.contains_key(x)
                == t.by_ancestor.contains_key(x) && rows_at(with_rows(t, d, rows).by_ancestor, x)
                == rows_at(t.by_ancestor, x),
        forall|x: PathModel|
            #![trigger with_rows(t, d, rows).by_parent.contains_key(x)]
            #![trigger rows_at(with_rows(t, d, rows).by_parent, x)]
            (forall|i: int| 0 <= i < rows.len() && (#[trigger] rows[i]).0 == x ==> rows[i].1 != 1)
                ==> with_rows(t, d, rows).by_parent.contains_key(x) == t.by_parent.contains_key(x)
                && rows_at(with_rows(t, d, rows).by_parent, x) == rows_at(t.by_parent, x),
    decreases rows.len(),
{
    if rows.len() == 0 {
        assert(rows_at(t.by_descendant, d) + rows =~= rows_at(t.by_descendant, d));
    } else {
        let init = rows.drop_last();
        let last = rows.last();
        let s = with_rows(t, d, init);
        let u = with_rows(t, d, rows);
        assert forall|i: int, j: int| 0 <= i < j < init.len() implies (#[trigger] init[i]).0 != (
        #[trigger] init[j]).0 by {
            assert(init[i] == rows[i] && init[j] == rows[j]);
        }
        lemma_with_rows(t, d, init);
        assert(u == with_row(s, last.0, d, last.1));
        assert((rows_at(t.by_descendant, d) + init).push(last) =~= rows_at(t.by_descendant, d) + rows);
        assert(!row_paths(init).contains(last.0)) by {
            if row_paths(init).contains(last.0) {
                let i = choose|i: int| 0 <= i < row_paths(init).len() && row_paths(init)[i] == last.0;
                assert(rows[i].0 != rows[rows.len() - 1].0);
            }
        }
        assert(forall|i: int| 0 <= i < init.len() ==> (#[trigger] init[i]).0 != last.0) by {
            assert forall|i: int| 0 <= i < init.len() implies (#[trigger] init[i]).0 != last.0 by {
                assert(rows[i].0 != rows[rows.len() - 1].0);
            }
        }
        assert forall|i: int| 0 <= i < rows.len() implies {
            &&& u.by_ancestor.contains_key((#[trigger] rows[i]).0)
            &&& rows_at(u.by_ancestor, rows[i].0) == rows_at(t.by_ancestor, rows[i].0).push(
                (d, rows[i].1),
            )
            &&& rows[i].1 == 1 ==> u.by_parent.contains_key(rows[i].0)
            &&& rows[i].1 == 1 ==> rows_at(u.by_parent, rows[i].0) == rows_at(
                t.by_parent,
                rows[i].0,
            ).push((d, rows[i].1))
        } by {
            if i < init.len() {
                assert(init[i] == rows[i]);
                assert(rows[i].0 != last.0);
                assert(s.by_ancestor.contains_key(init[i].0));
            } else {
                assert(rows[i] == last);
                assert(rows_at(s.by_ancestor, last.0) == rows_at(t.by_ancestor, last.0));
                assert(rows_at(s.by_parent, last.0) == rows_at(t.by_parent, last.0));
            }
        }
        assert forall|x: PathModel| !row_paths(rows).contains(x) implies #[trigger] u.by_ancestor.contains_key(x)
            == t.by_ancestor.contains_key(x) && rows_at(u.by_ancestor, x) == rows_at(t.by_ancestor, x) by {
            assert(row_paths(rows)[rows.len() - 1] == last.0);
            assert(x != last.0);
            assert(!row_paths(init).contains(x)) by {
                if row_paths(init).contains(x) {
                    let i = choose|i: int| 0 <= i < row_paths(init).len() && row_paths(init)[i] == x;
                    assert(row_paths(rows)[i] == x);
                }
            }
            assert(s.by_ancestor.contains_key(x) == t.by_ancestor.contains_key(x));
        }
        assert forall|x: PathModel|
            (forall|i: int| 0 <= i < rows.len() && (#[trigger] rows[i]).0 == x ==> rows[i].1 != 1)
            implies #[trigger] u.by_parent.contains_key(x) == t.by_parent.contains_key(x) && rows_at(u.by_parent, x)
            == rows_at(t.by_parent, x) by {
            assert(rows[rows.len() - 1] == last);
            assert forall|i: int| 0 <= i < init.len() && (#[trigger] init[i]).0 == x implies init[i].1 != 1 by {
                assert(rows[i] == init[i]);
            }
            assert(s.by_parent.contains_key(x) == t.by_parent.contains_key(x));
        }
    }
}

/// A missing path whose parent directories are all known can be added.
proof fn lemma_add_path(t: TreeModel, q: PathModel)
    requires
        tree_ok(t),
        regular(q),
        !known(t, q),
        forall|a: PathModel| #[trigger] is_under(q, a) && a != q && a != empty_path() ==> known(t, a),
    ensures
        tree_ok(with_path(t, q)),
        forall|x: PathModel| #[trigger] known(with_path(t, q), x) <==> known(t, x) || x == q,
{
    let rows = ancestor_rows(q);
    let u = with_rows(t, q, rows);
    lemma_ancestor_rows(q);
    assert forall|i: int, j: int| 0 <= i < j < rows.len() implies (#[trigger] rows[i]).0 != (#[trigger] rows[j]).0 by {
        assert(rows[i].0.1.len() != rows[j].0.1.len());
    }
    lemma_with_rows(t, q, rows);
    assert(is_under(q, q)) by {
        assert(q.1.is_prefix_of(q.1)) by {
            assert(q.1 =~= q.1.subrange(0, q.1.len() as int));
        }
    }
    assert(rows[0].0 == q) by {
        assert(rows[q.1.len() - q.1.len()].0 == q);
    }
    assert(rows_at(t.by_descendant, q) + rows =~= rows);
    assert(u.by_descendant[q] == rows);
    assert forall|x: PathModel| #[trigger] known(u, x) <==> known(t, x) || x == q by {}
    assert forall|x: PathModel| #[trigger] row_paths(rows).contains(x) <==> is_under(q, x) && x != empty_path() by {
        if row_paths(rows).contains(x) {
            let i = choose|i: int| 0 <= i < row_paths(rows).len() && row_paths(rows)[i] == x;
            assert(rows[i].0 == x);
        }
        if is_under(q, x) && x != empty_path() {
            assert(row_paths(rows)[q.1.len() - x.1.len()] == x);
        }
    }
    // The known paths stay closed upwards.
    assert forall|d: PathModel, a: PathModel| known(u, d) && #[trigger] is_under(d, a) && a != empty_path() implies known(u, a) by {}
    // Nothing known lies below the new path.
    assert forall|d: PathModel| #[trigger] known(t, d) implies !is_under(d, q) by {
        if is_under(d, q) {
            assert(known(t, q));
        }
    }
    assert forall|a: PathModel| #[trigger] u.by_ancestor.contains_key(a) <==> known(u, a) by {
        if row_paths(rows).contains(a) {
            let i = q.1.len() - a.1.len();
            assert(rows[i].0 == a);
            assert(a == q || known(t, a));
        } else {
            assert(a != q);
            assert(u.by_ancestor.contains_key(a) == t.by_ancestor.contains_key(a));
        }
    }
    assert forall|d: PathModel| #[trigger] known(u, d) implies regular(d) && above_ok(u, d) && below_ok(u, d) by {
        if d == q {
            assert(above_ok(u, q)) by {
                assert(rows.no_duplicates()) by {
                    assert forall|i: int, j: int| 0 <= i < rows.len() && 0 <= j < rows.len() && i != j implies rows[i]
                        != rows[j] by {
                        if i < j {
                            assert(rows[i].0 != rows[j].0);
                        } else {
                            assert(rows[j].0 != rows[i].0);
                        }
                    }
                }
                assert forall|row: RowModel| #[trigger] rows.contains(row) <==> is_under(q, row.0) && row.0
                    != empty_path() && row.1 == distance(q, row.0) by {
                    if rows.contains(row) {
                        let i = choose|i: int| 0 <= i < rows.len() && rows[i] == row;
                        assert(rows[i].1 == i);
                    }
                    if is_under(q, row.0) && row.0 != empty_path() && row.1 == distance(q, row.0) {
                        let i = q.1.len() - row.0.1.len();
                        assert(rows[i].0 == row.0);
                        assert(rows[i] == row);
                    }
                }
            }
        } else {
            assert(above_ok(t, d));
            assert(u.by_descendant[d] == t.by_descendant[d]);
            assert(above_ok(u, d));
        }
        assert(below_ok(u, d)) by {
            let new_rows = u.by_ancestor[d];
            assert(u.by_ancestor.contains_key(d));
            let old_rows = rows_at(t.by_ancestor, d);
            if row_paths(rows).contains(d) {
                let i = q.1.len() - d.1.len();
                assert(rows[i].0 == d);
                assert(rows_at(u.by_ancestor, d) == old_rows.push((q, rows[i].1)));
                lemma_push_contains(old_rows, (q, rows[i].1));
                if d != q {
                    assert(below_ok(t, d));
                    assert(t.by_ancestor.contains_key(d));
                    assert(!old_rows.contains((q, rows[i].1)));
                } else {
                    assert(!t.by_ancestor.contains_key(q));
                    assert(old_rows =~= Seq::<RowModel>::empty());
                }
                assert forall|row: RowModel| #[trigger] new_rows.contains(row) <==> known(u, row.0) && is_under(
                    row.0,
                    d,
                ) && row.1 == distance(row.0, d) by {
                    assert(new_rows.contains(row) <==> old_rows.contains(row) || row == (q, rows[i].1));
                }
            } else {
                assert(!is_under(q, d));
                assert(below_ok(t, d));
                assert(t.by_ancestor.contains_key(d));
                assert(rows_at(u.by_ancestor, d) == old_rows);
            }
        }
    }
    assert forall|a: PathModel| a != empty_path() implies #[trigger] children_ok(u, a) by {
        assert(children_ok(t, a));
        let old_rows = rows_at(t.by_parent, a);
        let new_rows = rows_at(u.by_parent, a);
        if parent_of(q) == Some(a) {
            assert(is_under(q, a)) by {
                assert(a.1 =~= q.1.subrange(0, a.1.len() as int));
            }
            let i = q.1.len() - a.1.len();
            assert(rows[i].0 == a);
            assert(rows[i].1 == 1);
            lemma_push_contains(old_rows, (q, 1u32));
            assert(!old_rows.contains((q, 1u32)));
            assert forall|row: RowModel| #[trigger] new_rows.contains(row) <==> known(u, row.0) && parent_of(row.0)
                == Some(a) && row.1 == 1 by {
                assert(new_rows.contains(row) <==> old_rows.contains(row) || row == (q, 1u32));
            }
        } else {
            assert forall|i: int| 0 <= i < rows.len() && (#[trigger] rows[i]).0 == a implies rows[i].1 != 1 by {
                if rows[i].1 == 1 {
                    assert(i == 1);
                    assert(a.1 =~= q.1.drop_last());
                }
            }
            assert(u.by_parent.contains_key(a) == t.by_parent.contains_key(a));
            assert(new_rows == old_rows);
        }
    }
    assert forall|a: PathModel| #[trigger] u.by_parent.contains_key(a) implies a != empty_path() && u.by_parent[a].len() > 0 by {
        if exists|i: int| 0 <= i < rows.len() && (#[trigger] rows[i]).0 == a && rows[i].1 == 1 {
            let i = choose|i: int| 0 <= i < rows.len() && (#[trigger] rows[i]).0 == a && rows[i].1 == 1;
            assert(rows_at(u.by_parent, a) == rows_at(t.by_parent, a).push((q, rows[i].1)));
        } else {
            assert(u.by_parent.contains_key(a) == t.by_parent.contains_key(a));
            assert(rows_at(u.by_parent, a) == rows_at(t.by_parent, a));
        }
    }
}

/// The empty tree is consistent.
pub proof fn law_empty_tree_ok()
    ensures
        tree_ok(empty_tree()),
        forall|x: PathModel| !#[trigger] known(empty_tree(), x),
{
}

/// Inserting a path keeps a tree consistent, and makes it know exactly that path
/// and the paths that lead to it besides what it knew.
pub proof fn law_insert(t: TreeModel, p: PathModel)
    requires
        tree_ok(t),
        regular(p),
    ensures
        tree_ok(tree_insert(t, p)),
        forall|x: PathModel| #[trigger]
            known(tree_insert(t, p), x) <==> known(t, x) || (is_under(p, x) && x != empty_path()),
{
    lemma_insert_prefixes(t, p, component_count(p));
    assert forall|x: PathModel| #[trigger]
        known(tree_insert(t, p), x) <==> known(t, x) || (is_under(p, x) && x != empty_path()) by {
        if is_under(p, x) {
            lemma_distance(p, x);
            assert(component_count(x) <= component_count(p));
        }
    }
}

proof fn lemma_insert_prefixes(t: TreeModel, p: PathModel, j: nat)
    requires
        tree_ok(t),
        regular(p),
        j <= component_count(p),
    ensures
        tree_ok(with_prefixes(t, p, j)),
        forall|x: PathModel| #[trigger]
            known(with_prefixes(t, p, j), x) <==> known(t, x) || (is_under(p, x) && x != empty_path()
                && component_count(x) <= j),
    decreases j,
{
    if j == 0 {
        assert forall|x: PathModel| component_count(x) == 0 && !x.0 implies x == #[trigger] empty_path() by {
            assert(x.1 =~= Seq::<Seq<u8>>::empty());
        }
        assert forall|x: PathModel| #[trigger]
            known(with_prefixes(t, p, j), x) <==> known(t, x) || (is_under(p, x) && x != empty_path()
                && component_count(x) <= j) by {
            if component_count(x) <= 0 {
                assert(x.1 =~= Seq::<Seq<u8>>::empty());
                assert(x == empty_path());
            }
        }
    } else {
        let s = with_prefixes(t, p, (j - 1) as nat);
        lemma_insert_prefixes(t, p, (j - 1) as nat);
        let q = ancestor_at(p, component_count(p) - j);
        assert(component_count(q) == j);
        assert(is_under(p, q)) by {
            assert(q.1.is_prefix_of(p.1));
        }
        assert(q != empty_path());
        lemma_distance(p, q);
        assert forall|a: PathModel| #[trigger] is_under(q, a) && a != q && a != empty_path() implies known(s, a) by {
            lemma_distance(q, a);
            assert(is_under(p, a)) by {
                assert(a.1 =~= p.1.subrange(0, a.1.len() as int));
            }
            if component_count(a) == j {
                assert(a.1 =~= q.1);
            }
        }
        if !known(s, q) {
            lemma_add_path(s, q);
        }
        assert forall|x: PathModel| #[trigger]
            known(with_prefixes(t, p, j), x) <==> known(t, x) || (is_under(p, x) && x != empty_path()
                && component_count(x) <= j) by {
            assert(known(with_prefixes(t, p, j), x) <==> known(s, x) || x == q);
            if is_under(p, x) && component_count(x) == j {
                lemma_distance(p, x);
                assert(x.1 =~= q.1);
            }
        }
    }
}

/// Dropping the rows to one path keeps the others.
proof fn lemma_rows_without(rows: Seq<RowModel>, v: PathModel)
    ensures
        forall|row: RowModel| #[trigger]
            rows_without(rows, v).contains(row) <==> rows.contains(row) && row.0 != v,
        rows.no_duplicates() ==> rows_without(rows, v).no_duplicates(),
        (forall|i: int| 0 <= i < rows.len() ==> (#[trigger] rows[i]).0 != v) ==> rows_without(rows, v)
            == rows,
    decreases rows.len(),
{
    if rows.len() > 0 {
        let init = rows.drop_last();
        let kept = rows_without(init, v);
        lemma_rows_without(init, v);
        lemma_push_contains(init, rows.last());
        lemma_push_contains(kept, rows.last());
        assert(init.push(rows.last()) =~= rows);
        if rows.no_duplicates() {
            assert(init.no_duplicates()) by {
                assert forall|i: int, j: int| 0 <= i < init.len() && 0 <= j < init.len() && i != j implies init[i]
                    != init[j] by {
                    assert(rows[i] != rows[j]);
                }
            }
            assert(!init.contains(rows.last())) by {
                if init.contains(rows.last()) {
                    let i = choose|i: int| 0 <= i < init.len() && init[i] == rows.last();
                    assert(rows[i] != rows[rows.len() - 1]);
                }
            }
        }
        if forall|i: int| 0 <= i < rows.len() ==> (#[trigger] rows[i]).0 != v {
            assert forall|i: int| 0 <= i < init.len() implies (#[trigger] init[i]).0 != v by {
                assert(rows[i].0 != v);
            }
            assert(rows[rows.len() - 1].0 != v);
        }
    }
}

/// What dropping the rows to one path leaves in a table.
proof fn lemma_drop_rows(m: RowTableModel, rows: Seq<RowModel>, v: PathModel)
    ensures
        forall|x: PathModel|
            #![trigger drop_rows(m, rows, v).contains_key(x)]
            #![trigger rows_at(drop_rows(m, rows, v), x)]
            row_paths(rows).contains(x) ==> drop_rows(m, rows, v).contains_key(x) == (
            m.contains_key(x) && rows_without(rows_at(m, x), v).len() > 0) && rows_at(
                drop_rows(m, rows, v),
                x,
            ) == rows_without(rows_at(m, x), v),
        forall|x: PathModel|
            #![trigger drop_rows(m, rows, v).contains_key(x)]
            #![trigger rows_at(drop_rows(m, rows, v), x)]
            !row_paths(rows).contains(x) ==> drop_rows(m, rows, v).contains_key(x) == m.contains_key(x)
                && rows_at(drop_rows(m, rows, v), x) == rows_at(m, x),
    decreases rows.len(),
{
    if rows.len() > 0 {
        let init = rows.drop_last();
        let k = rows.last().0;
        let before = drop_rows(m, init, v);
        let after = drop_rows(m, rows, v);
        lemma_drop_rows(m, init, v);
        lemma_push_contains(row_paths(init), k);
        assert(row_paths(rows) =~= row_paths(init).push(k));
        let at = rows_at(m, k);
        lemma_rows_without(at, v);
        lemma_rows_without(rows_without(at, v), v);
        assert forall|i: int| 0 <= i < rows_without(at, v).len() implies (#[trigger] rows_without(at, v)[i]).0 != v by {
            assert(rows_without(at, v).contains(rows_without(at, v)[i]));
        }
        assert(after == drop_row(before, k, v));
        assert forall|x: PathModel| row_paths(rows).contains(x) implies #[trigger] after.contains_key(x) == (
        m.contains_key(x) && rows_without(rows_at(m, x), v).len() > 0) && rows_at(after, x) == rows_without(
            rows_at(m, x),
            v,
        ) by {
            assert(before.contains_key(x) == before.contains_key(x));
            if x == k {
                assert(rows_at(before, k) == at || rows_at(before, k) == rows_without(at, v));
                if !m.contains_key(k) {
                    assert(at =~= Seq::<RowModel>::empty());
                    assert(rows_without(at, v) =~= Seq::<RowModel>::empty());
                }
                if rows_without(at, v).len() == 0 {
                    assert(rows_without(at, v) =~= Seq::<RowModel>::empty());
                }
            }
        }
        assert forall|x: PathModel| !row_paths(rows).contains(x) implies #[trigger] after.contains_key(x)
            == m.contains_key(x) && rows_at(after, x) == rows_at(m, x) by {
            assert(before.contains_key(x) == m.contains_key(x));
        }
    }
}

/// A path with nothing known below it can be forgotten.
proof fn lemma_remove_leaf(t: TreeModel, v: PathModel)
    requires
        tree_ok(t),
        known(t, v),
        forall|d: PathModel| #[trigger] known(t, d) && is_under(d, v) ==> d == v,
    ensures
        tree_ok(without_one(t, v)),
        forall|x: PathModel| #[trigger] known(without_one(t, v), x) <==> known(t, x) && x != v,
{
    let rows = t.by_descendant[v];
    let u = without_one(t, v);
    assert(rows_at(t.by_descendant, v) == rows);
    assert(above_ok(t, v));
    lemma_drop_rows(t.by_ancestor, rows, v);
    lemma_drop_rows(t.by_parent, rows, v);
    let da = drop_rows(t.by_ancestor, rows, v);
    let dp = drop_rows(t.by_parent, rows, v);
    assert forall|x: PathModel| #[trigger] row_paths(rows).contains(x) <==> is_under(v, x) && x != empty_path() by {
        if row_paths(rows).contains(x) {
            let i = choose|i: int| 0 <= i < row_paths(rows).len() && row_paths(rows)[i] == x;
            assert(rows.contains(rows[i]));
        }
        if is_under(v, x) && x != empty_path() {
            assert(rows.contains((x, distance(v, x))));
            let i = choose|i: int| 0 <= i < rows.len() && rows[i] == (x, distance(v, x));
            assert(row_paths(rows)[i] == x);
        }
    }
    assert forall|x: PathModel| #[trigger] known(u, x) <==> known(t, x) && x != v by {}
    assert forall|d: PathModel, a: PathModel| known(u, d) && #[trigger] is_under(d, a) && a != empty_path() implies known(u, a) by {
        assert(known(t, a));
        if a == v {
            assert(known(t, d));
        }
    }
    assert forall|d: PathModel| #[trigger] known(u, d) implies regular(d) && above_ok(u, d) && below_ok(u, d) by {
        assert(known(t, d));
        assert(above_ok(t, d) && below_ok(t, d));
        assert(u.by_descendant[d] == t.by_descendant[d]);
        assert(above_ok(u, d));
        let old_rows = t.by_ancestor[d];
        assert(t.by_ancestor.contains_key(d));
        lemma_rows_without(old_rows, v);
        assert(is_under(d, d)) by {
            assert(d.1 =~= d.1.subrange(0, d.1.len() as int));
        }
        assert(old_rows.contains((d, distance(d, d))));
        assert(rows_without(old_rows, v).contains((d, distance(d, d))));
        let new_rows = u.by_ancestor[d];
        assert(rows_at(da, d) == da[d]);
        if row_paths(rows).contains(d) {
            assert(da.contains_key(d));
            assert(new_rows == rows_without(old_rows, v));
        } else {
            assert(da.contains_key(d));
            assert(new_rows == old_rows);
            assert forall|row: RowModel| #[trigger] old_rows.contains(row) implies row.0 != v by {
                assert(is_under(row.0, d));
            }
        }
        assert(below_ok(u, d));
    }
    assert forall|a: PathModel| #[trigger] u.by_ancestor.contains_key(a) <==> known(u, a) by {
        if a != v {
            assert(u.by_ancestor.contains_key(a) == da.contains_key(a));
            assert(t.by_ancestor.contains_key(a) <==> known(t, a));
            if known(t, a) {
                assert(below_ok(t, a));
                let old_rows = t.by_ancestor[a];
                lemma_rows_without(old_rows, v);
                assert(is_under(a, a)) by {
                    assert(a.1 =~= a.1.subrange(0, a.1.len() as int));
                }
                assert(old_rows.contains((a, distance(a, a))));
                assert(rows_without(old_rows, v).contains((a, distance(a, a))));
                assert(da.contains_key(a));
            }
        }
    }
    assert forall|a: PathModel| a != empty_path() implies #[trigger] children_ok(u, a) by {
        assert(children_ok(t, a));
        let old_rows = rows_at(t.by_parent, a);
        lemma_rows_without(old_rows, v);
        let new_rows = rows_at(u.by_parent, a);
        if a == v {
            assert(new_rows =~= Seq::<RowModel>::empty());
            assert forall|row: RowModel| known(u, row.0) && #[trigger] parent_of(row.0) == Some(a) implies false by {
                assert(is_under(row.0, v)) by {
                    assert(v.1 =~= row.0.1.subrange(0, v.1.len() as int));
                }
                assert(known(t, row.0));
            }
        } else {
            assert(rows_at(u.by_parent, a) == rows_at(dp, a));
            if row_paths(rows).contains(a) {
                assert(new_rows == rows_without(old_rows, v));
            } else {
                assert(new_rows == old_rows);
                assert forall|row: RowModel| #[trigger] old_rows.contains(row) implies row.0 != v by {
                    if row.0 == v {
                        assert(is_under(v, a)) by {
                            assert(a.1 =~= v.1.subrange(0, a.1.len() as int));
                        }
                    }
                }
            }
        }
    }
    assert forall|a: PathModel| #[trigger] u.by_parent.contains_key(a) implies a != empty_path() && u.by_parent[a].len() > 0 by {
        assert(dp.contains_key(a));
        assert(t.by_parent.contains_key(a));
        assert(u.by_parent[a] == rows_at(dp, a));
        assert(rows_at(t.by_parent, a) == t.by_parent[a]);
    }
}

/// The paths of the rows with a distance.
proof fn lemma_far_paths(rows: Seq<RowModel>)
    ensures
        forall|x: PathModel| #[trigger]
            far_paths(rows).contains(x) <==> exists|row: RowModel| #[trigger] rows.contains(row) && row.0 == x && row.1 > 0,
        row_paths(rows).no_duplicates() ==> far_paths(rows).no_duplicates(),
    decreases rows.len(),
{
    if rows.len() > 0 {
        let init = rows.drop_last();
        let last = rows.last();
        lemma_far_paths(init);
        lemma_push_contains(init, last);
        lemma_push_contains(far_paths(init), last.0);
        assert(init.push(last) =~= rows);
        assert forall|x: PathModel| #[trigger] far_paths(rows).contains(x) <==> exists|row: RowModel| #[trigger]
            rows.contains(row) && row.0 == x && row.1 > 0 by {
            if far_paths(rows).contains(x) {
                if last.1 > 0 && x == last.0 {
                    assert(rows.contains(last));
                } else {
                    assert(far_paths(init).contains(x));
                    let row = choose|row: RowModel| #[trigger] init.contains(row) && row.0 == x && row.1 > 0;
                    assert(rows.contains(row));
                }
            }
            if exists|row: RowModel| #[trigger] rows.contains(row) && row.0 == x && row.1 > 0 {
                let row = choose|row: RowModel| #[trigger] rows.contains(row) && row.0 == x && row.1 > 0;
                if init.contains(row) {
                    assert(far_paths(init).contains(x));
                }
            }
        }
        if row_paths(rows).no_duplicates() {
            assert forall|i: int, j: int| 0 <= i < init.len() && 0 <= j < init.len() && i != j implies row_paths(init)[i]
                != row_paths(init)[j] by {
                assert(row_paths(rows)[i] != row_paths(rows)[j]);
            }
            assert(!far_paths(init).contains(last.0)) by {
                if far_paths(init).contains(last.0) {
                    let row = choose|row: RowModel| #[trigger] init.contains(row) && row.0 == last.0 && row.1 > 0;
                    let i = choose|i: int| 0 <= i < init.len() && init[i] == row;
                    assert(row_paths(rows)[i] != row_paths(rows)[rows.len() - 1]);
                }
            }
        }
    } else {
        assert(far_paths(rows) =~= Seq::<PathModel>::empty());
    }
}

/// The paths of rows that are each determined by their path are all different.
proof fn lemma_row_paths(rows: Seq<RowModel>)
    requires
        rows.no_duplicates(),
        forall|r1: RowModel, r2: RowModel| #[trigger]
            rows.contains(r1) && #[trigger] rows.contains(r2) && r1.0 == r2.0 ==> r1 == r2,
    ensures
        row_paths(rows).no_duplicates(),
        forall|x: PathModel| #[trigger]
            row_paths(rows).contains(x) <==> exists|row: RowModel| #[trigger] rows.contains(row) && row.0 == x,
{
    assert forall|i: int, j: int| 0 <= i < rows.len() && 0 <= j < rows.len() && i != j implies row_paths(rows)[i]
        != row_paths(rows)[j] by {
        assert(rows.contains(rows[i]) && rows.contains(rows[j]));
        assert(rows[i] != rows[j]);
    }
    assert forall|x: PathModel| #[trigger] row_paths(rows).contains(x) <==> exists|row: RowModel| #[trigger]
        rows.contains(row) && row.0 == x by {
        if row_paths(rows).contains(x) {
            let i = choose|i: int| 0 <= i < row_paths(rows).len() && row_paths(rows)[i] == x;
            assert(rows.contains(rows[i]));
        }
        if exists|row: RowModel| #[trigger] rows.contains(row) && row.0 == x {
            let row = choose|row: RowModel| #[trigger] rows.contains(row) && row.0 == x;
            let i = choose|i: int| 0 <= i < rows.len() && rows[i] == row;
            assert(row_paths(rows)[i] == x);
        }
    }
}

/// The direct children of a path are the known paths whose parent it is, each once.
pub proof fn law_children(t: TreeModel, a: PathModel)
    requires
        tree_ok(t),
        a != empty_path(),
    ensures
        tree_children(t, a).no_duplicates(),
        forall|x: PathModel| #[trigger]
            tree_children(t, a).contains(x) <==> known(t, x) && parent_of(x) == Some(a),
{
    let rows = rows_at(t.by_parent, a);
    assert(children_ok(t, a));
    assert forall|r1: RowModel, r2: RowModel| #[trigger] rows.contains(r1) && #[trigger] rows.contains(r2) && r1.0
        == r2.0 implies r1 == r2 by {}
    lemma_row_paths(rows);
    assert forall|x: PathModel| #[trigger] tree_children(t, a).contains(x) <==> known(t, x) && parent_of(x) == Some(a) by {
        if known(t, x) && parent_of(x) == Some(a) {
            assert(rows.contains((x, 1u32)));
        }
    }
}

/// The paths below a path are the known paths, other than itself, that it leads
/// to, each once.
pub proof fn law_descendants(t: TreeModel, a: PathModel)
    requires
        tree_ok(t),
    ensures
        tree_descendants(t, a).no_duplicates(),
        forall|x: PathModel| #[trigger]
            tree_descendants(t, a).contains(x) <==> known(t, a) && known(t, x) && is_under(x, a) && x != a,
{
    let rows = rows_at(t.by_ancestor, a);
    lemma_far_paths(rows);
    assert(t.by_ancestor.contains_key(a) <==> known(t, a));
    if known(t, a) {
        assert(below_ok(t, a));
        assert forall|r1: RowModel, r2: RowModel| #[trigger] rows.contains(r1) && #[trigger] rows.contains(r2) && r1.0
            == r2.0 implies r1 == r2 by {}
        lemma_row_paths(rows);
        assert forall|x: PathModel| #[trigger] tree_descendants(t, a).contains(x) <==> known(t, x) && is_under(x, a)
            && x != a by {
            if known(t, x) && is_under(x, a) {
                lemma_distance(x, a);
                assert(rows.contains((x, distance(x, a))));
                if x.1.len() == a.1.len() {
                    assert(x.1 =~= a.1);
                }
            }
        }
    } else {
        assert(rows =~= Seq::<RowModel>::empty());
    }
}

/// The paths above a known path are the paths, other than itself, that lead to
/// it, each once.
pub proof fn law_ancestors(t: TreeModel, d: PathModel)
    requires
        tree_ok(t),
    ensures
        tree_ancestors(t, d).no_duplicates(),
        forall|x: PathModel| #[trigger]
            tree_ancestors(t, d).contains(x) <==> known(t, d) && is_under(d, x) && x != empty_path() && x != d,
{
    let rows = rows_at(t.by_descendant, d);
    lemma_far_paths(rows);
    if known(t, d) {
        assert(above_ok(t, d));
        assert forall|r1: RowModel, r2: RowModel| #[trigger] rows.contains(r1) && #[trigger] rows.contains(r2) && r1.0
            == r2.0 implies r1 == r2 by {}
        lemma_row_paths(rows);
        assert forall|x: PathModel| #[trigger] tree_ancestors(t, d).contains(x) <==> is_under(d, x) && x != empty_path()
            && x != d by {
            if is_under(d, x) && x != empty_path() {
                lemma_distance(d, x);
                assert(rows.contains((x, distance(d, x))));
                if x.1.len() == d.1.len() {
                    assert(x.1 =~= d.1);
                }
            }
        }
    } else {
        assert(rows =~= Seq::<RowModel>::empty());
    }
}

/// The subtree of a known path is every known path that it leads to, itself
/// first, each once.
pub proof fn law_subtree(t: TreeModel, p: PathModel)
    requires
        tree_ok(t),
    ensures
        tree_subtree(t, p).no_duplicates(),
        known(t, p) ==> tree_subtree(t, p)[0] == p,
        forall|x: PathModel| #[trigger]
            tree_subtree(t, p).contains(x) <==> known(t, p) && known(t, x) && is_under(x, p),
{
    law_descendants(t, p);
    let below = tree_descendants(t, p);
    let s = tree_subtree(t, p);
    if known(t, p) {
        assert(is_under(p, p)) by {
            assert(p.1 =~= p.1.subrange(0, p.1.len() as int));
        }
        assert forall|x: PathModel| #[trigger] s.contains(x) <==> known(t, x) && is_under(x, p) by {
            if s.contains(x) {
                let i = choose|i: int| 0 <= i < s.len() && s[i] == x;
                if i > 0 {
                    assert(below[i - 1] == x);
                    assert(below.contains(x));
                }
            }
            if known(t, x) && is_under(x, p) {
                if x == p {
                    assert(s[0] == x);
                } else {
                    assert(below.contains(x));
                    let i = choose|i: int| 0 <= i < below.len() && below[i] == x;
                    assert(s[i + 1] == x);
                }
            }
        }
        assert forall|i: int, j: int| 0 <= i < s.len() && 0 <= j < s.len() && i != j implies s[i] != s[j] by {
            if i > 0 && j > 0 {
                assert(below[i - 1] != below[j - 1]);
            } else if i > 0 {
                assert(below.contains(below[i - 1]));
            } else {
                assert(below.contains(below[j - 1]));
            }
        }
    }
}

proof fn lemma_of_count(s: Seq<PathModel>, k: int)
    ensures
        forall|x: PathModel| #[trigger] of_count(s, k).contains(x) <==> s.contains(x) && component_count(x) == k,
        s.no_duplicates() ==> of_count(s, k).no_duplicates(),
    decreases s.len(),
{
    if s.len() > 0 {
        let init = s.drop_last();
        lemma_of_count(init, k);
        lemma_push_contains(init, s.last());
        lemma_push_contains(of_count(init, k), s.last());
        assert(init.push(s.last()) =~= s);
        if s.no_duplicates() {
            assert forall|i: int, j: int| 0 <= i < init.len() && 0 <= j < init.len() && i != j implies init[i] != init[j] by {
                assert(s[i] != s[j]);
            }
            assert(!init.contains(s.last())) by {
                if init.contains(s.last()) {
                    let i = choose|i: int| 0 <= i < init.len() && init[i] == s.last();
                    assert(s[i] != s[s.len() - 1]);
                }
            }
        }
    }
}

proof fn lemma_max_count(s: Seq<PathModel>)
    ensures
        forall|x: PathModel| #[trigger] s.contains(x) ==> component_count(x) <= max_count(s),
    decreases s.len(),
{
    if s.len() > 0 {
        lemma_max_count(s.drop_last());
        lemma_push_contains(s.drop_last(), s.last());
        assert(s.drop_last().push(s.last()) =~= s);
    }
}

proof fn lemma_counts_down(s: Seq<PathModel>, k: int)
    ensures
        forall|x: PathModel| #[trigger] counts_down(s, k).contains(x) <==> s.contains(x) && component_count(x) <= k,
        s.no_duplicates() ==> counts_down(s, k).no_duplicates(),
        forall|i: int, j: int|
            0 <= i < j < counts_down(s, k).len() ==> component_count(#[trigger] counts_down(s, k)[i])
                >= component_count(#[trigger] counts_down(s, k)[j]),
    decreases k + 1,
{
    if k >= 0 {
        lemma_counts_down(s, k - 1);
        lemma_of_count(s, k);
        let a = of_count(s, k);
        let b = counts_down(s, k - 1);
        let c = counts_down(s, k);
        assert(c =~= a + b);
        assert forall|x: PathModel| #[trigger] c.contains(x) <==> s.contains(x) && component_count(x) <= k by {
            if c.contains(x) {
                let i = choose|i: int| 0 <= i < c.len() && c[i] == x;
                if i < a.len() {
                    assert(a[i] == x);
                    assert(a.contains(x));
                } else {
                    assert(b[i - a.len()] == x);
                    assert(b.contains(x));
                }
            }
            if s.contains(x) && component_count(x) == k {
                assert(a.contains(x));
                let i = choose|i: int| 0 <= i < a.len() && a[i] == x;
                assert(c[i] == x);
            }
            if s.contains(x) && component_count(x) < k {
                assert(b.contains(x));
                let i = choose|i: int| 0 <= i < b.len() && b[i] == x;
                assert(c[i + a.len()] == x);
            }
        }
        assert forall|i: int| 0 <= i < a.len() implies component_count(#[trigger] a[i]) == k by {
            assert(a.contains(a[i]));
        }
        assert forall|i: int| 0 <= i < b.len() implies component_count(#[trigger] b[i]) < k by {
            assert(b.contains(b[i]));
        }
        assert forall|i: int, j: int| 0 <= i < j < c.len() implies component_count(#[trigger] c[i])
            >= component_count(#[trigger] c[j]) by {
            if i < a.len() {
                assert(c[i] == a[i]);
                if j < a.len() {
                    assert(c[j] == a[j]);
                } else {
                    assert(c[j] == b[j - a.len()]);
                }
            } else {
                assert(c[i] == b[i - a.len()] && c[j] == b[j - a.len()]);
            }
        }
        if s.no_duplicates() {
            assert forall|i: int, j: int| 0 <= i < c.len() && 0 <= j < c.len() && i != j implies c[i] != c[j] by {
                if i < a.len() && j < a.len() {
                    assert(a[i] != a[j]);
                } else if i >= a.len() && j >= a.len() {
                    assert(b[i - a.len()] != b[j - a.len()]);
                } else if i < a.len() {
                    assert(component_count(a[i]) == k && component_count(b[j - a.len()]) < k);
                } else {
                    assert(component_count(a[j]) == k && component_count(b[i - a.len()]) < k);
                }
            }
        }
    } else {
        assert(counts_down(s, k) =~= Seq::<PathModel>::empty());
    }
}

/// Forgetting a path hands out exactly the known paths that it leads to, each
/// once and none before a path below it, keeps the tree consistent, and leaves
/// exactly the other paths known.
pub proof fn law_remove(t: TreeModel, p: PathModel)
    requires
        tree_ok(t),
    ensures
        tree_ok(tree_remove(t, p)),
        deepest_first(tree_subtree(t, p)).no_duplicates(),
        forall|x: PathModel| #[trigger]
            deepest_first(tree_subtree(t, p)).contains(x) <==> known(t, p) && known(t, x) && is_under(x, p),
        forall|i: int, j: int|
            0 <= i < j < deepest_first(tree_subtree(t, p)).len() ==> component_count(
                #[trigger] deepest_first(tree_subtree(t, p))[i],
            ) >= component_count(#[trigger] deepest_first(tree_subtree(t, p))[j]),
        forall|x: PathModel| #[trigger]
            known(tree_remove(t, p), x) <==> known(t, x) && !(known(t, p) && is_under(x, p)),
{
    let s = tree_subtree(t, p);
    let victims = deepest_first(s);
    law_subtree(t, p);
    lemma_max_count(s);
    lemma_counts_down(s, max_count(s) as int);
    assert forall|i: int, d: PathModel| 0 <= i < victims.len() && known(t, d) && #[trigger] is_under(
        d,
        victims[i],
    ) && d != victims[i] implies exists|j: int| 0 <= j < i && #[trigger] victims[j] == d by {
        assert(victims.contains(victims[i]));
        assert(is_under(d, p)) by {
            assert(p.1 =~= d.1.subrange(0, p.1.len() as int));
        }
        assert(victims.contains(d));
        let j = choose|j: int| 0 <= j < victims.len() && victims[j] == d;
        if d.1.len() == victims[i].1.len() {
            assert(d.1 =~= victims[i].1);
        }
        assert(component_count(d) > component_count(victims[i]));
        if j > i {
            assert(component_count(victims[i]) >= component_count(victims[j]));
        }
        assert(j < i);
    }
    assert forall|i: int| 0 <= i < victims.len() implies known(t, #[trigger] victims[i]) by {
        assert(victims.contains(victims[i]));
    }
    lemma_remove_each(t, victims, victims.len() as int);
    assert(victims.take(victims.len() as int) =~= victims);
    assert forall|x: PathModel| #[trigger]
        known(tree_remove(t, p), x) <==> known(t, x) && !(known(t, p) && is_under(x, p)) by {
        assert(known(tree_remove(t, p), x) <==> known(t, x) && !victims.contains(x));
    }
}

proof fn lemma_remove_each(t: TreeModel, victims: Seq<PathModel>, n: int)
    requires
        tree_ok(t),
        0 <= n <= victims.len(),
        victims.no_duplicates(),
        forall|i: int| 0 <= i < victims.len() ==> known(t, #[trigger] victims[i]),
        forall|i: int, d: PathModel|
            0 <= i < victims.len() && known(t, d) && #[trigger] is_under(d, victims[i]) && d != victims[i]
                ==> exists|j: int| 0 <= j < i && #[trigger] victims[j] == d,
    ensures
        tree_ok(without_all(t, victims.take(n))),
        forall|x: PathModel| #[trigger]
            known(without_all(t, victims.take(n)), x) <==> known(t, x) && !victims.take(n).contains(x),
    decreases n,
{
    if n > 0 {
        lemma_remove_each(t, victims, n - 1);
        let s = without_all(t, victims.take(n - 1));
        let v = victims[n - 1];
        assert(victims.take(n).drop_last() =~= victims.take(n - 1));
        assert(victims.take(n) =~= victims.take(n - 1).push(v));
        lemma_push_contains(victims.take(n - 1), v);
        assert(!victims.take(n - 1).contains(v)) by {
            let earlier = victims.take(n - 1);
            if earlier.contains(v) {
                let i = choose|i: int| 0 <= i < earlier.len() && earlier[i] == v;
                assert(victims[i] != victims[n - 1]);
            }
        }
        assert forall|d: PathModel| #[trigger] known(s, d) && is_under(d, v) implies d == v by {
            if d != v {
                let j = choose|j: int| 0 <= j < n - 1 && #[trigger] victims[j] == d;
                assert(victims.take(n - 1)[j] == d);
            }
        }
        lemma_remove_leaf(s, v);
    } else {
        assert(victims.take(0) =~= Seq::<PathModel>::empty());
    }
}

proof fn lemma_of_depth(s: Seq<PathModel>, k: int)
    ensures
        forall|x: PathModel| #[trigger] of_depth(s, k).contains(x) <==> s.contains(x) && depth_of(x.1) == k,
    decreases s.len(),
{
    if s.len() > 0 {
        let init = s.drop_last();
        lemma_of_depth(init, k);
        lemma_push_contains(init, s.last());
        lemma_push_contains(of_depth(init, k), s.last());
        assert(init.push(s.last()) =~= s);
    }
}

proof fn lemma_max_depth(s: Seq<PathModel>)
    ensures
        forall|x: PathModel| #[trigger] s.contains(x) ==> depth_of(x.1) <= max_depth(s),
    decreases s.len(),
{
    if s.len() > 0 {
        lemma_max_depth(s.drop_last());
        lemma_push_contains(s.drop_last(), s.last());
        assert(s.drop_last().push(s.last()) =~= s);
    }
}

proof fn lemma_depths_up(s: Seq<PathModel>, k: nat)
    ensures
        forall|x: PathModel| #[trigger] depths_up(s, k).contains(x) <==> s.contains(x) && depth_of(x.1) < k,
    decreases k,
{
    if k > 0 {
        lemma_depths_up(s, (k - 1) as nat);
        lemma_of_depth(s, k - 1);
        let a = depths_up(s, (k - 1) as nat);
        let b = of_depth(s, k - 1);
        let c = depths_up(s, k);
        assert(c =~= a + b);
        assert forall|x: PathModel| #[trigger] c.contains(x) <==> s.contains(x) && depth_of(x.1) < k by {
            if c.contains(x) {
                let i = choose|i: int| 0 <= i < c.len() && c[i] == x;
                if i < a.len() {
                    assert(a[i] == x);
                    assert(a.contains(x));
                } else {
                    assert(b[i - a.len()] == x);
                    assert(b.contains(x));
                }
            }
            if s.contains(x) && depth_of(x.1) < k - 1 {
                assert(a.contains(x));
                let i = choose|i: int| 0 <= i < a.len() && a[i] == x;
                assert(c[i] == x);
            }
            if s.contains(x) && depth_of(x.1) == k - 1 {
                assert(b.contains(x));
                let i = choose|i: int| 0 <= i < b.len() && b[i] == x;
                assert(c[i + a.len()] == x);
            }
        }
    }
}

/// A tree built from a list of paths is consistent, and knows exactly the paths
/// of the list and the paths that lead to them.
pub proof fn law_from_paths(s: Seq<PathModel>)
    requires
        forall|x: PathModel| #[trigger] s.contains(x) ==> regular(x),
    ensures
        tree_ok(tree_insert_all(empty_tree(), shallowest_first(s))),
        forall|x: PathModel| #[trigger]
            known(tree_insert_all(empty_tree(), shallowest_first(s)), x) <==> x != empty_path() && exists|
                p: PathModel,
            | #[trigger] s.contains(p) && is_under(p, x),
{
    let sorted = shallowest_first(s);
    lemma_max_depth(s);
    lemma_depths_up(s, max_depth(s) + 1);
    lemma_insert_each(sorted);
    assert forall|x: PathModel| #[trigger] sorted.contains(x) <==> s.contains(x) by {}
    assert forall|x: PathModel| #[trigger]
        known(tree_insert_all(empty_tree(), sorted), x) <==> x != empty_path() && exists|p: PathModel| #[trigger]
            s.contains(p) && is_under(p, x) by {
        if x != empty_path() && exists|p: PathModel| #[trigger] sorted.contains(p) && is_under(p, x) {
            let p = choose|p: PathModel| #[trigger] sorted.contains(p) && is_under(p, x);
            assert(s.contains(p));
        }
        if x != empty_path() && exists|p: PathModel| #[trigger] s.contains(p) && is_under(p, x) {
            let p = choose|p: PathModel| #[trigger] s.contains(p) && is_under(p, x);
            assert(sorted.contains(p));
        }
    }
}

proof fn lemma_insert_each(s: Seq<PathModel>)
    requires
        forall|x: PathModel| #[trigger] s.contains(x) ==> regular(x),
    ensures
        tree_ok(tree_insert_all(empty_tree(), s)),
        forall|x: PathModel| #[trigger]
            known(tree_insert_all(empty_tree(), s), x) <==> x != empty_path() && exists|p: PathModel| #[trigger]
                s.contains(p) && is_under(p, x),
    decreases s.len(),
{
    if s.len() == 0 {
        law_empty_tree_ok();
    } else {
        let init = s.drop_last();
        let t = tree_insert_all(empty_tree(), init);
        lemma_push_contains(init, s.last());
        assert(init.push(s.last()) =~= s);
        assert forall|x: PathModel| #[trigger] init.contains(x) implies regular(x) by {
            assert(s.contains(x));
        }
        lemma_insert_each(init);
        assert(s.contains(s.last()));
        law_insert(t, s.last());
        assert forall|x: PathModel| #[trigger]
            known(tree_insert_all(empty_tree(), s), x) <==> x != empty_path() && exists|p: PathModel| #[trigger]
                s.contains(p) && is_under(p, x) by {
            assert(known(t, x) ==> x != empty_path());
            if known(t, x) {
                let p = choose|p: PathModel| #[trigger] init.contains(p) && is_under(p, x);
                assert(s.contains(p));
            }
            if x != empty_path() && exists|p: PathModel| #[trigger] s.contains(p) && is_under(p, x) {
                let p = choose|p: PathModel| #[trigger] s.contains(p) && is_under(p, x);
                if init.contains(p) {
                    assert(known(t, x));
                }
            }
        }
    }
}

/// The rows above `d` in a list of closure rows.
spec fn rows_above(rows: Seq<ClosureRow>, d: PathModel) -> Seq<RowModel>
    decreases rows.len(),
{
    if rows.len() == 0 {
        Seq::empty()
    } else {
        let init = rows_above(rows.drop_last(), d);
        if rows.last().1 == d {
            init.push((rows.last().0, rows.last().2))
        } else {
            init
        }
    }
}

/// The rows one level below `a` in a list of closure rows.
spec fn rows_next(rows: Seq<ClosureRow>, a: PathModel) -> Seq<RowModel>
    decreases rows.len(),
{
    if rows.len() == 0 {
        Seq::empty()
    } else {
        let init = rows_next(rows.drop_last(), a);
        if rows.last().0 == a && rows.last().2 == 1 {
            init.push((rows.last().1, rows.last().2))
        } else {
            init
        }
    }
}

proof fn lemma_tree_of_rows(rows: Seq<ClosureRow>)
    ensures
        forall|a: PathModel|
            #![trigger rows_at(tree_of_rows(rows).by_ancestor, a)]
            #![trigger tree_of_rows(rows).by_ancestor.contains_key(a)]
            rows_at(tree_of_rows(rows).by_ancestor, a) == rows_below(rows, a)
                && tree_of_rows(rows).by_ancestor.contains_key(a) == (rows_below(rows, a).len() > 0),
        forall|d: PathModel|
            #![trigger rows_at(tree_of_rows(rows).by_descendant, d)]
            #![trigger tree_of_rows(rows).by_descendant.contains_key(d)]
            rows_at(tree_of_rows(rows).by_descendant, d) == rows_above(rows, d)
                && tree_of_rows(rows).by_descendant.contains_key(d) == (rows_above(rows, d).len() > 0),
        forall|a: PathModel|
            #![trigger rows_at(tree_of_rows(rows).by_parent, a)]
            #![trigger tree_of_rows(rows).by_parent.contains_key(a)]
            rows_at(tree_of_rows(rows).by_parent, a) == rows_next(rows, a)
                && tree_of_rows(rows).by_parent.contains_key(a) == (rows_next(rows, a).len() > 0),
    decreases rows.len(),
{
    if rows.len() > 0 {
        let init = rows.drop_last();
        let last = rows.last();
        lemma_tree_of_rows(init);
        let s = tree_of_rows(init);
        let u = tree_of_rows(rows);
        assert(u == with_row(s, last.0, last.1, last.2));
        assert forall|a: PathModel|
            rows_at(u.by_ancestor, a) == rows_below(rows, a) && #[trigger] u.by_ancestor.contains_key(a) == (
            rows_below(rows, a).len() > 0) by {
            assert(rows_at(s.by_ancestor, a) == rows_below(init, a));
        }
        assert forall|d: PathModel|
            rows_at(u.by_descendant, d) == rows_above(rows, d) && #[trigger] u.by_descendant.contains_key(d) == (
            rows_above(rows, d).len() > 0) by {
            assert(rows_at(s.by_descendant, d) == rows_above(init, d));
        }
        assert forall|a: PathModel|
            rows_at(u.by_parent, a) == rows_next(rows, a) && #[trigger] u.by_parent.contains_key(a) == (
            rows_next(rows, a).len() > 0) by {
            assert(rows_at(s.by_parent, a) == rows_next(init, a));
        }
    }
}

proof fn lemma_row_lists(rows: Seq<ClosureRow>)
    ensures
        forall|a: PathModel, row: RowModel| #[trigger]
            rows_below(rows, a).contains(row) <==> rows.contains((a, row.0, row.1)),
        forall|d: PathModel, row: RowModel| #[trigger]
            rows_above(rows, d).contains(row) <==> rows.contains((row.0, d, row.1)),
        forall|a: PathModel, row: RowModel| #[trigger]
            rows_next(rows, a).contains(row) <==> rows.contains((a, row.0, row.1)) && row.1 == 1,
        (forall|a: PathModel| (#[trigger] rows_below(rows, a)).no_duplicates()) ==> {
            &&& forall|d: PathModel| (#[trigger] rows_above(rows, d)).no_duplicates()
            &&& forall|a: PathModel| (#[trigger] rows_next(rows, a)).no_duplicates()
        },
    decreases rows.len(),
{
    if rows.len() > 0 {
        let init = rows.drop_last();
        let last = rows.last();
        lemma_row_lists(init);
        lemma_push_contains(init, last);
        assert(init.push(last) =~= rows);
        lemma_push_contains(rows_below(init, last.0), (last.1, last.2));
        lemma_push_contains(rows_above(init, last.1), (last.0, last.2));
        lemma_push_contains(rows_next(init, last.0), (last.1, last.2));
        assert forall|a: PathModel, row: RowModel| #[trigger] rows_below(rows, a).contains(row) <==> rows.contains(
            (a, row.0, row.1),
        ) by {
            assert(rows_below(init, a).contains(row) <==> init.contains((a, row.0, row.1)));
        }
        assert forall|d: PathModel, row: RowModel| #[trigger] rows_above(rows, d).contains(row) <==> rows.contains(
            (row.0, d, row.1),
        ) by {
            assert(rows_above(init, d).contains(row) <==> init.contains((row.0, d, row.1)));
        }
        assert forall|a: PathModel, row: RowModel| #[trigger] rows_next(rows, a).contains(row) <==> rows.contains(
            (a, row.0, row.1),
        ) && row.1 == 1 by {
            assert(rows_next(init, a).contains(row) <==> init.contains((a, row.0, row.1)) && row.1 == 1);
        }
        if forall|a: PathModel| (#[trigger] rows_below(rows, a)).no_duplicates() {
            assert forall|a: PathModel| (#[trigger] rows_below(init, a)).no_duplicates() by {
                let long = rows_below(rows, a);
                let short = rows_below(init, a);
                assert(long.no_duplicates());
                assert forall|i: int, j: int| 0 <= i < short.len() && 0 <= j < short.len() && i != j implies short[i]
                    != short[j] by {
                    assert(long[i] == short[i] && long[j] == short[j]);
                }
            }
            assert(!init.contains(last)) by {
                let long = rows_below(rows, last.0);
                let short = rows_below(init, last.0);
                assert(long.no_duplicates());
                if init.contains(last) {
                    assert(short.contains((last.1, last.2)));
                    let i = choose|i: int| 0 <= i < short.len() && short[i] == (last.1, last.2);
                    assert(long[i] != long[long.len() - 1]);
                }
            }
            assert(!rows_above(init, last.1).contains((last.0, last.2)));
            assert(!rows_next(init, last.0).contains((last.1, last.2)));
            assert forall|d: PathModel| (#[trigger] rows_above(rows, d)).no_duplicates() by {
                assert(rows_above(init, d).no_duplicates());
            }
            assert forall|a: PathModel| (#[trigger] rows_next(rows, a)).no_duplicates() by {
                assert(rows_next(init, a).no_duplicates());
            }
        }
    }
}

/// A tree rebuilt from the closure rows of a consistent tree is consistent, knows
/// the same paths, and has the same rows below each of them.
pub proof fn law_rows_round_trip(t: TreeModel, rows: Seq<ClosureRow>)
    requires
        tree_ok(t),
        forall|a: PathModel| #[trigger] rows_below(rows, a) == rows_at(t.by_ancestor, a),
    ensures
        tree_of_rows(rows).by_ancestor == t.by_ancestor,
        tree_ok(tree_of_rows(rows)),
        forall|x: PathModel| #[trigger] known(tree_of_rows(rows), x) <==> known(t, x),
{
    let u = tree_of_rows(rows);
    lemma_tree_of_rows(rows);
    lemma_row_lists(rows);
    assert forall|a: PathModel| #[trigger] t.by_ancestor.contains_key(a) implies t.by_ancestor[a].len() > 0 by {
        assert(known(t, a));
        assert(below_ok(t, a));
        assert(is_under(a, a)) by {
            assert(a.1 =~= a.1.subrange(0, a.1.len() as int));
        }
        assert(t.by_ancestor[a].contains((a, distance(a, a))));
    }
    assert forall|a: PathModel| (#[trigger] rows_below(rows, a)).no_duplicates() by {
        if t.by_ancestor.contains_key(a) {
            assert(known(t, a));
            assert(below_ok(t, a));
        }
    }
    assert(u.by_ancestor =~= t.by_ancestor) by {
        assert forall|a: PathModel| #[trigger] u.by_ancestor.contains_key(a) <==> t.by_ancestor.contains_key(a) by {
            assert(rows_below(rows, a) == rows_at(t.by_ancestor, a));
        }
        assert forall|a: PathModel| #[trigger] u.by_ancestor.contains_key(a) implies u.by_ancestor[a] == t.by_ancestor[a] by {
            assert(rows_at(u.by_ancestor, a) == rows_below(rows, a));
            assert(rows_below(rows, a) == rows_at(t.by_ancestor, a));
        }
    }
    // What each row of the list says.
    assert forall|r: ClosureRow| #[trigger] rows.contains(r) <==> known(t, r.0) && known(t, r.1) && is_under(r.1, r.0)
        && r.2 == distance(r.1, r.0) by {
        assert(rows_below(rows, r.0).contains((r.1, r.2)) <==> rows.contains((r.0, r.1, r.2)));
        assert(rows_below(rows, r.0) == rows_at(t.by_ancestor, r.0));
        assert(t.by_ancestor.contains_key(r.0) <==> known(t, r.0));
        if known(t, r.0) {
            assert(below_ok(t, r.0));
        }
    }
    assert forall|x: PathModel| #[trigger] known(u, x) <==> known(t, x) by {
        let list = rows_above(rows, x);
        if list.len() > 0 {
            assert(list.contains(list[0]));
            assert(rows.contains((list[0].0, x, list[0].1)));
        }
        if known(t, x) {
            assert(is_under(x, x)) by {
                assert(x.1 =~= x.1.subrange(0, x.1.len() as int));
            }
            assert(rows.contains((x, x, distance(x, x))));
            assert(list.contains((x, distance(x, x))));
        }
    }
    assert forall|d: PathModel| #[trigger] known(u, d) implies regular(d) && above_ok(u, d) && below_ok(u, d) by {
        assert(known(t, d));
        assert(below_ok(t, d));
        assert(above_ok(t, d));
        let list = u.by_descendant[d];
        assert(rows_at(u.by_descendant, d) == rows_above(rows, d));
        assert(list == rows_above(rows, d));
        assert(list.no_duplicates());
        assert forall|row: RowModel| #[trigger] list.contains(row) <==> is_under(d, row.0) && row.0 != empty_path()
            && row.1 == distance(d, row.0) by {
            assert(rows_above(rows, d).contains(row) <==> rows.contains((row.0, d, row.1)));
        }
        assert(u.by_ancestor[d] == t.by_ancestor[d]);
    }
    assert forall|d: PathModel, a: PathModel| known(u, d) && #[trigger] is_under(d, a) && a != empty_path() implies known(u, a) by {
        assert(known(t, d));
        assert(known(t, a));
    }
    assert forall|a: PathModel| #[trigger] u.by_ancestor.contains_key(a) <==> known(u, a) by {
        assert(t.by_ancestor.contains_key(a) <==> known(t, a));
    }
    assert forall|a: PathModel| a != empty_path() implies #[trigger] children_ok(u, a) by {
        let list = rows_at(u.by_parent, a);
        assert(list == rows_next(rows, a));
        assert forall|row: RowModel| #[trigger] list.contains(row) <==> known(u, row.0) && parent_of(row.0) == Some(a)
            && row.1 == 1 by {
            assert(rows_next(rows, a).contains(row) <==> rows.contains((a, row.0, row.1)) && row.1 == 1);
            if known(t, row.0) {
                lemma_parent_distance(row.0, a);
            }
        }
    }
    assert forall|a: PathModel| #[trigger] u.by_parent.contains_key(a) implies a != empty_path() && u.by_parent[a].len() > 0 by {
        let list = rows_at(u.by_parent, a);
        assert(list == rows_next(rows, a));
        assert(list.contains(list[0]));
        assert(rows_next(rows, a).contains(list[0]));
        assert(rows.contains((a, list[0].0, list[0].1)));
        assert(known(t, a));
    }
}

/// The parent of a path is the directory one level above it.
proof fn lemma_parent_distance(d: PathModel, a: PathModel)
    requires
        regular(d),
    ensures
        parent_of(d) == Some(a) <==> is_under(d, a) && distance(d, a) == 1,
{
    if parent_of(d) == Some(a) {
        assert(is_under(d, a)) by {
            assert(a.1 =~= d.1.subrange(0, a.1.len() as int));
        }
        lemma_distance(d, a);
    }
    if is_under(d, a) && distance(d, a) == 1 {
        lemma_distance(d, a);
        assert(a.1 =~= d.1.drop_last());
    }
}

/// A change of a tree.
pub enum TreeChange {
    Insert(PathModel),
    Remove(PathModel),
}

/// The path that a change is about.
pub open spec fn changed_path(c: TreeChange) -> PathModel {
    match c {
        TreeChange::Insert(p) => p,
        TreeChange::Remove(p) => p,
    }
}

/// The tree after changes, one after the other, of the tree without any path.
pub open spec fn tree_after(changes: Seq<TreeChange>) -> TreeModel
    decreases changes.len(),
{
    if changes.len() == 0 {
        empty_tree()
    } else {
        let t = tree_after(changes.drop_last());
        match changes.last() {
            TreeChange::Insert(p) => tree_insert(t, p),
            TreeChange::Remove(p) => tree_remove(t, p),
        }
    }
}

/// A path with no more components than a distance can count.
pub open spec fn countable(p: PathModel) -> bool {
    p.1.len() <= u32::MAX
}

/// The three indexes agree: a row below a path is a row above the other, a row with a
/// distance is in both unless its upper end is `gone`, and so is that of a path to
/// itself; the rows to children are those one level apart.
spec fn indexes_agree(t: TreeModel, gone: Seq<PathModel>) -> bool {
    &&& forall|a: PathModel, row: RowModel| #[trigger]
        rows_at(t.by_ancestor, a).contains(row) ==> rows_at(t.by_descendant, row.0).contains((a, row.1))
    &&& forall|d: PathModel, row: RowModel| #[trigger]
        rows_at(t.by_descendant, d).contains(row) && (row.1 > 0 || row.0 == d) && !gone.contains(row.0)
            ==> rows_at(t.by_ancestor, row.0).contains((d, row.1))
    &&& forall|a: PathModel, row: RowModel| #[trigger]
        rows_at(t.by_parent, a).contains(row) <==> rows_at(t.by_ancestor, a).contains(row) && row.1 == 1
}

/// The rows above each known path lead to all the paths above it.
spec fn rows_above_whole(t: TreeModel) -> bool {
    forall|d: PathModel| #[trigger]
        known(t, d) ==> countable(d) && d != empty_path() && t.by_descendant[d] == ancestor_rows(d)
}

/// The paths above a path, whatever its components are.
proof fn lemma_ancestor_rows_of(d: PathModel)
    requires
        countable(d),
    ensures
        forall|row: RowModel| #[trigger]
            ancestor_rows(d).contains(row) <==> is_under(d, row.0) && row.0 != empty_path() && row.1 == distance(
                d,
                row.0,
            ),
        forall|i: int, j: int|
            0 <= i < j < ancestor_rows(d).len() ==> (#[trigger] ancestor_rows(d)[i]).0 != (
            #[trigger] ancestor_rows(d)[j]).0,
{
    let rows = ancestor_rows(d);
    assert forall|row: RowModel| #[trigger] rows.contains(row) <==> is_under(d, row.0) && row.0 != empty_path() && row.1
        == distance(d, row.0) by {
        if rows.contains(row) {
            let i = choose|i: int| 0 <= i < rows.len() && rows[i] == row;
            let a = ancestor_at(d, i);
            assert(a.1 =~= d.1.subrange(0, a.1.len() as int));
            if a == empty_path() {
                assert(a.1.len() == d.1.len() - i);
            }
        }
        if is_under(d, row.0) && row.0 != empty_path() && row.1 == distance(d, row.0) {
            let i = d.1.len() - row.0.1.len();
            assert(row.0.1 =~= d.1.take(row.0.1.len() as int));
            assert(ancestor_at(d, i) == row.0);
            if i == component_count(d) {
                assert(row.0.1 =~= Seq::<Seq<u8>>::empty());
            }
            assert(rows[i] == row);
        }
    }
    assert forall|i: int, j: int| 0 <= i < j < rows.len() implies (#[trigger] rows[i]).0 != (#[trigger] rows[j]).0 by {
        assert(rows[i].0.1.len() == d.1.len() - i);
        assert(rows[j].0.1.len() == d.1.len() - j);
    }
}

/// One more row goes into all indexes.
proof fn lemma_row_agrees(t: TreeModel, a: PathModel, d: PathModel, dist: u32)
    requires
        indexes_agree(t, Seq::empty()),
    ensures
        indexes_agree(with_row(t, a, d, dist), Seq::empty()),
{
    let u = with_row(t, a, d, dist);
    lemma_push_contains(rows_at(t.by_ancestor, a), (d, dist));
    lemma_push_contains(rows_at(t.by_descendant, d), (a, dist));
    lemma_push_contains(rows_at(t.by_parent, a), (d, dist));
    assert forall|x: PathModel, row: RowModel| #[trigger] rows_at(u.by_ancestor, x).contains(row) implies rows_at(
        u.by_descendant,
        row.0,
    ).contains((x, row.1)) by {
        if x == a && row == (d, dist) {
            assert(rows_at(u.by_descendant, d).contains((a, dist)));
        } else {
            assert(rows_at(t.by_ancestor, x).contains(row));
            assert(rows_at(t.by_descendant, row.0).contains((x, row.1)));
        }
    }
    assert forall|x: PathModel, row: RowModel| #[trigger] rows_at(u.by_descendant, x).contains(row) && (row.1 > 0
        || row.0 == x) implies rows_at(u.by_ancestor, row.0).contains((x, row.1)) by {
        if x == d && row == (a, dist) {
            assert(rows_at(u.by_ancestor, a).contains((d, dist)));
        } else {
            assert(rows_at(t.by_descendant, x).contains(row));
            assert(rows_at(t.by_ancestor, row.0).contains((x, row.1)));
        }
    }
    assert forall|x: PathModel, row: RowModel| #[trigger] rows_at(u.by_parent, x).contains(row) <==> rows_at(
        u.by_ancestor,
        x,
    ).contains(row) && row.1 == 1 by {
        assert(rows_at(t.by_parent, x).contains(row) <==> rows_at(t.by_ancestor, x).contains(row) && row.1 == 1);
    }
}

proof fn lemma_rows_agree(t: TreeModel, d: PathModel, rows: Seq<RowModel>)
    requires
        indexes_agree(t, Seq::empty()),
    ensures
        indexes_agree(with_rows(t, d, rows), Seq::empty()),
    decreases rows.len(),
{
    if rows.len() > 0 {
        lemma_rows_agree(t, d, rows.drop_last());
        lemma_row_agrees(with_rows(t, d, rows.drop_last()), rows.last().0, d, rows.last().1);
    }
}

/// Inserting keeps the indexes in agreement.
proof fn lemma_prefixes_agree(t: TreeModel, p: PathModel, j: nat)
    requires
        indexes_agree(t, Seq::empty()),
        rows_above_whole(t),
        countable(p),
        j <= component_count(p),
    ensures
        indexes_agree(with_prefixes(t, p, j), Seq::empty()),
        rows_above_whole(with_prefixes(t, p, j)),
    decreases j,
{
    if j > 0 {
        let k = (j - 1) as nat;
        lemma_prefixes_agree(t, p, k);
        let u = with_prefixes(t, p, k);
        let q = ancestor_at(p, component_count(p) - j);
        if !known(u, q) {
            let w = with_rows(u, q, ancestor_rows(q));
            lemma_rows_agree(u, q, ancestor_rows(q));
            lemma_ancestor_rows_of(q);
            lemma_with_rows(u, q, ancestor_rows(q));
            assert(q.1.len() == p.1.len() - (component_count(p) - j));
            assert(component_count(q) > 0);
            assert forall|d: PathModel| #[trigger] known(w, d) implies countable(d) && d != empty_path()
                && w.by_descendant[d] == ancestor_rows(d) by {
                if d == q {
                    assert(rows_at(w.by_descendant, q) =~= ancestor_rows(q));
                } else {
                    assert(known(u, d));
                }
            }
        }
    }
}

/// Forgetting one path keeps the indexes in agreement but for the rows from it.
proof fn lemma_without_one_agrees(t: TreeModel, v: PathModel, gone: Seq<PathModel>)
    requires
        indexes_agree(t, gone),
        rows_above_whole(t),
    ensures
        indexes_agree(without_one(t, v), gone.push(v)),
        rows_above_whole(without_one(t, v)),
        forall|d: PathModel| #[trigger] known(without_one(t, v), d) <==> known(t, d) && d != v,
{
    let u = without_one(t, v);
    let above = rows_at(t.by_descendant, v);
    lemma_drop_rows(t.by_ancestor, above, v);
    lemma_drop_rows(t.by_parent, above, v);
    assert forall|d: PathModel| #[trigger] known(u, d) implies countable(d) && d != empty_path() && u.by_descendant[d]
        == ancestor_rows(d) by {
        assert(known(t, d));
    }
    lemma_push_contains(gone, v);
    assert forall|a: PathModel, row: RowModel| #[trigger] rows_at(u.by_ancestor, a).contains(row) <==> a != v && row.0
        != v && rows_at(t.by_ancestor, a).contains(row) by {
        lemma_rows_without(rows_at(t.by_ancestor, a), v);
        if a != v && row.0 == v && rows_at(t.by_ancestor, a).contains(row) {
            assert(above.contains((a, row.1)));
            let i = choose|i: int| 0 <= i < above.len() && above[i] == (a, row.1);
            assert(row_paths(above)[i] == a);
        }
    }
    assert forall|a: PathModel, row: RowModel| #[trigger] rows_at(u.by_parent, a).contains(row) <==> a != v && row.0 != v
        && rows_at(t.by_parent, a).contains(row) by {
        lemma_rows_without(rows_at(t.by_parent, a), v);
        if a != v && row.0 == v && rows_at(t.by_parent, a).contains(row) {
            assert(rows_at(t.by_ancestor, a).contains(row));
            assert(above.contains((a, row.1)));
            let i = choose|i: int| 0 <= i < above.len() && above[i] == (a, row.1);
            assert(row_paths(above)[i] == a);
        }
    }
    assert forall|a: PathModel, row: RowModel| #[trigger] rows_at(u.by_ancestor, a).contains(row) implies rows_at(
        u.by_descendant,
        row.0,
    ).contains((a, row.1)) by {
        assert(rows_at(t.by_descendant, row.0).contains((a, row.1)));
    }
    assert forall|d: PathModel, row: RowModel| #[trigger] rows_at(u.by_descendant, d).contains(row) && (row.1 > 0 || row.0
        == d) && !gone.push(v).contains(row.0) implies rows_at(u.by_ancestor, row.0).contains((d, row.1)) by {
        assert(rows_at(t.by_descendant, d).contains(row));
        assert(rows_at(t.by_ancestor, row.0).contains((d, row.1)));
    }
    assert forall|a: PathModel, row: RowModel| #[trigger] rows_at(u.by_parent, a).contains(row) <==> rows_at(
        u.by_ancestor,
        a,
    ).contains(row) && row.1 == 1 by {
        assert(rows_at(t.by_parent, a).contains(row) <==> rows_at(t.by_ancestor, a).contains(row) && row.1 == 1);
    }
}

proof fn lemma_without_all_agrees(t: TreeModel, s: Seq<PathModel>)
    requires
        indexes_agree(t, Seq::empty()),
        rows_above_whole(t),
    ensures
        indexes_agree(without_all(t, s), s),
        rows_above_whole(without_all(t, s)),
        forall|d: PathModel| #[trigger] known(without_all(t, s), d) <==> known(t, d) && !s.contains(d),
    decreases s.len(),
{
    if s.len() > 0 {
        let init = s.drop_last();
        lemma_without_all_agrees(t, init);
        lemma_without_one_agrees(without_all(t, init), s.last(), init);
        lemma_push_contains(init, s.last());
        assert(init.push(s.last()) =~= s);
    } else {
        assert(s =~= Seq::empty());
    }
}

/// Distances add up along a path.
proof fn lemma_distances_add(d: PathModel, a: PathModel, p: PathModel)
    requires
        countable(d),
        is_under(d, a),
        is_under(a, p),
    ensures
        is_under(d, p),
        distance(d, p) == distance(d, a) + distance(a, p),
{
    assert(a.1 =~= d.1.take(a.1.len() as int));
    assert(p.1 =~= a.1.take(p.1.len() as int));
    assert(p.1 =~= d.1.subrange(0, p.1.len() as int));
    crate::syncing::closure::lemma_depth_take(d.1, a.1.len() as int);
    crate::syncing::closure::lemma_depth_take(a.1, p.1.len() as int);
}

/// Forgetting a path with everything below it keeps the indexes in agreement.
proof fn lemma_remove_agrees(t: TreeModel, p: PathModel)
    requires
        indexes_agree(t, Seq::empty()),
        rows_above_whole(t),
    ensures
        indexes_agree(tree_remove(t, p), Seq::empty()),
        rows_above_whole(tree_remove(t, p)),
{
    let sub = tree_subtree(t, p);
    let s = deepest_first(sub);
    let u = tree_remove(t, p);
    lemma_max_count(sub);
    lemma_counts_down(sub, max_count(sub) as int);
    lemma_without_all_agrees(t, s);
    lemma_far_paths(rows_at(t.by_ancestor, p));
    let far = tree_descendants(t, p);
    assert forall|x: PathModel| #[trigger] s.contains(x) <==> known(t, p) && (x == p || far.contains(x)) by {
        assert(s.contains(x) <==> sub.contains(x));
        if known(t, p) {
            if x == p {
                assert(sub[0] == p);
            }
            if far.contains(x) {
                let i = choose|i: int| 0 <= i < far.len() && far[i] == x;
                assert(sub[i + 1] == x);
            }
            if sub.contains(x) && x != p {
                let i = choose|i: int| 0 <= i < sub.len() && sub[i] == x;
                assert(far[i - 1] == x);
            }
        }
    }
    assert forall|d: PathModel, row: RowModel| #[trigger] rows_at(u.by_descendant, d).contains(row) && (row.1 > 0 || row.0
        == d) implies rows_at(u.by_ancestor, row.0).contains((d, row.1)) by {
        let a = row.0;
        assert(known(u, d));
        assert(known(t, d) && !s.contains(d));
        if s.contains(a) {
            lemma_ancestor_rows_of(d);
            assert(u.by_descendant[d] == ancestor_rows(d));
            assert(t.by_descendant[d] == ancestor_rows(d));
            if a != p {
                let r = choose|r: RowModel| #[trigger] rows_at(t.by_ancestor, p).contains(r) && r.0 == a && r.1 > 0;
                assert(rows_at(t.by_descendant, a).contains((p, r.1)));
                assert(known(t, a));
                lemma_ancestor_rows_of(a);
                assert(t.by_descendant[a] == ancestor_rows(a));
                assert(ancestor_rows(a).contains((p, r.1)));
                lemma_distances_add(d, a, p);
            }
            let to_p: RowModel = (p, distance(d, p));
            assert(p != empty_path());
            assert(ancestor_rows(d).contains(to_p));
            assert(rows_at(t.by_descendant, d).contains(to_p));
            assert(rows_at(t.by_ancestor, p).contains((d, to_p.1)));
            assert(far.contains(d));
            assert(s.contains(d));
        }
    }
}

proof fn lemma_reached_agrees(changes: Seq<TreeChange>)
    requires
        forall|i: int| 0 <= i < changes.len() ==> countable(changed_path(#[trigger] changes[i])),
    ensures
        indexes_agree(tree_after(changes), Seq::empty()),
        rows_above_whole(tree_after(changes)),
    decreases changes.len(),
{
    if changes.len() > 0 {
        let init = changes.drop_last();
        assert forall|i: int| 0 <= i < init.len() implies countable(changed_path(#[trigger] init[i])) by {
            assert(init[i] == changes[i]);
        }
        lemma_reached_agrees(init);
        assert(countable(changed_path(changes[changes.len() - 1])));
        let t = tree_after(init);
        match changes.last() {
            TreeChange::Insert(p) => {
                lemma_prefixes_agree(t, p, component_count(p));
            },
            TreeChange::Remove(p) => {
                lemma_remove_agrees(t, p);
            },
        }
    }
}

/// A tree that was made by inserting and removing, whatever the components of the
/// paths, comes back from its closure rows: the same paths are known, and each has the
/// same children, the same paths above it and the same paths below it.
pub proof fn law_stored_tree_comes_back(changes: Seq<TreeChange>, rows: Seq<ClosureRow>, q: PathModel)
    requires
        forall|i: int| 0 <= i < changes.len() ==> countable(changed_path(#[trigger] changes[i])),
        forall|a: PathModel| #[trigger]
            rows_below(rows, a) == rows_at(tree_after(changes).by_ancestor, a),
    ensures
        ({
            let t = tree_after(changes);
            let back = tree_of_rows(rows);
            &&& known(back, q) <==> known(t, q)
            &&& tree_descendants(back, q) == tree_descendants(t, q)
            &&& forall|x: PathModel| #[trigger]
                tree_children(back, q).contains(x) <==> tree_children(t, q).contains(x)
            &&& forall|x: PathModel| #[trigger]
                tree_ancestors(back, q).contains(x) <==> tree_ancestors(t, q).contains(x)
        }),
{
    let t = tree_after(changes);
    let back = tree_of_rows(rows);
    lemma_reached_agrees(changes);
    lemma_tree_of_rows(rows);
    lemma_row_lists(rows);
    assert(rows_at(back.by_ancestor, q) == rows_below(rows, q));
    assert(rows_at(back.by_descendant, q) == rows_above(rows, q));
    assert(rows_at(back.by_parent, q) == rows_next(rows, q));
    assert(rows_below(rows, q) == rows_at(t.by_ancestor, q));
    assert forall|row: RowModel| #[trigger] rows_above(rows, q).contains(row) <==> rows_at(t.by_ancestor, row.0).contains(
        (q, row.1),
    ) by {
        assert(rows_below(rows, row.0).contains((q, row.1)) <==> rows.contains((row.0, q, row.1)));
        assert(rows_below(rows, row.0) == rows_at(t.by_ancestor, row.0));
    }
    if known(t, q) {
        lemma_ancestor_rows_of(q);
        let own: RowModel = (q, distance(q, q));
        assert(q.1 =~= q.1.subrange(0, q.1.len() as int));
        assert(ancestor_rows(q).contains(own));
        assert(rows_at(t.by_descendant, q).contains(own));
        assert(rows_above(rows, q).contains(own));
    }
    if known(back, q) {
        let row = rows_above(rows, q)[0];
        assert(rows_above(rows, q).contains(row));
        assert(rows_at(t.by_ancestor, row.0).contains((q, row.1)));
        assert(rows_at(t.by_descendant, q).contains(row));
    }
    lemma_far_paths(rows_at(t.by_descendant, q));
    lemma_far_paths(rows_above(rows, q));
    assert forall|x: PathModel| #[trigger] tree_ancestors(back, q).contains(x) <==> tree_ancestors(t, q).contains(x) by {
        if tree_ancestors(back, q).contains(x) {
            let row = choose|row: RowModel| #[trigger] rows_above(rows, q).contains(row) && row.0 == x && row.1 > 0;
            assert(rows_at(t.by_ancestor, row.0).contains((q, row.1)));
            assert(rows_at(t.by_descendant, q).contains(row));
        }
        if tree_ancestors(t, q).contains(x) {
            let row = choose|row: RowModel| #[trigger]
                rows_at(t.by_descendant, q).contains(row) && row.0 == x && row.1 > 0;
            assert(rows_at(t.by_ancestor, row.0).contains((q, row.1)));
            assert(rows_above(rows, q).contains(row));
        }
    }
    let mine = rows_at(t.by_parent, q);
    let theirs = rows_next(rows, q);
    assert forall|row: RowModel| #[trigger] theirs.contains(row) <==> mine.contains(row) by {
        assert(rows_below(rows, q).contains(row) <==> rows.contains((q, row.0, row.1)));
        assert(mine.contains(row) <==> rows_at(t.by_ancestor, q).contains(row) && row.1 == 1);
    }
    lemma_same_row_paths(theirs, mine);
    lemma_same_row_paths(mine, theirs);
}

/// Rows that are all among others lead to paths that are all among theirs.
proof fn lemma_same_row_paths(some: Seq<RowModel>, others: Seq<RowModel>)
    requires
        forall|row: RowModel| #[trigger] some.contains(row) ==> others.contains(row),
    ensures
        forall|x: PathModel| #[trigger] row_paths(some).contains(x) ==> row_paths(others).contains(x),
{
    assert forall|x: PathModel| #[trigger] row_paths(some).contains(x) implies row_paths(others).contains(x) by {
        let i = choose|i: int| 0 <= i < some.len() && row_paths(some)[i] == x;
        assert(some.contains(some[i]));
        let j = choose|j: int| 0 <= j < others.len() && others[j] == some[i];
        assert(row_paths(others)[j] == x);
    }
}

} // verus!
