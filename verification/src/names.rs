//! A map from file names to values, kept in the order of the names' bytes.

use vstd::prelude::*;

verus! {

/// Whether `a` comes before `b` in the order of their bytes; a name comes before
/// every longer name that it starts.
pub open spec fn name_before(a: Seq<u8>, b: Seq<u8>) -> bool
    decreases a.len(),
{
    if b.len() == 0 {
        false
    } else if a.len() == 0 {
        true
    } else {
        a[0] < b[0] || (a[0] == b[0] && name_before(a.skip(1), b.skip(1)))
    }
}

/// No name comes before itself, and of two different names one comes first.
proof fn lemma_name_total(a: Seq<u8>, b: Seq<u8>)
    ensures
        !name_before(a, a),
        name_before(a, b) ==> !name_before(b, a) && a != b,
        a != b ==> name_before(a, b) || name_before(b, a),
    decreases a.len(),
{
    if a.len() > 0 {
        lemma_name_total(a.skip(1), a.skip(1));
        if b.len() > 0 {
            lemma_name_total(a.skip(1), b.skip(1));
            if a[0] == b[0] && a.skip(1) == b.skip(1) {
                assert(a =~= b) by {
                    assert(a.len() == b.len());
                    assert forall|i: int| 0 <= i < a.len() implies a[i] == b[i] by {
                        if i > 0 {
                            assert(a.skip(1)[i - 1] == b.skip(1)[i - 1]);
                        }
                    }
                }
            }
        }
    } else if b.len() == 0 {
        assert(a =~= b);
    }
}

/// The order of names is transitive.
proof fn lemma_name_chain(a: Seq<u8>, b: Seq<u8>, c: Seq<u8>)
    requires
        name_before(a, b),
        name_before(b, c),
    ensures
        name_before(a, c),
    decreases a.len(),
{
    if a.len() > 0 && b.len() > 0 && c.len() > 0 && a[0] == b[0] && b[0] == c[0] {
        lemma_name_chain(a.skip(1), b.skip(1), c.skip(1));
    }
}

/// Where one name stands beside another.
#[derive(Debug, Clone, Copy, PartialEq, Eq, Structural)]
pub enum Side {
    Before,
    Same,
    After,
}

/// Where `a` stands beside `b`.
pub fn side_of(a: &[u8], b: &[u8]) -> (r: Side)
    ensures
        match r {
            Side::Before => name_before(a@, b@),
            Side::Same => a@ == b@,
            Side::After => name_before(b@, a@),
        },
{
    let mut i: usize = 0;
    proof {
        assert(a@.skip(0) =~= a@);
        assert(b@.skip(0) =~= b@);
    }
    while i < a.len() && i < b.len()
        invariant
            i <= a.len(),
            i <= b.len(),
            name_before(a@, b@) == name_before(a@.skip(i as int), b@.skip(i as int)),
            name_before(b@, a@) == name_before(b@.skip(i as int), a@.skip(i as int)),
            a@.take(i as int) == b@.take(i as int),
        decreases a.len() - i,
    {
        proof {
            assert(a@.skip(i as int).skip(1) =~= a@.skip(i + 1));
            assert(b@.skip(i as int).skip(1) =~= b@.skip(i + 1));
        }
        if a[i] < b[i] {
            return Side::Before;
        }
        if a[i] > b[i] {
            return Side::After;
        }
        proof {
            assert(a@.take(i + 1) =~= a@.take(i as int).push(a@[i as int]));
            assert(b@.take(i + 1) =~= b@.take(i as int).push(b@[i as int]));
        }
        i = i + 1;
    }
    if i < b.len() {
        Side::Before
    } else if i < a.len() {
        Side::After
    } else {
        proof {
            assert(a@.take(i as int) =~= a@);
            assert(b@.take(i as int) =~= b@);
        }
        Side::Same
    }
}

/// A map from names to values.
#[derive(Debug)]
pub struct NameMap<V> {
    rows: Vec<(Vec<u8>, V)>,
}

/// Whether the names of rows go up strictly.
pub open spec fn names_ascend<V>(rows: Seq<(Seq<u8>, V)>) -> bool {
    forall|i: int, j: int|
        0 <= i < j < rows.len() ==> name_before((#[trigger] rows[i]).0, (#[trigger] rows[j]).0)
}

/// Names that go up strictly are all different.
pub proof fn lemma_names_distinct<V>(rows: Seq<(Seq<u8>, V)>)
    requires
        names_ascend(rows),
    ensures
        forall|i: int, j: int| 0 <= i < j < rows.len() ==> (#[trigger] rows[i]).0 != (#[trigger] rows[j]).0,
{
    assert forall|i: int, j: int| 0 <= i < j < rows.len() implies (#[trigger] rows[i]).0 != (
    #[trigger] rows[j]).0 by {
        lemma_name_total(rows[i].0, rows[j].0);
    }
}

/// Whether a name has a row.
pub open spec fn has_name<V>(rows: Seq<(Seq<u8>, V)>, name: Seq<u8>) -> bool {
    exists|i: int| 0 <= i < rows.len() && (#[trigger] rows[i]).0 == name
}

/// Whether a name leads to a value.
pub open spec fn maps_to<V>(rows: Seq<(Seq<u8>, V)>, name: Seq<u8>, v: V) -> bool {
    exists|i: int| 0 <= i < rows.len() && #[trigger] rows[i] == (name, v)
}

impl<V> View for NameMap<V> {
    type V = Seq<(Seq<u8>, V)>;

    /// The names in order, each with its value.
    closed spec fn view(&self) -> Seq<(Seq<u8>, V)> {
        Seq::new(self.rows@.len(), |i: int| (self.rows@[i].0@, self.rows@[i].1))
    }
}

impl<V> NameMap<V> {
    /// The names go up strictly, so that none occurs twice.
    pub open spec fn wf(&self) -> bool {
        names_ascend(self@)
    }

    /// A map without names.
    pub fn new() -> (r: NameMap<V>)
        ensures
            r.wf(),
            r@.len() == 0,
    {
        NameMap { rows: Vec::new() }
    }

    /// How many names there are.
    pub fn len(&self) -> (r: usize)
        ensures
            r == self@.len(),
    {
        self.rows.len()
    }

    /// The name at a position.
    pub fn name_at(&self, i: usize) -> (r: &Vec<u8>)
        requires
            i < self@.len(),
        ensures
            r@ == self@[i as int].0,
    {
        &self.rows[i].0
    }

    /// The value at a position.
    pub fn value_at(&self, i: usize) -> (r: &V)
        requires
            i < self@.len(),
        ensures
            *r == self@[i as int].1,
    {
        &self.rows[i].1
    }

    /// How many names come before a name, and whether it is there.
    fn find(&self, name: &[u8]) -> (r: (usize, bool))
        requires
            self.wf(),
        ensures
            r.0 <= self@.len(),
            r.1 ==> r.0 < self@.len() && self@[r.0 as int].0 == name@,
            !r.1 ==> r.0 < self@.len() ==> name_before(name@, self@[r.0 as int].0),
            forall|i: int| 0 <= i < r.0 ==> name_before((#[trigger] self@[i]).0, name@),
    {
        let mut i: usize = 0;
        while i < self.rows.len()
            invariant
                i <= self.rows.len(),
                forall|k: int| 0 <= k < i ==> name_before((#[trigger] self@[k]).0, name@),
            decreases self.rows.len() - i,
        {
            match side_of(self.rows[i].0.as_slice(), name) {
                Side::Before => {},
                Side::Same => {
                    return (i, true);
                },
                Side::After => {
                    return (i, false);
                },
            }
            i = i + 1;
        }
        (i, false)
    }

    /// The value of a name.
    pub fn get(&self, name: &[u8]) -> (r: Option<&V>)
        requires
            self.wf(),
        ensures
            match r {
                Some(v) => maps_to(self@, name@, *v),
                None => !has_name(self@, name@),
            },
    {
        let (i, found) = self.find(name);
        if found {
            assert(self@[i as int] == (name@, self.rows@[i as int].1));
            Some(&self.rows[i].1)
        } else {
            proof {
                lemma_absent(self@, name@, i as int);
            }
            None
        }
    }

    /// Adds a name that comes after all others.
    pub fn append_last(&mut self, name: Vec<u8>, value: V)
        requires
            old(self).wf(),
            forall|i: int| 0 <= i < old(self)@.len() ==> name_before((#[trigger] old(self)@[i]).0, name@),
        ensures
            final(self).wf(),
            final(self)@ == old(self)@.push((name@, value)),
    {
        let ghost pre = self@;
        let ghost row = (name@, value);
        self.rows.push((name, value));
        proof {
            assert(self@ =~= pre.push(row));
        }
    }

    /// Takes a name out of the map.
    pub fn take(&mut self, name: &[u8]) -> (r: Option<V>)
        requires
            old(self).wf(),
        ensures
            final(self).wf(),
            !has_name(final(self)@, name@),
            match r {
                Some(v) => maps_to(old(self)@, name@, v),
                None => !has_name(old(self)@, name@),
            },
            forall|n: Seq<u8>, v: V|
                n != name@ ==> (#[trigger] maps_to(final(self)@, n, v) <==> maps_to(old(self)@, n, v)),
    {
        let (i, found) = self.find(name);
        let ghost pre = self@;
        if found {
            let row = self.rows.remove(i);
            proof {
                assert(self@ =~= pre.remove(i as int));
                lemma_removed(pre, i as int);
                assert(pre[i as int] == (name@, row.1));
            }
            Some(row.1)
        } else {
            proof {
                lemma_absent(self@, name@, i as int);
            }
            None
        }
    }

    /// Makes a name lead to a value, whatever it led to before.
    pub fn insert(&mut self, name: Vec<u8>, value: V)
        requires
            old(self).wf(),
        ensures
            final(self).wf(),
            maps_to(final(self)@, name@, value),
            forall|v: V| #[trigger] maps_to(final(self)@, name@, v) ==> v == value,
            forall|n: Seq<u8>, v: V|
                n != name@ ==> (#[trigger] maps_to(final(self)@, n, v) <==> maps_to(old(self)@, n, v)),
    {
        let ghost nv = name@;
        let _ = self.take(name.as_slice());
        let (i, found) = self.find(name.as_slice());
        let ghost pre = self@;
        proof {
            if found {
                assert(has_name(pre, nv));
            }
        }
        self.rows.insert(i, (name, value));
        proof {
            assert(self@ =~= pre.insert(i as int, (nv, value)));
            lemma_inserted(pre, i as int, nv, value);
        }
    }
}

/// A name that would stand at a position where another stands is not there.
proof fn lemma_absent<V>(rows: Seq<(Seq<u8>, V)>, name: Seq<u8>, at: int)
    requires
        names_ascend(rows),
        0 <= at <= rows.len(),
        forall|i: int| 0 <= i < at ==> name_before((#[trigger] rows[i]).0, name),
        at < rows.len() ==> name_before(name, rows[at].0),
    ensures
        !has_name(rows, name),
{
    assert forall|i: int| 0 <= i < rows.len() implies (#[trigger] rows[i]).0 != name by {
        if i < at {
            lemma_name_total(rows[i].0, name);
        } else {
            if i > at {
                lemma_name_chain(name, rows[at].0, rows[i].0);
            }
            lemma_name_total(name, rows[i].0);
        }
    }
}

proof fn lemma_removed<V>(rows: Seq<(Seq<u8>, V)>, at: int)
    requires
        names_ascend(rows),
        0 <= at < rows.len(),
    ensures
        names_ascend(rows.remove(at)),
        !has_name(rows.remove(at), rows[at].0),
        forall|n: Seq<u8>, v: V|
            n != rows[at].0 ==> (#[trigger] maps_to(rows.remove(at), n, v) <==> maps_to(rows, n, v)),
{
    let after = rows.remove(at);
    assert forall|i: int, j: int| 0 <= i < j < after.len() implies name_before(
        (#[trigger] after[i]).0,
        (#[trigger] after[j]).0,
    ) by {
        let a = if i < at {
            i
        } else {
            i + 1
        };
        let b = if j < at {
            j
        } else {
            j + 1
        };
        assert(after[i] == rows[a] && after[j] == rows[b]);
    }
    assert forall|i: int| 0 <= i < after.len() implies (#[trigger] after[i]).0 != rows[at].0 by {
        if i < at {
            assert(after[i] == rows[i]);
            lemma_name_total(rows[i].0, rows[at].0);
        } else {
            assert(after[i] == rows[i + 1]);
            lemma_name_total(rows[at].0, rows[i + 1].0);
        }
    }
    assert forall|n: Seq<u8>, v: V| n != rows[at].0 implies (#[trigger] maps_to(after, n, v) <==> maps_to(
        rows,
        n,
        v,
    )) by {
        if maps_to(after, n, v) {
            let i = choose|i: int| 0 <= i < after.len() && #[trigger] after[i] == (n, v);
            if i < at {
                assert(rows[i] == (n, v));
            } else {
                assert(rows[i + 1] == (n, v));
            }
        }
        if maps_to(rows, n, v) {
            let i = choose|i: int| 0 <= i < rows.len() && #[trigger] rows[i] == (n, v);
            if i < at {
                assert(after[i] == (n, v));
            } else {
                assert(after[i - 1] == (n, v));
            }
        }
    }
}

proof fn lemma_inserted<V>(rows: Seq<(Seq<u8>, V)>, at: int, name: Seq<u8>, value: V)
    requires
        names_ascend(rows),
        0 <= at <= rows.len(),
        !has_name(rows, name),
        forall|i: int| 0 <= i < at ==> name_before((#[trigger] rows[i]).0, name),
        at < rows.len() ==> name_before(name, rows[at].0),
    ensures
        names_ascend(rows.insert(at, (name, value))),
        maps_to(rows.insert(at, (name, value)), name, value),
        forall|v: V| #[trigger] maps_to(rows.insert(at, (name, value)), name, v) ==> v == value,
        forall|n: Seq<u8>, v: V|
            n != name ==> (#[trigger] maps_to(rows.insert(at, (name, value)), n, v) <==> maps_to(rows, n, v)),
{
    let after = rows.insert(at, (name, value));
    assert(after[at] == (name, value));
    assert forall|i: int, j: int| 0 <= i < j < after.len() implies name_before(
        (#[trigger] after[i]).0,
        (#[trigger] after[j]).0,
    ) by {
        if i < at && j < at {
            assert(after[i] == rows[i] && after[j] == rows[j]);
        } else if i < at && j == at {
            assert(after[i] == rows[i]);
        } else if i < at {
            assert(after[i] == rows[i] && after[j] == rows[j - 1]);
        } else if i == at {
            assert(after[j] == rows[j - 1]);
            if j - 1 > at {
                lemma_name_chain(name, rows[at].0, rows[j - 1].0);
            }
        } else {
            assert(after[i] == rows[i - 1] && after[j] == rows[j - 1]);
        }
    }
    assert forall|v: V| #[trigger] maps_to(after, name, v) implies v == value by {
        let i = choose|i: int| 0 <= i < after.len() && #[trigger] after[i] == (name, v);
        if i < at {
            assert(rows[i].0 == name);
        } else if i > at {
            assert(rows[i - 1].0 == name);
        }
    }
    assert forall|n: Seq<u8>, v: V| n != name implies (#[trigger] maps_to(after, n, v) <==> maps_to(rows, n, v)) by {
        if maps_to(after, n, v) {
            let i = choose|i: int| 0 <= i < after.len() && #[trigger] after[i] == (n, v);
            if i < at {
                assert(rows[i] == (n, v));
            } else {
                assert(rows[i - 1] == (n, v));
            }
        }
        if maps_to(rows, n, v) {
            let i = choose|i: int| 0 <= i < rows.len() && #[trigger] rows[i] == (n, v);
            if i < at {
                assert(after[i] == (n, v));
            } else {
                assert(after[i + 1] == (n, v));
            }
        }
    }
}

/// Two rows of one name are one row.
pub proof fn lemma_one_row<V>(rows: Seq<(Seq<u8>, V)>, i: int, j: int)
    requires
        names_ascend(rows),
        0 <= i < rows.len(),
        0 <= j < rows.len(),
        rows[i].0 == rows[j].0,
    ensures
        i == j,
{
    lemma_name_total(rows[i].0, rows[j].0);
}

} // verus!
