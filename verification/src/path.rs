//! Paths, broken into their components.
//!
//! A path is either rooted at `/` or relative, and carries its components in
//! order.  Two spellings with the same components (`a//b`, `a/./b`, `a/b/`) are
//! one path.

use crate::bytes::{
    bytes_views, copy_byte_lists, copy_byte_lists_prefix, copy_bytes, same_byte_lists, same_bytes,
};
use vstd::prelude::*;

verus! {

/// The separator between components.
pub const SLASH: u8 = 47;

/// The byte of the components `.` and `..`.
pub const DOT: u8 = 46;

/// What a path is: whether it starts at the root, and its components in order.
pub type PathModel = (bool, Seq<Seq<u8>>);

/// A path as a table key: whether it starts at the root, and its components.
pub type PathKey = (bool, Vec<Vec<u8>>);

/// The path that a table key stands for.
pub open spec fn key_model(k: PathKey) -> PathModel {
    (k.0, bytes_views(k.1@))
}

/// The component `.`.
pub open spec fn dot() -> Seq<u8> {
    seq![DOT]
}

/// The component `..`.
pub open spec fn dot_dot() -> Seq<u8> {
    seq![DOT, DOT]
}

/// The pieces of a byte string between its slashes.
pub open spec fn split_slash(b: Seq<u8>) -> Seq<Seq<u8>>
    decreases b.len(),
{
    if b.len() == 0 {
        seq![Seq::<u8>::empty()]
    } else {
        let init = split_slash(b.drop_last());
        if b.last() == SLASH {
            init.push(Seq::<u8>::empty())
        } else {
            init.drop_last().push(init.last().push(b.last()))
        }
    }
}

/// Whether the piece at `i` is a component: empty pieces are not, and `.` only
/// where it starts a relative path.
pub open spec fn is_component(piece: Seq<u8>, i: int, rooted: bool) -> bool {
    piece.len() > 0 && (piece != dot() || (i == 0 && !rooted))
}

/// The components among the pieces.
pub open spec fn components_of(pieces: Seq<Seq<u8>>, rooted: bool) -> Seq<Seq<u8>>
    decreases pieces.len(),
{
    if pieces.len() == 0 {
        Seq::empty()
    } else {
        let init = components_of(pieces.drop_last(), rooted);
        if is_component(pieces.last(), pieces.len() - 1, rooted) {
            init.push(pieces.last())
        } else {
            init
        }
    }
}

/// Whether a byte string starts at the root.
pub open spec fn starts_at_root(b: Seq<u8>) -> bool {
    b.len() > 0 && b[0] == SLASH
}

/// The path that a byte string spells.
pub open spec fn parse_path(b: Seq<u8>) -> PathModel {
    (starts_at_root(b), components_of(split_slash(b), starts_at_root(b)))
}

/// The components joined by slashes.
pub open spec fn join_names(names: Seq<Seq<u8>>) -> Seq<u8>
    decreases names.len(),
{
    if names.len() == 0 {
        Seq::empty()
    } else if names.len() == 1 {
        names[0]
    } else {
        join_names(names.drop_last()).push(SLASH) + names.last()
    }
}

/// The shortest spelling of a path.
pub open spec fn render_path(p: PathModel) -> Seq<u8> {
    if p.0 {
        seq![SLASH] + join_names(p.1)
    } else {
        join_names(p.1)
    }
}

/// A name that can stand as a component at position `i`.
pub open spec fn name_ok(name: Seq<u8>, i: int, rooted: bool) -> bool {
    is_component(name, i, rooted) && !name.contains(SLASH)
}

/// A path that some byte string spells.
pub open spec fn path_ok(p: PathModel) -> bool {
    forall|i: int| 0 <= i < p.1.len() ==> name_ok(#[trigger] p.1[i], i, p.0)
}

/// A path whose components all name something: no `.` and no `..` among them.
pub open spec fn path_plain(p: PathModel) -> bool {
    forall|i: int| 0 <= i < p.1.len() ==> is_normal(#[trigger] p.1[i])
}

/// A component that names an entry of its directory.
pub open spec fn is_normal(name: Seq<u8>) -> bool {
    name != dot() && name != dot_dot()
}

/// The empty path.
pub open spec fn empty_path() -> PathModel {
    (false, Seq::empty())
}

/// The root.
pub open spec fn root_path() -> PathModel {
    (true, Seq::empty())
}

/// The path without its last component; none of the root and of the empty path.
pub open spec fn parent_of(p: PathModel) -> Option<PathModel> {
    if p.1.len() == 0 {
        None
    } else {
        Some((p.0, p.1.drop_last()))
    }
}

/// The last component, where it names an entry.
pub open spec fn file_name_of(p: PathModel) -> Option<Seq<u8>> {
    if p.1.len() > 0 && is_normal(p.1.last()) {
        Some(p.1.last())
    } else {
        None
    }
}

/// The first `k` components of a path.
pub open spec fn path_prefix(p: PathModel, k: int) -> PathModel {
    (p.0, p.1.take(k))
}

/// Whether `base` is `p` or one of the directories that lead to it.
pub open spec fn is_under(p: PathModel, base: PathModel) -> bool {
    p.0 == base.0 && base.1.is_prefix_of(p.1)
}

/// Whether `p` starts with the components of `base`; every path starts with the
/// empty one.
pub open spec fn starts_with_path(p: PathModel, base: PathModel) -> bool {
    base == empty_path() || is_under(p, base)
}

/// What follows `base` in `p`.
pub open spec fn strip_path_prefix(p: PathModel, base: PathModel) -> Option<PathModel> {
    if base == empty_path() {
        Some(p)
    } else if is_under(p, base) {
        Some((false, p.1.skip(base.1.len() as int)))
    } else {
        None
    }
}

/// The components of a relative path as they stand behind another path.
pub open spec fn tail_names(base: PathModel, q: PathModel) -> Seq<Seq<u8>> {
    if base != empty_path() && q.1.len() > 0 && q.1[0] == dot() {
        q.1.skip(1)
    } else {
        q.1
    }
}

/// `q` taken from `base`; a rooted `q` stands for itself.
pub open spec fn join_path(base: PathModel, q: PathModel) -> PathModel {
    if q.0 {
        q
    } else {
        (base.0, base.1 + tail_names(base, q))
    }
}

/// The entry `name` of the directory `base`.
pub open spec fn child_path(base: PathModel, name: Seq<u8>) -> PathModel {
    join_path(base, parse_path(name))
}

/// How many components name something.
pub open spec fn depth_of(names: Seq<Seq<u8>>) -> nat
    decreases names.len(),
{
    if names.len() == 0 {
        0
    } else {
        depth_of(names.drop_last()) + if is_normal(names.last()) {
            1nat
        } else {
            0nat
        }
    }
}

/// How many components a path has, the root counted as one.
pub open spec fn component_count(p: PathModel) -> nat {
    p.1.len() + if p.0 {
        1nat
    } else {
        0nat
    }
}

/// One step of resolving the components of a path by name alone.
pub open spec fn normalize_names(names: Seq<Seq<u8>>) -> Seq<Seq<u8>>
    decreases names.len(),
{
    if names.len() == 0 {
        Seq::empty()
    } else {
        let init = normalize_names(names.drop_last());
        if names.last() == dot() {
            init
        } else if names.last() == dot_dot() {
            if init.len() > 0 {
                init.drop_last()
            } else {
                init
            }
        } else {
            init.push(names.last())
        }
    }
}

/// Splitting leaves at least one piece, and none of them holds a slash.
pub proof fn lemma_split_pieces(b: Seq<u8>)
    ensures
        split_slash(b).len() > 0,
        forall|i: int|
            0 <= i < split_slash(b).len() ==> !(#[trigger] split_slash(b)[i]).contains(SLASH),
        starts_at_root(b) ==> split_slash(b)[0].len() == 0,
    decreases b.len(),
{
    if b.len() > 0 {
        let init = split_slash(b.drop_last());
        lemma_split_pieces(b.drop_last());
        assert forall|i: int| 0 <= i < split_slash(b).len() implies !(
        #[trigger] split_slash(b)[i]).contains(SLASH) by {
            if b.last() != SLASH && i == init.len() - 1 {
                let piece = split_slash(b)[i];
                assert(piece == init.last().push(b.last()));
                if piece.contains(SLASH) {
                    let k = choose|k: int| 0 <= k < piece.len() && piece[k] == SLASH;
                    assert(init.last()[k] == SLASH);
                    assert(init.last().contains(SLASH));
                }
            } else if i < init.len() {
                assert(split_slash(b)[i] == init[i]);
            }
        }
        if starts_at_root(b) {
            if b.len() == 1 {
                assert(b.drop_last() =~= Seq::<u8>::empty());
                assert(split_slash(b)[0] == init[0]);
            } else {
                assert(b.drop_last()[0] == b[0]);
                if init.len() == 1 {
                    lemma_one_piece(b.drop_last());
                }
                assert(split_slash(b)[0] == init[0]);
            }
        }
    }
}

/// A string of one piece holds no slash.
proof fn lemma_one_piece(b: Seq<u8>)
    requires
        split_slash(b).len() == 1,
    ensures
        !b.contains(SLASH),
    decreases b.len(),
{
    if b.len() > 0 {
        lemma_split_pieces(b.drop_last());
        lemma_one_piece(b.drop_last());
        if b.contains(SLASH) {
            let k = choose|k: int| 0 <= k < b.len() && b[k] == SLASH;
            assert(b.drop_last()[k] == SLASH);
        }
    }
}

/// A name without slashes is its own only piece, and one behind a slash is the
/// last piece.
proof fn lemma_split_last(a: Seq<u8>, name: Seq<u8>)
    requires
        !name.contains(SLASH),
    ensures
        split_slash(name) == seq![name],
        split_slash(a.push(SLASH) + name) == split_slash(a).push(name),
    decreases name.len(),
{
    let whole = a.push(SLASH) + name;
    if name.len() == 0 {
        assert(name =~= Seq::<u8>::empty());
        assert(whole =~= a.push(SLASH));
        assert(whole.drop_last() =~= a);
    } else {
        let short = name.drop_last();
        assert(!short.contains(SLASH)) by {
            if short.contains(SLASH) {
                let k = choose|k: int| 0 <= k < short.len() && short[k] == SLASH;
                assert(name[k] == SLASH);
            }
        }
        lemma_split_last(a, short);
        assert(name.last() != SLASH) by {
            assert(name[name.len() - 1] == name.last());
        }
        assert(short.push(name.last()) =~= name);
        assert(whole.drop_last() =~= a.push(SLASH) + short);
        assert(split_slash(name) =~= seq![name]);
        assert(split_slash(whole) =~= split_slash(a).push(name));
    }
}

/// Joining names and splitting the result gives the names back.
pub proof fn lemma_split_join(names: Seq<Seq<u8>>)
    requires
        names.len() > 0,
        forall|i: int| 0 <= i < names.len() ==> !(#[trigger] names[i]).contains(SLASH),
    ensures
        split_slash(join_names(names)) == names,
        split_slash(seq![SLASH] + join_names(names)) == seq![Seq::<u8>::empty()] + names,
    decreases names.len(),
{
    let last = names.last();
    assert(!names[names.len() - 1].contains(SLASH));
    if names.len() == 1 {
        lemma_split_last(Seq::empty(), last);
        assert(Seq::<u8>::empty().push(SLASH) =~= seq![SLASH]);
        assert(split_slash(Seq::<u8>::empty()) =~= seq![Seq::<u8>::empty()]);
        assert(seq![last] =~= names);
        assert(seq![Seq::<u8>::empty()].push(last) =~= seq![Seq::<u8>::empty()] + names);
    } else {
        let init = names.drop_last();
        assert forall|i: int| 0 <= i < init.len() implies !(#[trigger] init[i]).contains(SLASH) by {
            assert(init[i] == names[i]);
        }
        lemma_split_join(init);
        let a = join_names(init);
        lemma_split_last(a, last);
        lemma_split_last(seq![SLASH] + a, last);
        assert(init.push(last) =~= names);
        assert(seq![SLASH] + join_names(names) =~= (seq![SLASH] + a).push(SLASH) + last);
        assert((seq![Seq::<u8>::empty()] + init).push(last) =~= seq![Seq::<u8>::empty()] + names);
    }
}

/// Pieces that are all components stay, behind an empty first piece too.
pub proof fn lemma_components_kept(names: Seq<Seq<u8>>, rooted: bool)
    requires
        forall|i: int| 0 <= i < names.len() ==> is_component(#[trigger] names[i], i, rooted),
    ensures
        !rooted ==> components_of(names, rooted) == names,
        rooted ==> components_of(seq![Seq::<u8>::empty()] + names, rooted) == names,
    decreases names.len(),
{
    let e = seq![Seq::<u8>::empty()];
    if names.len() == 0 {
        assert(e + names =~= e);
        assert(e.drop_last() =~= Seq::<Seq<u8>>::empty());
        assert(components_of(e.drop_last(), rooted) =~= Seq::<Seq<u8>>::empty());
        assert(names =~= Seq::<Seq<u8>>::empty());
    } else {
        let init = names.drop_last();
        assert forall|i: int| 0 <= i < init.len() implies is_component(
            #[trigger] init[i],
            i,
            rooted,
        ) by {
            assert(init[i] == names[i]);
        }
        lemma_components_kept(init, rooted);
        assert(is_component(names[names.len() - 1], names.len() - 1, rooted));
        assert(init.push(names.last()) =~= names);
        assert((e + names).drop_last() =~= e + init);
    }
}

/// What parsing yields is a path that has a spelling.
pub proof fn lemma_parse_ok(b: Seq<u8>)
    ensures
        path_ok(parse_path(b)),
{
    lemma_split_pieces(b);
    lemma_components_ok(split_slash(b), starts_at_root(b));
}

proof fn lemma_components_ok(pieces: Seq<Seq<u8>>, rooted: bool)
    requires
        forall|i: int| 0 <= i < pieces.len() ==> !(#[trigger] pieces[i]).contains(SLASH),
    ensures
        components_of(pieces, rooted).len() <= pieces.len(),
        forall|i: int|
            0 <= i < components_of(pieces, rooted).len() ==> name_ok(
                #[trigger] components_of(pieces, rooted)[i],
                i,
                rooted,
            ),
    decreases pieces.len(),
{
    if pieces.len() > 0 {
        let init = pieces.drop_last();
        assert forall|i: int| 0 <= i < init.len() implies !(#[trigger] init[i]).contains(SLASH) by {
            assert(init[i] == pieces[i]);
        }
        lemma_components_ok(init, rooted);
        assert(!pieces[pieces.len() - 1].contains(SLASH));
        let names = components_of(pieces, rooted);
        assert forall|i: int| 0 <= i < names.len() implies name_ok(#[trigger] names[i], i, rooted) by {
            if i < components_of(init, rooted).len() {
                assert(names[i] == components_of(init, rooted)[i]);
            }
        }
    }
}

/// Parsing the spelling of a path gives the path back, so no two paths share a
/// spelling.
pub proof fn law_parse_render(p: PathModel)
    requires
        path_ok(p),
    ensures
        parse_path(render_path(p)) == p,
{
    let names = p.1;
    let b = render_path(p);
    assert forall|i: int| 0 <= i < names.len() implies is_component(#[trigger] names[i], i, p.0) && !names[i].contains(
        SLASH,
    ) by {
        assert(name_ok(names[i], i, p.0));
    }
    lemma_components_kept(names, p.0);
    if names.len() > 0 {
        lemma_split_join(names);
        if p.0 {
            assert(b[0] == SLASH);
        } else {
            lemma_join_first(names);
            assert(b[0] == names[0][0]);
            assert(!names[0].contains(SLASH));
            assert(names[0][0] != SLASH);
        }
    } else {
        assert(names =~= Seq::<Seq<u8>>::empty());
        if p.0 {
            assert(b =~= seq![SLASH]);
            assert(b.drop_last() =~= Seq::<u8>::empty());
            assert(split_slash(Seq::<u8>::empty()) =~= seq![Seq::<u8>::empty()]);
            assert(split_slash(b) =~= seq![Seq::<u8>::empty()].push(Seq::<u8>::empty()));
            let two = split_slash(b);
            let one = two.drop_last();
            assert(one =~= seq![Seq::<u8>::empty()]);
            assert(one.drop_last() =~= Seq::<Seq<u8>>::empty());
            assert(components_of(one, true) =~= Seq::<Seq<u8>>::empty());
            assert(components_of(two, true) =~= Seq::<Seq<u8>>::empty());
        } else {
            assert(b =~= Seq::<u8>::empty());
            let one = split_slash(b);
            assert(one.drop_last() =~= Seq::<Seq<u8>>::empty());
            assert(components_of(one, false) =~= Seq::<Seq<u8>>::empty());
        }
    }
}

/// A joined list starts with its first name.
proof fn lemma_join_first(names: Seq<Seq<u8>>)
    requires
        names.len() > 0,
        names[0].len() > 0,
    ensures
        join_names(names).len() > 0,
        join_names(names)[0] == names[0][0],
    decreases names.len(),
{
    if names.len() > 1 {
        assert(names.drop_last()[0] == names[0]);
        lemma_join_first(names.drop_last());
    }
}

/// A path of the sandbox or of the host.
#[derive(Debug)]
pub struct FsPath {
    key: PathKey,
}

impl View for FsPath {
    type V = PathModel;

    closed spec fn view(&self) -> PathModel {
        key_model(self.key)
    }
}

/// The paths held by a sequence.
pub open spec fn path_views(v: Seq<FsPath>) -> Seq<PathModel> {
    Seq::new(v.len(), |i: int| v[i]@)
}

/// Whether a component is `.`.
pub(crate) fn is_dot(name: &[u8]) -> (r: bool)
    ensures
        r == (name@ == dot()),
{
    let r = name.len() == 1 && name[0] == DOT;
    assert(r ==> name@ =~= dot());
    r
}

/// Whether a component is `..`.
fn is_dot_dot(name: &[u8]) -> (r: bool)
    ensures
        r == (name@ == dot_dot()),
{
    let r = name.len() == 2 && name[0] == DOT && name[1] == DOT;
    assert(r ==> name@ =~= dot_dot());
    r
}

/// Copies a table key.
pub fn copy_key(k: &PathKey) -> (r: PathKey)
    ensures
        key_model(r) == key_model(*k),
{
    (k.0, copy_byte_lists(&k.1))
}

impl FsPath {
    /// The path that `b` spells.
    pub fn parse(b: &[u8]) -> (r: FsPath)
        ensures
            r@ == parse_path(b@),
            path_ok(r@),
    {
        let rooted = b.len() > 0 && b[0] == SLASH;
        let mut names: Vec<Vec<u8>> = Vec::new();
        let mut piece: Vec<u8> = Vec::new();
        let mut first: bool = true;
        let mut i: usize = 0;
        proof {
            assert(b@.take(0) =~= Seq::<u8>::empty());
            assert(split_slash(Seq::<u8>::empty()) =~= seq![Seq::<u8>::empty()]);
            assert(split_slash(b@.take(0)).drop_last() =~= Seq::<Seq<u8>>::empty());
        }
        while i < b.len()
            invariant
                i <= b.len(),
                rooted == starts_at_root(b@),
                split_slash(b@.take(i as int)).len() > 0,
                piece@ == split_slash(b@.take(i as int)).last(),
                first == (split_slash(b@.take(i as int)).len() == 1),
                bytes_views(names@) == components_of(
                    split_slash(b@.take(i as int)).drop_last(),
                    rooted,
                ),
            decreases b.len() - i,
        {
            let ghost before = split_slash(b@.take(i as int));
            let ghost after = split_slash(b@.take(i + 1));
            proof {
                assert(b@.take(i + 1).drop_last() =~= b@.take(i as int));
            }
            if b[i] == SLASH {
                let ghost old_names = names@;
                proof {
                    assert(after.drop_last() =~= before);
                }
                if piece.len() > 0 && (!is_dot(piece.as_slice()) || (first && !rooted)) {
                    names.push(piece);
                    proof {
                        assert(bytes_views(names@) =~= bytes_views(old_names).push(before.last()));
                    }
                }
                piece = Vec::new();
                first = false;
            } else {
                piece.push(b[i]);
                proof {
                    assert(after.drop_last() =~= before.drop_last());
                }
            }
            i = i + 1;
        }
        let ghost whole = split_slash(b@);
        proof {
            assert(b@.take(b@.len() as int) =~= b@);
        }
        let ghost old_names = names@;
        if piece.len() > 0 && (!is_dot(piece.as_slice()) || (first && !rooted)) {
            names.push(piece);
            proof {
                assert(bytes_views(names@) =~= bytes_views(old_names).push(whole.last()));
            }
        }
        proof {
            lemma_parse_ok(b@);
        }
        FsPath { key: (rooted, names) }
    }

    /// The shortest spelling of the path.
    pub fn to_bytes(&self) -> (r: Vec<u8>)
        ensures
            r@ == render_path(self@),
    {
        let ghost names = self@.1;
        let mut joined: Vec<u8> = Vec::new();
        if self.key.0 {
            joined.push(SLASH);
        }
        let ghost head = joined@;
        let mut i: usize = 0;
        proof {
            assert(names.take(0) =~= Seq::<Seq<u8>>::empty());
            assert(head + join_names(names.take(0)) =~= head);
        }
        while i < self.key.1.len()
            invariant
                i <= self.key.1.len(),
                names == bytes_views(self.key.1@),
                joined@ == head + join_names(names.take(i as int)),
            decreases self.key.1.len() - i,
        {
            let ghost before = joined@;
            proof {
                assert(names.take(i + 1).drop_last() =~= names.take(i as int));
                assert(names.take(i + 1).last() == names[i as int]);
            }
            if i > 0 {
                joined.push(SLASH);
            }
            let mut name = copy_bytes(self.key.1[i].as_slice());
            joined.append(&mut name);
            proof {
                if i == 0 {
                    assert(names.take(1).len() == 1);
                    assert(join_names(names.take(0)) =~= Seq::<u8>::empty());
                }
                assert(joined@ =~= head + join_names(names.take(i + 1)));
            }
            i = i + 1;
        }
        proof {
            assert(names.take(names.len() as int) =~= names);
            if self.key.0 {
                assert(head =~= seq![SLASH]);
            } else {
                assert(joined@ =~= join_names(names));
            }
        }
        joined
    }

    /// Makes a path of a table key.
    pub(crate) fn from_key(key: PathKey) -> (r: FsPath)
        ensures
            r@ == key_model(key),
    {
        FsPath { key }
    }

    /// The table key of the path.
    pub(crate) fn to_key(&self) -> (r: PathKey)
        ensures
            key_model(r) == self@,
    {
        copy_key(&self.key)
    }

    /// A copy of the path.
    pub fn copy(&self) -> (r: FsPath)
        ensures
            r@ == self@,
    {
        FsPath { key: copy_key(&self.key) }
    }

    /// The root.
    pub fn root() -> (r: FsPath)
        ensures
            r@ == root_path(),
    {
        let names: Vec<Vec<u8>> = Vec::new();
        assert(bytes_views(names@) =~= Seq::<Seq<u8>>::empty());
        FsPath { key: (true, names) }
    }

    /// Whether two paths are the same.
    pub fn same(&self, other: &FsPath) -> (r: bool)
        ensures
            r == (self@ == other@),
    {
        self.key.0 == other.key.0 && same_byte_lists(&self.key.1, &other.key.1)
    }

    /// Whether the path starts at the root.
    pub fn is_absolute(&self) -> (r: bool)
        ensures
            r == self@.0,
    {
        self.key.0
    }

    /// Whether the path has no component and does not start at the root.
    pub fn is_empty(&self) -> (r: bool)
        ensures
            r == (self@ == empty_path()),
    {
        let r = !self.key.0 && self.key.1.len() == 0;
        proof {
            if r {
                assert(self@.1 =~= Seq::<Seq<u8>>::empty());
            } else {
                assert(self@.0 || self@.1.len() > 0);
            }
        }
        r
    }

    /// How many components the path has, the root not counted.
    pub fn name_count(&self) -> (r: usize)
        ensures
            r == self@.1.len(),
    {
        self.key.1.len()
    }

    /// The path without its last component.
    pub fn parent(&self) -> (r: Option<FsPath>)
        ensures
            match r {
                Some(p) => parent_of(self@) == Some(p@),
                None => parent_of(self@) is None,
            },
    {
        let n = self.key.1.len();
        if n == 0 {
            return None;
        }
        proof {
            assert(self@.1.take(n - 1) =~= self@.1.drop_last());
        }
        Some(FsPath { key: (self.key.0, copy_byte_lists_prefix(&self.key.1, n - 1)) })
    }

    /// The first `k` components of the path.
    pub fn prefix(&self, k: usize) -> (r: FsPath)
        requires
            k <= self@.1.len(),
        ensures
            r@ == path_prefix(self@, k as int),
    {
        FsPath { key: (self.key.0, copy_byte_lists_prefix(&self.key.1, k)) }
    }

    /// The last component, where it names an entry.
    pub fn file_name(&self) -> (r: Option<Vec<u8>>)
        ensures
            match r {
                Some(n) => file_name_of(self@) == Some(n@),
                None => file_name_of(self@) is None,
            },
    {
        let n = self.key.1.len();
        if n == 0 {
            return None;
        }
        let last = &self.key.1[n - 1];
        if is_dot(last.as_slice()) || is_dot_dot(last.as_slice()) {
            None
        } else {
            Some(copy_bytes(last.as_slice()))
        }
    }

    /// Whether the path starts with the components of `base`.
    pub fn starts_with(&self, base: &FsPath) -> (r: bool)
        ensures
            r == starts_with_path(self@, base@),
    {
        if base.is_empty() {
            return true;
        }
        self.leads_from(base)
    }

    /// Whether `base` is the path or one of the directories that lead to it.
    pub fn leads_from(&self, base: &FsPath) -> (r: bool)
        ensures
            r == is_under(self@, base@),
    {
        if self.key.0 != base.key.0 || base.key.1.len() > self.key.1.len() {
            return false;
        }
        let mut i: usize = 0;
        while i < base.key.1.len()
            invariant
                i <= base.key.1.len() <= self.key.1.len(),
                forall|k: int| 0 <= k < i ==> base@.1[k] == self@.1[k],
            decreases base.key.1.len() - i,
        {
            if !same_bytes(base.key.1[i].as_slice(), self.key.1[i].as_slice()) {
                proof {
                    if base@.1.is_prefix_of(self@.1) {
                        assert(self@.1.subrange(0, base@.1.len() as int)[i as int] == base@.1[i as int]);
                    }
                }
                return false;
            }
            i = i + 1;
        }
        proof {
            assert(base@.1 =~= self@.1.subrange(0, base@.1.len() as int));
        }
        true
    }

    /// What follows `base` in the path.
    pub fn strip_prefix(&self, base: &FsPath) -> (r: Option<FsPath>)
        ensures
            match r {
                Some(p) => strip_path_prefix(self@, base@) == Some(p@),
                None => strip_path_prefix(self@, base@) is None,
            },
    {
        if base.is_empty() {
            return Some(self.copy());
        }
        if !self.leads_from(base) {
            return None;
        }
        let mut names: Vec<Vec<u8>> = Vec::new();
        let from = base.key.1.len();
        let mut i: usize = from;
        proof {
            assert(from <= self.key.1.len());
        }
        while i < self.key.1.len()
            invariant
                from <= i <= self.key.1.len(),
                names.len() == i - from,
                forall|k: int| 0 <= k < names.len() ==> names@[k]@ == self@.1[k + from],
            decreases self.key.1.len() - i,
        {
            names.push(copy_bytes(self.key.1[i].as_slice()));
            i = i + 1;
        }
        proof {
            assert(bytes_views(names@) =~= self@.1.skip(from as int));
        }
        Some(FsPath { key: (false, names) })
    }

    /// `q` taken from this path.
    pub fn join(&self, q: &FsPath) -> (r: FsPath)
        ensures
            r@ == join_path(self@, q@),
    {
        if q.key.0 {
            return q.copy();
        }
        let mut names = copy_byte_lists(&self.key.1);
        let mut i: usize = 0;
        if !self.is_empty() && q.key.1.len() > 0 && is_dot(q.key.1[0].as_slice()) {
            i = 1;
        }
        let from = i;
        let base = names.len();
        proof {
            assert(bytes_views(names@).len() == self@.1.len());
            assert forall|k: int| 0 <= k < base implies names@[k]@ == self@.1[k] by {
                assert(bytes_views(names@)[k] == self@.1[k]);
            }
        }
        while i < q.key.1.len()
            invariant
                from <= i <= q.key.1.len(),
                base == self@.1.len(),
                names.len() == base + (i - from),
                forall|k: int| 0 <= k < base ==> names@[k]@ == self@.1[k],
                forall|k: int| base <= k < names.len() ==> names@[k]@ == q@.1[k - base + from],
            decreases q.key.1.len() - i,
        {
            names.push(copy_bytes(q.key.1[i].as_slice()));
            i = i + 1;
        }
        proof {
            assert(bytes_views(names@) =~= self@.1 + tail_names(self@, q@));
        }
        FsPath { key: (self.key.0, names) }
    }

    /// The entry `name` of this directory.
    pub fn child(&self, name: &[u8]) -> (r: FsPath)
        ensures
            r@ == child_path(self@, name@),
    {
        self.join(&FsPath::parse(name))
    }

    /// How many components of the path name something.
    pub fn depth(&self) -> (r: usize)
        ensures
            r == depth_of(self@.1),
    {
        self.depth_upto(self.key.1.len())
    }

    /// How many of the first `n` components name something.
    fn depth_upto(&self, n: usize) -> (r: usize)
        requires
            n <= self@.1.len(),
        ensures
            r == depth_of(self@.1.take(n as int)),
            n == self@.1.len() ==> r == depth_of(self@.1),
    {
        let mut count: usize = 0;
        let mut i: usize = 0;
        while i < n
            invariant
                i <= n <= self.key.1.len(),
                count <= i,
                count == depth_of(self@.1.take(i as int)),
            decreases n - i,
        {
            proof {
                assert(self@.1.take(i + 1).drop_last() =~= self@.1.take(i as int));
            }
            let name = &self.key.1[i];
            if !is_dot(name.as_slice()) && !is_dot_dot(name.as_slice()) {
                count = count + 1;
            }
            i = i + 1;
        }
        proof {
            assert(self@.1.take(self@.1.len() as int) =~= self@.1);
        }
        count
    }

    /// Resolves `.` and `..` by name alone, from the root.
    pub fn normalize_abs(&self) -> (r: FsPath)
        ensures
            r@ == (true, normalize_names(self@.1)),
    {
        let mut names: Vec<Vec<u8>> = Vec::new();
        let mut i: usize = 0;
        while i < self.key.1.len()
            invariant
                i <= self.key.1.len(),
                bytes_views(names@) =~= normalize_names(self@.1.take(i as int)),
            decreases self.key.1.len() - i,
        {
            let ghost before = bytes_views(names@);
            proof {
                assert(self@.1.take(i + 1).drop_last() =~= self@.1.take(i as int));
            }
            let name = &self.key.1[i];
            if is_dot(name.as_slice()) {
            } else if is_dot_dot(name.as_slice()) {
                if names.len() > 0 {
                    let _ = names.pop();
                    proof {
                        assert(bytes_views(names@) =~= before.drop_last());
                    }
                }
            } else {
                names.push(copy_bytes(name.as_slice()));
                proof {
                    assert(bytes_views(names@) =~= before.push(self@.1[i as int]));
                }
            }
            i = i + 1;
        }
        proof {
            assert(self@.1.take(self@.1.len() as int) =~= self@.1);
        }
        FsPath { key: (true, names) }
    }
}

} // verus!
