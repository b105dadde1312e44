//! What paths are, from their spelling and back.

use crate::path::{
    child_path, component_count, components_of, depth_of, dot, dot_dot, empty_path, file_name_of,
    is_component, is_normal, is_under, join_names, join_path, law_parse_render, lemma_split_join,
    lemma_split_pieces, name_ok, normalize_names, parent_of, parse_path, path_ok, render_path,
    root_path, split_slash, starts_at_root, starts_with_path, strip_path_prefix, PathModel,
};
use crate::spelling::{pieces_after, spelled_below, trimmed_pieces};
use vstd::prelude::*;

verus! {

/// Every name counts: names that are not empty, hold no slash and are not a single dot,
/// whatever they begin with, are the components of the path that they spell when joined by
/// slashes, behind one more slash where the path starts at the root.
pub proof fn law_every_name_counts(p: PathModel)
    requires
        forall|i: int|
            0 <= i < p.1.len() ==> (#[trigger] p.1[i]).len() > 0 && !p.1[i].contains(47) && p.1[i]
                != seq![46u8],
    ensures
        path_ok(p),
        parse_path(render_path(p)) == p,
        p.0 ==> render_path(p)[0] == 47,
        p.1.len() == 1 && !p.0 ==> render_path(p) == p.1[0],
        p.1.len() == 0 && p.0 ==> render_path(p) == seq![47u8],
{
    assert(dot() =~= seq![46u8]);
    assert forall|i: int| 0 <= i < p.1.len() implies name_ok(#[trigger] p.1[i], i, p.0) by {}
    law_parse_render(p);
    if p.1.len() == 0 && p.0 {
        assert(render_path(p) =~= seq![47u8]);
    }
}

/// A slash more at the end changes nothing, and neither does a slash or a dot more
/// between names: the same names come out.
pub proof fn law_spellings_of_one_path(text: Seq<u8>)
    requires
        text.len() > 0,
    ensures
        parse_path(text.push(47)) == parse_path(text),
        parse_path(text.push(47).push(46)) == parse_path(text),
        text.last() == 47 ==> parse_path(text.push(47)) == parse_path(text),
        parse_path(text).0 <==> text[0] == 47,
{
    let slash = text.push(47);
    let more = slash.push(46);
    let none = Seq::<u8>::empty();
    assert(slash.drop_last() =~= text);
    assert(more.drop_last() =~= slash);
    lemma_split_pieces(text);
    let pieces = split_slash(text);
    assert(split_slash(slash) =~= pieces.push(none));
    assert(pieces.push(none).drop_last() =~= pieces);
    assert(slash[0] == text[0]);
    assert(more[0] == text[0]);
    let rooted = starts_at_root(text);
    assert(components_of(pieces.push(none), rooted) =~= components_of(pieces, rooted));
    let end = none.push(46);
    assert(split_slash(more) =~= pieces.push(end));
    assert(pieces.push(end).drop_last() =~= pieces);
    assert(end =~= dot());
    assert(components_of(pieces.push(end), rooted) =~= components_of(pieces, rooted));
}

/// The path above, the last name, what lies below and how a path goes on: a path is the
/// path above it with its last name; a path lies below a directory exactly where it is the
/// directory with names behind it, and what follows the directory is those names.
pub proof fn law_parts_of_paths(p: PathModel, name: Seq<u8>, tail: Seq<Seq<u8>>, q: PathModel)
    ensures
        parent_of((p.0, p.1.push(name))) == Some(p),
        parent_of((p.0, Seq::<Seq<u8>>::empty())) is None,
        name != seq![46u8] && name != seq![46u8, 46u8] ==> file_name_of((p.0, p.1.push(name))) == Some(
            name,
        ),
        is_under((p.0, p.1 + tail), p),
        is_under(q, p) ==> q == (p.0, p.1 + q.1.skip(p.1.len() as int)),
        p != empty_path() ==> (starts_with_path(q, p) <==> is_under(q, p)),
        p != empty_path() ==> strip_path_prefix((p.0, p.1 + tail), p) == Some((false, tail)),
        p != empty_path() && !is_under(q, p) ==> strip_path_prefix(q, p) is None,
        q.0 ==> join_path(p, q) == q,
        tail.len() > 0 && tail[0] != seq![46u8] ==> join_path(p, (false, tail)) == (p.0, p.1 + tail),
        root_path() == (true, Seq::<Seq<u8>>::empty()),
{
    assert(dot() =~= seq![46u8]);
    assert(dot_dot() =~= seq![46u8, 46u8]);
    assert(p.1.push(name).drop_last() =~= p.1);
    let longer: PathModel = (p.0, p.1 + tail);
    assert(p.1 =~= longer.1.subrange(0, p.1.len() as int));
    assert(longer.1.skip(p.1.len() as int) =~= tail);
    if is_under(q, p) {
        assert(q.1 =~= p.1 + q.1.skip(p.1.len() as int));
    }
}

/// How deep a path is: each name that is no dot counts one.
pub proof fn law_depths(names: Seq<Seq<u8>>, name: Seq<u8>, rooted: bool)
    ensures
        depth_of(Seq::<Seq<u8>>::empty()) == 0,
        name != seq![46u8] && name != seq![46u8, 46u8] ==> depth_of(names.push(name)) == depth_of(names)
            + 1,
        name == seq![46u8] || name == seq![46u8, 46u8] ==> depth_of(names.push(name)) == depth_of(names),
        component_count((false, names)) == names.len(),
        component_count((true, names)) == names.len() + 1,
{
    assert(dot() =~= seq![46u8]);
    assert(dot_dot() =~= seq![46u8, 46u8]);
    assert(names.push(name).drop_last() =~= names);
}

/// Resolving a path by its names alone: a dot stays where it is, two dots go one up and
/// never above the start, and every other name goes one down; a path without dots stays
/// as it is.
pub proof fn law_resolving(names: Seq<Seq<u8>>, name: Seq<u8>)
    ensures
        normalize_names(names.push(seq![46u8])) == normalize_names(names),
        name != seq![46u8] && name != seq![46u8, 46u8] ==> normalize_names(names.push(name))
            == normalize_names(names).push(name) && normalize_names(
            names.push(name).push(seq![46u8, 46u8]),
        ) == normalize_names(names),
        (forall|i: int| 0 <= i < names.len() ==> is_normal(#[trigger] names[i])) ==> normalize_names(names)
            == names,
        normalize_names(seq![seq![46u8, 46u8]]) == Seq::<Seq<u8>>::empty(),
    decreases names.len(),
{
    assert(dot() =~= seq![46u8]);
    assert(dot_dot() =~= seq![46u8, 46u8]);
    assert(names.push(seq![46u8]).drop_last() =~= names);
    assert(names.push(name).drop_last() =~= names);
    let twice = names.push(name).push(seq![46u8, 46u8]);
    assert(twice.drop_last() =~= names.push(name));
    assert(normalize_names(names).push(name).drop_last() =~= normalize_names(names));
    assert(twice.last() == dot_dot());
    assert(dot() != dot_dot()) by {
        assert(dot().len() != dot_dot().len());
    }
    if name != seq![46u8] && name != seq![46u8, 46u8] {
        let once = names.push(name);
        assert(once.last() == name);
        assert(normalize_names(once) == normalize_names(names).push(name));
        assert(twice.drop_last() == once);
        assert(normalize_names(twice) == normalize_names(once).drop_last());
    }
    let up = seq![seq![46u8, 46u8]];
    assert(up.drop_last() =~= Seq::<Seq<u8>>::empty());
    assert(normalize_names(up.drop_last()) =~= Seq::<Seq<u8>>::empty());
    if forall|i: int| 0 <= i < names.len() ==> is_normal(#[trigger] names[i]) {
        if names.len() > 0 {
            let init = names.drop_last();
            assert forall|i: int| 0 <= i < init.len() implies is_normal(#[trigger] init[i]) by {
                assert(init[i] == names[i]);
            }
            law_resolving(init, name);
            assert(is_normal(names[names.len() - 1]));
            assert(init.push(names.last()) =~= names);
        } else {
            assert(normalize_names(names) =~= names);
        }
    }
}

/// The components from some on are those of the pieces from there on, read as a relative
/// path.
proof fn lemma_components_after(pieces: Seq<Seq<u8>>, rooted: bool, k: int)
    requires
        k > 0 || (k == 0 && rooted),
    ensures
        ({
            let kept = pieces_after(pieces, rooted, k);
            let names = components_of(pieces, rooted);
            &&& components_of(kept, false) == (if k <= names.len() {
                names.skip(k)
            } else {
                Seq::empty()
            })
            &&& kept.len() > 0 ==> kept[0].len() > 0 && kept[0] != dot() && k < names.len()
            &&& kept.len() == 0 ==> names.len() <= k
        }),
    decreases pieces.len(),
{
    let kept = pieces_after(pieces, rooted, k);
    let names = components_of(pieces, rooted);
    if pieces.len() == 0 {
        assert(kept =~= Seq::<Seq<u8>>::empty());
        assert(components_of(kept, false) =~= Seq::<Seq<u8>>::empty());
    } else {
        let init = pieces.drop_last();
        let last = pieces.last();
        lemma_components_after(init, rooted, k);
        let before = pieces_after(init, rooted, k);
        let inner = components_of(init, rooted);
        let counts = is_component(last, pieces.len() - 1, rooted);
        if before.len() > 0 || (inner.len() >= k && counts) {
            assert(kept == before.push(last));
            assert(kept.drop_last() =~= before);
            if before.len() > 0 {
                assert(kept[0] == before[0]);
                lemma_not_first(init, rooted, k);
                assert(is_component(last, kept.len() - 1, false) == counts);
                if counts {
                    assert(names.skip(k) =~= inner.skip(k).push(last));
                }
            } else {
                lemma_not_first(init, rooted, k);
                assert(components_of(before, false) =~= Seq::<Seq<u8>>::empty());
                assert(inner.len() == k);
                assert(names.skip(k) =~= seq![last]);
                assert(components_of(kept, false) =~= seq![last]);
            }
        } else {
            assert(kept == before);
            if counts {
                assert(inner.len() < k);
                if names.len() == k {
                    assert(names.skip(k) =~= Seq::<Seq<u8>>::empty());
                    assert(inner.len() <= k);
                }
            }
        }
    }
}

/// Where there are components there are pieces.
proof fn lemma_not_first(pieces: Seq<Seq<u8>>, rooted: bool, k: int)
    ensures
        components_of(pieces, rooted).len() > 0 ==> pieces.len() > 0,
        pieces_after(pieces, rooted, k).len() > 0 ==> pieces.len() > 0,
{
}

/// Leaving out what stands behind the last component leaves the components.
proof fn lemma_trimmed(pieces: Seq<Seq<u8>>, rooted: bool)
    ensures
        components_of(trimmed_pieces(pieces, rooted), rooted) == components_of(pieces, rooted),
        forall|i: int|
            0 <= i < trimmed_pieces(pieces, rooted).len() ==> i < pieces.len() && #[trigger] trimmed_pieces(
                pieces,
                rooted,
            )[i] == pieces[i],
    decreases pieces.len(),
{
    if pieces.len() > 0 && !is_component(pieces.last(), pieces.len() - 1, rooted) {
        lemma_trimmed(pieces.drop_last(), rooted);
        let t = trimmed_pieces(pieces, rooted);
        assert forall|i: int| 0 <= i < t.len() implies i < pieces.len() && #[trigger] t[i] == pieces[i] by {
            assert(t[i] == pieces.drop_last()[i]);
        }
    }
}

/// The pieces from some component on are pieces.
proof fn lemma_kept_pieces(pieces: Seq<Seq<u8>>, rooted: bool, k: int)
    requires
        forall|i: int| 0 <= i < pieces.len() ==> !(#[trigger] pieces[i]).contains(47),
    ensures
        forall|i: int|
            0 <= i < pieces_after(pieces, rooted, k).len() ==> !(#[trigger] pieces_after(
                pieces,
                rooted,
                k,
            )[i]).contains(47),
    decreases pieces.len(),
{
    if pieces.len() > 0 {
        let init = pieces.drop_last();
        assert forall|i: int| 0 <= i < init.len() implies !(#[trigger] init[i]).contains(47) by {
            assert(init[i] == pieces[i]);
        }
        lemma_kept_pieces(init, rooted, k);
        assert(!pieces[pieces.len() - 1].contains(47));
        let before = pieces_after(init, rooted, k);
        let kept = pieces_after(pieces, rooted, k);
        assert forall|i: int| 0 <= i < kept.len() implies !(#[trigger] kept[i]).contains(47) by {
            if i < before.len() {
                assert(kept[i] == before[i]);
            }
        }
    }
}

/// However a path is spelled, what is seen of it behind a directory that leads to it
/// spells the names that follow the directory, and nothing else; a path that the
/// directory does not lead to is seen as it is spelled.
pub proof fn law_spelled_below(text: Seq<u8>, base: PathModel)
    requires
        base != empty_path(),
    ensures
        is_under(parse_path(text), base) ==> parse_path(spelled_below(text, base)) == (
            false,
            parse_path(text).1.skip(base.1.len() as int),
        ),
        !is_under(parse_path(text), base) ==> spelled_below(text, base) == text,
{
    if is_under(parse_path(text), base) {
        let rooted = starts_at_root(text);
        if base.1.len() == 0 && !base.0 {
            assert(base.1 =~= Seq::<Seq<u8>>::empty());
        }
        let all = split_slash(text);
        let pieces = trimmed_pieces(all, rooted);
        let k = base.1.len() as int;
        lemma_trimmed(all, rooted);
        lemma_components_after(pieces, rooted, k);
        lemma_split_pieces(text);
        assert forall|i: int| 0 <= i < pieces.len() implies !(#[trigger] pieces[i]).contains(47) by {
            assert(pieces[i] == all[i]);
        }
        lemma_kept_pieces(pieces, rooted, k);
        let kept = pieces_after(pieces, rooted, k);
        let out = join_names(kept);
        if kept.len() > 0 {
            lemma_split_join(kept);
            assert(!starts_at_root(out)) by {
                lemma_joined_first(kept);
                assert(!kept[0].contains(47));
                assert(kept[0][0] != 47);
            }
        } else {
            assert(out =~= Seq::<u8>::empty());
            let one = split_slash(out);
            assert(one =~= seq![Seq::<u8>::empty()]);
            assert(one.drop_last() =~= Seq::<Seq<u8>>::empty());
            assert(components_of(one.drop_last(), false) =~= Seq::<Seq<u8>>::empty());
            assert(components_of(one, false) =~= Seq::<Seq<u8>>::empty());
            assert(components_of(pieces, rooted).skip(k) =~= Seq::<Seq<u8>>::empty());
        }
    }
}

/// Joined pieces begin with the first of them.
proof fn lemma_joined_first(names: Seq<Seq<u8>>)
    requires
        names.len() > 0,
        names[0].len() > 0,
    ensures
        join_names(names).len() > 0,
        join_names(names)[0] == names[0][0],
    decreases names.len(),
{
    if names.len() > 1 {
        assert(names.drop_last()[0] == names[0]);
        lemma_joined_first(names.drop_last());
    }
}

/// A name that is one component leads one level down from a directory.
pub proof fn law_children(base: PathModel, name: Seq<u8>)
    requires
        base != empty_path(),
        name.len() > 0,
        !name.contains(47),
        name != seq![46u8],
    ensures
        child_path(base, name) == (base.0, base.1.push(name)),
        parent_of(child_path(base, name)) == Some(base),
{
    law_every_name_counts((false, seq![name]));
    assert(child_path(base, name).1 =~= base.1.push(name));
    assert(base.1.push(name).drop_last() =~= base.1);
}

} // verus!
