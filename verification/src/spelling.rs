//! Paths as they are spelled.
//!
//! What a path is does not say how it was spelled: slashes may stand in a row, and `.`
//! between them.  Where the spelling counts, it is worked on here.

use crate::bytes::{bytes_views, copy_bytes};
use crate::path::{
    components_of, empty_path, is_component, is_dot, is_under, join_names, lemma_components_kept,
    lemma_split_join, name_ok, parse_path, path_ok, render_path, split_slash,
    starts_at_root, strip_path_prefix, FsPath, PathModel, SLASH,
};
use vstd::prelude::*;

verus! {

/// The pieces between slashes up to the last component.
pub open spec fn trimmed_pieces(pieces: Seq<Seq<u8>>, rooted: bool) -> Seq<Seq<u8>>
    decreases pieces.len(),
{
    if pieces.len() == 0 {
        pieces
    } else if is_component(pieces.last(), pieces.len() - 1, rooted) {
        pieces
    } else {
        trimmed_pieces(pieces.drop_last(), rooted)
    }
}

/// The pieces between slashes from the component on that `k` others stand before.
pub open spec fn pieces_after(pieces: Seq<Seq<u8>>, rooted: bool, k: int) -> Seq<Seq<u8>>
    decreases pieces.len(),
{
    if pieces.len() == 0 {
        Seq::empty()
    } else {
        let init = pieces.drop_last();
        let before = pieces_after(init, rooted, k);
        if before.len() > 0 || (components_of(init, rooted).len() >= k && is_component(
            pieces.last(),
            pieces.len() - 1,
            rooted,
        )) {
            before.push(pieces.last())
        } else {
            before
        }
    }
}

/// How a path goes on behind a directory that leads to it, as it is spelled: from the
/// first component behind the directory to the last.  A path that the directory does
/// not lead to stays as it is.
pub open spec fn spelled_below(text: Seq<u8>, base: PathModel) -> Seq<u8> {
    let rooted = starts_at_root(text);
    let pieces = trimmed_pieces(split_slash(text), rooted);
    if base == empty_path() {
        if rooted && pieces.len() == 0 {
            seq![SLASH]
        } else {
            join_names(pieces)
        }
    } else if is_under(parse_path(text), base) {
        join_names(pieces_after(pieces, rooted, base.1.len() as int))
    } else {
        text
    }
}

/// The pieces of a text between its slashes.
fn split_pieces(text: &[u8]) -> (r: Vec<Vec<u8>>)
    ensures
        bytes_views(r@) == split_slash(text@),
{
    let mut pieces: Vec<Vec<u8>> = Vec::new();
    let mut piece: Vec<u8> = Vec::new();
    let mut i: usize = 0;
    proof {
        assert(text@.take(0) =~= Seq::<u8>::empty());
        assert(bytes_views(pieces@).push(piece@) =~= split_slash(text@.take(0)));
    }
    while i < text.len()
        invariant
            i <= text.len(),
            bytes_views(pieces@).push(piece@) == split_slash(text@.take(i as int)),
        decreases text.len() - i,
    {
        let ghost before = bytes_views(pieces@);
        let ghost word = piece@;
        proof {
            assert(text@.take(i + 1).drop_last() =~= text@.take(i as int));
            assert(before.push(word).drop_last() =~= before);
        }
        if text[i] == SLASH {
            pieces.push(piece);
            piece = Vec::new();
            assert(bytes_views(pieces@) =~= before.push(word));
        } else {
            piece.push(text[i]);
        }
        proof {
            assert(bytes_views(pieces@).push(piece@) =~= split_slash(text@.take(i + 1)));
        }
        i = i + 1;
    }
    let ghost before = bytes_views(pieces@);
    let ghost word = piece@;
    pieces.push(piece);
    proof {
        assert(text@.take(text@.len() as int) =~= text@);
        assert(bytes_views(pieces@) =~= before.push(word));
    }
    pieces
}

/// Joins pieces by slashes.
fn join_pieces(pieces: &Vec<Vec<u8>>) -> (r: Vec<u8>)
    ensures
        r@ == join_names(bytes_views(pieces@)),
{
    let ghost names = bytes_views(pieces@);
    let mut text: Vec<u8> = Vec::new();
    let mut i: usize = 0;
    proof {
        assert(text@ =~= join_names(names.take(0)));
    }
    while i < pieces.len()
        invariant
            i <= pieces.len(),
            names == bytes_views(pieces@),
            text@ == join_names(names.take(i as int)),
        decreases pieces.len() - i,
    {
        let ghost before = text@;
        proof {
            assert(names.take(i + 1).drop_last() =~= names.take(i as int));
            assert(names.take(i + 1).last() == pieces@[i as int]@);
        }
        if i > 0 {
            text.push(SLASH);
        }
        text.extend_from_slice(pieces[i].as_slice());
        proof {
            assert(text@ =~= join_names(names.take(i + 1)));
        }
        i = i + 1;
    }
    assert(names.take(names.len() as int) =~= names);
    text
}

/// Whether a piece is a component.
fn counts(piece: &[u8], first: bool, rooted: bool) -> (r: bool)
    ensures
        r == is_component(piece@, if first { 0 } else { 1 }, rooted),
{
    piece.len() > 0 && (!is_dot(piece) || (first && !rooted))
}

/// Drops what stands behind the last component.
fn trim_pieces(pieces: &mut Vec<Vec<u8>>, rooted: bool)
    ensures
        bytes_views(final(pieces)@) == trimmed_pieces(bytes_views(old(pieces)@), rooted),
{
    let ghost all = bytes_views(pieces@);
    let mut going = true;
    while going && pieces.len() > 0
        invariant
            trimmed_pieces(bytes_views(pieces@), rooted) == trimmed_pieces(all, rooted),
            !going ==> trimmed_pieces(bytes_views(pieces@), rooted) == bytes_views(pieces@),
        decreases pieces.len(), (if going { 1int } else { 0int }),
    {
        let n = pieces.len();
        let ghost views = bytes_views(pieces@);
        if counts(pieces[n - 1].as_slice(), n == 1, rooted) {
            going = false;
        } else {
            let _ = pieces.pop();
            assert(bytes_views(pieces@) =~= views.drop_last());
        }
    }
}

/// The pieces from the component on that `k` others stand before.
fn take_after(pieces: &Vec<Vec<u8>>, rooted: bool, k: usize) -> (r: Vec<Vec<u8>>)
    ensures
        bytes_views(r@) == pieces_after(bytes_views(pieces@), rooted, k as int),
{
    let ghost all = bytes_views(pieces@);
    let mut kept: Vec<Vec<u8>> = Vec::new();
    let mut seen: usize = 0;
    let mut i: usize = 0;
    proof {
        assert(bytes_views(kept@) =~= pieces_after(all.take(0), rooted, k as int));
    }
    while i < pieces.len()
        invariant
            i <= pieces.len(),
            seen <= i,
            all == bytes_views(pieces@),
            seen == components_of(all.take(i as int), rooted).len(),
            bytes_views(kept@) == pieces_after(all.take(i as int), rooted, k as int),
        decreases pieces.len() - i,
    {
        let ghost before = bytes_views(kept@);
        proof {
            assert(all.take(i + 1).drop_last() =~= all.take(i as int));
            assert(all.take(i + 1).last() == pieces@[i as int]@);
        }
        let component = counts(pieces[i].as_slice(), i == 0, rooted);
        if kept.len() > 0 || (seen >= k && component) {
            kept.push(copy_bytes(pieces[i].as_slice()));
            assert(bytes_views(kept@) =~= before.push(pieces@[i as int]@));
        }
        if component {
            seen = seen + 1;
        }
        i = i + 1;
    }
    assert(all.take(all.len() as int) =~= all);
    kept
}

/// How a path goes on behind a directory that leads to it, as it is spelled.
pub fn below_as_spelled(text: &[u8], base: &FsPath) -> (r: Vec<u8>)
    ensures
        r@ == spelled_below(text@, base@),
{
    let rooted = text.len() > 0 && text[0] == SLASH;
    let path = FsPath::parse(text);
    let mut pieces = split_pieces(text);
    trim_pieces(&mut pieces, rooted);
    if base.is_empty() {
        if rooted && pieces.len() == 0 {
            let mut slash: Vec<u8> = Vec::new();
            slash.push(SLASH);
            assert(slash@ =~= seq![SLASH]);
            return slash;
        }
        return join_pieces(&pieces);
    }
    match path.strip_prefix(base) {
        Some(_) => join_pieces(&take_after(&pieces, rooted, base.name_count())),
        None => copy_bytes(text),
    }
}

/// Among components, and a piece before them that is none, those behind `k` are the rest.
proof fn lemma_pieces_after(head: Seq<Seq<u8>>, names: Seq<Seq<u8>>, rooted: bool, k: int)
    requires
        rooted ==> head == seq![Seq::<u8>::empty()],
        !rooted ==> head == Seq::<Seq<u8>>::empty(),
        forall|i: int| 0 <= i < names.len() ==> is_component(#[trigger] names[i], i, rooted),
        k >= 0,
    ensures
        pieces_after(head + names, rooted, k) == (if k <= names.len() {
            names.skip(k)
        } else {
            Seq::empty()
        }),
    decreases names.len(),
{
    let pieces = head + names;
    if names.len() == 0 {
        if rooted {
            assert(pieces =~= head);
            assert(pieces.drop_last() =~= Seq::empty());
            assert(pieces_after(pieces.drop_last(), rooted, k) =~= Seq::empty());
        } else {
            assert(pieces =~= Seq::empty());
        }
        assert(pieces_after(pieces, rooted, k) =~= Seq::empty());
        assert(k == 0 ==> names.skip(k) =~= Seq::<Seq<u8>>::empty());
    } else {
        let init = names.drop_last();
        assert forall|i: int| 0 <= i < init.len() implies is_component(#[trigger] init[i], i, rooted) by {
            assert(init[i] == names[i]);
        }
        lemma_pieces_after(head, init, rooted, k);
        lemma_components_kept(init, rooted);
        assert(pieces.drop_last() =~= head + init);
        assert(head + init =~= if rooted { seq![Seq::<u8>::empty()] + init } else { init });
        assert(is_component(names[names.len() - 1], names.len() - 1, rooted));
        if k < names.len() {
            assert(names.skip(k) =~= init.skip(k).push(names.last()));
        } else if k == names.len() {
            assert(names.skip(k) =~= Seq::<Seq<u8>>::empty());
        }
    }
}

/// What an empty piece stands before is joined behind a slash.
proof fn lemma_join_after_nothing(names: Seq<Seq<u8>>)
    requires
        names.len() > 0,
    ensures
        join_names(seq![Seq::<u8>::empty()] + names) == seq![SLASH] + join_names(names),
    decreases names.len(),
{
    let e = seq![Seq::<u8>::empty()];
    let all = e + names;
    assert(all.drop_last() =~= e + names.drop_last());
    assert(all.last() == names.last());
    if names.len() == 1 {
        assert(names.drop_last() =~= Seq::empty());
        assert(e + names.drop_last() =~= e);
        assert(join_names(e) =~= Seq::<u8>::empty());
        assert(join_names(all) =~= seq![SLASH] + names[0]);
    } else {
        lemma_join_after_nothing(names.drop_last());
        assert(join_names(all) =~= seq![SLASH] + join_names(names));
    }
}

/// The shortest spelling of a path goes on behind a directory as the path itself does.
pub proof fn law_shortest_spelling(p: PathModel, base: PathModel)
    requires
        path_ok(p),
    ensures
        spelled_below(render_path(p), base) == match strip_path_prefix(p, base) {
            Some(rest) => render_path(rest),
            None => render_path(p),
        },
{
    let text = render_path(p);
    let names = p.1;
    crate::path::law_parse_render(p);
    assert(starts_at_root(text) == p.0);
    let head: Seq<Seq<u8>> = if p.0 {
        seq![Seq::<u8>::empty()]
    } else {
        Seq::empty()
    };
    assert forall|i: int| 0 <= i < names.len() implies is_component(#[trigger] names[i], i, p.0) && !names[i].contains(
        SLASH,
    ) by {
        assert(name_ok(names[i], i, p.0));
    }
    let pieces = split_slash(text);
    let trimmed = trimmed_pieces(pieces, p.0);
    if names.len() > 0 {
        lemma_split_join(names);
        assert(pieces =~= head + names);
        assert(pieces.last() == names.last());
        assert(is_component(names[names.len() - 1], names.len() - 1, p.0));
        assert(trimmed == pieces);
    } else {
        reveal_with_fuel(trimmed_pieces, 4);
        reveal_with_fuel(split_slash, 3);
        if p.0 {
            assert(text =~= seq![SLASH]);
            assert(text.drop_last() =~= Seq::<u8>::empty());
            assert(pieces =~= seq![Seq::<u8>::empty(), Seq::<u8>::empty()]);
            assert(pieces.drop_last() =~= seq![Seq::<u8>::empty()]);
        } else {
            assert(text =~= Seq::<u8>::empty());
            assert(pieces =~= seq![Seq::<u8>::empty()]);
        }
        assert(seq![Seq::<u8>::empty()].drop_last() =~= Seq::<Seq<u8>>::empty());
        assert(trimmed =~= Seq::empty());
    }
    if base == empty_path() {
        if names.len() == 0 {
            assert(join_names(names) =~= Seq::<u8>::empty());
            assert(spelled_below(text, base) =~= text);
        } else if p.0 {
            lemma_join_after_nothing(names);
        } else {
            assert(pieces =~= names);
        }
    } else if is_under(p, base) {
        let k = base.1.len() as int;
        if names.len() > 0 {
            lemma_pieces_after(head, names, p.0, k);
        } else {
            assert(names.skip(k) =~= Seq::<Seq<u8>>::empty());
        }
    }
}

} // verus!
