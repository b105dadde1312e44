//! Sets of any number of patterns.
//!
//! A set of the `globset` crate has room for so many patterns only.  Patterns go into
//! one such set as long as they fit, and then into further ones.

use crate::config::globs::{
    any_glob_matches, brace_depth, builder_globs, glob_builder_add, glob_builder_build,
    glob_builder_new, glob_matches, glob_set_matches, glob_valid, globs_build,
    lemma_total_bytes_push, set_fits, set_globs, total_bytes, DEPTH_LIMIT, SET_LIMIT,
};
use globset::Error as GlobError;
use vstd::prelude::*;
use vstd::utf8::encode_utf8;

verus! {

/// Whether a pattern is short enough to be in a set of its own.
pub open spec fn fits_alone(pattern: Seq<char>) -> bool {
    encode_utf8(pattern).len() + 4 <= SET_LIMIT
}

/// The patterns of a list in parts that fit into sets: the next pattern goes with those
/// before it where it fits, and begins a new part where it does not.
pub open spec fn parts_of(patterns: Seq<Seq<char>>) -> Seq<Seq<Seq<char>>>
    decreases patterns.len(),
{
    if patterns.len() == 0 {
        seq![Seq::empty()]
    } else {
        let before = parts_of(patterns.drop_last());
        let more = before.last().push(patterns.last());
        if set_fits(more) {
            before.drop_last().push(more)
        } else {
            before.push(seq![patterns.last()])
        }
    }
}

/// The patterns of all parts.
pub open spec fn joined(parts: Seq<Seq<Seq<char>>>) -> Seq<Seq<char>>
    decreases parts.len(),
{
    if parts.len() == 0 {
        Seq::empty()
    } else {
        joined(parts.drop_last()) + parts.last()
    }
}

/// Whether every part of a list can be made into a set.
pub open spec fn parts_build(patterns: Seq<Seq<char>>) -> bool {
    forall|i: int|
        0 <= i < parts_of(patterns).len() ==> globs_build(#[trigger] parts_of(patterns)[i])
}

/// With one pattern less there is less to make a set of.
proof fn lemma_fits_before(patterns: Seq<Seq<char>>)
    requires
        patterns.len() > 0,
        set_fits(patterns),
    ensures
        set_fits(patterns.drop_last()),
{
    let size = total_bytes(patterns.drop_last()) + 4;
    let count = patterns.len() - 1;
    let last = encode_utf8(patterns.last()).len();
    assert(size * count <= (size + last) * (count + 1)) by (nonlinear_arith)
        requires
            size >= 0,
            count >= 0,
            last >= 0,
    ;
}

/// The parts of a list are the list; where the whole list fits into a set, it is one
/// part.
pub proof fn law_parts(patterns: Seq<Seq<char>>)
    ensures
        parts_of(patterns).len() > 0,
        joined(parts_of(patterns)) == patterns,
        set_fits(patterns) ==> parts_of(patterns) == seq![patterns],
    decreases patterns.len(),
{
    reveal_with_fuel(joined, 2);
    let parts = parts_of(patterns);
    if patterns.len() == 0 {
        assert(parts.drop_last() =~= Seq::empty());
        assert(joined(parts) =~= patterns);
        assert(parts =~= seq![patterns]);
    } else {
        let init = patterns.drop_last();
        law_parts(init);
        let before = parts_of(init);
        let more = before.last().push(patterns.last());
        if set_fits(more) {
            assert(parts.drop_last() =~= before.drop_last());
        } else {
            assert(parts.drop_last() =~= before);
        }
        assert(joined(parts) =~= init.push(patterns.last()));
        assert(init.push(patterns.last()) =~= patterns);
        if set_fits(patterns) {
            lemma_fits_before(patterns);
            assert(before.last() == init);
            assert(more =~= patterns);
            assert(parts =~= seq![patterns]);
        }
    }
}

/// The parts of patterns that can all be made into sets can be made into sets.
pub proof fn lemma_simple_parts(patterns: Seq<Seq<char>>)
    requires
        crate::config::globs::all_simple(patterns),
    ensures
        forall|i: int|
            0 <= i < parts_of(patterns).len() ==> crate::config::globs::all_simple(
                #[trigger] parts_of(patterns)[i],
            ),
        parts_build(patterns),
    decreases patterns.len(),
{
    if patterns.len() > 0 {
        let init = patterns.drop_last();
        assert forall|i: int| 0 <= i < init.len() implies crate::config::globs::is_simple(
            #[trigger] init[i],
        ) by {
            assert(init[i] == patterns[i]);
        }
        lemma_simple_parts(init);
        law_parts(init);
        let before = parts_of(init);
        let parts = parts_of(patterns);
        assert(crate::config::globs::is_simple(patterns[patterns.len() - 1]));
        assert forall|i: int| 0 <= i < parts.len() implies crate::config::globs::all_simple(
            #[trigger] parts[i],
        ) by {
            if i < before.len() {
                assert(crate::config::globs::all_simple(before[i]));
            }
        }
    }
}

/// The patterns of builders.
pub open spec fn builder_views(v: Seq<globset::GlobSetBuilder>) -> Seq<Seq<Seq<char>>> {
    Seq::new(v.len(), |i: int| builder_globs(v[i]))
}

/// The patterns of sets.
pub open spec fn set_views(v: Seq<globset::GlobSet>) -> Seq<Seq<Seq<char>>> {
    Seq::new(v.len(), |i: int| set_globs(v[i]))
}

/// Patterns on the way into sets.
pub struct SetsBuilder {
    builders: Vec<globset::GlobSetBuilder>,
    /// The bytes of the patterns in the last builder.
    bytes: u64,
    /// The number of the patterns in the last builder.
    count: u64,
}

impl View for SetsBuilder {
    type V = Seq<Seq<char>>;

    closed spec fn view(&self) -> Seq<Seq<char>> {
        joined(builder_views(self.builders@))
    }
}

impl SetsBuilder {
    /// Whether the patterns are in parts that fit.
    pub closed spec fn wf(&self) -> bool {
        &&& builder_views(self.builders@) == parts_of(self@)
        &&& forall|i: int|
            0 <= i < self.builders@.len() ==> set_fits(builder_globs(#[trigger] self.builders@[i]))
        &&& self.builders@.len() > 0
        &&& self.bytes == total_bytes(builder_globs(self.builders@.last()))
        &&& self.count == builder_globs(self.builders@.last()).len()
        &&& self.bytes <= SET_LIMIT
        &&& self.count <= SET_LIMIT
    }

    /// No patterns.
    pub fn new() -> (r: SetsBuilder)
        ensures
            r.wf(),
            r@ == Seq::<Seq<char>>::empty(),
    {
        let mut builders: Vec<globset::GlobSetBuilder> = Vec::new();
        builders.push(glob_builder_new());
        proof {
            reveal_with_fuel(joined, 2);
            let views = builder_views(builders@);
            assert(views.drop_last() =~= Seq::empty());
            assert(joined(views) =~= Seq::empty());
            assert(builder_globs(builders@[0]) =~= Seq::empty());
            assert(views =~= seq![Seq::empty()]);
        }
        SetsBuilder { builders, bytes: 0, count: 0 }
    }

    /// Adds a text behind the others where it is a pattern.
    pub fn add(&mut self, pattern: &str) -> (r: Result<(), GlobError>)
        requires
            old(self).wf(),
            brace_depth(pattern@) <= DEPTH_LIMIT,
            fits_alone(pattern@),
        ensures
            r is Ok <==> glob_valid(pattern@),
            final(self).wf(),
            r is Ok ==> final(self)@ == old(self)@.push(pattern@),
            r is Err ==> final(self)@ == old(self)@,
    {
        let ghost all = self@;
        let ghost views = builder_views(self.builders@);
        let ghost before = builder_globs(self.builders@.last());
        let text = pattern.as_bytes();
        assert(text@ =~= encode_utf8(pattern@));
        let len: u64 = text.len() as u64;
        let size: u128 = self.bytes as u128 + len as u128 + 4;
        let number: u128 = self.count as u128 + 1;
        proof {
            law_parts(all);
            lemma_total_bytes_push(before, pattern@);
            assert(all.push(pattern@).drop_last() =~= all);
            assert(size * number <= 0x2_0000_0000 * 0x2_0000_0000) by (nonlinear_arith)
                requires
                    0 <= size <= 0x2_0000_0000,
                    0 <= number <= 0x2_0000_0000,
            ;
        }
        if size * number <= SET_LIMIT as u128 {
            let mut last = match self.builders.pop() {
                Some(b) => b,
                None => glob_builder_new(),
            };
            let ghost rest = self.builders@;
            let r = glob_builder_add(&mut last, pattern);
            self.builders.push(last);
            proof {
                let now = builder_views(self.builders@);
                assert(now.drop_last() =~= views.drop_last());
                assert(set_fits(before.push(pattern@)));
                assert(set_fits(before)) by {
                    assert(before == builder_globs(old(self).builders@[old(self).builders@.len() - 1]));
                }
                assert forall|i: int| 0 <= i < self.builders@.len() implies set_fits(
                    builder_globs(#[trigger] self.builders@[i]),
                ) by {
                    if i < rest.len() {
                        assert(self.builders@[i] == old(self).builders@[i]);
                    }
                }
                match r {
                    Ok(_) => {
                        assert(self@ =~= all.push(pattern@));
                        assert(now =~= parts_of(all.push(pattern@)));
                        assert(size * number >= number) by (nonlinear_arith)
                            requires
                                size >= 1,
                                number >= 0,
                        ;
                        assert(size * number >= size) by (nonlinear_arith)
                            requires
                                size >= 0,
                                number >= 1,
                        ;
                    },
                    Err(_) => {
                        assert(now =~= views);
                    },
                }
            }
            match r {
                Ok(_) => {
                    self.bytes = self.bytes + len;
                    self.count = self.count + 1;
                    Ok(())
                },
                Err(e) => Err(e),
            }
        } else {
            let mut next = glob_builder_new();
            match glob_builder_add(&mut next, pattern) {
                Ok(_) => {
                    let ghost rest = self.builders@;
                    self.builders.push(next);
                    self.bytes = len;
                    self.count = 1;
                    proof {
                        let now = builder_views(self.builders@);
                        let alone = builder_globs(next);
                        assert(alone =~= seq![pattern@]);
                        assert(Seq::<Seq<char>>::empty().push(pattern@) =~= alone);
                        lemma_total_bytes_push(Seq::empty(), pattern@);
                        assert(total_bytes(alone) == len && alone.len() == 1);
                        assert(set_fits(alone));
                        assert(now.drop_last() =~= views);
                        assert(self@ =~= all.push(pattern@));
                        assert(now =~= parts_of(all.push(pattern@)));
                        assert forall|i: int| 0 <= i < self.builders@.len() implies set_fits(
                            builder_globs(#[trigger] self.builders@[i]),
                        ) by {
                            if i < rest.len() {
                                assert(self.builders@[i] == old(self).builders@[i]);
                            }
                        }
                    }
                    Ok(())
                },
                Err(e) => Err(e),
            }
        }
    }

    /// Makes the sets.
    pub fn build(&self) -> (r: Result<PatternSets, GlobError>)
        requires
            self.wf(),
        ensures
            r is Ok <==> parts_build(self@),
            r matches Ok(s) ==> s@ == self@,
    {
        let mut sets: Vec<globset::GlobSet> = Vec::new();
        let mut i: usize = 0;
        while i < self.builders.len()
            invariant
                i <= self.builders.len(),
                self.wf(),
                sets.len() == i,
                forall|k: int|
                    0 <= k < i ==> set_globs(#[trigger] sets@[k]) == parts_of(self@)[k],
                forall|k: int| 0 <= k < i ==> globs_build(#[trigger] parts_of(self@)[k]),
            decreases self.builders.len() - i,
        {
            assert(builder_views(self.builders@)[i as int] == builder_globs(self.builders@[i as int]));
            match glob_builder_build(&self.builders[i]) {
                Ok(s) => {
                    sets.push(s);
                },
                Err(e) => {
                    assert(!globs_build(parts_of(self@)[i as int]));
                    return Err(e);
                },
            }
            i = i + 1;
        }
        proof {
            assert(builder_views(self.builders@).len() == self.builders@.len());
            assert(set_views(sets@) =~= parts_of(self@));
        }
        Ok(PatternSets { sets })
    }
}

/// Sets that hold the patterns of a list.
pub struct PatternSets {
    sets: Vec<globset::GlobSet>,
}

impl View for PatternSets {
    type V = Seq<Seq<char>>;

    closed spec fn view(&self) -> Seq<Seq<char>> {
        joined(set_views(self.sets@))
    }
}

/// What some pattern of two lists matches, one of either does.
proof fn lemma_any_of_both(a: Seq<Seq<char>>, b: Seq<Seq<char>>, path: Seq<u8>)
    ensures
        any_glob_matches(a + b, path) <==> any_glob_matches(a, path) || any_glob_matches(b, path),
{
    let c = a + b;
    if any_glob_matches(c, path) {
        let i = choose|i: int| 0 <= i < c.len() && glob_matches(#[trigger] c[i], path);
        if i < a.len() {
            assert(glob_matches(a[i], path));
        } else {
            assert(glob_matches(b[i - a.len()], path));
        }
    }
    if any_glob_matches(a, path) {
        let i = choose|i: int| 0 <= i < a.len() && glob_matches(#[trigger] a[i], path);
        assert(glob_matches(c[i], path));
    }
    if any_glob_matches(b, path) {
        let i = choose|i: int| 0 <= i < b.len() && glob_matches(#[trigger] b[i], path);
        assert(glob_matches(c[a.len() + i], path));
    }
}

impl PatternSets {
    /// Whether some pattern matches a path.
    pub fn matches(&self, path: &[u8]) -> (r: bool)
        ensures
            r == any_glob_matches(self@, path@),
    {
        let ghost views = set_views(self.sets@);
        let mut found = false;
        let mut i: usize = 0;
        while i < self.sets.len()
            invariant
                i <= self.sets.len(),
                views == set_views(self.sets@),
                found == any_glob_matches(joined(views.take(i as int)), path@),
            decreases self.sets.len() - i,
        {
            proof {
                assert(views.take(i + 1).drop_last() =~= views.take(i as int));
                lemma_any_of_both(joined(views.take(i as int)), views[i as int], path@);
            }
            if glob_set_matches(&self.sets[i], path) {
                found = true;
            }
            i = i + 1;
        }
        assert(views.take(views.len() as int) =~= views);
        found
    }
}

} // verus!
