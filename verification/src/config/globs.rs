//! Glob patterns of the `globset` crate: sets of patterns, and matching.

use globset::Error as GlobError;
use vstd::prelude::*;
use vstd::utf8::encode_utf8;

verus! {

/// `globset::GlobSetBuilder`, carried as an opaque value.
#[verifier::external_type_specification]
#[verifier::external_body]
pub struct ExGlobSetBuilder(globset::GlobSetBuilder);

/// `globset::GlobSet`, carried as an opaque value.
#[verifier::external_type_specification]
#[verifier::external_body]
pub struct ExGlobSet(globset::GlobSet);

/// `globset::Error`, carried as an opaque value.
#[verifier::external_type_specification]
#[verifier::external_body]
pub struct ExGlobError(GlobError);

/// The patterns that were added to a builder, in order.
pub uninterp spec fn builder_globs(b: globset::GlobSetBuilder) -> Seq<Seq<char>>;

/// The patterns of a set, in order.
pub uninterp spec fn set_globs(s: globset::GlobSet) -> Seq<Seq<char>>;

/// Whether a character stands for itself in a pattern.  There are others; these are
/// the ones of ordinary names, and the slash between them.
pub open spec fn is_plain_char(c: char) -> bool {
    ('a' <= c && c <= 'z') || ('A' <= c && c <= 'Z') || ('0' <= c && c <= '9') || c == '.' || c == '_' || c
        == '-' || c == '/'
}

/// Whether all characters of a text stand for themselves.
pub open spec fn plain_chars(text: Seq<char>) -> bool {
    forall|i: int| 0 <= i < text.len() ==> is_plain_char(#[trigger] text[i])
}

/// Whether a text is a path of characters that stand for themselves.
pub open spec fn is_plain(text: Seq<char>) -> bool {
    text.len() > 0 && plain_chars(text)
}

/// What makes a pattern for everything below a path.
pub open spec fn tree_suffix() -> Seq<char> {
    seq!['/', '*', '*']
}

/// Whether a text is such a pattern for a plain path.
pub open spec fn is_tree(text: Seq<char>) -> bool {
    &&& text.len() >= 3
    &&& text.skip(text.len() - 3) == tree_suffix()
    &&& plain_chars(text.take(text.len() - 3))
}

/// Whether a pattern is a plain path, or stands for everything below one.
pub open spec fn is_simple(pattern: Seq<char>) -> bool {
    is_plain(pattern) || is_tree(pattern)
}

/// The bytes of a plain text.
pub open spec fn plain_bytes(text: Seq<char>) -> Seq<u8> {
    Seq::new(text.len(), |i: int| text[i] as u8)
}

/// Whether a simple pattern matches a path: it is the path, or the path lies below.
pub open spec fn simple_matches(pattern: Seq<char>, path: Seq<u8>) -> bool {
    if is_plain(pattern) {
        path == plain_bytes(pattern)
    } else {
        plain_bytes(pattern.take(pattern.len() - 2)).is_prefix_of(path)
    }
}

/// Whether a text that is not simple is a pattern.
pub uninterp spec fn other_valid(pattern: Seq<char>) -> bool;

/// Whether patterns, not all of them simple, can be made into a set.
pub uninterp spec fn others_build(patterns: Seq<Seq<char>>) -> bool;

/// Whether a pattern that is not simple matches a path.
pub uninterp spec fn other_matches(pattern: Seq<char>, path: Seq<u8>) -> bool;

/// Whether a text is a pattern.
pub open spec fn glob_valid(pattern: Seq<char>) -> bool {
    is_simple(pattern) || other_valid(pattern)
}

/// Whether all patterns of a list are simple.
pub open spec fn all_simple(patterns: Seq<Seq<char>>) -> bool {
    forall|i: int| 0 <= i < patterns.len() ==> is_simple(#[trigger] patterns[i])
}

/// Whether patterns can be made into a set.
pub open spec fn globs_build(patterns: Seq<Seq<char>>) -> bool {
    all_simple(patterns) || others_build(patterns)
}

/// Whether a pattern matches a path.
pub open spec fn glob_matches(pattern: Seq<char>, path: Seq<u8>) -> bool {
    if is_simple(pattern) {
        simple_matches(pattern, path)
    } else {
        other_matches(pattern, path)
    }
}

/// Whether some pattern of a list matches a path.
pub open spec fn any_glob_matches(patterns: Seq<Seq<char>>, path: Seq<u8>) -> bool {
    exists|i: int| 0 <= i < patterns.len() && glob_matches(#[trigger] patterns[i], path)
}

/// How many bytes the patterns of a list have together.
pub open spec fn total_bytes(patterns: Seq<Seq<char>>) -> nat
    decreases patterns.len(),
{
    if patterns.len() == 0 {
        0
    } else {
        total_bytes(patterns.drop_last()) + encode_utf8(patterns.last()).len()
    }
}

/// How large the product of the bytes and the number of the patterns of a set may be.
pub const SET_LIMIT: u64 = 0x7fff_0000;

/// Whether the patterns of a list are few and short enough to be made into a set.
pub open spec fn set_fits(patterns: Seq<Seq<char>>) -> bool {
    (total_bytes(patterns) + 4) * patterns.len() <= SET_LIMIT
}

/// Where in a pattern a reader stands: outside a class, behind a backslash, behind the
/// bracket that opens a class, behind the mark that turns one round, or within one.
#[derive(Debug, Clone, Copy, PartialEq, Eq, Structural)]
pub enum Place {
    Outside,
    Escaped,
    ClassOpen,
    ClassTurned,
    Class,
}

/// Where a reader stands behind the next byte: a class is closed by a bracket that is
/// not the first in it, and within it a backslash stands for itself.
pub open spec fn place_after(place: Place, b: u8) -> Place {
    match place {
        Place::Outside => if b == 92 {
            Place::Escaped
        } else if b == 91 {
            Place::ClassOpen
        } else {
            Place::Outside
        },
        Place::Escaped => Place::Outside,
        Place::ClassOpen => if b == 33 || b == 94 {
            Place::ClassTurned
        } else {
            Place::Class
        },
        Place::ClassTurned => Place::Class,
        Place::Class => if b == 93 {
            Place::Outside
        } else {
            Place::Class
        },
    }
}

/// What a reader of a pattern knows: where it stands, how many braces are open, and how
/// many were open at once, at most.
pub struct BraceScan {
    pub place: Place,
    pub open: nat,
    pub most: nat,
}

/// What a reader knows at the end of a text.
pub open spec fn scanned(text: Seq<u8>) -> BraceScan
    decreases text.len(),
{
    if text.len() == 0 {
        BraceScan { place: Place::Outside, open: 0, most: 0 }
    } else {
        let before = scanned(text.drop_last());
        let b = text.last();
        let open = if before.place is Outside && b == 123 {
            before.open + 1
        } else if before.place is Outside && b == 125 && before.open > 0 {
            (before.open - 1) as nat
        } else {
            before.open
        };
        BraceScan {
            place: place_after(before.place, b),
            open,
            most: if open > before.most {
                open
            } else {
                before.most
            },
        }
    }
}

/// How deep the braces of a pattern are nested.
pub open spec fn brace_depth(pattern: Seq<char>) -> nat {
    scanned(encode_utf8(pattern)).most
}

/// How deep the braces of a pattern may be nested.
pub const DEPTH_LIMIT: u64 = 250;

/// `GlobSetBuilder::new`: a builder without patterns.
#[verifier::external_body]
pub(crate) fn glob_builder_new() -> (b: globset::GlobSetBuilder)
    ensures
        builder_globs(b).len() == 0,
{
    globset::GlobSetBuilder::new()
}

/// `Glob::new` and `GlobSetBuilder::add`: a text that is a pattern is added behind
/// the others; for any other the builder stays as it was.  Simple texts are patterns,
/// which texts with special characters are is named only.  A pattern is taken apart by
/// one call within another for each brace in a brace: the limit keeps that from using
/// up the stack.
#[verifier::external_body]
pub(crate) fn glob_builder_add(b: &mut globset::GlobSetBuilder, pattern: &str) -> (r: Result<
    (),
    GlobError,
>)
    requires
        brace_depth(pattern@) <= DEPTH_LIMIT,
    ensures
        r is Ok <==> is_simple(pattern@) || other_valid(pattern@),
        r is Ok ==> builder_globs(*final(b)) == builder_globs(*old(b)).push(pattern@),
        r is Err ==> builder_globs(*final(b)) == builder_globs(*old(b)),
{
    b.add(globset::Glob::new(pattern)?);
    Ok(())
}

/// `GlobSetBuilder::build`: a set with the patterns of the builder, where they can
/// be made into one.  Simple patterns always can; which others can is named only.
/// Literal prefixes and suffixes go into an automaton whose making is not allowed to
/// fail.  It has at most four states more than the patterns have bytes, not a thousand
/// transitions more than that, and each state holds a pattern at most once: the limit
/// keeps all of them within what it can number.
#[verifier::external_body]
pub(crate) fn glob_builder_build(b: &globset::GlobSetBuilder) -> (r: Result<
    globset::GlobSet,
    GlobError,
>)
    requires
        set_fits(builder_globs(*b)),
    ensures
        r is Ok <==> all_simple(builder_globs(*b)) || others_build(builder_globs(*b)),
        r is Ok ==> set_globs(r->Ok_0) == builder_globs(*b),
{
    b.build()
}

/// `Candidate::from_bytes` and `GlobSet::is_match_candidate`: whether some pattern
/// of the set matches the path.  A simple pattern matches the path that it spells, or
/// the paths below; which paths others match is named only.
#[verifier::external_body]
pub(crate) fn glob_set_matches(s: &globset::GlobSet, path: &[u8]) -> (r: bool)
    ensures
        r == (exists|i: int|
            0 <= i < set_globs(*s).len() && (if is_simple(#[trigger] set_globs(*s)[i]) {
                simple_matches(set_globs(*s)[i], path@)
            } else {
                other_matches(set_globs(*s)[i], path@)
            })),
{
    s.is_match_candidate(&globset::Candidate::from_bytes(path))
}

/// Adding a pattern adds its bytes.
pub proof fn lemma_total_bytes_push(patterns: Seq<Seq<char>>, p: Seq<char>)
    ensures
        total_bytes(patterns.push(p)) == total_bytes(patterns) + encode_utf8(p).len(),
{
    assert(patterns.push(p).drop_last() =~= patterns);
}

/// A text without opening braces has none open.
proof fn lemma_no_braces(text: Seq<u8>)
    requires
        forall|i: int| 0 <= i < text.len() ==> #[trigger] text[i] != 123,
    ensures
        scanned(text).open == 0,
        scanned(text).most == 0,
    decreases text.len(),
{
    if text.len() > 0 {
        let before = text.drop_last();
        assert forall|i: int| 0 <= i < before.len() implies #[trigger] before[i] != 123 by {
            assert(before[i] == text[i]);
        }
        lemma_no_braces(before);
        assert(text[text.len() - 1] != 123);
    }
}

/// The bytes of a simple pattern are its characters, and none is a brace.
pub proof fn lemma_simple_pattern(pattern: Seq<char>)
    requires
        is_simple(pattern),
    ensures
        brace_depth(pattern) == 0,
        encode_utf8(pattern).len() == pattern.len(),
{
    let n = pattern.len() as int;
    assert forall|i: int| 0 <= i < n implies is_plain_char(#[trigger] pattern[i]) || pattern[i] == '*' by {
        if !is_plain(pattern) {
            if i < n - 3 {
                assert(pattern.take(n - 3)[i] == pattern[i]);
            } else {
                assert(pattern.skip(n - 3)[i - (n - 3)] == pattern[i]);
            }
        }
    }
    vstd::utf8::is_ascii_chars_encode_utf8(pattern);
    let text = encode_utf8(pattern);
    assert forall|i: int| 0 <= i < text.len() implies #[trigger] text[i] != 123 by {
        assert(pattern[i] as u8 == text[i]);
    }
    lemma_no_braces(text);
}

/// The own patterns of the sandbox are simple.
pub proof fn lemma_own_patterns_simple()
    ensures
        is_plain(".sandbox"@),
        is_tree(".sandbox/**"@),
        encode_utf8(".sandbox"@).len() == 8,
        encode_utf8(".sandbox/**"@).len() == 11,
        brace_depth(".sandbox"@) == 0,
        brace_depth(".sandbox/**"@) == 0,
        ".sandbox"@ + tree_suffix() == ".sandbox/**"@,
        plain_bytes(".sandbox"@) == crate::syncing::disk::dot_sandbox(),
{
    reveal_strlit(".sandbox");
    reveal_strlit(".sandbox/**");
    let t = ".sandbox/**"@;
    assert(t.skip(8) =~= tree_suffix());
    assert(t.take(8) =~= ".sandbox"@);
    assert(t =~= ".sandbox"@ + tree_suffix());
    assert(plain_bytes(".sandbox"@) =~= crate::syncing::disk::dot_sandbox());
    lemma_simple_pattern(".sandbox"@);
    lemma_simple_pattern(t);
}

/// Where a reader stands behind the next byte.
fn next_place(place: Place, b: u8) -> (r: Place)
    ensures
        r == place_after(place, b),
{
    match place {
        Place::Outside => if b == 92 {
            Place::Escaped
        } else if b == 91 {
            Place::ClassOpen
        } else {
            Place::Outside
        },
        Place::Escaped => Place::Outside,
        Place::ClassOpen => if b == 33 || b == 94 {
            Place::ClassTurned
        } else {
            Place::Class
        },
        Place::ClassTurned => Place::Class,
        Place::Class => if b == 93 {
            Place::Outside
        } else {
            Place::Class
        },
    }
}

/// Whether the braces of a pattern are nested no deeper than they may.
pub(crate) fn is_shallow(pattern: &str) -> (r: bool)
    ensures
        r == (brace_depth(pattern@) <= DEPTH_LIMIT),
{
    let text = pattern.as_bytes();
    let mut place = Place::Outside;
    let mut open: usize = 0;
    let mut most: usize = 0;
    let mut i: usize = 0;
    while i < text.len()
        invariant
            i <= text.len(),
            open <= i,
            place == scanned(text@.take(i as int)).place,
            open == scanned(text@.take(i as int)).open,
            most == scanned(text@.take(i as int)).most,
        decreases text.len() - i,
    {
        proof {
            assert(text@.take(i + 1).drop_last() =~= text@.take(i as int));
        }
        let outside = match place {
            Place::Outside => true,
            _ => false,
        };
        if outside && text[i] == 123 {
            open = open + 1;
        } else if outside && text[i] == 125 && open > 0 {
            open = open - 1;
        }
        if open > most {
            most = open;
        }
        place = next_place(place, text[i]);
        i = i + 1;
    }
    proof {
        assert(text@.take(text@.len() as int) =~= text@);
        assert(text@ =~= encode_utf8(pattern@));
    }
    most as u64 <= DEPTH_LIMIT
}

} // verus!
