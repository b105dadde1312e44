//! The names of shared memory segments.

use rand::distributions::Alphanumeric;
use rand::{thread_rng, Rng};
use vstd::prelude::*;

verus! {

/// How many random characters a name has.
pub const SUFFIX_LENGTH: usize = 12;

/// Whether a character is a letter or a digit.
pub open spec fn is_alphanumeric(c: char) -> bool {
    ('a' <= c && c <= 'z') || ('A' <= c && c <= 'Z') || ('0' <= c && c <= '9')
}

/// `rand::thread_rng` and `Rng::sample_iter` with `Alphanumeric`: as many characters
/// as asked for, each a letter or a digit; which ones, chance decides.
#[verifier::external_body]
pub(crate) fn random_alphanumeric(n: usize) -> (r: String)
    ensures
        r@.len() == n,
        forall|i: int| 0 <= i < r@.len() ==> is_alphanumeric(#[trigger] r@[i]),
{
    thread_rng().sample_iter(&Alphanumeric).take(n).map(char::from).collect()
}

/// The name of a segment with a suffix.
pub open spec fn shm_name_of(suffix: Seq<char>) -> Seq<char> {
    "/cas-"@ + suffix
}

/// The name of a segment begins with a slash, as the system asks, holds no other, and
/// differs where the suffix does.
pub proof fn law_segment_names(a: Seq<char>, b: Seq<char>, i: int)
    requires
        forall|k: int| 0 <= k < a.len() ==> is_alphanumeric(#[trigger] a[k]),
        0 < i < shm_name_of(a).len(),
    ensures
        shm_name_of(a)[0] == '/',
        shm_name_of(a)[i] != '/',
        shm_name_of(a) == shm_name_of(b) ==> a == b,
        shm_name_of(a).len() == a.len() + 5,
{
    reveal_strlit("/cas-");
    let n = shm_name_of(a);
    if i >= 5 {
        assert(n[i] == a[i - 5]);
    }
    if shm_name_of(a) == shm_name_of(b) {
        assert(a =~= n.skip(5));
        assert(b =~= shm_name_of(b).skip(5));
    }
}

/// The name of a segment with a suffix.
pub fn shm_name(suffix: &str) -> (r: String)
    ensures
        r@ == shm_name_of(suffix@),
{
    let mut name = String::from_str("/cas-");
    name.append(suffix);
    name
}

/// A new name for a segment.
pub fn new_shm_name() -> (r: String)
    ensures
        exists|suffix: Seq<char>|
            r@ == #[trigger] shm_name_of(suffix) && suffix.len() == SUFFIX_LENGTH && (forall|i: int|
                0 <= i < suffix.len() ==> is_alphanumeric(#[trigger] suffix[i])),
{
    let suffix = random_alphanumeric(SUFFIX_LENGTH);
    shm_name(suffix.as_str())
}

} // verus!
