//! The hash that identifies generated sources and projected geometry.

use vstd::prelude::*;

verus! {

/// On some platform, `hash` is what `FixedHasher` gives for the text and then
/// the numbers.
pub uninterp spec fn hashes_to(text: Seq<char>, words: Seq<i128>, hash: u64) -> bool;

/// `bevy::platform::hash::FixedHasher` over the text and then the numbers, as
/// one slice. The hash rests on these and on the platform: its algorithm differs
/// with the pointer width and the architecture, so all that is said is which
/// values were hashed.
#[verifier::external_body]
pub(crate) fn fixed_hash(text: &str, words: &Vec<i128>) -> (r: u64)
    ensures
        hashes_to(text@, words@, r),
{
    let mut hasher = std::hash::BuildHasher::build_hasher(&bevy::platform::hash::FixedHasher);
    std::hash::Hash::hash(text, &mut hasher);
    std::hash::Hash::hash_slice(words, &mut hasher);
    std::hash::Hasher::finish(&hasher)
}

} // verus!
