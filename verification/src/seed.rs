//! Numeric seeds from seed phrases.

use std::collections::hash_map::DefaultHasher;
use std::hash::{Hash, Hasher};
use vstd::prelude::*;
use vstd::std_specs::hash::DefaultHasherAdditionalSpecFns;

verus! {

/// The writes by which a string feeds itself to a hasher.
pub uninterp spec fn str_hash_writes(text: Seq<char>) -> Seq<Seq<u8>>;

/// `<str as Hash>::hash` on the standard hasher. Trusted: the writes that the
/// hasher receives depend on the characters of `text` alone, and come after
/// those it had received before.
#[verifier::external_body]
fn hash_str(text: &str, state: &mut DefaultHasher)
    ensures
        final(state)@ == old(state)@ + str_hash_writes(text@),
{
    text.hash(state)
}

/// The seed that a 64-bit hash is folded to.
pub open spec fn folded(hash: u64) -> u32 {
    (hash % 0xFFFF_FFFF) as u32
}

/// The seed of a phrase.
pub open spec fn seed_of(text: Seq<char>) -> u32 {
    folded(DefaultHasher::spec_finish(str_hash_writes(text)))
}

/// Folds a 64-bit hash to a seed: its remainder modulo `u32::MAX`, so the
/// seed is always below `u32::MAX`.
pub fn fold_hash(hash: u64) -> (seed: u32)
    ensures
        seed == folded(hash),
        seed < u32::MAX,
{
    (hash % 0xFFFF_FFFF) as u32
}

/// The seed of a phrase: the phrase's hash under the standard hasher in its
/// initial state, folded by [`fold_hash`]. Equal phrases give equal seeds.
pub fn calculate_u32_seed_from_str(seed: &str) -> (value: u32)
    ensures
        value == seed_of(seed@),
        value < u32::MAX,
{
    let mut state = DefaultHasher::new();
    hash_str(seed, &mut state);
    assert(state@ =~= str_hash_writes(seed@));
    fold_hash(state.finish())
}

} // verus!
