//! Seeded and unseeded randomness from the `rand` and `move-core-types` crates.
use crate::bytes::le_bytes;
use rand::rngs::StdRng;
use vstd::prelude::*;

verus! {

/// `rand::rngs::StdRng`, an opaque generator.
#[verifier::external_type_specification]
#[verifier::external_body]
pub struct ExStdRng(rand::rngs::StdRng);

/// The 32-bit words that a `StdRng` still holds, in the order in which it hands
/// them out.
pub uninterp spec fn rng_words(rng: StdRng) -> Map<nat, u32>;

/// The words of a generator that `StdRng::seed_from_u64` made from `seed`.
pub uninterp spec fn seeded_words(seed: u64) -> Map<nat, u32>;

/// What is left of `words` after the first `count` of them were handed out.
pub open spec fn skip_words(words: Map<nat, u32>, count: nat) -> Map<nat, u32> {
    Map::total(|i: nat| words[i + count])
}

/// `count` words starting at `start`, each as four bytes, least significant first.
pub open spec fn word_bytes(words: Map<nat, u32>, start: nat, count: nat) -> Seq<u8>
    decreases count,
{
    if count == 0 {
        Seq::empty()
    } else {
        word_bytes(words, start, (count - 1) as nat) + le_bytes(
            words[(start + count - 1) as nat] as nat,
            4,
        )
    }
}

/// Two words as one 64-bit number, the word at `start` less significant.
pub open spec fn word_pair(words: Map<nat, u32>, start: nat) -> nat {
    words[start] as nat + words[start + 1] as nat * 0x1_0000_0000
}

/// Calls `StdRng::seed_from_u64`. The generator is deterministic: its words
/// depend on the seed alone. It never runs out of words.
#[verifier::external_body]
pub(crate) fn seeded_rng(seed: u64) -> (rng: StdRng)
    ensures
        rng_words(rng) == seeded_words(seed),
        forall|i: nat| #[trigger] rng_words(rng).contains_key(i),
{
    rand::SeedableRng::seed_from_u64(seed)
}

/// Calls `RngCore::next_u32` on a `StdRng`, which hands out the next word.
#[verifier::external_body]
pub(crate) fn next_u32(rng: &mut StdRng) -> (word: u32)
    ensures
        word == rng_words(*old(rng))[0],
        rng_words(*final(rng)) == skip_words(rng_words(*old(rng)), 1),
{
    rand::RngCore::next_u32(rng)
}

/// Calls `RngCore::next_u64` on a `StdRng`, which joins the next two words, the
/// first of them less significant.
#[verifier::external_body]
pub(crate) fn next_u64(rng: &mut StdRng) -> (word: u64)
    ensures
        word == word_pair(rng_words(*old(rng)), 0),
        rng_words(*final(rng)) == skip_words(rng_words(*old(rng)), 2),
{
    rand::RngCore::next_u64(rng)
}

/// Calls `RngCore::fill_bytes` on a `StdRng` for 32 bytes, which takes the next
/// eight words and writes each least significant byte first.
#[verifier::external_body]
pub(crate) fn next_bytes(rng: &mut StdRng) -> (bytes: [u8; 32])
    ensures
        bytes@ == word_bytes(rng_words(*old(rng)), 0, 8),
        rng_words(*final(rng)) == skip_words(rng_words(*old(rng)), 8),
{
    let mut bytes = [0u8; 32];
    rand::RngCore::fill_bytes(rng, &mut bytes);
    bytes
}

/// Calls `AccountAddress::random` of `move-core-types`, which reads 16 bytes from
/// the operating system's generator. Nothing is known of the bytes; the call
/// panics where the operating system has no randomness to give.
#[verifier::external_body]
pub(crate) fn random_half_address() -> (half: [u8; 16]) {
    move_core_types::account_address::AccountAddress::random().into_bytes()
}

/// Calls `SliceRandom::shuffle` of `rand` with the thread's own generator: the
/// items come back in some order, none lost, added or changed.
#[verifier::external_body]
pub(crate) fn shuffle_indices(indices: &mut Vec<usize>)
    ensures
        final(indices)@.to_multiset() == old(indices)@.to_multiset(),
{
    rand::seq::SliceRandom::shuffle(indices.as_mut_slice(), &mut rand::thread_rng())
}

/// Words further down are reached through skipped prefixes.
pub proof fn lemma_word_bytes_skip(words: Map<nat, u32>, skipped: nat, start: nat, count: nat)
    ensures
        word_bytes(skip_words(words, skipped), start, count) == word_bytes(
            words,
            skipped + start,
            count,
        ),
    decreases count,
{
    if count > 0 {
        lemma_word_bytes_skip(words, skipped, start, (count - 1) as nat);
        assert(skip_words(words, skipped)[(start + count - 1) as nat] == words[(skipped + start
            + count - 1) as nat]);
    }
}

/// Skipping twice is skipping the sum.
pub proof fn lemma_skip_skip(words: Map<nat, u32>, first: nat, second: nat)
    ensures
        skip_words(skip_words(words, first), second) == skip_words(words, first + second),
{
    assert(skip_words(skip_words(words, first), second) =~= skip_words(words, first + second));
}

/// Eight words make 32 bytes.
pub proof fn lemma_word_bytes_len(words: Map<nat, u32>, start: nat, count: nat)
    ensures
        word_bytes(words, start, count).len() == 4 * count,
    decreases count,
{
    if count > 0 {
        lemma_word_bytes_len(words, start, (count - 1) as nat);
        crate::bytes::lemma_le_bytes_len(words[(start + count - 1) as nat] as nat, 4);
    }
}

} // verus!
