//! The pseudo-random generator of contract calls: a ChaCha20 stream, known by
//! its seed and by how many of its 32-bit words have been drawn.

use crate::error::{Error, HostError, ScErrorCode, ScErrorType};
use rand::distributions::{Distribution, Uniform};
use rand::seq::SliceRandom;
use rand::{RngCore, SeedableRng};
use rand_chacha::ChaCha20Rng;
use vstd::prelude::*;

verus! {

/// The length of a seed.
pub const SEED_BYTES: u64 = 32;

/// What a generator is started from.
pub type Seed = [u8; 32];

/// A generator: the stream of a seed, from a word position on.
#[derive(Clone, Copy, Debug)]
pub struct Prng {
    pub seed: Seed,
    pub word_pos: u128,
}

/// The bytes that a draw of the given length takes from the stream of a seed at
/// a position, and the position after the draw.
pub uninterp spec fn chacha20_bytes(seed: Seq<u8>, word_pos: u128, len: nat) -> (Seq<u8>, u128);

/// The number from an inclusive range that the stream of a seed gives at a
/// position, and the position after the draw.
pub uninterp spec fn chacha20_in_range(seed: Seq<u8>, word_pos: u128, lo: u64, hi: u64) -> (u64, u128);

/// The items shuffled by the stream of a seed from a position on, and the
/// position after the draws.
pub uninterp spec fn chacha20_shuffled(seed: Seq<u8>, word_pos: u128, items: Seq<usize>) -> (Seq<usize>, u128);

/// Calls `fill_bytes` of `rand_chacha::ChaCha20Rng`, started from the seed and
/// moved to the position: fills the given length, and depends on nothing else.
#[verifier::external_body]
fn draw_bytes(seed: &Seed, word_pos: u128, len: usize) -> (r: (Vec<u8>, u128))
    ensures
        (r.0@, r.1) == chacha20_bytes(seed@, word_pos, len as nat),
        r.0@.len() == len,
{
    let mut rng = ChaCha20Rng::from_seed(*seed);
    rng.set_word_pos(word_pos);
    let mut bytes = vec![0u8; len];
    rng.fill_bytes(&mut bytes);
    (bytes, rng.get_word_pos())
}

/// Calls `sample` of `rand::distributions::Uniform` over an inclusive range, on
/// a ChaCha20 generator started from the seed and moved to the position: a
/// number from the range that depends on nothing else.
#[verifier::external_body]
fn draw_in_range(seed: &Seed, word_pos: u128, lo: u64, hi: u64) -> (r: (u64, u128))
    requires
        lo <= hi,
    ensures
        r == chacha20_in_range(seed@, word_pos, lo, hi),
        lo <= r.0 <= hi,
{
    let mut rng = ChaCha20Rng::from_seed(*seed);
    rng.set_word_pos(word_pos);
    let x = Uniform::from(lo..=hi).sample(&mut rng);
    (x, rng.get_word_pos())
}

/// Calls `shuffle` of `rand::seq::SliceRandom` on a ChaCha20 generator started
/// from the seed and moved to the position: the same items in an order that
/// depends on nothing else.
#[verifier::external_body]
fn shuffle_items(seed: &Seed, word_pos: u128, items: Vec<usize>) -> (r: (Vec<usize>, u128))
    ensures
        (r.0@, r.1) == chacha20_shuffled(seed@, word_pos, items@),
        r.0@.to_multiset() == items@.to_multiset(),
{
    let mut rng = ChaCha20Rng::from_seed(*seed);
    rng.set_word_pos(word_pos);
    let mut shuffled = items;
    shuffled.shuffle(&mut rng);
    (shuffled, rng.get_word_pos())
}

/// The positions of a list of the given length, in order.
pub open spec fn positions(n: nat) -> Seq<usize> {
    Seq::new(n, |i: int| i as usize)
}

/// Whether a list holds each position below `n` once.
pub open spec fn is_permutation(p: Seq<usize>, n: nat) -> bool {
    &&& p.len() == n
    &&& forall|i: int| 0 <= i < n ==> (#[trigger] p[i]) < n
    &&& forall|i: int, j: int| 0 <= i < j < n ==> #[trigger] p[i] != #[trigger] p[j]
}

/// The error of an empty range.
pub open spec fn empty_range_error() -> HostError {
    HostError {
        error: Error { type_: ScErrorType::Value, code: ScErrorCode::InvalidInput.spec_number() },
        info: None,
    }
}

impl Prng {
    pub fn new_from_seed(seed: Seed) -> (r: Prng)
        ensures
            r == (Prng { seed, word_pos: 0 }),
    {
        Prng { seed, word_pos: 0 }
    }

    /// Draws bytes.
    pub fn bytes_new(&mut self, len: u32) -> (r: Vec<u8>)
        ensures
            ({
                let (bytes, word_pos) = chacha20_bytes(old(self).seed@, old(self).word_pos, len as nat);
                &&& r@ == bytes
                &&& *final(self) == (Prng { word_pos, ..*old(self) })
            }),
            r@.len() == len,
    {
        let (bytes, word_pos) = draw_bytes(&self.seed, self.word_pos, len as usize);
        self.word_pos = word_pos;
        bytes
    }

    /// Draws a number from `lo` to `hi`, both included.
    pub fn u64_in_inclusive_range(&mut self, lo: u64, hi: u64) -> (res: Result<u64, HostError>)
        ensures
            if lo <= hi {
                let (x, word_pos) = chacha20_in_range(old(self).seed@, old(self).word_pos, lo, hi);
                &&& res == Ok::<u64, HostError>(x)
                &&& lo <= x <= hi
                &&& *final(self) == (Prng { word_pos, ..*old(self) })
            } else {
                res == Err::<u64, HostError>(empty_range_error()) && *final(self) == *old(self)
            },
    {
        if lo > hi {
            return Err(
                HostError {
                    error: Error::from_type_and_code(ScErrorType::Value, ScErrorCode::InvalidInput),
                    info: None,
                },
            );
        }
        let (x, word_pos) = draw_in_range(&self.seed, self.word_pos, lo, hi);
        self.word_pos = word_pos;
        Ok(x)
    }

    /// Draws an order of the positions of a list.
    pub fn shuffled_positions(&mut self, len: usize) -> (p: Vec<usize>)
        ensures
            ({
                let (order, word_pos) = chacha20_shuffled(
                    old(self).seed@,
                    old(self).word_pos,
                    positions(len as nat),
                );
                &&& p@ == order
                &&& *final(self) == (Prng { word_pos, ..*old(self) })
            }),
            is_permutation(p@, len as nat),
            p@.to_multiset() == positions(len as nat).to_multiset(),
    {
        let mut items: Vec<usize> = Vec::new();
        let mut i: usize = 0;
        while i < len
            invariant
                i <= len,
                items@ == positions(i as nat),
            decreases len - i,
        {
            items.push(i);
            i = i + 1;
            assert(items@ =~= positions(i as nat));
        }
        let (p, word_pos) = shuffle_items(&self.seed, self.word_pos, items);
        self.word_pos = word_pos;
        proof {
            let s = positions(len as nat);
            broadcast use vstd::seq_lib::group_to_multiset_ensures;

            assert(p@.len() == p@.to_multiset().len());
            assert(s.no_duplicates());
            s.lemma_multiset_has_no_duplicates();
            assert forall|k: int| 0 <= k < len implies (#[trigger] p@[k]) < len by {
                assert(p@.to_multiset().count(p@[k]) > 0) by {
                    assert(p@.contains(p@[k]));
                }
                assert(s.contains(p@[k]));
            }
            assert(p@.no_duplicates()) by {
                assert forall|x: usize| p@.to_multiset().contains(x) implies p@.to_multiset().count(x) == 1 by {
                    assert(s.to_multiset().contains(x));
                }
                p@.lemma_multiset_has_no_duplicates_conv();
            }
        }
        p
    }

    /// Draws the seed of another generator.
    pub fn sub_prng(&mut self) -> (r: Prng)
        ensures
            ({
                let (bytes, word_pos) = chacha20_bytes(old(self).seed@, old(self).word_pos, 32);
                &&& r.seed@ == bytes
                &&& r.word_pos == 0
                &&& *final(self) == (Prng { word_pos, ..*old(self) })
            }),
    {
        let (bytes, word_pos) = draw_bytes(&self.seed, self.word_pos, 32);
        self.word_pos = word_pos;
        Prng { seed: seed_from_bytes(&bytes), word_pos: 0 }
    }
}

/// The seed that 32 bytes make up.
pub fn seed_from_bytes(bytes: &[u8]) -> (seed: Seed)
    requires
        bytes@.len() == 32,
    ensures
        seed@ == bytes@,
{
    let mut seed: Seed = [0u8; 32];
    let mut i: usize = 0;
    while i < 32
        invariant
            i <= 32,
            bytes@.len() == 32,
            seed@.len() == 32,
            forall|j: int| 0 <= j < i ==> seed@[j] == bytes@[j],
        decreases 32 - i,
    {
        seed[i] = bytes[i];
        i = i + 1;
    }
    assert(seed@ =~= bytes@);
    seed
}

} // verus!
