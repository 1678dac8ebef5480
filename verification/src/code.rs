//! Code bodies and their content hashes.
//!
//! A code body is the finished output of the code generator for one procedure:
//! an opaque sequence of instruction words. The context never inspects the
//! words; it only derives the body's content hash, the canonical identity used
//! for deduplication and cross-module references.

use vstd::prelude::*;

verus! {

/// Multiplier folded into the content-hash accumulator at every word
/// (the 64-bit FNV prime).
pub const HASH_MULTIPLIER: u64 = 1099511628211;

/// Initial value of the content-hash accumulator
/// (the 64-bit FNV offset basis).
pub const HASH_SEED: u64 = 14695981039346656037;

/// One step of the content hash: folds the next word of a code body into the
/// accumulator, wrapping modulo 2^64.
pub open spec fn spec_hash_step(acc: u64, word: u64) -> u64 {
    vstd::wrapping::u64_specs::wrapping_add(
        vstd::wrapping::u64_specs::wrapping_mul(acc, HASH_MULTIPLIER),
        word,
    )
}

/// Content hash of a code body: a deterministic digest of the body's words
/// alone, so that two bodies with identical structure always hash identically.
pub open spec fn spec_hash(body: Seq<u64>) -> u64
    decreases body.len(),
{
    if body.len() == 0 {
        HASH_SEED
    } else {
        spec_hash_step(spec_hash(body.drop_last()), body.last())
    }
}

/// A finished code body, as handed over by the code generator when a
/// procedure's compilation completes.
#[derive(Debug)]
pub struct CodeBlock {
    words: Vec<u64>,
}

impl View for CodeBlock {
    type V = Seq<u64>;

    closed spec fn view(&self) -> Seq<u64> {
        self.words@
    }
}

impl Clone for CodeBlock {
    fn clone(&self) -> (res: Self)
        ensures
            res@ == self@,
    {
        CodeBlock { words: self.words.clone() }
    }
}

impl CodeBlock {
    /// Wraps a sequence of instruction words as a code body.
    pub fn new(words: Vec<u64>) -> (r: Self)
        ensures
            r@ == words@,
    {
        CodeBlock { words }
    }

    /// Returns the instruction words of this body.
    pub fn words(&self) -> (r: &Vec<u64>)
        ensures
            r@ == self@,
    {
        &self.words
    }

    /// Computes the content hash of this body.
    pub fn hash(&self) -> (r: u64)
        ensures
            r == spec_hash(self@),
    {
        let mut acc: u64 = HASH_SEED;
        let mut i: usize = 0;
        while i < self.words.len()
            invariant
                i <= self@.len(),
                acc == spec_hash(self@.take(i as int)),
            decreases self@.len() - i,
        {
            assert(self@.take(i + 1).drop_last() =~= self@.take(i as int));
            assert(self@.take(i + 1).last() == self@[i as int]);
            acc = acc.wrapping_mul(HASH_MULTIPLIER).wrapping_add(self.words[i]);
            i = i + 1;
        }
        assert(self@.take(i as int) =~= self@);
        acc
    }
}

} // verus!
