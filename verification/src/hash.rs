//! Quick non-cryptographic hashing with the Fx hash: of any hashable value,
//! and of a sequence of integers fed to the hasher one by one.
use vstd::prelude::*;
use std::hash::Hash;
use std::hash::Hasher;
use fxhash::FxHasher;

verus! {

/// `fxhash::hash`, widened to 64 bits. The Fx hash works on words of the
/// machine's pointer width, so its value differs between 32-bit and 64-bit
/// machines; nothing is claimed of it.
#[verifier::external_body]
fn fx_hash<T: Hash + ?Sized>(data: &T) -> (h: u64) {
    fxhash::hash(data) as u64
}

/// The Fx hash of `data`. Its value depends on the machine's word size and
/// on how `T` feeds the hasher, so nothing is claimed of it.
pub fn quick_hash<T: Hash>(data: T) -> (h: u64) {
    fx_hash(&data)
}

/// `FxHasher::default`: a hasher that has been fed nothing.
#[verifier::external_body]
fn fx_hasher_new() -> (h: FxHasher) {
    FxHasher::default()
}

/// `FxHasher::write_u32`: feeds `value` to the hasher; what the hasher
/// holds afterwards depends on the machine's word size and is not stated.
#[verifier::external_body]
fn fx_write_u32(hasher: &mut FxHasher, value: u32) {
    hasher.write_u32(value)
}

/// `FxHasher::write_u64`: feeds `value` to the hasher; what the hasher
/// holds afterwards depends on the machine's word size and is not stated.
#[verifier::external_body]
fn fx_write_u64(hasher: &mut FxHasher, value: u64) {
    hasher.write_u64(value)
}

/// `FxHasher::finish`: the hash of what the hasher was fed; not stated.
#[verifier::external_body]
fn fx_finish(hasher: &FxHasher) -> (h: u64) {
    hasher.finish()
}

/// An integer fed to a hasher, with the width it is fed at.
#[derive(Clone, Copy, Debug, PartialEq, Eq, Structural)]
pub enum HashWord {
    U32(u32),
    U64(u64),
}

/// The Fx hash of `words`, fed in order, each at its own width (as the
/// `Hash` impls of `u32` and `u64` feed a hasher). Its value depends on the
/// machine's word size, so nothing is claimed of it.
pub fn hash_words(words: &Vec<HashWord>) -> (h: u64) {
    let mut hasher = fx_hasher_new();
    let mut i: usize = 0;
    while i < words.len()
        invariant
            i <= words@.len(),
        decreases words@.len() - i,
    {
        match words[i] {
            HashWord::U32(v) => fx_write_u32(&mut hasher, v),
            HashWord::U64(v) => fx_write_u64(&mut hasher, v),
        }
        i = i + 1;
    }
    fx_finish(&hasher)
}

} // verus!
