//! Base hash derivation. One evolving `DefaultHasher` accumulator is fed
//! the item once and then sampled four times: first after the item alone,
//! then after additionally mixing in the 32-bit constants 1, 2 and 3 in
//! turn. The four digests are the raw material for the filter's position
//! generators; computing them costs one accumulator pass however many
//! positions are later derived.

use std::collections::hash_map::DefaultHasher;
use std::hash::Hasher;
use vstd::prelude::*;
use vstd::std_specs::hash::DefaultHasherAdditionalSpecFns;
use vstd::utf8::encode_utf8;

verus! {

/// The chunk mixed into the running hasher between two digest samples:
/// the little-endian bytes of the 32-bit constant `k`.
pub open spec fn mix_chunk(k: u8) -> Seq<u8> {
    seq![k, 0u8, 0u8, 0u8]
}

/// The four base digests sampled from one `DefaultHasher` whose write
/// history so far is `writes`: the digest of the item alone, then the
/// digests after additionally mixing in 1, then 2, then 3.
pub open spec fn base_hashes_of(writes: Seq<Seq<u8>>) -> Seq<u64> {
    seq![
        DefaultHasher::spec_finish(writes),
        DefaultHasher::spec_finish(writes.push(mix_chunk(1))),
        DefaultHasher::spec_finish(writes.push(mix_chunk(1)).push(mix_chunk(2))),
        DefaultHasher::spec_finish(
            writes.push(mix_chunk(1)).push(mix_chunk(2)).push(mix_chunk(3)),
        ),
    ]
}

/// A value the filter can hash: one that appends a deterministic,
/// order-sensitive write history to a running hash accumulator. The
/// history is a function of the value alone, so hashing the same value
/// twice always yields the same base digests.
pub trait Hashable {
    /// The write history this value appends to the accumulator.
    spec fn hash_writes(&self) -> Seq<Seq<u8>>;

    /// Feed the value into the accumulator.
    fn feed(&self, hasher: &mut DefaultHasher)
        ensures
            final(hasher)@ == old(hasher)@ + self.hash_writes(),
    ;
}

/// A string hashes as its UTF-8 bytes followed by a one-byte terminator,
/// so that no string's history is a prefix of another's.
impl Hashable for String {
    open spec fn hash_writes(&self) -> Seq<Seq<u8>> {
        seq![encode_utf8(self@), seq![255u8]]
    }

    fn feed(&self, hasher: &mut DefaultHasher) {
        hasher.write(self.as_str().as_bytes());
        let terminator: [u8; 1] = [255];
        hasher.write(terminator.as_slice());
        proof {
            assert(terminator@ =~= seq![255u8]);
            assert(hasher@ =~= old(hasher)@ + self.hash_writes());
        }
    }
}

/// A borrowed string hashes exactly as the owned one does.
impl Hashable for &str {
    open spec fn hash_writes(&self) -> Seq<Seq<u8>> {
        seq![encode_utf8(self@), seq![255u8]]
    }

    fn feed(&self, hasher: &mut DefaultHasher) {
        hasher.write(self.as_bytes());
        let terminator: [u8; 1] = [255];
        hasher.write(terminator.as_slice());
        proof {
            assert(terminator@ =~= seq![255u8]);
            assert(hasher@ =~= old(hasher)@ + self.hash_writes());
        }
    }
}

/// Compute the four base digests for one item.
pub(crate) fn base_hashes<T: Hashable>(data: &T) -> (r: [u64; 4])
    ensures
        r@ == base_hashes_of(data.hash_writes()),
{
    let mut hasher = DefaultHasher::new();
    data.feed(&mut hasher);
    let h0: u64 = hasher.finish();
    let chunk1: [u8; 4] = [1, 0, 0, 0];
    hasher.write(chunk1.as_slice());
    let h1: u64 = hasher.finish();
    let chunk2: [u8; 4] = [2, 0, 0, 0];
    hasher.write(chunk2.as_slice());
    let h2: u64 = hasher.finish();
    let chunk3: [u8; 4] = [3, 0, 0, 0];
    hasher.write(chunk3.as_slice());
    let h3: u64 = hasher.finish();
    let r: [u64; 4] = [h0, h1, h2, h3];
    proof {
        assert(chunk1@ =~= mix_chunk(1));
        assert(chunk2@ =~= mix_chunk(2));
        assert(chunk3@ =~= mix_chunk(3));
        assert(r@ =~= base_hashes_of(data.hash_writes()));
    }
    r
}

} // verus!
