//! The Bloom filter itself: a fixed-capacity bit array plus a repeat
//! count `times`. Adding an item sets `times` bit positions derived from
//! the item's four base digests; a membership query checks the same
//! positions and answers true only if every one of them is set.

use crate::bits::{bit_vec_bits, bv_clear, bv_from_elem, bv_get, bv_set};
use crate::hashing::{base_hashes, base_hashes_of, Hashable};
use bit_vec::BitVec;
use vstd::prelude::*;

verus! {

/// The bit position consulted for repeat index `i`, derived from the four
/// base digests by enhanced double hashing: the loop index `i` is salted
/// with one of the two upper digests (which of the two alternates with
/// `i`) and the sum is reduced modulo the capacity `m`.
pub open spec fn pos_of(hs: Seq<u64>, i: nat, m: nat) -> nat
    recommends
        hs.len() == 4,
        m >= 1,
{
    ((i + hs[(2 + (((i + i % 2) % 4) / 2)) as int]) % m as int) as nat
}

/// Whether every one of the first `times` derived positions is set in
/// `bits`: the membership answer for an item with base digests `hs`.
pub open spec fn all_positions_set(bits: Seq<bool>, hs: Seq<u64>, times: nat) -> bool {
    forall|i: nat| i < times ==> bits[#[trigger] pos_of(hs, i, bits.len()) as int]
}

/// `bits` with the first `times` positions derived from `hs` set to true
/// and every other bit left alone: the effect of adding an item with base
/// digests `hs`.
pub open spec fn with_positions_set(bits: Seq<bool>, hs: Seq<u64>, times: nat) -> Seq<bool> {
    Seq::new(
        bits.len(),
        |p: int| bits[p] || (exists|i: nat| i < times && p == pos_of(hs, i, bits.len()) as int),
    )
}

/// A probabilistic set-membership filter: answers "might this item be in
/// the set?" with no false negatives.
#[derive(Debug)]
pub struct BloomFilter {
    bit_vec: BitVec,
    bits_num: usize,
    times: usize,
}

impl BloomFilter {
    /// The boolean contents of the backing bit array.
    pub closed spec fn bits(&self) -> Seq<bool> {
        bit_vec_bits(self.bit_vec)
    }

    /// The capacity chosen at construction (already clamped to at least 1).
    pub closed spec fn spec_bits_num(&self) -> usize {
        self.bits_num
    }

    /// The number of positions consulted per add or membership query.
    pub closed spec fn spec_times(&self) -> usize {
        self.times
    }

    /// Well-formedness: the backing array has exactly the declared
    /// capacity, and the capacity is at least 1.
    pub open spec fn wf(&self) -> bool {
        &&& self.bits().len() == self.spec_bits_num()
        &&& self.spec_bits_num() >= 1
    }

    /// Creates a new filter. A requested capacity of 0 is coerced to 1,
    /// which keeps the modulo-based position derivation well-defined;
    /// `times` is stored as given, 0 included.
    pub fn new(bits_num: usize, times: usize) -> (r: Self)
        ensures
            r.wf(),
            r.spec_bits_num() == (if bits_num == 0 { 1usize } else { bits_num }),
            r.spec_times() == times,
            forall|p: int| 0 <= p < r.bits().len() ==> !r.bits()[p],
    {
        let cap: usize = if bits_num != 0 { bits_num } else { 1 };
        BloomFilter { bit_vec: bv_from_elem(cap, false), bits_num: cap, times }
    }

    /// Returns the capacity of the filter.
    pub fn bits_num(&self) -> (r: usize)
        ensures
            r == self.spec_bits_num(),
    {
        self.bits_num
    }

    /// Returns how many positions each add or membership query consults.
    pub fn times(&self) -> (r: usize)
        ensures
            r == self.spec_times(),
    {
        self.times
    }

    /// Adds an item: sets every one of the `times` positions derived from
    /// the item's base digests, and changes nothing else. With `times`
    /// equal to 0 this is a no-op.
    pub fn add<T: Hashable>(&mut self, data: T)
        requires
            old(self).wf(),
        ensures
            final(self).wf(),
            final(self).spec_bits_num() == old(self).spec_bits_num(),
            final(self).spec_times() == old(self).spec_times(),
            final(self).bits() == with_positions_set(
                old(self).bits(),
                base_hashes_of(data.hash_writes()),
                old(self).spec_times() as nat,
            ),
    {
        let pairs = base_hashes(&data);
        let ghost pre = self.bits();
        let ghost hs = pairs@;
        let times: usize = self.times;
        proof {
            assert(self.bits() =~= with_positions_set(pre, hs, 0));
        }
        let mut i: usize = 0;
        while i < times
            invariant
                self.wf(),
                self.spec_bits_num() == pre.len(),
                self.spec_times() == times,
                hs == pairs@,
                i <= times,
                self.bits() == with_positions_set(pre, hs, i as nat),
            decreases times - i,
        {
            let pos: usize = self.get_pos(pairs, i);
            let ghost before = self.bits();
            bv_set(&mut self.bit_vec, pos, true);
            proof {
                assert forall|p: int| 0 <= p < pre.len() implies before.update(pos as int, true)[p]
                    == with_positions_set(pre, hs, (i + 1) as nat)[p] by {
                    if p == pos {
                        assert(i < (i + 1) as nat && p == pos_of(hs, i as nat, pre.len()) as int);
                    } else {
                        assert forall|j: nat| j < (i + 1) as nat && p == pos_of(hs, j, pre.len()) as int
                            implies j < i by {}
                    }
                }
                assert(self.bits() =~= with_positions_set(pre, hs, (i + 1) as nat));
            }
            i = i + 1;
        }
    }

    /// Checks whether the item might be in the filter. A true answer can
    /// be a false positive; a false answer means the item was definitely
    /// not added since the last clear. Every one of the `times` derived
    /// positions is consulted in order, stopping at the first unset bit.
    pub fn contains<T: Hashable>(&self, data: T) -> (r: bool)
        requires
            self.wf(),
        ensures
            r == all_positions_set(
                self.bits(),
                base_hashes_of(data.hash_writes()),
                self.spec_times() as nat,
            ),
    {
        let pairs = base_hashes(&data);
        let ghost hs = pairs@;
        let times: usize = self.times;
        let mut i: usize = 0;
        while i < times
            invariant
                self.wf(),
                self.spec_times() == times,
                hs == pairs@,
                hs == base_hashes_of(data.hash_writes()),
                i <= times,
                forall|j: nat| j < i ==> self.bits()[#[trigger] pos_of(hs, j, self.bits().len()) as int],
            decreases times - i,
        {
            let pos: usize = self.get_pos(pairs, i);
            match bv_get(&self.bit_vec, pos) {
                Some(result) => {
                    if !result {
                        proof {
                            assert(!self.bits()[pos_of(hs, i as nat, self.bits().len()) as int]);
                        }
                        return false;
                    }
                },
                None => {
                    proof {
                        assert(false);
                    }
                },
            }
            i = i + 1;
        }
        true
    }

    /// Clears every bit, preserving the capacity and the repeat count, and
    /// returns the filter itself so that calls can be chained.
    pub fn clear_all(&mut self) -> (r: &mut Self)
        requires
            old(self).wf(),
        ensures
            (*r).wf(),
            (*r).spec_bits_num() == old(self).spec_bits_num(),
            (*r).spec_times() == old(self).spec_times(),
            forall|p: int| 0 <= p < (*r).bits().len() ==> !(*r).bits()[p],
            *final(self) == *final(r),
    {
        bv_clear(&mut self.bit_vec);
        self
    }

    /// The bit position consulted for repeat index `i`, in `[0, bits_num)`.
    fn get_pos(&self, pairs: [u64; 4], i: usize) -> (r: usize)
        requires
            self.wf(),
            i < usize::MAX,
        ensures
            r == pos_of(pairs@, i as nat, self.spec_bits_num() as nat),
            r < self.spec_bits_num(),
    {
        let sel: usize = ((i + (i % 2)) % 4) / 2;
        let salt: u64 = pairs[2 + sel];
        let combined: u128 = (i as u128) + (salt as u128);
        let reduced: u128 = combined % (self.bits_num as u128);
        reduced as usize
    }
}

/// No false negatives: adding an item sets every position that a
/// membership query for the same item consults, so after `add(x)` (and
/// before any clear), `contains(x)` answers true. `with_positions_set`
/// is what `add` leaves in the bit array and `all_positions_set` is what
/// `contains` answers, both for the same base digests `hs` and the same
/// repeat count `times`.
pub proof fn lemma_no_false_negatives(bits: Seq<bool>, hs: Seq<u64>, times: nat)
    requires
        bits.len() >= 1,
    ensures
        all_positions_set(with_positions_set(bits, hs, times), hs, times),
{
    let post = with_positions_set(bits, hs, times);
    assert forall|i: nat| i < times implies post[pos_of(hs, i, post.len()) as int] by {
        let p = pos_of(hs, i, bits.len()) as int;
        assert(0 <= p < bits.len());
        assert(i < times && p == pos_of(hs, i, bits.len()) as int);
        assert(post[p]);
    }
}

/// Monotonicity: an add can only flip a membership answer from false to
/// true, never from true to false — any query that held of the bit array
/// before an add still holds of it afterwards, whatever item the add
/// concerned.
pub proof fn lemma_add_preserves_contains(
    bits: Seq<bool>,
    hs_added: Seq<u64>,
    hs_query: Seq<u64>,
    times: nat,
)
    requires
        bits.len() >= 1,
        all_positions_set(bits, hs_query, times),
    ensures
        all_positions_set(with_positions_set(bits, hs_added, times), hs_query, times),
{
    let post = with_positions_set(bits, hs_added, times);
    assert forall|i: nat| i < times implies post[pos_of(hs_query, i, post.len()) as int] by {
        let p = pos_of(hs_query, i, bits.len()) as int;
        assert(0 <= p < bits.len());
        assert(bits[p]);
        assert(post[p]);
    }
}

/// A cleared filter contains nothing: with every bit false and at least
/// one position consulted per query, every membership query answers
/// false, whatever the item.
pub proof fn lemma_cleared_contains_nothing(bits: Seq<bool>, hs: Seq<u64>, times: nat)
    requires
        bits.len() >= 1,
        times >= 1,
        forall|p: int| 0 <= p < bits.len() ==> !bits[p],
    ensures
        !all_positions_set(bits, hs, times),
{
    let p = pos_of(hs, 0, bits.len()) as int;
    assert(0 <= p < bits.len());
    assert(!bits[p]);
}

/// Degenerate repeat count: with `times` equal to 0 a membership query
/// consults no positions, so it answers true for every item in every
/// state of the bit array, even before any add.
pub proof fn lemma_zero_times_contains_all(bits: Seq<bool>, hs: Seq<u64>)
    ensures
        all_positions_set(bits, hs, 0),
{
}

/// Idempotence: adding an item a second time changes nothing — the bit
/// array after two adds of the same item equals the bit array after one.
pub proof fn lemma_add_idempotent(bits: Seq<bool>, hs: Seq<u64>, times: nat)
    ensures
        with_positions_set(with_positions_set(bits, hs, times), hs, times)
            == with_positions_set(bits, hs, times),
{
    let once = with_positions_set(bits, hs, times);
    let twice = with_positions_set(once, hs, times);
    assert forall|p: int| 0 <= p < once.len() implies twice[p] == once[p] by {
        if !once[p] {
            assert(!(exists|i: nat| i < times && p == pos_of(hs, i, bits.len()) as int));
        }
    }
    assert(twice =~= once);
}

} // verus!
