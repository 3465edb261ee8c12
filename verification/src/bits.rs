//! Trusted boundary around `bit_vec::BitVec`, the fixed-length boolean
//! array that backs the filter. The filter's own logic is verified against
//! the contracts stated here; the bodies below only forward to the outside
//! crate.

use bit_vec::BitVec;
use vstd::prelude::*;

verus! {

#[verifier::external_type_specification]
#[verifier::external_body]
#[verifier::reject_recursive_types(B)]
pub struct ExBitVec<B>(BitVec<B>);

/// What a bit vector holds: the sequence of its bits, one boolean per
/// position in `[0, len)`.
pub uninterp spec fn bit_vec_bits(v: BitVec) -> Seq<bool>;

/// Relies on `bit_vec::BitVec::from_elem`: builds a vector of exactly
/// `len` bits, each equal to `bit`.
#[verifier::external_body]
pub(crate) fn bv_from_elem(len: usize, bit: bool) -> (r: BitVec)
    ensures
        bit_vec_bits(r) == Seq::new(len as nat, |p: int| bit),
{
    BitVec::from_elem(len, bit)
}

/// Relies on `bit_vec::BitVec::get`: returns the bit at position `i`, or
/// `None` when `i` lies past the end.
#[verifier::external_body]
pub(crate) fn bv_get(v: &BitVec, i: usize) -> (r: Option<bool>)
    ensures
        r == (if i < bit_vec_bits(*v).len() {
            Some(bit_vec_bits(*v)[i as int])
        } else {
            None::<bool>
        }),
{
    v.get(i)
}

/// Relies on `bit_vec::BitVec::set`: writes the bit at position `i` in
/// place. It panics past the end, which the precondition rules out.
#[verifier::external_body]
pub(crate) fn bv_set(v: &mut BitVec, i: usize, x: bool)
    requires
        i < bit_vec_bits(*old(v)).len(),
    ensures
        bit_vec_bits(*final(v)) == bit_vec_bits(*old(v)).update(i as int, x),
{
    v.set(i, x)
}

/// Relies on `bit_vec::BitVec::clear`: resets every bit to false without
/// changing the length.
#[allow(deprecated)]
#[verifier::external_body]
pub(crate) fn bv_clear(v: &mut BitVec)
    ensures
        bit_vec_bits(*final(v)) == Seq::new(bit_vec_bits(*old(v)).len(), |p: int| false),
{
    v.clear()
}

} // verus!
