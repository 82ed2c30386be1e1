//! The bit vector that vCPU masks are stored in.
//!
//! The items of this module are contracts for the `bit_vec` crate. Its bit vector is
//! modelled by the sequence of its bits.
use vstd::prelude::*;

verus! {

/// `bit_vec::BitVec`, known only through `bits_of`.
#[verifier::external_type_specification]
#[verifier::external_body]
#[verifier::reject_recursive_types(B)]
pub struct ExBitVec<B>(bit_vec::BitVec<B>);

/// `bit_vec::Iter`, known only through `bits_left`.
#[verifier::external_type_specification]
#[verifier::external_body]
#[verifier::reject_recursive_types(B)]
pub struct ExIter<'a, B: 'a>(bit_vec::Iter<'a, B>);

/// The bits that a bit vector holds, in order.
pub uninterp spec fn bits_of(bits: bit_vec::BitVec<u32>) -> Seq<bool>;

/// The bits that an iterator has still to yield, in order.
pub uninterp spec fn bits_left(bits: bit_vec::Iter<'_, u32>) -> Seq<bool>;

/// Whether every bit of `bits` is `want`.
pub open spec fn all_bits(bits: Seq<bool>, want: bool) -> bool {
    forall|i: int| 0 <= i < bits.len() ==> #[trigger] bits[i] == want
}

/// Calls `BitVec::from_elem`: `nbits` bits, each of them `bit`.
#[verifier::external_body]
pub(crate) fn bit_vec_from_elem(nbits: usize, bit: bool) -> (bits: bit_vec::BitVec<u32>)
    ensures
        bits_of(bits) == Seq::new(nbits as nat, |i: int| bit),
{
    bit_vec::BitVec::from_elem(nbits, bit)
}

/// Calls `BitVec::len`: the number of bits.
#[verifier::external_body]
pub(crate) fn bit_vec_len(bits: &bit_vec::BitVec<u32>) -> (len: usize)
    ensures
        len == bits_of(*bits).len(),
{
    bits.len()
}

/// Calls `BitVec::get`: the bit at `i`, or `None` where there is none.
#[verifier::external_body]
pub(crate) fn bit_vec_get(bits: &bit_vec::BitVec<u32>, i: usize) -> (bit: Option<bool>)
    ensures
        bit == (if i < bits_of(*bits).len() {
            Some(bits_of(*bits)[i as int])
        } else {
            None::<bool>
        }),
{
    bits.get(i)
}

/// Calls `BitVec::set`, which panics where `i` is out of bounds: replaces the bit at `i`.
#[verifier::external_body]
pub(crate) fn bit_vec_set(bits: &mut bit_vec::BitVec<u32>, i: usize, bit: bool)
    requires
        i < bits_of(*old(bits)).len(),
    ensures
        bits_of(*final(bits)) == bits_of(*old(bits)).update(i as int, bit),
{
    bits.set(i, bit)
}

/// Calls `BitVec::all`: whether every bit is one.
#[verifier::external_body]
pub(crate) fn bit_vec_all(bits: &bit_vec::BitVec<u32>) -> (all: bool)
    ensures
        all == all_bits(bits_of(*bits), true),
{
    bits.all()
}

/// Calls `BitVec::none`: whether every bit is zero.
#[verifier::external_body]
pub(crate) fn bit_vec_none(bits: &bit_vec::BitVec<u32>) -> (none: bool)
    ensures
        none == all_bits(bits_of(*bits), false),
{
    bits.none()
}

/// Calls `BitVec::clone`: another vector of the same bits.
#[verifier::external_body]
pub(crate) fn bit_vec_clone(bits: &bit_vec::BitVec<u32>) -> (copy: bit_vec::BitVec<u32>)
    ensures
        bits_of(copy) == bits_of(*bits),
{
    bits.clone()
}

/// Calls the `==` of `BitVec`: whether both vectors hold the same bits.
#[verifier::external_body]
pub(crate) fn bit_vec_eq(a: &bit_vec::BitVec<u32>, b: &bit_vec::BitVec<u32>) -> (same: bool)
    ensures
        same == (bits_of(*a) == bits_of(*b)),
{
    a == b
}

/// Calls `BitVec::iter`: an iterator that has every bit still to yield.
#[verifier::external_body]
pub(crate) fn bit_vec_iter(bits: &bit_vec::BitVec<u32>) -> (iter: bit_vec::Iter<'_, u32>)
    ensures
        bits_left(iter) == bits_of(*bits),
{
    bits.iter()
}

/// Calls the `next` of `bit_vec::Iter`: the first of the bits still to be yielded, which
/// the iterator then no longer holds, or `None` where none is left.
#[verifier::external_body]
pub(crate) fn bit_iter_next(iter: &mut bit_vec::Iter<'_, u32>) -> (bit: Option<bool>)
    ensures
        bit == (if bits_left(*old(iter)).len() > 0 {
            Some(bits_left(*old(iter))[0])
        } else {
            None::<bool>
        }),
        bits_left(*final(iter)) == (if bits_left(*old(iter)).len() > 0 {
            bits_left(*old(iter)).drop_first()
        } else {
            bits_left(*old(iter))
        }),
{
    iter.next()
}

} // verus!
