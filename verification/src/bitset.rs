//! Trusted boundary around `fixedbitset::FixedBitSet`, the packed bit-per-cell
//! storage the grid is built on.
//!
//! The contents of a bitset are modelled by the uninterpreted sequence
//! `bits_of`; every wrapper below states, over that sequence, what the called
//! method does according to the crate's source.

use vstd::prelude::*;

verus! {

#[verifier::external_type_specification]
#[verifier::external_body]
pub struct ExFixedBitSet(fixedbitset::FixedBitSet);

/// The bits a `FixedBitSet` holds, in index order; its length is the
/// capacity the set was created with.
pub uninterp spec fn bits_of(bs: fixedbitset::FixedBitSet) -> Seq<bool>;

/// Relies on `FixedBitSet::with_capacity`: a fresh set of `bits` bits, all
/// initially clear.
#[verifier::external_body]
pub(crate) fn bits_new(bits: usize) -> (r: fixedbitset::FixedBitSet)
    ensures
        bits_of(r) == Seq::new(bits as nat, |i: int| false),
{
    fixedbitset::FixedBitSet::with_capacity(bits)
}

/// Relies on `FixedBitSet::len`: the capacity in bits.
#[verifier::external_body]
pub(crate) fn bits_len(bs: &fixedbitset::FixedBitSet) -> (r: usize)
    ensures
        r == bits_of(*bs).len(),
{
    bs.len()
}

/// Relies on `FixedBitSet::contains`: whether the bit at `i` is enabled.
#[verifier::external_body]
pub(crate) fn bits_get(bs: &fixedbitset::FixedBitSet, i: usize) -> (r: bool)
    requires
        i < bits_of(*bs).len(),
    ensures
        r == bits_of(*bs)[i as int],
{
    bs.contains(i)
}

/// Relies on `FixedBitSet::set`: writes the bit at `i`; panics only when `i`
/// is out of bounds, which the precondition rules out.
#[verifier::external_body]
pub(crate) fn bits_set(bs: &mut fixedbitset::FixedBitSet, i: usize, v: bool)
    requires
        i < bits_of(*old(bs)).len(),
    ensures
        bits_of(*final(bs)) == bits_of(*old(bs)).update(i as int, v),
{
    bs.set(i, v)
}

/// Relies on `FixedBitSet::toggle`: flips the bit at `i`; panics only when
/// `i` is out of bounds, which the precondition rules out.
#[verifier::external_body]
pub(crate) fn bits_toggle(bs: &mut fixedbitset::FixedBitSet, i: usize)
    requires
        i < bits_of(*old(bs)).len(),
    ensures
        bits_of(*final(bs)) == bits_of(*old(bs)).update(
            i as int,
            !bits_of(*old(bs))[i as int],
        ),
{
    bs.toggle(i)
}

/// Relies on `<FixedBitSet as Clone>::clone`: copies the blocks and the
/// length, so the clone holds the same bits.
#[verifier::external_body]
pub(crate) fn bits_clone(bs: &fixedbitset::FixedBitSet) -> (r: fixedbitset::FixedBitSet)
    ensures
        bits_of(r) == bits_of(*bs),
{
    bs.clone()
}

/// Relies on `FixedBitSet::as_slice`: the backing `u32` blocks, one block per
/// 32 bits, bit `i` stored in block `i / 32` at position `i % 32`.
#[verifier::external_body]
pub(crate) fn bits_as_slice(bs: &fixedbitset::FixedBitSet) -> (r: &[u32])
    ensures
        r@.len() == (bits_of(*bs).len() + 31) / 32,
        forall|i: int|
            0 <= i < bits_of(*bs).len() ==> bits_of(*bs)[i] == ((r@[i / 32] >> (
            (i % 32) as u32
            )) & 1u32 == 1u32),
{
    bs.as_slice()
}

} // verus!
