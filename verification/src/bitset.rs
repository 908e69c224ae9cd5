//! The boundary to the `fixedbitset` crate.
//!
//! Nothing in this file is proved. Each function makes one call into
//! `fixedbitset`, and its contract records what that crate's source shows the
//! call to do, stated over [`bit_seq`], the sequence of bits that a set holds.

use fixedbitset::FixedBitSet;
use vstd::prelude::*;

verus! {

/// `fixedbitset::FixedBitSet`, a fixed-length sequence of bits packed into
/// 32-bit blocks. Its fields are hidden: contracts speak of [`bit_seq`].
#[verifier::external_type_specification]
#[verifier::external_body]
pub struct ExFixedBitSet(fixedbitset::FixedBitSet);

/// The bits that a set holds, in index order; its length is the set's length
/// in bits (`FixedBitSet::len`).
pub uninterp spec fn bit_seq(set: FixedBitSet) -> Seq<bool>;

/// Bit `k` of a 32-bit block, counted from the least significant bit.
pub open spec fn block_bit(block: u32, k: int) -> bool {
    block & (1u32 << (k as u32)) != 0
}

/// Bit `i` of a sequence of 32-bit blocks: bit `i % 32` of block `i / 32`.
pub open spec fn packed_bit(blocks: Seq<u32>, i: int) -> bool {
    block_bit(blocks[i / 32], i % 32)
}

/// `FixedBitSet::with_capacity`: a set of `len` bits, every one of them clear.
#[verifier::external_body]
pub(crate) fn bitset_with_capacity(len: usize) -> (set: FixedBitSet)
    ensures
        bit_seq(set) == Seq::new(len as nat, |i: int| false),
{
    FixedBitSet::with_capacity(len)
}

/// `FixedBitSet::len`: the number of bits in the set, clear ones included.
#[verifier::external_body]
pub(crate) fn bitset_len(set: &FixedBitSet) -> (len: usize)
    ensures
        len == bit_seq(*set).len(),
{
    set.len()
}

/// `FixedBitSet`'s `Index<usize>`: the value of bit `i`. Only indices inside
/// the set are admitted.
#[verifier::external_body]
pub(crate) fn bitset_get(set: &FixedBitSet, i: usize) -> (bit: bool)
    requires
        i < bit_seq(*set).len(),
    ensures
        bit == bit_seq(*set)[i as int],
{
    set[i]
}

/// `FixedBitSet::set`: bit `i` becomes `enabled` and every other bit stays as
/// it was. The call panics on an index outside the set and on nothing else:
/// those indices are left out, and what is left does not unwind.
#[verifier::external_body]
pub(crate) fn bitset_set(set: &mut FixedBitSet, i: usize, enabled: bool)
    requires
        i < bit_seq(*old(set)).len(),
    ensures
        bit_seq(*final(set)) == bit_seq(*old(set)).update(i as int, enabled),
    no_unwind
{
    set.set(i, enabled)
}

/// `FixedBitSet`'s `Clone`: a second set holding the same bits.
#[verifier::external_body]
pub(crate) fn bitset_clone(set: &FixedBitSet) -> (copy: FixedBitSet)
    ensures
        bit_seq(copy) == bit_seq(*set),
{
    set.clone()
}

/// `FixedBitSet::as_slice`: the blocks behind the set. Bit `i` of the set is
/// bit `i % 32` of block `i / 32`, and there are just enough blocks to hold
/// every bit.
#[verifier::external_body]
pub(crate) fn bitset_as_slice(set: &FixedBitSet) -> (blocks: &[u32])
    ensures
        blocks@.len() == (bit_seq(*set).len() + 31) / 32,
        forall|i: int|
            0 <= i < bit_seq(*set).len() ==> #[trigger] packed_bit(blocks@, i) == bit_seq(*set)[i],
{
    set.as_slice()
}

} // verus!
