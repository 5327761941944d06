//! Trusted boundary around `fixedbitset::FixedBitSet`, the packed engine's
//! storage.  The abstract contents of a bitset are named by `bits_of`; each
//! wrapper states, over that name, what the crate's source shows the call
//! to do.

use vstd::prelude::*;
use fixedbitset::FixedBitSet;

verus! {

/// The bitset type itself, declared so it can stand in fields and
/// signatures; its values are opaque to the verifier.
#[verifier::external_type_specification]
#[verifier::external_body]
pub struct ExFixedBitSet(FixedBitSet);

/// The bits a `FixedBitSet` holds, in index order; its length is the
/// bit capacity the set was created with.
pub uninterp spec fn bits_of(s: FixedBitSet) -> Seq<bool>;

/// Relies on `FixedBitSet::with_capacity`: a set of `bits` bits, all
/// initially clear.
#[verifier::external_body]
pub(crate) fn bits_new(bits: usize) -> (r: FixedBitSet)
    ensures
        bits_of(r).len() == bits as nat,
        forall|i: int| 0 <= i < bits_of(r).len() ==> !bits_of(r)[i],
{
    FixedBitSet::with_capacity(bits)
}

/// Relies on `FixedBitSet::contains`: the value of bit `i`.
#[verifier::external_body]
pub(crate) fn bits_get(s: &FixedBitSet, i: usize) -> (r: bool)
    requires
        (i as int) < bits_of(*s).len(),
    ensures
        r == bits_of(*s)[i as int],
{
    s.contains(i)
}

/// Relies on `FixedBitSet::set`: writes bit `i`, leaving every other bit
/// and the capacity unchanged.  The call panics out of bounds, so the
/// bound is required here.
#[verifier::external_body]
pub(crate) fn bits_set(s: &mut FixedBitSet, i: usize, value: bool)
    requires
        (i as int) < bits_of(*old(s)).len(),
    ensures
        bits_of(*final(s)) == bits_of(*old(s)).update(i as int, value),
{
    s.set(i, value)
}

/// Relies on `FixedBitSet::toggle`: inverts bit `i`, leaving every other
/// bit and the capacity unchanged.  The call panics out of bounds, so the
/// bound is required here.
#[verifier::external_body]
pub(crate) fn bits_toggle(s: &mut FixedBitSet, i: usize)
    requires
        (i as int) < bits_of(*old(s)).len(),
    ensures
        bits_of(*final(s)) == bits_of(*old(s)).update(
            i as int,
            !bits_of(*old(s))[i as int],
        ),
{
    s.toggle(i)
}

/// Relies on `FixedBitSet::as_slice`: the backing 32-bit words, one word
/// per 32 bits of capacity, bit `i` of the set held in bit `i % 32`
/// (least significant first) of word `i / 32`.
#[verifier::external_body]
pub(crate) fn bits_blocks(s: &FixedBitSet) -> (r: &[u32])
    ensures
        r@.len() as int == (bits_of(*s).len() + 31) / 32,
        forall|i: int|
            0 <= i < bits_of(*s).len() ==> bits_of(*s)[i] == ((r@[i / 32] >> ((i % 32) as u32))
                & 1u32 == 1u32),
{
    s.as_slice()
}

} // verus!
