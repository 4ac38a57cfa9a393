//! The bit sets of the `bit_set` crate, as the validator uses them to track
//! the locations declared on an entry point's interface.
use vstd::prelude::*;

verus! {

/// Declares `bit_set::BitSet`, which the validator keeps as scratch space.
#[verifier::external_type_specification]
#[verifier::external_body]
#[verifier::reject_recursive_types(B)]
pub struct ExBitSet<B>(bit_set::BitSet<B>);

/// The integers that a bit set holds.
pub uninterp spec fn bit_set_members(s: bit_set::BitSet) -> Set<usize>;

/// Relies on `bit_set::BitSet::new`: a set with no members.
#[verifier::external_body]
pub(crate) fn new_bit_set() -> (r: bit_set::BitSet)
    ensures
        bit_set_members(r) == Set::<usize>::empty(),
{
    bit_set::BitSet::new()
}

/// Relies on `bit_set::BitSet::clear`: every member is removed.
#[verifier::external_body]
pub(crate) fn clear_bit_set(s: &mut bit_set::BitSet)
    ensures
        bit_set_members(*final(s)) == Set::<usize>::empty(),
{
    s.clear()
}

/// Relies on `bit_set::BitSet::insert`: the value joins the members, and the
/// result tells whether it was absent before. The source computes
/// `value - len + 1` when growing, so `usize::MAX` is left out.
#[verifier::external_body]
pub(crate) fn insert_bit_set(s: &mut bit_set::BitSet, value: usize) -> (r: bool)
    requires
        value < usize::MAX,
    ensures
        bit_set_members(*final(s)) == bit_set_members(*old(s)).insert(value),
        r == !bit_set_members(*old(s)).contains(value),
{
    s.insert(value)
}

} // verus!
