//! The outside slab collection that holds the live descriptors.
use vstd::prelude::*;
use simple_slab::Slab;

verus! {

#[verifier::external_type_specification]
#[verifier::external_body]
#[verifier::reject_recursive_types(T)]
pub struct ExSlab<T>(Slab<T>);

/// The descriptors a slab holds, in slot order.
pub uninterp spec fn slab_items(s: Slab<i32>) -> Seq<i32>;

/// Relies on `Slab::with_capacity`: a fresh slab holds nothing. The
/// allocation size `4 * capacity` must not overflow.
#[verifier::external_body]
pub(crate) fn slab_with_capacity(capacity: usize) -> (r: Slab<i32>)
    requires
        capacity <= usize::MAX / 4,
    ensures
        slab_items(r) == Seq::<i32>::empty(),
{
    Slab::with_capacity(capacity)
}

/// Relies on `Slab::insert`: the element is written to the slot after the
/// last one. Growing doubles the capacity, so the length is kept well below
/// the point where the doubled allocation size would overflow.
#[verifier::external_body]
pub(crate) fn slab_insert(s: &mut Slab<i32>, fd: i32)
    requires
        slab_items(*old(s)).len() < usize::MAX / 8,
    ensures
        slab_items(*final(s)) == slab_items(*old(s)).push(fd),
{
    s.insert(fd)
}

/// Relies on `Slab::len`: the number of occupied slots.
#[verifier::external_body]
pub(crate) fn slab_len(s: &Slab<i32>) -> (r: usize)
    ensures
        r == slab_items(*s).len(),
{
    s.len()
}

/// Relies on `Slab`'s `Index` impl: the element in slot `i`, which panics
/// past the end.
#[verifier::external_body]
pub(crate) fn slab_get(s: &Slab<i32>, i: usize) -> (r: i32)
    requires
        i < slab_items(*s).len(),
    ensures
        r == slab_items(*s)[i as int],
{
    s[i]
}

/// Relies on `Slab::remove`: returns the element in slot `i` and moves
/// the last element into that slot; panics past the end.
#[verifier::external_body]
pub(crate) fn slab_remove(s: &mut Slab<i32>, i: usize) -> (r: i32)
    requires
        i < slab_items(*old(s)).len(),
    ensures
        r == slab_items(*old(s))[i as int],
        slab_items(*final(s)) == slab_items(*old(s)).update(
            i as int,
            slab_items(*old(s)).last(),
        ).drop_last(),
{
    s.remove(i)
}

} // verus!
