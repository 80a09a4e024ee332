use vstd::prelude::*;

use crate::errors::Error;

verus! {

/// A bitmap of small integers, backed by `bit_set::BitSet`.  Verus cannot
/// declare that type itself (its block-size parameter is bound by an
/// outside trait), so this struct hides it and the wrappers below state
/// what its methods do over `bit_set_elems`.
#[verifier::external_body]
pub struct Bitmap {
    inner: bit_set::BitSet,
}

/// The set of integers a `Bitmap` holds.
pub uninterp spec fn bit_set_elems(s: Bitmap) -> Set<usize>;

/// Relies on `bit_set::BitSet::with_capacity`: the set starts empty, with
/// room reserved for `nbits` values.
#[verifier::external_body]
fn bitset_with_capacity(nbits: usize) -> (s: Bitmap)
    ensures
        bit_set_elems(s) == Set::<usize>::empty(),
{
    Bitmap { inner: bit_set::BitSet::with_capacity(nbits) }
}

/// Relies on `bit_set::BitSet::contains`: a membership test.
#[verifier::external_body]
fn bitset_contains(s: &Bitmap, value: usize) -> (r: bool)
    ensures
        r == bit_set_elems(*s).contains(value),
{
    s.inner.contains(value)
}

/// Relies on `bit_set::BitSet::insert`: adds the value, growing the
/// backing storage as needed, and reports whether it was new.
#[verifier::external_body]
fn bitset_insert(s: &mut Bitmap, value: usize) -> (r: bool)
    ensures
        bit_set_elems(*final(s)) == bit_set_elems(*old(s)).insert(value),
        r == !bit_set_elems(*old(s)).contains(value),
{
    s.inner.insert(value)
}

/// Relies on `bit_set::BitSet::remove`: takes the value out and reports
/// whether it was present.
#[verifier::external_body]
fn bitset_remove(s: &mut Bitmap, value: usize) -> (r: bool)
    ensures
        bit_set_elems(*final(s)) == bit_set_elems(*old(s)).remove(value),
        r == bit_set_elems(*old(s)).contains(value),
{
    s.inner.remove(value)
}

/// Fixed-capacity bitmap slot allocator.  It issues and reclaims the small
/// integer handles (tokens and poll keys) of the control plane.  No two
/// live handles of one allocator are ever equal: a handle is only handed
/// out while absent from the live set, and joins it in the same step.
pub struct KeyAllocator {
    bitmap: Bitmap,
    capacity: usize,
}

impl KeyAllocator {
    /// The set of currently live (allocated) handles.
    pub closed spec fn live(&self) -> Set<usize> {
        bit_set_elems(self.bitmap)
    }

    /// The number of slots this allocator may hand out: handles range over
    /// [0, capacity).
    pub closed spec fn capacity_spec(&self) -> usize {
        self.capacity
    }

    /// Every slot in [0, capacity) is taken.
    pub open spec fn exhausted(&self) -> bool {
        forall|k: usize| k < self.capacity_spec() ==> self.live().contains(k)
    }

    /// Creates an allocator with all of [0, capacity) free.
    pub fn new(capacity: usize) -> (a: KeyAllocator)
        ensures
            a.live() == Set::<usize>::empty(),
            a.capacity_spec() == capacity,
    {
        KeyAllocator { bitmap: bitset_with_capacity(capacity), capacity }
    }

    /// Marks the first free slot in [0, capacity) used and returns it;
    /// fails with `AllocationExhausted` if and only if none remains.
    pub fn allocate(&mut self) -> (r: Result<usize, Error>)
        ensures
            final(self).capacity_spec() == old(self).capacity_spec(),
            r matches Ok(k) ==> {
                &&& k < old(self).capacity_spec()
                &&& !old(self).live().contains(k)
                &&& forall|j: usize| j < k ==> old(self).live().contains(j)
                &&& final(self).live() == old(self).live().insert(k)
            },
            r is Err ==> {
                &&& r == Err::<usize, Error>(Error::AllocationExhausted)
                &&& old(self).exhausted()
                &&& final(self).live() == old(self).live()
            },
            old(self).exhausted() ==> r is Err,
    {
        let mut i: usize = 0;
        while i < self.capacity
            invariant
                i <= self.capacity,
                self.capacity == old(self).capacity_spec(),
                self.live() == old(self).live(),
                forall|j: usize| j < i ==> old(self).live().contains(j),
            decreases self.capacity - i,
        {
            if !bitset_contains(&self.bitmap, i) {
                bitset_insert(&mut self.bitmap, i);
                return Ok(i);
            }
            i = i + 1;
        }
        Err(Error::AllocationExhausted)
    }

    /// Reserves the specific slot `key` (used for fixed reserved slots);
    /// fails with `AlreadyAllocated` if and only if it is taken.
    pub fn occupy(&mut self, key: usize) -> (r: Result<(), Error>)
        ensures
            final(self).capacity_spec() == old(self).capacity_spec(),
            old(self).live().contains(key) ==> {
                &&& r == Err::<(), Error>(Error::AlreadyAllocated)
                &&& final(self).live() == old(self).live()
            },
            !old(self).live().contains(key) ==> {
                &&& r == Ok::<(), Error>(())
                &&& final(self).live() == old(self).live().insert(key)
            },
    {
        if bitset_contains(&self.bitmap, key) {
            return Err(Error::AlreadyAllocated);
        }
        bitset_insert(&mut self.bitmap, key);
        Ok(())
    }

    /// Frees the slot, whether or not it was taken: releasing redundantly
    /// is safe by design.
    pub fn release(&mut self, key: usize)
        ensures
            final(self).capacity_spec() == old(self).capacity_spec(),
            final(self).live() == old(self).live().remove(key),
    {
        bitset_remove(&mut self.bitmap, key);
    }
}

/// Law: successive successful allocations hand out distinct handles.  The
/// first handle joins the live set when issued, and a handle is only
/// issued while outside the live set; so as long as the first is not
/// released in between, the second differs from it.
pub proof fn lemma_allocations_distinct(
    live0: Set<usize>,
    k1: usize,
    live1: Set<usize>,
    k2: usize,
)
    requires
        !live0.contains(k1),
        live1 == live0.insert(k1),
        !live1.contains(k2),
    ensures
        k1 != k2,
{
}

} // verus!
