//! Vectors with a compile-time capacity, as they travel between processes.

use vstd::prelude::*;

verus! {

/// The vector is full.
#[derive(Clone, Copy, Debug, PartialEq, Eq, Structural)]
pub struct CapacityExceeded;

/// Calls `<iceoryx2_bb_container::vector::StaticVec<T, CAPACITY> as TryFrom<&[T]>>::try_from`.
/// It takes up to `CAPACITY` items and holds clones of them in their order; more are
/// refused. That a clone is the item itself is what `Copy` asks of every type.
#[verifier::external_body]
fn static_vec_try_from<T: Copy, const CAPACITY: usize>(items: &[T]) -> (r: Result<
    Vec<T>,
    CapacityExceeded,
>)
    ensures
        r is Ok <==> items@.len() <= CAPACITY,
        r matches Ok(v) ==> v@ == items@,
{
    match iceoryx2_bb_container::vector::StaticVec::<T, CAPACITY>::try_from(items) {
        Ok(v) => Ok(v.to_vec()),
        Err(_) => Err(CapacityExceeded),
    }
}

/// Calls `<iceoryx2_bb_container::vector::StaticVec<T, CAPACITY> as Vector<T>>::push` on the
/// vector that holds `items`. It appends one item, unless the vector is full.
#[verifier::external_body]
fn static_vec_push<T: Copy, const CAPACITY: usize>(items: &[T], x: T) -> (r: Result<
    Vec<T>,
    CapacityExceeded,
>)
    requires
        items@.len() <= CAPACITY,
    ensures
        r is Ok <==> items@.len() < CAPACITY,
        r matches Ok(v) ==> v@ == items@.push(x),
{
    let mut v = match iceoryx2_bb_container::vector::StaticVec::<T, CAPACITY>::try_from(items) {
        Ok(v) => v,
        Err(_) => return Err(CapacityExceeded),
    };
    match iceoryx2_bb_container::vector::Vector::push(&mut v, x) {
        Ok(()) => Ok(v.to_vec()),
        Err(_) => Err(CapacityExceeded),
    }
}

/// At most `CAPACITY` items, stored in place and in the order of insertion.
///
/// The slots behind the items are empty, so two vectors are equal exactly when
/// their contents are.
#[derive(Copy, Debug, PartialEq, Eq, Hash)]
pub struct FixedVec<T, const CAPACITY: usize> {
    slots: [Option<T>; CAPACITY],
    len: usize,
}

impl<T, const CAPACITY: usize> View for FixedVec<T, CAPACITY> {
    type V = Seq<T>;

    closed spec fn view(&self) -> Seq<T> {
        Seq::new(self.len as nat, |i: int| self.slots@[i]->0)
    }
}

impl<T, const CAPACITY: usize> FixedVec<T, CAPACITY> {
    /// The items fit, and the slots behind them are empty.
    #[verifier::type_invariant]
    pub closed spec fn wf(self) -> bool {
        &&& self.len <= CAPACITY
        &&& forall|i: int| 0 <= i < self.len ==> (#[trigger] self.slots@[i]) is Some
        &&& forall|i: int| self.len <= i < CAPACITY ==> (#[trigger] self.slots@[i]) is None
    }
}

impl<T: Copy, const CAPACITY: usize> FixedVec<T, CAPACITY> {
    /// Well-formed vectors with the same contents are the same vector.
    pub proof fn lemma_ext(a: Self, b: Self)
        requires
            a.wf(),
            b.wf(),
            a@ == b@,
        ensures
            a == b,
    {
        assert(a.len == a@.len() && b.len == b@.len());
        assert forall|i: int| 0 <= i < CAPACITY implies a.slots[i] == b.slots[i] by {
            if i < a.len {
                assert(a@[i] == a.slots@[i]->0 && b@[i] == b.slots@[i]->0);
                assert(a.slots@[i] is Some && b.slots@[i] is Some);
            } else {
                assert(a.slots@[i] is None && b.slots@[i] is None);
            }
            assert(a.slots@[i] == b.slots@[i]);
        }
        assert(a.slots =~= b.slots);
    }

    /// The empty vector.
    pub fn new() -> (r: Self)
        ensures
            r.wf(),
            r@ == Seq::<T>::empty(),
    {
        let r = FixedVec { slots: [None; CAPACITY], len: 0 };
        assert(r@ =~= Seq::<T>::empty());
        r
    }

    /// Number of items.
    pub fn len(&self) -> (r: usize)
        ensures
            r == self@.len(),
            r <= CAPACITY,
            self.wf(),
    {
        proof {
            use_type_invariant(self);
        }
        self.len
    }

    /// No items.
    pub fn is_empty(&self) -> (r: bool)
        ensures
            r == (self@.len() == 0),
    {
        self.len == 0
    }

    /// The item at `i`.
    pub fn at(&self, i: usize) -> (r: T)
        requires
            i < self@.len(),
        ensures
            r == self@[i as int],
    {
        proof {
            use_type_invariant(self);
        }
        let slot: Option<T> = self.slots[i];
        assert(self.slots@[i as int] is Some);
        slot.unwrap()
    }

    /// The vector that holds the given items.
    fn from_stored(items: &Vec<T>) -> (r: Self)
        requires
            items@.len() <= CAPACITY,
        ensures
            r.wf(),
            r@ == items@,
    {
        let mut slots: [Option<T>; CAPACITY] = [None; CAPACITY];
        let mut i: usize = 0;
        while i < items.len()
            invariant
                i <= items@.len() <= CAPACITY,
                forall|j: int| 0 <= j < i ==> #[trigger] slots@[j] == Some(items@[j]),
                forall|j: int| i <= j < CAPACITY ==> (#[trigger] slots@[j]) is None,
            decreases items@.len() - i,
        {
            slots[i] = Some(items[i]);
            i += 1;
        }
        let r = FixedVec { slots, len: items.len() };
        assert(r@ =~= items@);
        r
    }

    /// Appends an item, or leaves the vector as it is when it is full.
    pub fn push(&mut self, x: T) -> (r: Result<(), CapacityExceeded>)
        ensures
            final(self).wf(),
            r is Ok <==> old(self)@.len() < CAPACITY,
            r is Ok ==> final(self)@ == old(self)@.push(x),
            r is Err ==> *final(self) == *old(self),
    {
        let items = self.to_vec();
        match static_vec_push::<T, CAPACITY>(items.as_slice(), x) {
            Ok(v) => {
                *self = Self::from_stored(&v);
                Ok(())
            },
            Err(e) => Err(e),
        }
    }

    /// The vector that holds the given items, which fails when they are too many.
    pub fn try_from(items: &[T]) -> (r: Result<Self, CapacityExceeded>)
        ensures
            r is Ok <==> items@.len() <= CAPACITY,
            r matches Ok(v) ==> v.wf() && v@ == items@,
    {
        match static_vec_try_from::<T, CAPACITY>(items) {
            Ok(v) => Ok(Self::from_stored(&v)),
            Err(e) => Err(e),
        }
    }

    /// A copy of the items.
    pub fn to_vec(&self) -> (r: Vec<T>)
        ensures
            r@ == self@,
            self.wf(),
            r@.len() <= CAPACITY,
    {
        proof {
            use_type_invariant(self);
        }
        let mut out: Vec<T> = Vec::new();
        let mut i: usize = 0;
        while i < self.len()
            invariant
                i <= self@.len(),
                out@ == self@.take(i as int),
            decreases self@.len() - i,
        {
            out.push(self.at(i));
            i += 1;
            assert(out@ =~= self@.take(i as int));
        }
        assert(out@ =~= self@);
        out
    }
}

impl<T: Copy, const CAPACITY: usize> Clone for FixedVec<T, CAPACITY> {
    fn clone(&self) -> (r: Self)
        ensures
            r == *self,
    {
        *self
    }
}

impl<T: Copy, const CAPACITY: usize> Default for FixedVec<T, CAPACITY> {
    fn default() -> (r: Self)
        ensures
            r.wf(),
            r@ == Seq::<T>::empty(),
    {
        Self::new()
    }
}

} // verus!
