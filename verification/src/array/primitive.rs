use vstd::prelude::*;

use super::Array;
use crate::primitive::Primitive;

verus! {

/// A column of plain primitives: one buffer element per logical row, no
/// nulls.
pub struct PrimitiveArray<P> {
    data: Vec<P>,
}

impl<P: Primitive> View for PrimitiveArray<P> {
    type V = Seq<P>;

    closed spec fn view(&self) -> Seq<P> {
        self.data@
    }
}

impl<P: Primitive> PrimitiveArray<P> {
    pub fn new() -> (r: Self)
        ensures
            r@ == Seq::<P>::empty(),
    {
        PrimitiveArray { data: Vec::new() }
    }

    /// Appends one logical row.
    pub fn push(&mut self, item: P)
        ensures
            final(self)@ == old(self)@.push(item),
    {
        self.data.push(item);
    }

    /// Appends one row holding the type's zero.
    pub fn push_zero(&mut self)
        ensures
            final(self)@ == old(self)@.push(P::zero_spec()),
    {
        self.data.push(P::zero());
    }

    /// Bounds-checked read: absence exactly when `offset` is past the end.
    pub fn get(&self, offset: usize) -> (r: Option<P>)
        ensures
            r == if offset < self@.len() {
                Some(self@[offset as int])
            } else {
                None::<P>
            },
    {
        if self.data.len() <= offset {
            None
        } else {
            Some(self.data[offset])
        }
    }

    /// Unchecked read; the caller must establish that `offset` is in range.
    pub fn get_unchecked(&self, offset: usize) -> (r: P)
        requires
            offset < self@.len(),
        ensures
            r == self@[offset as int],
    {
        self.data[offset]
    }

    /// Overwrites the row at `offset`.
    pub fn set(&mut self, offset: usize, value: P)
        requires
            offset < old(self)@.len(),
        ensures
            final(self)@ == old(self)@.update(offset as int, value),
    {
        self.data[offset] = value;
    }

    /// Unchecked mutable access; the caller must establish that `offset` is
    /// in range.
    pub fn get_unchecked_mut(&mut self, offset: usize) -> (r: &mut P)
        requires
            offset < old(self)@.len(),
        ensures
            *r == old(self)@[offset as int],
            final(self)@ == old(self)@.update(offset as int, *final(r)),
    {
        &mut self.data[offset]
    }

    pub fn len(&self) -> (r: usize)
        ensures
            r == self@.len(),
    {
        self.data.len()
    }

    pub fn is_empty(&self) -> (r: bool)
        ensures
            r == (self@.len() == 0),
    {
        self.data.len() == 0
    }
}

impl<P: Primitive> Default for PrimitiveArray<P> {
    fn default() -> (r: Self)
        ensures
            r@ == Seq::<P>::empty(),
    {
        PrimitiveArray::new()
    }
}

impl<P: Primitive> Array for PrimitiveArray<P> {
    type ItemModel = P;

    open spec fn model(&self) -> Seq<P> {
        self@
    }

    open spec fn inv(&self) -> bool {
        true
    }

    open spec fn zero_model(&self) -> P {
        P::zero_spec()
    }

    open spec fn can_grow(&self) -> bool {
        true
    }

    fn push_zero(&mut self) {
        self.push_zero()
    }

    fn len(&self) -> usize {
        self.len()
    }

    fn is_empty(&self) -> bool {
        self.is_empty()
    }
}

} // verus!
