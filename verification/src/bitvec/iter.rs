use vstd::prelude::*;

use super::{BitSlice, BitVec};

verus! {

/// A cursor over the bits of an owned [`BitVec`]; each `next` yields the bit
/// at the cursor and advances, and yields absence once past the end.
pub struct BitVecIter {
    vec: BitVec,
    id: usize,
}

impl BitVecIter {
    pub closed spec fn wf(&self) -> bool {
        self.vec.wf()
    }

    /// The bits the cursor walks over.
    pub closed spec fn bits(&self) -> Seq<bool> {
        self.vec@
    }

    /// The cursor position.
    pub closed spec fn pos(&self) -> int {
        self.id as int
    }

    pub fn new(vec: BitVec) -> (r: Self)
        requires
            vec.wf(),
        ensures
            r.wf(),
            r.bits() == vec@,
            r.pos() == 0,
    {
        BitVecIter { vec, id: 0 }
    }

    pub fn next(&mut self) -> (r: Option<bool>)
        requires
            old(self).wf(),
            old(self).pos() < usize::MAX,
        ensures
            final(self).wf(),
            final(self).bits() == old(self).bits(),
            final(self).pos() == old(self).pos() + 1,
            r == if old(self).pos() < old(self).bits().len() {
                Some(old(self).bits()[old(self).pos()])
            } else {
                None::<bool>
            },
    {
        let b = self.vec.get(self.id);
        self.id = self.id + 1;
        b
    }
}

/// A cursor over the bits of a [`BitSlice`] view.
pub struct BitSliceIter {
    slice: BitSlice,
    id: usize,
}

impl BitSliceIter {
    pub closed spec fn wf(&self) -> bool {
        self.slice.wf()
    }

    /// The bits the cursor walks over.
    pub closed spec fn bits(&self) -> Seq<bool> {
        self.slice@
    }

    /// The cursor position.
    pub closed spec fn pos(&self) -> int {
        self.id as int
    }

    pub fn new(slice: BitSlice) -> (r: Self)
        requires
            slice.wf(),
        ensures
            r.wf(),
            r.bits() == slice@,
            r.pos() == 0,
    {
        BitSliceIter { slice, id: 0 }
    }

    pub fn next(&mut self) -> (r: Option<bool>)
        requires
            old(self).wf(),
            old(self).pos() < usize::MAX,
        ensures
            final(self).wf(),
            final(self).bits() == old(self).bits(),
            final(self).pos() == old(self).pos() + 1,
            r == if old(self).pos() < old(self).bits().len() {
                Some(old(self).bits()[old(self).pos()])
            } else {
                None::<bool>
            },
    {
        let b = self.slice.get(self.id);
        self.id = self.id + 1;
        b
    }
}

impl BitVec {
    /// Consumes the vector into a bit cursor.
    pub fn into_iter(self) -> (r: BitVecIter)
        requires
            self.wf(),
        ensures
            r.wf(),
            r.bits() == self@,
            r.pos() == 0,
    {
        BitVecIter::new(self)
    }
}

impl BitSlice {
    /// Consumes the view into a bit cursor.
    pub fn into_iter(self) -> (r: BitSliceIter)
        requires
            self.wf(),
        ensures
            r.wf(),
            r.bits() == self@,
            r.pos() == 0,
    {
        BitSliceIter::new(self)
    }
}

} // verus!
