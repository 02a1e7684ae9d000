use vstd::prelude::*;

use crate::bitvec::{BitSlice, BitVec};
use crate::primitive::{Primitive, PrimitiveSub};

verus! {

/// An owned list of optional primitives: a validity bit vector paired with a
/// data buffer of equal length. A row whose validity bit is clear holds the
/// type's zero in the buffer, but reads as absent.
pub struct OptionList<P> {
    validity: BitVec,
    data: Vec<P>,
}

impl<P: Primitive> View for OptionList<P> {
    type V = Seq<Option<P>>;

    closed spec fn view(&self) -> Seq<Option<P>> {
        Seq::new(
            self.validity@.len(),
            |i: int|
                if self.validity@[i] {
                    Some(self.data@[i])
                } else {
                    None
                },
        )
    }
}

impl<P: Primitive> OptionList<P> {
    pub closed spec fn wf(&self) -> bool {
        &&& self.validity.wf()
        &&& self.validity@.len() == self.data@.len()
    }

    /// The raw data buffer, including the zeros stored under cleared bits.
    pub closed spec fn stored(&self) -> Seq<P> {
        self.data@
    }

    /// The validity bits, one per row.
    pub closed spec fn bits(&self) -> Seq<bool> {
        self.validity@
    }

    /// A row's validity bit mirrors its presence, and a present row's stored
    /// payload is its value.
    pub proof fn lemma_parts(&self)
        requires
            self.wf(),
        ensures
            self.bits() == Seq::new(self@.len(), |i: int| self@[i] is Some),
            self.stored().len() == self@.len(),
            forall|i: int|
                0 <= i < self@.len() && self@[i] is Some ==> self.stored()[i] == self@[i]
                    ->Some_0,
    {
        assert(self.bits() =~= Seq::new(self@.len(), |i: int| self@[i] is Some));
    }

    pub fn new() -> (r: Self)
        ensures
            r.wf(),
            r@ == Seq::<Option<P>>::empty(),
            r.stored() == Seq::<P>::empty(),
    {
        let r = OptionList { validity: BitVec::new(), data: Vec::new() };
        proof {
            assert(r@ =~= Seq::<Option<P>>::empty());
        }
        r
    }

    pub fn with_capacity(capacity: usize) -> (r: Self)
        ensures
            r.wf(),
            r@ == Seq::<Option<P>>::empty(),
            r.stored() == Seq::<P>::empty(),
    {
        let r = OptionList { validity: BitVec::with_capacity(capacity), data: Vec::with_capacity(capacity) };
        proof {
            assert(r@ =~= Seq::<Option<P>>::empty());
        }
        r
    }

    pub fn len(&self) -> (r: usize)
        requires
            self.wf(),
        ensures
            r == self@.len(),
    {
        self.data.len()
    }

    /// Appends one optional value; absence stores the type's zero under a
    /// cleared validity bit.
    pub fn push(&mut self, item: Option<P>)
        requires
            old(self).wf(),
            old(self)@.len() < usize::MAX,
        ensures
            final(self).wf(),
            final(self)@ == old(self)@.push(item),
            final(self).stored() == old(self).stored().push(
                match item {
                    Some(v) => v,
                    None => P::zero_spec(),
                },
            ),
    {
        match item {
            Some(value) => {
                self.validity.push(true);
                self.data.push(value);
            },
            None => {
                self.validity.push(false);
                self.data.push(P::zero());
            },
        }
        proof {
            assert(self@ =~= old(self)@.push(item));
        }
    }

    /// Bounds-checked read that also masks absent rows: yields the value only
    /// when the row is in range and valid.
    pub fn get(&self, offset: usize) -> (r: Option<P>)
        requires
            self.wf(),
        ensures
            r == if offset < self@.len() {
                self@[offset as int]
            } else {
                None::<P>
            },
    {
        match self.validity.get(offset) {
            Some(true) => Some(self.data[offset]),
            _ => None,
        }
    }

    /// Overwrites one row; writing absence clears the validity bit and leaves
    /// the stored payload unchanged.
    pub fn set(&mut self, n: usize, value: Option<P>)
        requires
            old(self).wf(),
            n < old(self)@.len(),
        ensures
            final(self).wf(),
            final(self)@ == old(self)@.update(n as int, value),
            final(self).stored() == match value {
                Some(v) => old(self).stored().update(n as int, v),
                None => old(self).stored(),
            },
    {
        match value {
            Some(v) => {
                self.validity.set(n, true);
                self.data[n] = v;
            },
            None => {
                self.validity.set(n, false);
            },
        }
        proof {
            assert(self@ =~= old(self)@.update(n as int, value));
        }
    }

    /// A read view of the whole list; the view's validity is byte-aligned.
    pub fn as_ref(&self) -> (r: OptionSlice<P>)
        requires
            self.wf(),
        ensures
            r.wf(),
            r@ == self@,
            r.stored() == self.stored(),
            r.aligned(),
    {
        let r = OptionSlice {
            validity: self.validity.as_slice(),
            data: crate::copy_range(&self.data, 0, self.data.len()),
        };
        proof {
            assert(r.stored() =~= self.stored());
            assert(r@ =~= self@);
        }
        r
    }

    /// A write view of the whole list; writes through it land in this list.
    pub fn as_mut(&mut self) -> (r: OptionSliceMut<'_, P>)
        requires
            old(self).wf(),
        ensures
            r.wf(),
            r.spec_start() == 0,
            r@ == old(self)@,
            r.stored_now() == old(self).stored(),
            r.bits_now() == old(self).bits(),
            final(self).bits() == final(r.validity)@,
            final(self).stored() == final(r.data)@,
            final(r.validity).wf() && final(r.validity)@.len() == final(r.data)@.len()
                ==> final(self).wf(),
            final(self)@ == Seq::new(
                final(r.validity)@.len(),
                |i: int|
                    if final(r.validity)@[i] {
                        Some(final(r.data)@[i])
                    } else {
                        None
                    },
            ),
    {
        let len = self.data.len();
        OptionSliceMut { start: 0, len, validity: &mut self.validity, data: &mut self.data }
    }

    /// Builds a list from a vector of optional values, in order; each absent
    /// entry stores the type's zero under a cleared validity bit.
    pub fn from_vec(items: &Vec<Option<P>>) -> (r: Self)
        ensures
            r.wf(),
            r@ == items@,
            r.stored() == Seq::new(
                items@.len(),
                |i: int|
                    match items@[i] {
                        Some(v) => v,
                        None => P::zero_spec(),
                    },
            ),
    {
        let mut r = OptionList::with_capacity(items.len());
        let mut i: usize = 0;
        while i < items.len()
            invariant
                r.wf(),
                i <= items@.len(),
                r@ == items@.subrange(0, i as int),
                r.stored() == Seq::new(
                    i as nat,
                    |k: int|
                        match items@[k] {
                            Some(v) => v,
                            None => P::zero_spec(),
                        },
                ),
            decreases items@.len() - i,
        {
            r.push(items[i]);
            proof {
                assert(items@.subrange(0, i + 1 as int) =~= items@.subrange(0, i as int).push(
                    items@[i as int],
                ));
                assert(r.stored() =~= Seq::new(
                    (i + 1) as nat,
                    |k: int|
                        match items@[k] {
                            Some(v) => v,
                            None => P::zero_spec(),
                        },
                ));
            }
            i = i + 1;
        }
        proof {
            assert(items@.subrange(0, items@.len() as int) =~= items@);
        }
        r
    }
}

impl<P: Primitive> Default for OptionList<P> {
    fn default() -> (r: Self)
        ensures
            r.wf(),
            r@ == Seq::<Option<P>>::empty(),
            r.stored() == Seq::<P>::empty(),
    {
        OptionList::new()
    }
}

/// A read view of a range of an [`OptionList`]: a bit-slice view of the
/// validity and a copy of the matching data span.
pub struct OptionSlice<P> {
    validity: BitSlice,
    data: Vec<P>,
}

impl<P: Primitive> View for OptionSlice<P> {
    type V = Seq<Option<P>>;

    closed spec fn view(&self) -> Seq<Option<P>> {
        Seq::new(
            self.validity@.len(),
            |i: int|
                if self.validity@[i] {
                    Some(self.data@[i])
                } else {
                    None
                },
        )
    }
}

impl<P: Primitive> OptionSlice<P> {
    pub closed spec fn wf(&self) -> bool {
        &&& self.validity.wf()
        &&& self.validity@.len() == self.data@.len()
    }

    /// The raw data span, including the payloads under cleared bits.
    pub closed spec fn stored(&self) -> Seq<P> {
        self.data@
    }

    /// Whether the validity view starts at a byte boundary; elementwise
    /// combination of two views is only meaningful when both are aligned.
    pub closed spec fn aligned(&self) -> bool {
        self.validity.is_aligned()
    }

    pub fn len(&self) -> (r: usize)
        requires
            self.wf(),
        ensures
            r == self@.len(),
    {
        self.data.len()
    }

    /// Assembles a view from a validity bit view and the matching data span.
    pub(crate) fn from_parts(validity: BitSlice, data: Vec<P>) -> (r: OptionSlice<P>)
        requires
            validity.wf(),
            validity@.len() == data@.len(),
        ensures
            r.wf(),
            r@ == Seq::new(
                validity@.len(),
                |i: int|
                    if validity@[i] {
                        Some(data@[i])
                    } else {
                        None::<P>
                    },
            ),
            r.stored() == data@,
            r.aligned() == validity.is_aligned(),
    {
        OptionSlice { validity, data }
    }

    /// A view of a sub-range of this view.
    pub fn slice(&self, start: usize, end: usize) -> (r: OptionSlice<P>)
        requires
            self.wf(),
            start <= end,
            end <= self@.len(),
        ensures
            r.wf(),
            r@ == self@.subrange(start as int, end as int),
            r.stored() == self.stored().subrange(start as int, end as int),
    {
        let r = OptionSlice {
            validity: self.validity.slice(start, end),
            data: crate::copy_range(&self.data, start, end),
        };
        proof {
            assert(r@ =~= self@.subrange(start as int, end as int));
        }
        r
    }

    /// Bounds-checked read: absence when `n` is out of range, an absent value
    /// when the row is in range but invalid.
    pub fn get(&self, n: usize) -> (r: Option<Option<P>>)
        requires
            self.wf(),
        ensures
            r == if n < self@.len() {
                Some(self@[n as int])
            } else {
                None::<Option<P>>
            },
    {
        match self.validity.get(n) {
            Some(bit) => {
                if bit {
                    Some(Some(self.data[n]))
                } else {
                    Some(None)
                }
            },
            None => None,
        }
    }
}

impl<P: PrimitiveSub> OptionSlice<P> {
    /// Elementwise difference, truncated to the shorter operand. The result's
    /// validity is the byte-wise AND of the operands' validity spans, so the
    /// per-row reading below holds only for byte-aligned operands; the raw
    /// payloads are subtracted position by position regardless of validity.
    pub fn sub(&self, rhs: &OptionSlice<P>) -> (r: OptionList<P>)
        requires
            self.wf(),
            rhs.wf(),
            forall|i: int|
                0 <= i < self@.len() && i < rhs@.len() ==> P::sub_ok(
                    self.stored()[i],
                    rhs.stored()[i],
                ),
        ensures
            r.wf(),
            r@.len() == if self@.len() <= rhs@.len() {
                self@.len()
            } else {
                rhs@.len()
            },
            r.stored() == Seq::new(
                r@.len(),
                |i: int| P::sub_spec(self.stored()[i], rhs.stored()[i]),
            ),
            self.aligned() && rhs.aligned() ==> forall|i: int|
                0 <= i < r@.len() ==> r@[i] == if self@[i] is Some && rhs@[i] is Some {
                    Some(P::sub_spec(self.stored()[i], rhs.stored()[i]))
                } else {
                    None::<P>
                },
    {
        let validity = self.validity.bitand(&rhs.validity);
        let min_len = if self.data.len() <= rhs.data.len() {
            self.data.len()
        } else {
            rhs.data.len()
        };
        let mut data: Vec<P> = Vec::new();
        let mut i: usize = 0;
        while i < min_len
            invariant
                self.wf(),
                rhs.wf(),
                min_len <= self@.len(),
                min_len <= rhs@.len(),
                forall|k: int|
                    0 <= k < self@.len() && k < rhs@.len() ==> P::sub_ok(
                        self.stored()[k],
                        rhs.stored()[k],
                    ),
                i <= min_len,
                data@.len() == i,
                forall|k: int|
                    0 <= k < i ==> data@[k] == P::sub_spec(self.stored()[k], rhs.stored()[k]),
            decreases min_len - i,
        {
            proof {
                assert(P::sub_ok(self.stored()[i as int], rhs.stored()[i as int]));
            }
            data.push(P::sub_val(self.data[i], rhs.data[i]));
            i = i + 1;
        }
        let r = OptionList { validity, data };
        proof {
            assert(r.stored() =~= Seq::new(
                r@.len(),
                |i: int| P::sub_spec(self.stored()[i], rhs.stored()[i]),
            ));
        }
        r
    }
}

/// A write view of a row range of optional cells: writes through the view
/// land directly in the owning container's validity bits and data buffer,
/// and the view's validity is tied to that container's borrow.
pub struct OptionSliceMut<'a, P> {
    /// Where the viewed range starts in the buffers.
    pub start: usize,
    /// How many cells the view covers.
    pub len: usize,
    /// The validity bits the view writes into.
    pub validity: &'a mut BitVec,
    /// The data buffer the view writes into.
    pub data: &'a mut Vec<P>,
}

impl<'a, P: Primitive> View for OptionSliceMut<'a, P> {
    type V = Seq<Option<P>>;

    open spec fn view(&self) -> Seq<Option<P>> {
        Seq::new(
            self.len as nat,
            |i: int|
                if self.validity@[self.start + i] {
                    Some(self.data@[self.start + i])
                } else {
                    None
                },
        )
    }
}

impl<'a, P: Primitive> OptionSliceMut<'a, P> {
    pub open spec fn wf(&self) -> bool {
        &&& self.validity.wf()
        &&& self.start + self.len <= self.validity@.len()
        &&& self.validity@.len() == self.data@.len()
    }

    /// Where the viewed range starts.
    pub open spec fn spec_start(&self) -> int {
        self.start as int
    }

    /// The data buffer's current contents.
    pub open spec fn stored_now(&self) -> Seq<P> {
        self.data@
    }

    /// The validity bits' current contents.
    pub open spec fn bits_now(&self) -> Seq<bool> {
        self.validity@
    }

    /// Overwrites one row in place; writing absence clears the validity bit
    /// and leaves the stored payload unchanged.
    pub fn set(&mut self, n: usize, value: Option<P>)
        requires
            old(self).wf(),
            n < old(self)@.len(),
        ensures
            final(self).wf(),
            final(self).spec_start() == old(self).spec_start(),
            *final(old(self).validity) == *final(final(self).validity),
            *final(old(self).data) == *final(final(self).data),
            final(self)@ == old(self)@.update(n as int, value),
            final(self).bits_now() == old(self).bits_now().update(
                old(self).spec_start() + n,
                value is Some,
            ),
            final(self).stored_now() == match value {
                Some(v) => old(self).stored_now().update(old(self).spec_start() + n, v),
                None => old(self).stored_now(),
            },
    {
        let total = self.validity.len();
        let i = self.start + n;
        match value {
            Some(v) => {
                self.validity.set(i, true);
                self.data[i] = v;
            },
            None => {
                self.validity.set(i, false);
            },
        }
        proof {
            assert(self@ =~= old(self)@.update(n as int, value));
        }
    }

    /// Gives the view up for a read view of the same rows.
    pub fn as_ref(self) -> (r: OptionSlice<P>)
        requires
            self.wf(),
        ensures
            r.wf(),
            r@ == self@,
            r.stored() == self.stored_now().subrange(
                self.spec_start(),
                self.spec_start() + self@.len(),
            ),
            r.aligned() == (self.spec_start() % 8 == 0),
    {
        let total = self.validity.len();
        let end = self.start + self.len;
        let r = OptionSlice {
            validity: self.validity.slice(self.start, end),
            data: crate::copy_range(self.data, self.start, end),
        };
        proof {
            assert(r@ =~= self@);
        }
        r
    }
}

} // verus!
