use vstd::prelude::*;

pub mod iter;

verus! {

use vstd::arithmetic::div_mod::{
    lemma_fundamental_div_mod,
    lemma_hoist_over_denominator,
    lemma_mod_multiples_vanish,
};

/// Whether bit `k` (least-significant first) of `byte` is set.
pub open spec fn spec_bit(byte: u8, k: u8) -> bool
    recommends
        k < 8,
{
    byte & (1u8 << k) != 0
}

/// The logical bit at position `i` of a byte sequence, least-significant bit
/// of each byte first.
pub open spec fn bit_at(bytes: Seq<u8>, i: int) -> bool
    recommends
        0 <= i,
        i / 8 < bytes.len(),
{
    spec_bit(bytes[i / 8], (i % 8) as u8)
}

/// The sequence of `len` logical bits starting at bit position `offset` of a
/// byte sequence.
pub open spec fn bits_of(bytes: Seq<u8>, offset: int, len: nat) -> Seq<bool> {
    Seq::new(len, |i: int| bit_at(bytes, offset + i))
}

/// Returns `byte` with bit `k` set to `value` and every other bit unchanged.
fn set(byte: u8, k: u8, value: bool) -> (r: u8)
    requires
        k < 8,
    ensures
        forall|j: u8| j < 8 ==> #[trigger] spec_bit(r, j) == (if j == k {
            value
        } else {
            spec_bit(byte, j)
        }),
{
    let r = if value {
        byte | (1u8 << k)
    } else {
        byte & !(1u8 << k)
    };
    proof {
        assert forall|j: u8| j < 8 implies #[trigger] spec_bit(r, j) == (if j == k {
            value
        } else {
            spec_bit(byte, j)
        }) by {
            assert(spec_bit(r, j) == (if j == k {
                value
            } else {
                spec_bit(byte, j)
            })) by (bit_vector)
                requires
                    k < 8,
                    j < 8,
                    r == (if value {
                        byte | (1u8 << k)
                    } else {
                        byte & !(1u8 << k)
                    }),
            ;
        }
    }
    r
}

/// Whether bit `k` of `byte` is set.
fn is_set(byte: u8, k: u8) -> (r: bool)
    requires
        k < 8,
    ensures
        r == spec_bit(byte, k),
{
    byte & (1u8 << k) != 0
}

/// Reads the logical bit at position `i` of a packed byte buffer.
fn get_bit(bytes: &Vec<u8>, i: usize) -> (r: bool)
    requires
        i / 8 < bytes@.len(),
    ensures
        r == bit_at(bytes@, i as int),
{
    is_set(bytes[i / 8], (i % 8) as u8)
}

/// Writes the logical bit at position `i` of a packed byte buffer, leaving
/// every other bit and the buffer length unchanged.
pub fn set_bit(data: &mut Vec<u8>, i: usize, value: bool)
    requires
        i / 8 < old(data)@.len(),
    ensures
        final(data)@.len() == old(data)@.len(),
        forall|j: int| 0 <= j < final(data)@.len() * 8 ==> #[trigger] bit_at(final(data)@, j) == (
        if j == i {
            value
        } else {
            bit_at(old(data)@, j)
        }),
{
    let idx = i / 8;
    let b = data[idx];
    data[idx] = set(b, (i % 8) as u8, value);
    proof {
        assert forall|j: int| 0 <= j < data@.len() * 8 implies #[trigger] bit_at(data@, j) == (if j
            == i {
            value
        } else {
            bit_at(old(data)@, j)
        }) by {
            assert(0 <= j / 8 < data@.len());
            if j / 8 == idx {
                assert(j == i <==> (j % 8) as u8 == (i % 8) as u8 && j / 8 == i / 8);
            } else {
                assert(data@[j / 8] == old(data)@[j / 8]);
            }
        }
    }
}

/// A growable bit-packed boolean vector; bit `i` lives in byte `i / 8` at
/// intra-byte position `i % 8`.
pub struct BitVec {
    bytes: Vec<u8>,
    len: usize,
}

impl View for BitVec {
    type V = Seq<bool>;

    closed spec fn view(&self) -> Seq<bool> {
        bits_of(self.bytes@, 0, self.len as nat)
    }
}

impl BitVec {
    /// The backing buffer holds exactly the bytes needed for `len` bits.
    pub closed spec fn wf(&self) -> bool {
        self.bytes@.len() == (self.len + 7) / 8
    }

    pub fn new() -> (r: Self)
        ensures
            r.wf(),
            r@ == Seq::<bool>::empty(),
    {
        let r = BitVec { bytes: Vec::new(), len: 0 };
        proof {
            assert(r@ =~= Seq::<bool>::empty());
        }
        r
    }

    pub fn with_capacity(capacity: usize) -> (r: Self)
        ensures
            r.wf(),
            r@ == Seq::<bool>::empty(),
    {
        let r = BitVec { bytes: Vec::with_capacity(capacity / 8 + 1), len: 0 };
        proof {
            assert(r@ =~= Seq::<bool>::empty());
        }
        r
    }

    pub fn len(&self) -> (r: usize)
        ensures
            r == self@.len(),
    {
        self.len
    }

    /// Appends one bit, allocating a fresh backing byte on every eighth push.
    pub fn push(&mut self, value: bool)
        requires
            old(self).wf(),
            old(self)@.len() < usize::MAX,
        ensures
            final(self).wf(),
            final(self)@ == old(self)@.push(value),
    {
        if self.len % 8 == 0 {
            self.bytes.push(0);
        }
        let idx = self.len / 8;
        let b = self.bytes[idx];
        self.bytes[idx] = set(b, (self.len % 8) as u8, value);
        self.len = self.len + 1;
        proof {
            assert forall|j: int| 0 <= j < self@.len() implies self@[j] == old(self)@.push(value)[j]
        by {
                assert(0 <= j / 8 < self.bytes@.len());
                if j < old(self).len {
                    if j / 8 == old(self).len as int / 8 {
                        assert((j % 8) as u8 != (old(self).len as int % 8) as u8);
                    } else {
                        assert(self.bytes@[j / 8] == old(self).bytes@[j / 8]);
                    }
                }
            }
            assert(self@ =~= old(self)@.push(value));
        }
    }

    /// Bounds-checked read: absence exactly when `index` is past the end.
    pub fn get(&self, index: usize) -> (r: Option<bool>)
        requires
            self.wf(),
        ensures
            r == if index < self@.len() {
                Some(self@[index as int])
            } else {
                None::<bool>
            },
    {
        if index >= self.len {
            None
        } else {
            Some(get_bit(&self.bytes, index))
        }
    }

    /// Overwrites the bit at `index`.
    pub fn set(&mut self, index: usize, value: bool)
        requires
            old(self).wf(),
            index < old(self)@.len(),
        ensures
            final(self).wf(),
            final(self)@ == old(self)@.update(index as int, value),
    {
        set_bit(&mut self.bytes, index, value);
        proof {
            assert(self@ =~= old(self)@.update(index as int, value));
        }
    }

    /// A read view of the bits in `start..end`, addressed by an intra-byte
    /// offset over a copy of the backing byte span.
    pub fn slice(&self, start: usize, end: usize) -> (r: BitSlice)
        requires
            self.wf(),
            start <= end,
            end <= self@.len(),
        ensures
            r.wf(),
            r@ == self@.subrange(start as int, end as int),
            r.is_aligned() == (start % 8 == 0),
    {
        let r = sub_bits(&self.bytes, start, end);
        proof {
            assert(r@ =~= self@.subrange(start as int, end as int));
        }
        r
    }

    /// A read view of the whole vector, always byte-aligned.
    pub fn as_slice(&self) -> (r: BitSlice)
        requires
            self.wf(),
        ensures
            r.wf(),
            r@ == self@,
            r.is_aligned(),
    {
        let r = sub_bits(&self.bytes, 0, self.len);
        proof {
            assert(r@ =~= self@);
        }
        r
    }

    /// A write view of the bits in `start..end`; writes through the view land
    /// in this vector.
    pub fn slice_mut(&mut self, start: usize, end: usize) -> (r: BitSliceMut<'_>)
        requires
            old(self).wf(),
            start <= end,
            end <= old(self)@.len(),
        ensures
            r.wf(),
            r.spec_start() == start,
            r@ == old(self)@.subrange(start as int, end as int),
            r.target() == *old(self),
            *final(self) == *final(r.vec),
    {
        BitSliceMut { start, len: end - start, vec: self }
    }

    /// A write view of the whole vector.
    pub fn as_slice_mut(&mut self) -> (r: BitSliceMut<'_>)
        requires
            old(self).wf(),
        ensures
            r.wf(),
            r.spec_start() == 0,
            r@ == old(self)@,
            r.target() == *old(self),
            *final(self) == *final(r.vec),
    {
        let len = self.len;
        let r = BitSliceMut { start: 0, len, vec: self };
        proof {
            assert(r@ =~= r.target()@);
        }
        r
    }

    /// Bitwise AND of two vectors; the result length is the shorter input
    /// length, and every result bit is the AND of the inputs' bits.
    pub fn bitand(&self, rhs: &BitVec) -> (r: BitVec)
        requires
            self.wf(),
            rhs.wf(),
        ensures
            r.wf(),
            r@.len() == if self@.len() <= rhs@.len() {
                self@.len()
            } else {
                rhs@.len()
            },
            forall|i: int| 0 <= i < r@.len() ==> r@[i] == (self@[i] && rhs@[i]),
    {
        self.as_slice().bitand(&rhs.as_slice())
    }

    /// Builds a bit vector from a sequence of booleans, in order.
    pub fn from_bools(values: &Vec<bool>) -> (r: Self)
        ensures
            r.wf(),
            r@ == values@,
    {
        let mut r = BitVec::with_capacity(values.len());
        let mut i: usize = 0;
        while i < values.len()
            invariant
                r.wf(),
                i <= values@.len(),
                r@ == values@.subrange(0, i as int),
            decreases values@.len() - i,
        {
            r.push(values[i]);
            proof {
                assert(values@.subrange(0, i + 1 as int) =~= values@.subrange(0, i as int).push(
                    values@[i as int],
                ));
            }
            i = i + 1;
        }
        proof {
            assert(values@.subrange(0, values@.len() as int) =~= values@);
        }
        r
    }
}

impl Default for BitVec {
    fn default() -> (r: Self)
        ensures
            r.wf(),
            r@ == Seq::<bool>::empty(),
    {
        BitVec::new()
    }
}

/// `(start + i) / 8` and `(start + i) % 8` can be split at a byte boundary:
/// walking `i` bits past bit `start` lands `start / 8` bytes further than
/// walking `i` bits past bit `start % 8`.
proof fn lemma_bit_address(start: int, i: int)
    requires
        0 <= start,
        0 <= i,
    ensures
        (start + i) / 8 == start / 8 + (start % 8 + i) / 8,
        (start + i) % 8 == (start % 8 + i) % 8,
{
    lemma_fundamental_div_mod(start, 8);
    lemma_hoist_over_denominator(start % 8 + i, start / 8, 8);
    lemma_mod_multiples_vanish(start / 8, start % 8 + i, 8);
}

/// The number of backing bytes a bit range `start..end` occupies.
proof fn lemma_byte_count(start: int, end: int)
    requires
        0 <= start <= end,
    ensures
        (end + 7) / 8 - start / 8 == (start % 8 + (end - start) + 7) / 8,
{
    lemma_fundamental_div_mod(start, 8);
    lemma_hoist_over_denominator(start % 8 + (end - start) + 7, start / 8, 8);
}

/// Builds the read view of bits `start..end` of a packed byte buffer.
fn sub_bits(bytes: &Vec<u8>, start: usize, end: usize) -> (r: BitSlice)
    requires
        start <= end,
        (end + 7) / 8 <= bytes@.len(),
    ensures
        r.wf(),
        r@ == Seq::new((end - start) as nat, |i: int| bit_at(bytes@, start + i)),
        r.is_aligned() == (start % 8 == 0),
{
    let first = start / 8;
    let last = end / 8 + if end % 8 == 0 {
        0
    } else {
        1
    };
    proof {
        assert(last == (end + 7) / 8);
        lemma_byte_count(start as int, end as int);
    }
    let sub = crate::copy_range(bytes, first, last);
    let r = BitSlice { offset: start % 8, len: end - start, bytes: sub };
    proof {
        assert forall|i: int| 0 <= i < r@.len() implies r@[i] == bit_at(bytes@, start + i) by {
            lemma_bit_address(start as int, i);
            assert(0 <= (start % 8 + i) / 8 < r.bytes@.len());
            assert(r.bytes@[(start % 8 + i) / 8] == bytes@[(start + i) / 8]);
        }
        assert(r@ =~= Seq::new((end - start) as nat, |i: int| bit_at(bytes@, start + i)));
    }
    r
}

/// A read view of a sub-range of a bit vector: an intra-byte bit offset plus
/// the byte-aligned backing span that covers the range.
pub struct BitSlice {
    offset: usize,
    len: usize,
    bytes: Vec<u8>,
}

impl View for BitSlice {
    type V = Seq<bool>;

    closed spec fn view(&self) -> Seq<bool> {
        bits_of(self.bytes@, self.offset as int, self.len as nat)
    }
}

impl BitSlice {
    pub closed spec fn wf(&self) -> bool {
        &&& self.offset < 8
        &&& self.offset + self.len <= usize::MAX
        &&& self.bytes@.len() == (self.offset + self.len + 7) / 8
    }

    /// Whether the view starts at a byte boundary; the byte-wise `bitand` is
    /// only meaningful for aligned views.
    pub closed spec fn is_aligned(&self) -> bool {
        self.offset == 0
    }

    pub fn len(&self) -> (r: usize)
        ensures
            r == self@.len(),
    {
        self.len
    }

    /// Bounds-checked read: absence exactly when `n` is past the end.
    pub fn get(&self, n: usize) -> (r: Option<bool>)
        requires
            self.wf(),
        ensures
            r == if n < self@.len() {
                Some(self@[n as int])
            } else {
                None::<bool>
            },
    {
        if n >= self.len {
            None
        } else {
            proof {
                assert((n + self.offset) as int / 8 < self.bytes@.len());
            }
            Some(get_bit(&self.bytes, n + self.offset))
        }
    }

    /// Copies the viewed bits into a fresh, byte-aligned vector.
    pub fn to_vec(&self) -> (r: BitVec)
        requires
            self.wf(),
        ensures
            r.wf(),
            r@ == self@,
    {
        let mut r = BitVec::with_capacity(self.len);
        let mut i: usize = 0;
        while i < self.len
            invariant
                self.wf(),
                r.wf(),
                i <= self.len,
                r@ == self@.subrange(0, i as int),
            decreases self.len - i,
        {
            proof {
                assert((i + self.offset) as int / 8 < self.bytes@.len());
            }
            r.push(get_bit(&self.bytes, i + self.offset));
            proof {
                assert(self@.subrange(0, i + 1 as int) =~= self@.subrange(0, i as int).push(
                    self@[i as int],
                ));
            }
            i = i + 1;
        }
        proof {
            assert(self@.subrange(0, self.len as int) =~= self@);
        }
        r
    }

    /// A view of a sub-range of this view, without re-aligning the bits.
    pub fn slice(&self, start: usize, end: usize) -> (r: BitSlice)
        requires
            self.wf(),
            start <= end,
            end <= self@.len(),
        ensures
            r.wf(),
            r@ == self@.subrange(start as int, end as int),
    {
        let r = sub_bits(&self.bytes, start + self.offset, end + self.offset);
        proof {
            assert(r@ =~= self@.subrange(start as int, end as int));
        }
        r
    }

    /// Bitwise AND over the raw backing bytes, truncated to the shorter
    /// operand's length. The per-bit reading below is stated only for
    /// byte-aligned operands: on views with a nonzero intra-byte offset the
    /// byte-wise AND does not line up with the views' logical bits.
    pub fn bitand(&self, rhs: &BitSlice) -> (r: BitVec)
        requires
            self.wf(),
            rhs.wf(),
        ensures
            r.wf(),
            r@.len() == if self@.len() <= rhs@.len() {
                self@.len()
            } else {
                rhs@.len()
            },
            self.is_aligned() && rhs.is_aligned() ==> forall|i: int|
                0 <= i < r@.len() ==> r@[i] == (self@[i] && rhs@[i]),
    {
        let len = if self.len <= rhs.len {
            self.len
        } else {
            rhs.len
        };
        let nbytes = len / 8 + if len % 8 == 0 {
            0
        } else {
            1
        };
        proof {
            assert(nbytes == (len + 7) / 8);
        }
        let mut bytes: Vec<u8> = Vec::new();
        let mut i: usize = 0;
        while i < nbytes
            invariant
                i <= nbytes,
                nbytes <= self.bytes@.len(),
                nbytes <= rhs.bytes@.len(),
                bytes@.len() == i,
                forall|j: int|
                    0 <= j < i ==> bytes@[j] == (self.bytes@[j] & rhs.bytes@[j]),
            decreases nbytes - i,
        {
            bytes.push(self.bytes[i] & rhs.bytes[i]);
            i = i + 1;
        }
        let r = BitVec { bytes, len };
        proof {
            if self.is_aligned() && rhs.is_aligned() {
                assert forall|i: int| 0 <= i < r@.len() implies r@[i] == (self@[i] && rhs@[i]) by {
                    assert(0 <= i / 8 < r.bytes@.len());
                    lemma_and_bit(self.bytes@[i / 8], rhs.bytes@[i / 8], (i % 8) as u8);
                }
            }
        }
        r
    }
}

/// A write view of the bits `start..start+len` of a bit vector: writes
/// through the view land directly in the vector, and the view's validity is
/// tied to the vector's borrow.
pub struct BitSliceMut<'a> {
    /// The position of the view's first bit inside the vector.
    pub start: usize,
    /// How many bits the view covers.
    pub len: usize,
    /// The vector the view writes into.
    pub vec: &'a mut BitVec,
}

impl<'a> View for BitSliceMut<'a> {
    type V = Seq<bool>;

    open spec fn view(&self) -> Seq<bool> {
        self.vec@.subrange(self.start as int, self.start + self.len)
    }
}

impl<'a> BitSliceMut<'a> {
    pub open spec fn wf(&self) -> bool {
        &&& self.vec.wf()
        &&& self.start + self.len <= self.vec@.len()
    }

    /// Where the view starts inside the vector.
    pub open spec fn spec_start(&self) -> int {
        self.start as int
    }

    /// The vector's current value.
    pub open spec fn target(&self) -> BitVec {
        *self.vec
    }

    pub fn len(&self) -> (r: usize)
        requires
            self.wf(),
        ensures
            r == self@.len(),
    {
        self.len
    }

    /// Overwrites the bit at `index` of the viewed range, in place.
    pub fn set(&mut self, index: usize, value: bool)
        requires
            old(self).wf(),
            index < old(self)@.len(),
        ensures
            final(self).wf(),
            *final(old(self).vec) == *final(final(self).vec),
            final(self).spec_start() == old(self).spec_start(),
            final(self)@ == old(self)@.update(index as int, value),
            final(self).target()@ == old(self).target()@.update(
                old(self).spec_start() + index,
                value,
            ),
    {
        let i = self.start + index;
        self.vec.set(i, value);
        proof {
            assert(self@ =~= old(self)@.update(index as int, value));
        }
    }

    /// Gives the view up for a read view of the same range.
    pub fn as_ref(self) -> (r: BitSlice)
        requires
            self.wf(),
        ensures
            r.wf(),
            r@ == self@,
    {
        self.vec.slice(self.start, self.start + self.len)
    }
}

/// A bit of the AND of two bytes is the AND of their bits.
proof fn lemma_and_bit(x: u8, y: u8, k: u8)
    requires
        k < 8,
    ensures
        spec_bit(x & y, k) == (spec_bit(x, k) && spec_bit(y, k)),
{
    assert(spec_bit(x & y, k) == (spec_bit(x, k) && spec_bit(y, k))) by (bit_vector)
        requires
            k < 8,
    ;
}

} // verus!
