use vstd::prelude::*;

use super::Array;
use crate::bitvec::BitVec;
use crate::primitive::Primitive;
use crate::scalar::list::{OptionList, OptionSlice, OptionSliceMut};

verus! {

/// Cell `j` of row `i` sits inside the span of `rows` rows of `ls` cells.
proof fn lemma_row_span(i: int, rows: int, ls: int)
    by (nonlinear_arith)
    requires
        0 <= i < rows,
        0 <= ls,
    ensures
        0 <= i * ls,
        i * ls + ls <= rows * ls,
{
}

/// A flat cell position determines its row and intra-row position.
proof fn lemma_cell_unique(i1: int, j1: int, i2: int, j2: int, ls: int)
    by (nonlinear_arith)
    requires
        0 <= i1,
        0 <= i2,
        0 <= j1 < ls,
        0 <= j2 < ls,
        i1 * ls + j1 == i2 * ls + j2,
    ensures
        i1 == i2,
        j1 == j2,
{
}

/// With at least one cell per row, there are no more rows than cells.
proof fn lemma_rows_le_cells(rows: int, ls: int)
    by (nonlinear_arith)
    requires
        0 <= rows,
        1 <= ls,
    ensures
        rows <= rows * ls,
{
}

/// A column of variable-length lists: one flat data buffer plus the
/// non-decreasing sequence of cumulative end offsets; row `i` occupies
/// `data[offsets[i-1]..offsets[i]]`, with an implicit leading offset of zero.
pub struct ListArray<P> {
    data: Vec<P>,
    offsets: Vec<usize>,
}

impl<P: Primitive> View for ListArray<P> {
    type V = Seq<Seq<P>>;

    closed spec fn view(&self) -> Seq<Seq<P>> {
        Seq::new(
            self.offsets@.len(),
            |i: int| self.data@.subrange(self.start_of(i), self.offsets@[i] as int),
        )
    }
}

impl<P: Primitive> ListArray<P> {
    /// Where row `i` starts in the flat buffer.
    pub closed spec fn start_of(&self, i: int) -> int {
        if i == 0 {
            0
        } else {
            self.offsets@[i - 1] as int
        }
    }

    /// The cumulative end-offset sequence; its length equals the row count.
    pub closed spec fn end_offsets(&self) -> Seq<usize> {
        self.offsets@
    }

    pub closed spec fn wf(&self) -> bool {
        &&& forall|i: int, j: int|
            0 <= i <= j < self.offsets@.len() ==> self.offsets@[i] <= self.offsets@[j]
        &&& forall|i: int| 0 <= i < self.offsets@.len() ==> self.offsets@[i] <= self.data@.len()
        &&& (if self.offsets@.len() > 0 {
            self.offsets@[self.offsets@.len() - 1] as int
        } else {
            0
        }) == self.data@.len()
    }

    /// The end-offset sequence never decreases and has one entry per row.
    pub proof fn lemma_offsets_monotone(&self)
        requires
            self.wf(),
        ensures
            self.end_offsets().len() == self@.len(),
            forall|i: int, j: int|
                0 <= i <= j < self.end_offsets().len() ==> self.end_offsets()[i]
                    <= self.end_offsets()[j],
    {
    }

    pub fn new() -> (r: Self)
        ensures
            r.wf(),
            r@ == Seq::<Seq<P>>::empty(),
    {
        let r = ListArray { data: Vec::new(), offsets: Vec::new() };
        proof {
            assert(r@ =~= Seq::<Seq<P>>::empty());
        }
        r
    }

    /// Appends one row: the flat buffer grows by the row's elements and a new
    /// end offset records the new buffer length.
    pub fn push(&mut self, item: Vec<P>)
        requires
            old(self).wf(),
        ensures
            final(self).wf(),
            final(self)@ == old(self)@.push(item@),
    {
        let ghost old_item = item@;
        let mut item = item;
        self.data.append(&mut item);
        self.offsets.push(self.data.len());
        proof {
            assert forall|i: int| 0 <= i < self@.len() implies self@[i] == old(self)@.push(
                old_item,
            )[i] by {
                if i < old(self)@.len() {
                    assert(self.data@.subrange(self.start_of(i), self.offsets@[i] as int)
                        =~= old(self).data@.subrange(
                        old(self).start_of(i),
                        old(self).offsets@[i] as int,
                    ));
                } else {
                    assert(self.data@.subrange(self.start_of(i), self.offsets@[i] as int)
                        =~= old_item);
                }
            }
            assert(self@ =~= old(self)@.push(old_item));
        }
    }

    /// Appends an empty row: only a new end offset is recorded.
    pub fn push_zero(&mut self)
        requires
            old(self).wf(),
        ensures
            final(self).wf(),
            final(self)@ == old(self)@.push(Seq::<P>::empty()),
    {
        self.offsets.push(self.data.len());
        proof {
            assert forall|i: int| 0 <= i < self@.len() implies self@[i] == old(self)@.push(
                Seq::<P>::empty(),
            )[i] by {
                if i < old(self)@.len() {
                    assert(self.data@.subrange(self.start_of(i), self.offsets@[i] as int)
                        =~= old(self).data@.subrange(
                        old(self).start_of(i),
                        old(self).offsets@[i] as int,
                    ));
                } else {
                    assert(self.data@.subrange(self.start_of(i), self.offsets@[i] as int)
                        =~= Seq::<P>::empty());
                }
            }
            assert(self@ =~= old(self)@.push(Seq::<P>::empty()));
        }
    }

    /// Bounds-checked read of one row, copied out of the flat buffer.
    pub fn get(&self, offset: usize) -> (r: Option<Vec<P>>)
        requires
            self.wf(),
        ensures
            offset < self@.len() ==> r is Some && r->Some_0@ == self@[offset as int],
            offset >= self@.len() ==> r is None,
    {
        if offset < self.offsets.len() {
            Some(self.get_unchecked(offset))
        } else {
            None
        }
    }

    /// Unchecked read of one row; the caller must establish that `offset` is
    /// in range.
    pub fn get_unchecked(&self, offset: usize) -> (r: Vec<P>)
        requires
            self.wf(),
            offset < self@.len(),
        ensures
            r@ == self@[offset as int],
    {
        let end = self.offsets[offset];
        let start = if offset != 0 {
            self.offsets[offset - 1]
        } else {
            0
        };
        crate::copy_range(&self.data, start, end)
    }

    /// Overwrites element `k` of row `offset` in place; a row's length never
    /// changes.
    pub fn set(&mut self, offset: usize, k: usize, value: P)
        requires
            old(self).wf(),
            offset < old(self)@.len(),
            k < old(self)@[offset as int].len(),
        ensures
            final(self).wf(),
            final(self)@ == old(self)@.update(
                offset as int,
                old(self)@[offset as int].update(k as int, value),
            ),
    {
        let start = if offset != 0 {
            self.offsets[offset - 1]
        } else {
            0
        };
        let pos = start + k;
        self.data[pos] = value;
        proof {
            assert forall|i: int| 0 <= i < self@.len() implies self@[i] == old(self)@.update(
                offset as int,
                old(self)@[offset as int].update(k as int, value),
            )[i] by {
                if i == offset {
                    assert(self@[i] =~= old(self)@[offset as int].update(k as int, value));
                } else {
                    if i < offset {
                        assert(old(self).offsets@[i] <= old(self).offsets@[offset - 1]);
                    } else {
                        assert(old(self).offsets@[offset as int] <= old(self).offsets@[i - 1]);
                    }
                    assert(self@[i] =~= old(self)@[i]);
                }
            }
            assert(self@ =~= old(self)@.update(
                offset as int,
                old(self)@[offset as int].update(k as int, value),
            ));
        }
    }

    pub fn len(&self) -> (r: usize)
        ensures
            r == self@.len(),
    {
        self.offsets.len()
    }

    pub fn is_empty(&self) -> (r: bool)
        ensures
            r == (self@.len() == 0),
    {
        self.offsets.len() == 0
    }
}

impl<P: Primitive> Default for ListArray<P> {
    fn default() -> (r: Self)
        ensures
            r.wf(),
            r@ == Seq::<Seq<P>>::empty(),
    {
        ListArray::new()
    }
}

impl<P: Primitive> Array for ListArray<P> {
    type ItemModel = Seq<P>;

    open spec fn model(&self) -> Seq<Seq<P>> {
        self@
    }

    open spec fn inv(&self) -> bool {
        self.wf()
    }

    open spec fn zero_model(&self) -> Seq<P> {
        Seq::<P>::empty()
    }

    open spec fn can_grow(&self) -> bool {
        true
    }

    fn push_zero(&mut self) {
        self.push_zero()
    }

    fn len(&self) -> usize {
        self.len()
    }

    fn is_empty(&self) -> bool {
        self.is_empty()
    }
}

/// A column of nullable fixed-size lists: every logical row occupies exactly
/// `list_size` consecutive cells of a validity bit vector and of a flat data
/// buffer; a cell whose bit is clear reads as absent.
pub struct OptionListArray<P> {
    validity: BitVec,
    data: Vec<P>,
    list_size: usize,
    len: usize,
}

impl<P: Primitive> View for OptionListArray<P> {
    type V = Seq<Seq<Option<P>>>;

    closed spec fn view(&self) -> Seq<Seq<Option<P>>> {
        Seq::new(self.len as nat, |i: int| self.row(i))
    }
}

impl<P: Primitive> OptionListArray<P> {
    /// Row `i` as a sequence of optional cells.
    closed spec fn row(&self, i: int) -> Seq<Option<P>> {
        Seq::new(
            self.list_size as nat,
            |j: int|
                if self.validity@[i * self.list_size + j] {
                    Some(self.data@[i * self.list_size + j])
                } else {
                    None
                },
        )
    }

    /// The fixed number of cells per row.
    pub closed spec fn spec_list_size(&self) -> int {
        self.list_size as int
    }

    /// The validity bits of all cells, row-major.
    pub closed spec fn bits(&self) -> Seq<bool> {
        self.validity@
    }

    /// The raw data cells, row-major, including the payloads stored under
    /// cleared bits.
    pub closed spec fn stored(&self) -> Seq<P> {
        self.data@
    }

    /// The column's rows are read off its validity bits and data cells.
    pub proof fn lemma_view_from_parts(&self)
        requires
            self.wf(),
        ensures
            self@ == Seq::new(
                self@.len(),
                |i: int|
                    Seq::new(
                        self.spec_list_size() as nat,
                        |j: int|
                            if self.bits()[i * self.spec_list_size() + j] {
                                Some(self.stored()[i * self.spec_list_size() + j])
                            } else {
                                None
                            },
                    ),
            ),
    {
        assert(self@ =~~= Seq::new(
            self@.len(),
            |i: int|
                Seq::new(
                    self.spec_list_size() as nat,
                    |j: int|
                        if self.bits()[i * self.spec_list_size() + j] {
                            Some(self.stored()[i * self.spec_list_size() + j])
                        } else {
                            None
                        },
                ),
        ));
    }

    pub closed spec fn wf(&self) -> bool {
        &&& self.validity.wf()
        &&& self.validity@.len() == self.data@.len()
        &&& self.list_size >= 1
        &&& self.data@.len() == self.len * self.list_size
    }

    pub fn new(list_size: usize) -> (r: Self)
        requires
            list_size >= 1,
        ensures
            r.wf(),
            r@ == Seq::<Seq<Option<P>>>::empty(),
            r.spec_list_size() == list_size,
    {
        let r = OptionListArray { validity: BitVec::new(), data: Vec::new(), list_size, len: 0 };
        proof {
            assert(r@ =~= Seq::<Seq<Option<P>>>::empty());
        }
        r
    }

    pub fn with_capacity(capacity: usize, list_size: usize) -> (r: Self)
        requires
            list_size >= 1,
            capacity * list_size <= usize::MAX,
        ensures
            r.wf(),
            r@ == Seq::<Seq<Option<P>>>::empty(),
            r.spec_list_size() == list_size,
    {
        let cells = capacity * list_size;
        let r = OptionListArray {
            validity: BitVec::with_capacity(cells),
            data: Vec::with_capacity(cells),
            list_size,
            len: 0,
        };
        proof {
            assert(r@ =~= Seq::<Seq<Option<P>>>::empty());
        }
        r
    }

    /// Appends one cell to the backing buffers without closing a row.
    fn push_cell(&mut self, c: Option<P>)
        requires
            old(self).validity.wf(),
            old(self).validity@.len() == old(self).data@.len(),
            old(self).data@.len() < usize::MAX,
        ensures
            final(self).validity.wf(),
            final(self).validity@ == old(self).validity@.push(c is Some),
            final(self).data@ == old(self).data@.push(
                match c {
                    Some(v) => v,
                    None => P::zero_spec(),
                },
            ),
            final(self).list_size == old(self).list_size,
            final(self).len == old(self).len,
    {
        match c {
            Some(v) => {
                self.validity.push(true);
                self.data.push(v);
            },
            None => {
                self.validity.push(false);
                self.data.push(P::zero());
            },
        }
    }

    /// Appends one logical row, cell by cell.
    pub fn push(&mut self, item: &OptionList<P>)
        requires
            old(self).wf(),
            item.wf(),
            item@.len() == old(self).spec_list_size(),
            (old(self)@.len() + 1) * old(self).spec_list_size() <= usize::MAX,
        ensures
            final(self).wf(),
            final(self)@ == old(self)@.push(item@),
            final(self).spec_list_size() == old(self).spec_list_size(),
    {
        let ghost ls = self.list_size as int;
        let ghost cells0 = old(self).data@.len() as int;
        let ghost rows0 = old(self).len as int;
        proof {
            assert(cells0 + ls <= usize::MAX) by (nonlinear_arith)
                requires
                    cells0 == rows0 * ls,
                    (rows0 + 1) * ls <= usize::MAX,
            ;
        }
        let mut j: usize = 0;
        while j < self.list_size
            invariant
                old(self).wf(),
                item.wf(),
                item@.len() == ls,
                old(self).data@.len() + ls <= usize::MAX,
                self.list_size == old(self).list_size,
                self.len == old(self).len,
                ls == self.list_size as int,
                j <= self.list_size,
                self.validity.wf(),
                self.validity@.len() == self.data@.len(),
                self.validity@ == old(self).validity@ + Seq::new(
                    j as nat,
                    |k: int| item@[k] is Some,
                ),
                self.data@ == old(self).data@ + Seq::new(
                    j as nat,
                    |k: int|
                        match item@[k] {
                            Some(v) => v,
                            None => P::zero_spec(),
                        },
                ),
            decreases self.list_size - j,
        {
            let c = item.get(j);
            self.push_cell(c);
            proof {
                assert(self.validity@ =~= old(self).validity@ + Seq::new(
                    (j + 1) as nat,
                    |k: int| item@[k] is Some,
                ));
                assert(self.data@ =~= old(self).data@ + Seq::new(
                    (j + 1) as nat,
                    |k: int|
                        match item@[k] {
                            Some(v) => v,
                            None => P::zero_spec(),
                        },
                ));
            }
            j = j + 1;
        }
        proof {
            lemma_rows_le_cells(self.len as int, ls);
        }
        self.len = self.len + 1;
        proof {
            let ghost cells1 = self.data@.len() as int;
            let ghost rows1 = self.len as int;
            assert(cells1 == rows1 * ls) by (nonlinear_arith)
                requires
                    cells1 == cells0 + ls,
                    cells0 == rows0 * ls,
                    rows1 == rows0 + 1,
            ;
            assert forall|i: int| 0 <= i < self@.len() implies self@[i] == old(self)@.push(
                item@,
            )[i] by {
                lemma_row_span(i, self.len as int, ls);
                if i < old(self).len {
                    assert forall|k: int| 0 <= k < ls implies self.row(i)[k] == old(self).row(
                        i,
                    )[k] by {
                        lemma_row_span(i, rows0, ls);
                        assert(i * ls + k < cells0);
                    }
                    assert(self.row(i) =~= old(self).row(i));
                } else {
                    assert forall|k: int| 0 <= k < ls implies self.row(i)[k] == item@[k] by {
                        assert(i * ls + k == cells0 + k) by (nonlinear_arith)
                            requires
                                i == rows0,
                                cells0 == rows0 * ls,
                        ;
                    }
                    assert(self.row(i) =~= item@);
                }
            }
            assert(self@ =~= old(self)@.push(item@));
        }
    }

    /// Appends one all-absent row.
    pub fn push_zero(&mut self)
        requires
            old(self).wf(),
            (old(self)@.len() + 1) * old(self).spec_list_size() <= usize::MAX,
        ensures
            final(self).wf(),
            final(self)@ == old(self)@.push(
                Seq::new(old(self).spec_list_size() as nat, |j: int| None::<P>),
            ),
            final(self).spec_list_size() == old(self).spec_list_size(),
    {
        let ghost ls = self.list_size as int;
        let ghost cells0 = old(self).data@.len() as int;
        let ghost rows0 = old(self).len as int;
        proof {
            assert(cells0 + ls <= usize::MAX) by (nonlinear_arith)
                requires
                    cells0 == rows0 * ls,
                    (rows0 + 1) * ls <= usize::MAX,
            ;
        }
        let mut j: usize = 0;
        while j < self.list_size
            invariant
                old(self).wf(),
                old(self).data@.len() + ls <= usize::MAX,
                self.list_size == old(self).list_size,
                self.len == old(self).len,
                ls == self.list_size as int,
                j <= self.list_size,
                self.validity.wf(),
                self.validity@.len() == self.data@.len(),
                self.validity@ == old(self).validity@ + Seq::new(j as nat, |k: int| false),
                self.data@ == old(self).data@ + Seq::new(j as nat, |k: int| P::zero_spec()),
            decreases self.list_size - j,
        {
            self.push_cell(None);
            proof {
                assert(self.validity@ =~= old(self).validity@ + Seq::new(
                    (j + 1) as nat,
                    |k: int| false,
                ));
                assert(self.data@ =~= old(self).data@ + Seq::new(
                    (j + 1) as nat,
                    |k: int| P::zero_spec(),
                ));
            }
            j = j + 1;
        }
        proof {
            lemma_rows_le_cells(self.len as int, ls);
        }
        self.len = self.len + 1;
        proof {
            let ghost cells1 = self.data@.len() as int;
            let ghost rows1 = self.len as int;
            assert(cells1 == rows1 * ls) by (nonlinear_arith)
                requires
                    cells1 == cells0 + ls,
                    cells0 == rows0 * ls,
                    rows1 == rows0 + 1,
            ;
            assert forall|i: int| 0 <= i < self@.len() implies self@[i] == old(self)@.push(
                Seq::new(ls as nat, |j: int| None::<P>),
            )[i] by {
                lemma_row_span(i, self.len as int, ls);
                if i < old(self).len {
                    assert forall|k: int| 0 <= k < ls implies self.row(i)[k] == old(self).row(
                        i,
                    )[k] by {
                        lemma_row_span(i, rows0, ls);
                        assert(i * ls + k < cells0);
                    }
                    assert(self.row(i) =~= old(self).row(i));
                } else {
                    assert forall|k: int| 0 <= k < ls implies self.row(i)[k] == None::<P> by {
                        assert(i * ls + k == cells0 + k) by (nonlinear_arith)
                            requires
                                i == rows0,
                                cells0 == rows0 * ls,
                        ;
                    }
                    assert(self.row(i) =~= Seq::new(ls as nat, |j: int| None::<P>));
                }
            }
            assert(self@ =~= old(self)@.push(Seq::new(ls as nat, |j: int| None::<P>)));
        }
    }

    /// Bounds-checked read of one row as an optional-cell view.
    pub fn get(&self, id: usize) -> (r: Option<OptionSlice<P>>)
        requires
            self.wf(),
        ensures
            id < self@.len() ==> r is Some && r->Some_0.wf() && r->Some_0@ == self@[id as int],
            id >= self@.len() ==> r is None,
    {
        if id < self.len {
            Some(self.get_unchecked(id))
        } else {
            None
        }
    }

    /// Unchecked read of one row; the caller must establish that `id` is in
    /// range.
    pub fn get_unchecked(&self, id: usize) -> (r: OptionSlice<P>)
        requires
            self.wf(),
            id < self@.len(),
        ensures
            r.wf(),
            r@ == self@[id as int],
    {
        let total = self.data.len();
        proof {
            lemma_row_span(id as int, self.len as int, self.list_size as int);
            assert(id * self.list_size + self.list_size <= total);
        }
        let start = id * self.list_size;
        let end = start + self.list_size;
        let v = self.validity.slice(start, end);
        let d = crate::copy_range(&self.data, start, end);
        let r = OptionSlice::from_parts(v, d);
        proof {
            assert(r@ =~= self@[id as int]);
        }
        r
    }

    /// Unchecked write view of one row; the caller must establish that `id`
    /// is in range. Writes through the view land in this column's buffers.
    pub fn get_unchecked_mut(&mut self, id: usize) -> (r: OptionSliceMut<'_, P>)
        requires
            old(self).wf(),
            id < old(self)@.len(),
        ensures
            r.wf(),
            r.spec_start() == id * old(self).spec_list_size(),
            r@ == old(self)@[id as int],
            r.bits_now() == old(self).bits(),
            r.stored_now() == old(self).stored(),
            final(self).bits() == final(r.validity)@,
            final(self).stored() == final(r.data)@,
            final(self).spec_list_size() == old(self).spec_list_size(),
            final(self)@.len() == old(self)@.len(),
            final(r.validity).wf() && final(r.validity)@.len() == old(self).bits().len()
                && final(r.data)@.len() == old(self).stored().len() ==> final(self).wf(),
    {
        let total = self.data.len();
        proof {
            lemma_row_span(id as int, self.len as int, self.list_size as int);
        }
        let start = id * self.list_size;
        let r = OptionSliceMut {
            start,
            len: self.list_size,
            validity: &mut self.validity,
            data: &mut self.data,
        };
        proof {
            assert(r@ =~= old(self)@[id as int]);
        }
        r
    }

    /// Overwrites one cell of one row; writing absence clears the cell's
    /// validity bit and leaves the stored payload unchanged.
    pub fn set(&mut self, id: usize, n: usize, value: Option<P>)
        requires
            old(self).wf(),
            id < old(self)@.len(),
            n < old(self).spec_list_size(),
        ensures
            final(self).wf(),
            final(self)@ == old(self)@.update(
                id as int,
                old(self)@[id as int].update(n as int, value),
            ),
            final(self).spec_list_size() == old(self).spec_list_size(),
    {
        let total = self.data.len();
        proof {
            lemma_row_span(id as int, self.len as int, self.list_size as int);
            assert(id * self.list_size + n < total);
        }
        let pos = id * self.list_size + n;
        match value {
            Some(v) => {
                self.validity.set(pos, true);
                self.data[pos] = v;
            },
            None => {
                self.validity.set(pos, false);
            },
        }
        proof {
            let ghost ls = self.list_size as int;
            assert forall|i: int| 0 <= i < self@.len() implies self@[i] == old(self)@.update(
                id as int,
                old(self)@[id as int].update(n as int, value),
            )[i] by {
                lemma_row_span(i, self.len as int, ls);
                assert forall|k: int| 0 <= k < ls implies self.row(i)[k] == old(self)@.update(
                    id as int,
                    old(self)@[id as int].update(n as int, value),
                )[i][k] by {
                    if i * ls + k == id as int * ls + n {
                        lemma_cell_unique(i, k, id as int, n as int, ls);
                    }
                }
                assert(self.row(i) =~= old(self)@.update(
                    id as int,
                    old(self)@[id as int].update(n as int, value),
                )[i]);
            }
            assert(self@ =~= old(self)@.update(
                id as int,
                old(self)@[id as int].update(n as int, value),
            ));
        }
    }

    pub fn len(&self) -> (r: usize)
        ensures
            r == self@.len(),
    {
        self.len
    }

    pub fn is_empty(&self) -> (r: bool)
        ensures
            r == (self@.len() == 0),
    {
        self.len == 0
    }

    /// The fixed number of cells per row.
    pub fn list_size(&self) -> (r: usize)
        ensures
            r == self.spec_list_size(),
    {
        self.list_size
    }
}

impl<P: Primitive> Array for OptionListArray<P> {
    type ItemModel = Seq<Option<P>>;

    open spec fn model(&self) -> Seq<Seq<Option<P>>> {
        self@
    }

    open spec fn inv(&self) -> bool {
        self.wf()
    }

    open spec fn zero_model(&self) -> Seq<Option<P>> {
        Seq::new(self.spec_list_size() as nat, |j: int| None::<P>)
    }

    open spec fn can_grow(&self) -> bool {
        (self@.len() + 1) * self.spec_list_size() <= usize::MAX
    }

    fn push_zero(&mut self) {
        self.push_zero()
    }

    fn len(&self) -> usize {
        self.len()
    }

    fn is_empty(&self) -> bool {
        self.is_empty()
    }
}

/// A column of fixed-size lists: the flat buffer's length is always an exact
/// multiple of the compile-time chunk size `SIZE`, and row `i` occupies
/// `data[i*SIZE..(i+1)*SIZE]`.
pub struct ConstSizeListArray<P, const SIZE: usize> {
    data: Vec<P>,
    len: usize,
}

impl<P: Primitive, const SIZE: usize> View for ConstSizeListArray<P, SIZE> {
    type V = Seq<Seq<P>>;

    closed spec fn view(&self) -> Seq<Seq<P>> {
        Seq::new(
            self.len as nat,
            |i: int| self.data@.subrange(i * SIZE, i * SIZE + SIZE),
        )
    }
}

impl<P: Primitive, const SIZE: usize> ConstSizeListArray<P, SIZE> {
    pub closed spec fn wf(&self) -> bool {
        &&& SIZE >= 1
        &&& self.data@.len() == self.len * SIZE
    }

    pub fn new() -> (r: Self)
        requires
            SIZE >= 1,
        ensures
            r.wf(),
            r@ == Seq::<Seq<P>>::empty(),
    {
        let r = ConstSizeListArray { data: Vec::new(), len: 0 };
        proof {
            assert(r@ =~= Seq::<Seq<P>>::empty());
        }
        r
    }

    /// Appends one logical row of exactly `SIZE` elements.
    pub fn push(&mut self, item: [P; SIZE])
        requires
            old(self).wf(),
            (old(self)@.len() + 1) * SIZE <= usize::MAX,
        ensures
            final(self).wf(),
            final(self)@ == old(self)@.push(item@),
    {
        let ghost ls = SIZE as int;
        let ghost cells0 = self.data@.len() as int;
        let ghost rows0 = self.len as int;
        proof {
            assert(cells0 + ls <= usize::MAX) by (nonlinear_arith)
                requires
                    cells0 == rows0 * ls,
                    (rows0 + 1) * ls <= usize::MAX,
            ;
        }
        let mut j: usize = 0;
        while j < SIZE
            invariant
                old(self).wf(),
                cells0 == old(self).data@.len(),
                rows0 == old(self).len,
                cells0 + SIZE <= usize::MAX,
                self.len == old(self).len,
                j <= SIZE,
                self.data@ == old(self).data@ + item@.subrange(0, j as int),
            decreases SIZE - j,
        {
            self.data.push(item[j]);
            proof {
                assert(item@.subrange(0, j + 1 as int) =~= item@.subrange(0, j as int).push(
                    item@[j as int],
                ));
            }
            j = j + 1;
        }
        proof {
            lemma_rows_le_cells(rows0, SIZE as int);
        }
        self.len = self.len + 1;
        proof {
            let ghost cells1 = self.data@.len() as int;
            let ghost rows1 = self.len as int;
            assert(cells1 == rows1 * ls) by (nonlinear_arith)
                requires
                    cells1 == cells0 + ls,
                    cells0 == rows0 * ls,
                    rows1 == rows0 + 1,
            ;
            assert(item@.subrange(0, SIZE as int) =~= item@);
            assert forall|i: int| 0 <= i < self@.len() implies self@[i] == old(self)@.push(
                item@,
            )[i] by {
                lemma_row_span(i, self.len as int, ls);
                if i < rows0 {
                    lemma_row_span(i, rows0, ls);
                    assert forall|k: int| 0 <= k < ls implies self@[i][k] == old(self)@[i][k] by {
                        assert(i * ls + k < cells0);
                    }
                    assert(self@[i] =~= old(self)@[i]);
                } else {
                    assert forall|k: int| 0 <= k < ls implies self@[i][k] == item@[k] by {
                        assert(i * ls + k == cells0 + k) by (nonlinear_arith)
                            requires
                                i == rows0,
                                cells0 == rows0 * ls,
                        ;
                    }
                    assert(self@[i] =~= item@);
                }
            }
            assert(self@ =~= old(self)@.push(item@));
        }
    }

    /// Appends one row of zeros.
    pub fn push_zero(&mut self)
        requires
            old(self).wf(),
            (old(self)@.len() + 1) * SIZE <= usize::MAX,
        ensures
            final(self).wf(),
            final(self)@ == old(self)@.push(Seq::new(SIZE as nat, |j: int| P::zero_spec())),
    {
        let ghost ls = SIZE as int;
        let ghost cells0 = self.data@.len() as int;
        let ghost rows0 = self.len as int;
        proof {
            assert(cells0 + ls <= usize::MAX) by (nonlinear_arith)
                requires
                    cells0 == rows0 * ls,
                    (rows0 + 1) * ls <= usize::MAX,
            ;
        }
        let mut j: usize = 0;
        while j < SIZE
            invariant
                old(self).wf(),
                cells0 == old(self).data@.len(),
                rows0 == old(self).len,
                cells0 + SIZE <= usize::MAX,
                self.len == old(self).len,
                j <= SIZE,
                self.data@ == old(self).data@ + Seq::new(j as nat, |k: int| P::zero_spec()),
            decreases SIZE - j,
        {
            self.data.push(P::zero());
            proof {
                assert(self.data@ =~= old(self).data@ + Seq::new(
                    (j + 1) as nat,
                    |k: int| P::zero_spec(),
                ));
            }
            j = j + 1;
        }
        proof {
            lemma_rows_le_cells(rows0, SIZE as int);
        }
        self.len = self.len + 1;
        proof {
            let ghost cells1 = self.data@.len() as int;
            let ghost rows1 = self.len as int;
            assert(cells1 == rows1 * ls) by (nonlinear_arith)
                requires
                    cells1 == cells0 + ls,
                    cells0 == rows0 * ls,
                    rows1 == rows0 + 1,
            ;
            assert forall|i: int| 0 <= i < self@.len() implies self@[i] == old(self)@.push(
                Seq::new(SIZE as nat, |j: int| P::zero_spec()),
            )[i] by {
                lemma_row_span(i, self.len as int, ls);
                if i < rows0 {
                    lemma_row_span(i, rows0, ls);
                    assert forall|k: int| 0 <= k < ls implies self@[i][k] == old(self)@[i][k] by {
                        assert(i * ls + k < cells0);
                    }
                    assert(self@[i] =~= old(self)@[i]);
                } else {
                    assert forall|k: int| 0 <= k < ls implies self@[i][k] == P::zero_spec() by {
                        assert(i * ls + k == cells0 + k) by (nonlinear_arith)
                            requires
                                i == rows0,
                                cells0 == rows0 * ls,
                        ;
                    }
                    assert(self@[i] =~= Seq::new(SIZE as nat, |j: int| P::zero_spec()));
                }
            }
            assert(self@ =~= old(self)@.push(Seq::new(SIZE as nat, |j: int| P::zero_spec())));
        }
    }

    /// Bounds-checked read of one row, copied out of the flat buffer.
    pub fn get(&self, id: usize) -> (r: Option<Vec<P>>)
        requires
            self.wf(),
        ensures
            id < self@.len() ==> r is Some && r->Some_0@ == self@[id as int],
            id >= self@.len() ==> r is None,
    {
        if id < self.len {
            Some(self.get_unchecked(id))
        } else {
            None
        }
    }

    /// Unchecked read of one row; the caller must establish that `id` is in
    /// range.
    pub fn get_unchecked(&self, id: usize) -> (r: Vec<P>)
        requires
            self.wf(),
            id < self@.len(),
        ensures
            r@ == self@[id as int],
    {
        let total = self.data.len();
        proof {
            lemma_row_span(id as int, self.len as int, SIZE as int);
            assert(id * SIZE + SIZE <= total);
        }
        let start = id * SIZE;
        let end = start + SIZE;
        crate::copy_range(&self.data, start, end)
    }

    /// Overwrites one element of one row.
    pub fn set(&mut self, id: usize, n: usize, value: P)
        requires
            old(self).wf(),
            id < old(self)@.len(),
            n < SIZE,
        ensures
            final(self).wf(),
            final(self)@ == old(self)@.update(
                id as int,
                old(self)@[id as int].update(n as int, value),
            ),
    {
        let total = self.data.len();
        proof {
            lemma_row_span(id as int, self.len as int, SIZE as int);
            assert(id * SIZE + n < total);
        }
        let pos = id * SIZE + n;
        self.data[pos] = value;
        proof {
            let ghost ls = SIZE as int;
            assert forall|i: int| 0 <= i < self@.len() implies self@[i] == old(self)@.update(
                id as int,
                old(self)@[id as int].update(n as int, value),
            )[i] by {
                lemma_row_span(i, self.len as int, ls);
                assert forall|k: int| 0 <= k < ls implies self@[i][k] == old(self)@.update(
                    id as int,
                    old(self)@[id as int].update(n as int, value),
                )[i][k] by {
                    if i * ls + k == id as int * ls + n {
                        lemma_cell_unique(i, k, id as int, n as int, ls);
                    }
                }
                assert(self@[i] =~= old(self)@.update(
                    id as int,
                    old(self)@[id as int].update(n as int, value),
                )[i]);
            }
            assert(self@ =~= old(self)@.update(
                id as int,
                old(self)@[id as int].update(n as int, value),
            ));
        }
    }

    pub fn len(&self) -> (r: usize)
        ensures
            r == self@.len(),
    {
        self.len
    }

    pub fn is_empty(&self) -> (r: bool)
        ensures
            r == (self@.len() == 0),
    {
        self.len == 0
    }
}

impl<P: Primitive, const SIZE: usize> Array for ConstSizeListArray<P, SIZE> {
    type ItemModel = Seq<P>;

    open spec fn model(&self) -> Seq<Seq<P>> {
        self@
    }

    open spec fn inv(&self) -> bool {
        self.wf()
    }

    open spec fn zero_model(&self) -> Seq<P> {
        Seq::new(SIZE as nat, |j: int| P::zero_spec())
    }

    open spec fn can_grow(&self) -> bool {
        (self@.len() + 1) * SIZE <= usize::MAX
    }

    fn push_zero(&mut self) {
        self.push_zero()
    }

    fn len(&self) -> usize {
        self.len()
    }

    fn is_empty(&self) -> bool {
        self.is_empty()
    }
}

} // verus!
