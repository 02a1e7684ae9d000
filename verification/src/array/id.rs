use vstd::prelude::*;

use super::Array;
use crate::array::list::ListArray;
use crate::array::slotmap::{contains_row, distinct_rows, SlotMap};
use crate::primitive::Primitive;

verus! {

/// A dictionary-encoded nullable column of rows: each logical row stores a
/// small id into an interning dictionary; id 0 is reserved for "no value",
/// and id `n >= 1` refers to dictionary slot `n - 1`. Equal rows share one
/// slot.
pub struct IdArray<P> {
    values: SlotMap<P>,
    data: Vec<usize>,
}

impl<P: Primitive> View for IdArray<P> {
    type V = Seq<Option<Seq<P>>>;

    closed spec fn view(&self) -> Seq<Option<Seq<P>>> {
        Seq::new(
            self.data@.len(),
            |i: int|
                if self.data@[i] == 0 {
                    None
                } else {
                    Some(self.values.slots()[self.data@[i] - 1])
                },
        )
    }
}

impl<P: Primitive> IdArray<P> {
    /// The stored ids, one per logical row; 0 denotes "no value".
    pub closed spec fn ids(&self) -> Seq<usize> {
        self.data@
    }

    /// The interned rows of the backing dictionary, in slot order.
    pub closed spec fn slots(&self) -> Seq<Seq<P>> {
        self.values.slots()
    }

    pub closed spec fn wf(&self) -> bool {
        &&& self.values.wf()
        &&& forall|i: int|
            0 <= i < self.data@.len() ==> self.data@[i] <= self.values.slots().len()
    }

    /// A well-formed column's dictionary holds pairwise-distinct rows, so the
    /// dedup lemmas apply to its slots.
    pub proof fn lemma_slots_distinct(&self)
        requires
            self.wf(),
        ensures
            distinct_rows(self.slots()),
    {
        self.values.lemma_slots_distinct();
    }

    pub fn new(array: ListArray<P>) -> (r: Self)
        requires
            array.wf(),
            distinct_rows(array@),
        ensures
            r.wf(),
            r@ == Seq::<Option<Seq<P>>>::empty(),
            r.ids() == Seq::<usize>::empty(),
            r.slots() == array@,
    {
        let r = IdArray { values: SlotMap::new(array), data: Vec::new() };
        proof {
            assert(r@ =~= Seq::<Option<Seq<P>>>::empty());
        }
        r
    }

    pub fn with_capacity(capacity: usize, array: ListArray<P>) -> (r: Self)
        requires
            array.wf(),
            distinct_rows(array@),
        ensures
            r.wf(),
            r@ == Seq::<Option<Seq<P>>>::empty(),
            r.ids() == Seq::<usize>::empty(),
            r.slots() == array@,
    {
        let r = IdArray { values: SlotMap::new(array), data: Vec::with_capacity(capacity) };
        proof {
            assert(r@ =~= Seq::<Option<Seq<P>>>::empty());
        }
        r
    }

    /// Interns the value when present and appends the id it receives; absence
    /// appends the reserved id 0 without touching the dictionary. No inserted
    /// value is ever assigned id 0.
    pub fn push_and_get_id(&mut self, value: Option<Vec<P>>) -> (id: usize)
        requires
            old(self).wf(),
            old(self).slots().len() < usize::MAX,
        ensures
            final(self).wf(),
            final(self).ids() == old(self).ids().push(id),
            final(self)@ == old(self)@.push(
                match value {
                    Some(v) => Some(v@),
                    None => None,
                },
            ),
            value is None ==> id == 0 && final(self).slots() == old(self).slots(),
            value is Some ==> 1 <= id <= final(self).slots().len() && final(self).slots()[id - 1]
                == value->Some_0@,
            value is Some && contains_row(old(self).slots(), value->Some_0@) ==> final(self).slots() == old(self).slots(),
            value is Some && !contains_row(old(self).slots(), value->Some_0@) ==> final(self).slots() == old(self).slots().push(value->Some_0@) && id == old(self).slots().len() + 1,
    {
        match value {
            Some(v) => {
                let id = self.values.lookup_or_insert(v);
                self.data.push(id);
                proof {
                    assert forall|i: int| 0 <= i < self@.len() implies self@[i] == old(
                        self,
                    )@.push(Some(v@))[i] by {}
                    assert(self@ =~= old(self)@.push(Some(v@)));
                }
                id
            },
            None => {
                self.data.push(0);
                proof {
                    assert(self@ =~= old(self)@.push(None::<Seq<P>>));
                }
                0
            },
        }
    }

    /// Appends one logical row; a present row is interned and its id stored,
    /// an absent one is stored as the reserved id 0 without touching the
    /// dictionary.
    pub fn push(&mut self, item: Option<Vec<P>>)
        requires
            old(self).wf(),
            old(self).slots().len() < usize::MAX,
        ensures
            final(self).wf(),
            final(self)@ == old(self)@.push(
                match item {
                    Some(v) => Some(v@),
                    None => None,
                },
            ),
            final(self).ids() == old(self).ids().push(final(self).ids().last()),
            item is None ==> final(self).ids().last() == 0 && final(self).slots()
                == old(self).slots(),
            item is Some ==> 1 <= final(self).ids().last() <= final(self).slots().len()
                && final(self).slots()[final(self).ids().last() - 1] == item->Some_0@,
            item is Some && contains_row(old(self).slots(), item->Some_0@) ==> final(self).slots()
                == old(self).slots(),
            item is Some && !contains_row(old(self).slots(), item->Some_0@) ==> final(self).slots()
                == old(self).slots().push(item->Some_0@) && final(self).ids().last()
                == old(self).slots().len() + 1,
    {
        let _ = self.push_and_get_id(item);
    }

    /// Appends one absent row: the reserved id 0.
    pub fn push_zero(&mut self)
        requires
            old(self).wf(),
        ensures
            final(self).wf(),
            final(self)@ == old(self)@.push(None::<Seq<P>>),
            final(self).slots() == old(self).slots(),
            final(self).ids() == old(self).ids().push(0),
    {
        self.data.push(0);
        proof {
            assert(self@ =~= old(self)@.push(None::<Seq<P>>));
        }
    }

    /// Finds the id under which a row equal to `value` is interned, without
    /// inserting; absence means no row equal to `value` was ever interned.
    pub fn lookup_id(&self, value: &Vec<P>) -> (r: Option<usize>)
        requires
            self.wf(),
        ensures
            match r {
                Some(id) => 1 <= id <= self.slots().len() && self.slots()[id as int - 1]
                    == value@,
                None => !contains_row(self.slots(), value@),
            },
    {
        self.values.lookup(value)
    }

    /// Bounds-checked read: absence past the end; in range, an absent row
    /// reads as an inner absence and a present row as its interned value.
    pub fn get(&self, offset: usize) -> (r: Option<Option<Vec<P>>>)
        requires
            self.wf(),
        ensures
            offset >= self@.len() ==> r is None,
            offset < self@.len() ==> r is Some && (self@[offset as int] is None <==> r->Some_0
                is None) && (self@[offset as int] is Some ==> r->Some_0->Some_0@ == self@[
                offset as int
            ]->Some_0),
    {
        if offset >= self.data.len() {
            None
        } else {
            let id = self.data[offset];
            self.values.get(id)
        }
    }

    /// Unchecked read; the caller must establish that `offset` is in range.
    pub fn get_unchecked(&self, offset: usize) -> (r: Option<Vec<P>>)
        requires
            self.wf(),
            offset < self@.len(),
        ensures
            self@[offset as int] is None ==> r is None,
            self@[offset as int] is Some ==> r is Some && r->Some_0@ == self@[offset as int]
                ->Some_0,
    {
        self.values.get_unchecked(self.data[offset])
    }

    /// Edits one element of the interned value that row `offset` refers to,
    /// in place; every row sharing that value's id sees the change (the
    /// aliasing is the deduplication payoff). The row must not be absent, and
    /// the edit must keep the dictionary's rows pairwise distinct.
    pub fn set(&mut self, offset: usize, k: usize, value: P)
        requires
            old(self).wf(),
            offset < old(self)@.len(),
            old(self).ids()[offset as int] >= 1,
            k < old(self)@[offset as int]->Some_0.len(),
            forall|j: int|
                0 <= j < old(self).slots().len() && j != old(self).ids()[offset as int] - 1
                    ==> #[trigger] old(self).slots()[j] != old(self).slots()[old(self).ids()[
                    offset as int
                ] as int - 1].update(k as int, value),
        ensures
            final(self).wf(),
            final(self).ids() == old(self).ids(),
            final(self).slots() == old(self).slots().update(
                old(self).ids()[offset as int] as int - 1,
                old(self).slots()[old(self).ids()[offset as int] as int - 1].update(
                    k as int,
                    value,
                ),
            ),
            final(self)@ == Seq::new(
                old(self)@.len(),
                |i: int|
                    if old(self).ids()[i] == 0 {
                        None
                    } else {
                        Some(final(self).slots()[old(self).ids()[i] - 1])
                    },
            ),
    {
        let id = self.data[offset];
        proof {
            assert forall|j: int|
                0 <= j < self.values.slots().len() && j != id - 1 implies #[trigger] self.values.slots()[j]
                    != self.values.slots()[id as int - 1].update(k as int, value) by {
                assert(old(self).slots()[j] != old(self).slots()[old(self).ids()[
                    offset as int
                ] as int - 1].update(k as int, value));
            }
        }
        self.values.set(id, k, value);
        proof {
            assert(self@ =~= Seq::new(
                old(self)@.len(),
                |i: int|
                    if old(self).ids()[i] == 0 {
                        None
                    } else {
                        Some(self.slots()[old(self).ids()[i] - 1])
                    },
            ));
        }
    }

    pub fn len(&self) -> (r: usize)
        ensures
            r == self@.len(),
    {
        self.data.len()
    }

    pub fn is_empty(&self) -> (r: bool)
        ensures
            r == (self@.len() == 0),
    {
        self.data.len() == 0
    }
}

impl<P: Primitive> Array for IdArray<P> {
    type ItemModel = Option<Seq<P>>;

    open spec fn model(&self) -> Seq<Option<Seq<P>>> {
        self@
    }

    open spec fn inv(&self) -> bool {
        self.wf()
    }

    open spec fn zero_model(&self) -> Option<Seq<P>> {
        None
    }

    open spec fn can_grow(&self) -> bool {
        true
    }

    fn push_zero(&mut self) {
        self.push_zero()
    }

    fn len(&self) -> usize {
        self.len()
    }

    fn is_empty(&self) -> bool {
        self.is_empty()
    }
}

} // verus!
