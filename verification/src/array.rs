use vstd::prelude::*;

pub mod id;
pub mod list;
pub mod primitive;
pub mod slotmap;

verus! {

/// The uniform contract of the column containers: a growable sequence of
/// rows with a model, an internal invariant that constructors establish and
/// methods keep, and an append of the type's neutral row for materializing a
/// missing row.
pub trait Array: Sized {
    /// The model of one stored row.
    type ItemModel;

    /// The container's rows.
    spec fn model(&self) -> Seq<Self::ItemModel>;

    /// The container's internal invariant.
    spec fn inv(&self) -> bool;

    /// The neutral row that `push_zero` appends.
    spec fn zero_model(&self) -> Self::ItemModel;

    /// Whether one more row fits within machine limits.
    spec fn can_grow(&self) -> bool;

    /// Appends one neutral row.
    fn push_zero(&mut self)
        requires
            old(self).inv(),
            old(self).can_grow(),
        ensures
            final(self).inv(),
            final(self).model() == old(self).model().push(old(self).zero_model()),
    ;

    fn len(&self) -> (r: usize)
        requires
            self.inv(),
        ensures
            r == self.model().len(),
    ;

    fn is_empty(&self) -> (r: bool)
        requires
            self.inv(),
        ensures
            r == (self.model().len() == 0),
    ;
}

/// Appending a row grows a column's model by exactly one, leaves every
/// earlier row in place, and reading at the old length yields the appended
/// row: the push/get round trip, stated over the model every container's
/// `push` and `get` contracts are written in.
pub proof fn lemma_push_round_trip<T>(model: Seq<T>, item: T)
    ensures
        model.push(item).len() == model.len() + 1,
        model.push(item)[model.len() as int] == item,
        forall|i: int| 0 <= i < model.len() ==> model.push(item)[i] == model[i],
{
}

} // verus!
