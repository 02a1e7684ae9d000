use vstd::prelude::*;

pub mod list;

use crate::primitive::Primitive;
use crate::scalar::list::{OptionList, OptionSlice, OptionSliceMut};

verus! {

/// The borrowed-read form of a scalar: a second form of the same value,
/// whose model is the model of the owned form it came from.
pub trait ScalarRef: View + Sized {
    /// The owned form this view reads.
    type Owned: View<V = <Self as View>::V>;
}

/// A storable element in its owned form. Taking a read view preserves the
/// model, so equality of views is equality of the values they read.
pub trait Scalar: View + Sized {
    /// The borrowed-read form of the value.
    type ReadView: ScalarRef<Owned = Self> + View<V = <Self as View>::V>;

    /// What must hold of the value for a view to be taken.
    spec fn valid(&self) -> bool;

    /// A read view with the same model as the value itself.
    fn as_read(&self) -> (r: Self::ReadView)
        requires
            self.valid(),
        ensures
            r@ == self@,
    ;
}

/// The borrowed-write form of a scalar: it can always be given up for a
/// read view of what it currently holds.
pub trait ScalarMut: View + Sized {
    /// The owned form this view writes.
    type Owned: Scalar + View<V = <Self as View>::V>;

    /// What must hold of the view for it to be read.
    spec fn valid(&self) -> bool;

    /// Gives the write view up for a read view of the same value.
    fn as_ref(self) -> (r: <Self::Owned as Scalar>::ReadView)
        requires
            self.valid(),
        ensures
            r@ == self@,
    ;
}

impl<P: Primitive> ScalarRef for P {
    type Owned = P;
}

impl<P: Primitive> Scalar for P {
    type ReadView = P;

    open spec fn valid(&self) -> bool {
        true
    }

    fn as_read(&self) -> P {
        *self
    }
}

impl<P: Primitive> ScalarRef for Vec<P> {
    type Owned = Vec<P>;
}

impl<P: Primitive> Scalar for Vec<P> {
    type ReadView = Vec<P>;

    open spec fn valid(&self) -> bool {
        true
    }

    fn as_read(&self) -> (r: Vec<P>) {
        let r = crate::copy_range(self, 0, self.len());
        proof {
            assert(r@ =~= self@);
        }
        r
    }
}

impl<P: Primitive> ScalarRef for OptionSlice<P> {
    type Owned = OptionList<P>;
}

impl<'a, P: Primitive> ScalarMut for OptionSliceMut<'a, P> {
    type Owned = OptionList<P>;

    open spec fn valid(&self) -> bool {
        self.wf()
    }

    fn as_ref(self) -> OptionSlice<P> {
        self.as_ref()
    }
}

impl<P: Primitive> Scalar for OptionList<P> {
    type ReadView = OptionSlice<P>;

    open spec fn valid(&self) -> bool {
        self.wf()
    }

    fn as_read(&self) -> (r: OptionSlice<P>) {
        self.as_ref()
    }
}

} // verus!
