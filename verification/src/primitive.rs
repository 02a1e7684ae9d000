use vstd::prelude::*;

verus! {

/// A fixed-width element type that a column stores by value. It carries a
/// neutral "zero" value, used to materialize missing rows, and a decidable
/// structural equality.
pub trait Primitive: Sized + Copy + core::hash::Hash + View {
    /// The neutral value that `push_zero` stores.
    spec fn zero_spec() -> Self;

    fn zero() -> (r: Self)
        ensures
            r == Self::zero_spec(),
    ;

    fn eq_val(&self, other: &Self) -> (r: bool)
        ensures
            r == (*self == *other),
    ;
}

/// A primitive with subtraction, for elementwise differences of rows.
pub trait PrimitiveSub: Primitive {
    /// Whether `a - b` stays within the type's range.
    spec fn sub_ok(a: Self, b: Self) -> bool;

    spec fn sub_spec(a: Self, b: Self) -> Self;

    fn sub_val(a: Self, b: Self) -> (r: Self)
        requires
            Self::sub_ok(a, b),
        ensures
            r == Self::sub_spec(a, b),
    ;
}

impl Primitive for bool {
    open spec fn zero_spec() -> Self {
        false
    }

    fn zero() -> Self {
        false
    }

    fn eq_val(&self, other: &Self) -> bool {
        *self == *other
    }
}

impl Primitive for u8 {
    open spec fn zero_spec() -> Self {
        0
    }

    fn zero() -> Self {
        0
    }

    fn eq_val(&self, other: &Self) -> bool {
        *self == *other
    }
}

impl Primitive for u16 {
    open spec fn zero_spec() -> Self {
        0
    }

    fn zero() -> Self {
        0
    }

    fn eq_val(&self, other: &Self) -> bool {
        *self == *other
    }
}

impl Primitive for u32 {
    open spec fn zero_spec() -> Self {
        0
    }

    fn zero() -> Self {
        0
    }

    fn eq_val(&self, other: &Self) -> bool {
        *self == *other
    }
}

impl Primitive for u64 {
    open spec fn zero_spec() -> Self {
        0
    }

    fn zero() -> Self {
        0
    }

    fn eq_val(&self, other: &Self) -> bool {
        *self == *other
    }
}

impl Primitive for i8 {
    open spec fn zero_spec() -> Self {
        0
    }

    fn zero() -> Self {
        0
    }

    fn eq_val(&self, other: &Self) -> bool {
        *self == *other
    }
}

impl Primitive for i16 {
    open spec fn zero_spec() -> Self {
        0
    }

    fn zero() -> Self {
        0
    }

    fn eq_val(&self, other: &Self) -> bool {
        *self == *other
    }
}

impl Primitive for i32 {
    open spec fn zero_spec() -> Self {
        0
    }

    fn zero() -> Self {
        0
    }

    fn eq_val(&self, other: &Self) -> bool {
        *self == *other
    }
}

impl Primitive for i64 {
    open spec fn zero_spec() -> Self {
        0
    }

    fn zero() -> Self {
        0
    }

    fn eq_val(&self, other: &Self) -> bool {
        *self == *other
    }
}

impl PrimitiveSub for u8 {
    open spec fn sub_ok(a: Self, b: Self) -> bool {
        b <= a
    }

    open spec fn sub_spec(a: Self, b: Self) -> Self {
        (a - b) as u8
    }

    fn sub_val(a: Self, b: Self) -> Self {
        a - b
    }
}

impl PrimitiveSub for u16 {
    open spec fn sub_ok(a: Self, b: Self) -> bool {
        b <= a
    }

    open spec fn sub_spec(a: Self, b: Self) -> Self {
        (a - b) as u16
    }

    fn sub_val(a: Self, b: Self) -> Self {
        a - b
    }
}

impl PrimitiveSub for u32 {
    open spec fn sub_ok(a: Self, b: Self) -> bool {
        b <= a
    }

    open spec fn sub_spec(a: Self, b: Self) -> Self {
        (a - b) as u32
    }

    fn sub_val(a: Self, b: Self) -> Self {
        a - b
    }
}

impl PrimitiveSub for u64 {
    open spec fn sub_ok(a: Self, b: Self) -> bool {
        b <= a
    }

    open spec fn sub_spec(a: Self, b: Self) -> Self {
        (a - b) as u64
    }

    fn sub_val(a: Self, b: Self) -> Self {
        a - b
    }
}

impl PrimitiveSub for i8 {
    open spec fn sub_ok(a: Self, b: Self) -> bool {
        i8::MIN <= a - b <= i8::MAX
    }

    open spec fn sub_spec(a: Self, b: Self) -> Self {
        (a - b) as i8
    }

    fn sub_val(a: Self, b: Self) -> Self {
        a - b
    }
}

impl PrimitiveSub for i16 {
    open spec fn sub_ok(a: Self, b: Self) -> bool {
        i16::MIN <= a - b <= i16::MAX
    }

    open spec fn sub_spec(a: Self, b: Self) -> Self {
        (a - b) as i16
    }

    fn sub_val(a: Self, b: Self) -> Self {
        a - b
    }
}

impl PrimitiveSub for i32 {
    open spec fn sub_ok(a: Self, b: Self) -> bool {
        i32::MIN <= a - b <= i32::MAX
    }

    open spec fn sub_spec(a: Self, b: Self) -> Self {
        (a - b) as i32
    }

    fn sub_val(a: Self, b: Self) -> Self {
        a - b
    }
}

impl PrimitiveSub for i64 {
    open spec fn sub_ok(a: Self, b: Self) -> bool {
        i64::MIN <= a - b <= i64::MAX
    }

    open spec fn sub_spec(a: Self, b: Self) -> Self {
        (a - b) as i64
    }

    fn sub_val(a: Self, b: Self) -> Self {
        a - b
    }
}

} // verus!
