//! Marker wrappers for vector values with established properties.
//!
//! `NonZero<T>` marks a value checked to be non-zero and `Normalized<T>`
//! one produced by normalization. The wrappers only carry the value;
//! what each constructor checked is stated in its contract.

use vstd::prelude::*;
use crate::vec3::{sp_v3_div, sp_v3_length, Vec3};

verus! {

/// The error of refusing a zero vector.
#[derive(Clone, Copy, PartialEq, Eq, Structural, Debug)]
pub struct Zero;

/// A value checked to be non-zero when it was wrapped.
#[derive(Clone, Copy, Debug)]
pub struct NonZero<T>(T);

impl<T> NonZero<T> {
    /// The wrapped value, in specifications.
    pub closed spec fn value(self) -> T {
        self.0
    }

    /// Borrow the wrapped value, keeping the marker.
    pub fn as_ref(&self) -> (r: NonZero<&T>)
        ensures
            r.value() == &self.value(),
    {
        NonZero(&self.0)
    }

    /// The wrapped value.
    pub fn get(self) -> (r: T)
        ensures
            r == self.value(),
    {
        self.0
    }
}

impl<T> NonZero<&T> {
    /// Copy out of a borrowed marker.
    pub fn copied(self) -> (r: NonZero<T>)
        where T: Copy
        ensures
            r.value() == *self.value(),
    {
        NonZero(*self.0)
    }

    /// Clone out of a borrowed marker; for these plain values a clone is
    /// the value itself.
    pub fn cloned(self) -> (r: NonZero<T>)
        where T: Copy + Clone
        ensures
            r.value() == *self.value(),
    {
        NonZero(*self.0)
    }
}

impl NonZero<Vec3> {
    /// Wrap a vector after checking it is not the zero vector: exactly
    /// the zero vector is refused.
    pub fn try_new(v: Vec3) -> (r: Result<NonZero<Vec3>, Zero>)
        ensures
            r is Ok <==> v != (Vec3 { x: 0i64, y: 0i64, z: 0i64 }),
            r is Ok ==> r->Ok_0.value() == v,
    {
        if v.is_zero() {
            Err(Zero)
        } else {
            Ok(NonZero(v))
        }
    }

    /// Normalize the vector: each component divided by the floor length.
    pub fn normalize(self) -> (r: Normalized<Vec3>)
        ensures
            r.value() == sp_v3_div(self.value(), sp_v3_length(self.value())),
    {
        let v = self.0;
        Normalized(NonZero(v.div(v.length())))
    }

    /// The opposite vector, which is non-zero exactly when this one is.
    pub fn neg(self) -> (r: NonZero<Vec3>)
        ensures
            r.value() == crate::vec3::sp_v3_neg(self.value()),
    {
        NonZero(self.0.neg())
    }
}

/// A value produced by normalization.
#[derive(Clone, Copy, Debug)]
pub struct Normalized<T>(NonZero<T>);

impl<T> Normalized<T> {
    /// The wrapped value, in specifications.
    pub closed spec fn value(self) -> T {
        self.0.value()
    }

    /// Borrow the wrapped value, keeping the marker.
    pub fn as_ref(&self) -> (r: Normalized<&T>)
        ensures
            r.value() == &self.value(),
    {
        Normalized(self.0.as_ref())
    }

    /// The wrapped value.
    pub fn get(self) -> (r: T)
        ensures
            r == self.value(),
    {
        self.0.get()
    }

    /// Weaken the marker: a normalized value is in particular non-zero.
    pub fn into_non_zero(self) -> (r: NonZero<T>)
        ensures
            r.value() == self.value(),
    {
        self.0
    }
}

impl Normalized<Vec3> {
    /// The opposite direction, still of the same length.
    pub fn neg(self) -> (r: Normalized<Vec3>)
        ensures
            r.value() == crate::vec3::sp_v3_neg(self.value()),
    {
        Normalized(NonZero(self.0.get().neg()))
    }
}

impl<T> Normalized<&T> {
    /// Copy out of a borrowed marker.
    pub fn copied(self) -> (r: Normalized<T>)
        where T: Copy
        ensures
            r.value() == *self.value(),
    {
        Normalized(self.0.copied())
    }

    /// Clone out of a borrowed marker; for these plain values a clone is
    /// the value itself.
    pub fn cloned(self) -> (r: Normalized<T>)
        where T: Copy + Clone
        ensures
            r.value() == *self.value(),
    {
        Normalized(self.0.cloned())
    }
}

impl<T> Normalized<NonZero<T>> {
    /// Collapse a doubled marker.
    pub fn flatten(self) -> (r: Normalized<T>)
        ensures
            r.value() == self.value().value(),
    {
        Normalized(self.0.get())
    }
}

} // verus!
