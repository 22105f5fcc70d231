//! A value that is either known or a placeholder, so that a circuit's shape
//! can be laid out without a witness.

use crate::field::{fadd, fmul, fneg, fsub, Fe};
use vstd::prelude::*;

verus! {

/// A value that may be missing. Arithmetic on values is unknown as soon as
/// one operand is.
#[derive(Clone, Copy, Debug)]
pub enum Value<T> {
    Unknown,
    Known(T),
}

impl<T> Value<T> {
    /// A known value.
    pub fn known(v: T) -> (r: Value<T>)
        ensures
            r == Value::Known(v),
    {
        Value::Known(v)
    }

    /// The placeholder.
    pub fn unknown() -> (r: Value<T>)
        ensures
            r == Value::<T>::Unknown,
    {
        Value::Unknown
    }

    /// Whether the value is known.
    pub fn is_known(&self) -> (r: bool)
        ensures
            r == (*self is Known),
    {
        match self {
            Value::Known(_) => true,
            Value::Unknown => false,
        }
    }

    /// The pair of two values, known where both are.
    pub open spec fn spec_zip<U>(self, other: Value<U>) -> Value<(T, U)> {
        match (self, other) {
            (Value::Known(a), Value::Known(b)) => Value::Known((a, b)),
            _ => Value::Unknown,
        }
    }

    /// Computes `spec_zip`.
    pub fn zip<U>(self, other: Value<U>) -> (r: Value<(T, U)>)
        ensures
            r == self.spec_zip(other),
    {
        match (self, other) {
            (Value::Known(a), Value::Known(b)) => Value::Known((a, b)),
            _ => Value::Unknown,
        }
    }
}

impl Value<Fe> {
    /// A known element is canonical.
    pub open spec fn wf(self) -> bool {
        self matches Value::Known(v) ==> v.wf()
    }

    /// The representative of a known element.
    pub open spec fn repr(self) -> Option<int> {
        match self {
            Value::Known(v) => Some(v@),
            Value::Unknown => None,
        }
    }

    /// The sum, where both are known.
    pub fn add(self, rhs: Value<Fe>) -> (r: Value<Fe>)
        requires
            self.wf(),
            rhs.wf(),
        ensures
            r.wf(),
            r is Known <==> self is Known && rhs is Known,
            r matches Value::Known(v) ==> v@ == fadd(self->Known_0@, rhs->Known_0@),
    {
        match (self, rhs) {
            (Value::Known(a), Value::Known(b)) => Value::Known(a.add(&b)),
            _ => Value::Unknown,
        }
    }

    /// The difference, where both are known.
    pub fn sub(self, rhs: Value<Fe>) -> (r: Value<Fe>)
        requires
            self.wf(),
            rhs.wf(),
        ensures
            r.wf(),
            r is Known <==> self is Known && rhs is Known,
            r matches Value::Known(v) ==> v@ == fsub(self->Known_0@, rhs->Known_0@),
    {
        match (self, rhs) {
            (Value::Known(a), Value::Known(b)) => Value::Known(a.sub(&b)),
            _ => Value::Unknown,
        }
    }

    /// The product, where both are known.
    pub fn mul(self, rhs: Value<Fe>) -> (r: Value<Fe>)
        requires
            self.wf(),
            rhs.wf(),
        ensures
            r.wf(),
            r is Known <==> self is Known && rhs is Known,
            r matches Value::Known(v) ==> v@ == fmul(self->Known_0@, rhs->Known_0@),
    {
        match (self, rhs) {
            (Value::Known(a), Value::Known(b)) => Value::Known(a.mul(&b)),
            _ => Value::Unknown,
        }
    }

    /// The additive inverse, where the value is known.
    pub fn neg(self) -> (r: Value<Fe>)
        requires
            self.wf(),
        ensures
            r.wf(),
            r is Known <==> self is Known,
            r matches Value::Known(v) ==> v@ == fneg(self->Known_0@),
    {
        match self {
            Value::Known(a) => Value::Known(a.neg()),
            Value::Unknown => Value::Unknown,
        }
    }
}

/// The values of one row's three witness cells: left, right and output.
pub type Triple = Value<(Fe, Fe, Fe)>;

/// Whether each element of a known triple is canonical.
pub open spec fn triple_wf(t: Triple) -> bool {
    t matches Value::Known(v) ==> v.0.wf() && v.1.wf() && v.2.wf()
}

/// The representatives of a known triple.
pub open spec fn triple_view(t: Triple) -> Option<(int, int, int)> {
    match t {
        Value::Known(v) => Some((v.0@, v.1@, v.2@)),
        Value::Unknown => None,
    }
}

/// The triple of three values, known where all three are.
pub open spec fn spec_triple(l: Value<Fe>, r: Value<Fe>, o: Value<Fe>) -> Triple {
    match (l, r, o) {
        (Value::Known(a), Value::Known(b), Value::Known(c)) => Value::Known((a, b, c)),
        _ => Value::Unknown,
    }
}

/// Computes `spec_triple`.
pub fn triple(l: Value<Fe>, r: Value<Fe>, o: Value<Fe>) -> (t: Triple)
    ensures
        t == spec_triple(l, r, o),
{
    match (l, r, o) {
        (Value::Known(a), Value::Known(b), Value::Known(c)) => Value::Known((a, b, c)),
        _ => Value::Unknown,
    }
}

} // verus!
