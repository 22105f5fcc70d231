//! Elements of the Pallas base field, held as four little-endian 64-bit limbs
//! of the canonical representative. The arithmetic itself is done by
//! `halo2_proofs::pasta::Fp`.

use halo2_proofs::pasta::Fp;
use vstd::prelude::*;

verus! {

/// The field's modulus `p`.
pub open spec fn modulus() -> int {
    0x40000000000000000000000000000000224698fc094cf91b992d30ed00000001int
}

/// Sum in the field, on representatives.
pub open spec fn fadd(a: int, b: int) -> int {
    (a + b) % modulus()
}

/// Difference in the field, on representatives.
pub open spec fn fsub(a: int, b: int) -> int {
    (a - b) % modulus()
}

/// Product in the field, on representatives.
pub open spec fn fmul(a: int, b: int) -> int {
    (a * b) % modulus()
}

/// Additive inverse in the field, on representatives.
pub open spec fn fneg(a: int) -> int {
    (-a) % modulus()
}

/// Whether `a` is the canonical representative of a field element.
pub open spec fn canonical(a: int) -> bool {
    0 <= a < modulus()
}

/// A field element: the limbs of its canonical representative, least
/// significant first.
#[derive(Clone, Copy, Debug, PartialEq, Eq, Structural)]
pub struct Fe {
    l0: u64,
    l1: u64,
    l2: u64,
    l3: u64,
}

impl View for Fe {
    type V = int;

    /// The integer that the four limbs spell.
    closed spec fn view(&self) -> int {
        self.l0 + self.l1 * 0x1_0000_0000_0000_0000int
            + self.l2 * 0x1_0000_0000_0000_0000_0000_0000_0000_0000int
            + self.l3 * 0x1_0000_0000_0000_0000_0000_0000_0000_0000_0000_0000_0000_0000int
    }
}

/// `Fp::from_raw`, `Add::add` on `Fp` and `Fp`'s conversion into `[u8; 32]`:
/// the limbs of the canonical representative of the sum of the two elements
/// that `a` and `b` spell.
#[verifier::external_body]
fn fp_add(a: &Fe, b: &Fe) -> (r: Fe)
    requires
        a.wf(),
        b.wf(),
    ensures
        r.wf(),
        r@ == fadd(a@, b@),
{
    let s = Fp::from_raw([a.l0, a.l1, a.l2, a.l3]) + Fp::from_raw([b.l0, b.l1, b.l2, b.l3]);
    let t = <[u8; 32]>::from(s);
    Fe {
        l0: u64::from_le_bytes(t[0..8].try_into().unwrap()),
        l1: u64::from_le_bytes(t[8..16].try_into().unwrap()),
        l2: u64::from_le_bytes(t[16..24].try_into().unwrap()),
        l3: u64::from_le_bytes(t[24..32].try_into().unwrap()),
    }
}

/// `Fp::from_raw`, `Sub::sub` on `Fp` and `Fp`'s conversion into `[u8; 32]`:
/// the limbs of the canonical representative of the difference.
#[verifier::external_body]
fn fp_sub(a: &Fe, b: &Fe) -> (r: Fe)
    requires
        a.wf(),
        b.wf(),
    ensures
        r.wf(),
        r@ == fsub(a@, b@),
{
    let s = Fp::from_raw([a.l0, a.l1, a.l2, a.l3]) - Fp::from_raw([b.l0, b.l1, b.l2, b.l3]);
    let t = <[u8; 32]>::from(s);
    Fe {
        l0: u64::from_le_bytes(t[0..8].try_into().unwrap()),
        l1: u64::from_le_bytes(t[8..16].try_into().unwrap()),
        l2: u64::from_le_bytes(t[16..24].try_into().unwrap()),
        l3: u64::from_le_bytes(t[24..32].try_into().unwrap()),
    }
}

/// `Fp::from_raw`, `Mul::mul` on `Fp` and `Fp`'s conversion into `[u8; 32]`:
/// the limbs of the canonical representative of the product.
#[verifier::external_body]
fn fp_mul(a: &Fe, b: &Fe) -> (r: Fe)
    requires
        a.wf(),
        b.wf(),
    ensures
        r.wf(),
        r@ == fmul(a@, b@),
{
    let s = Fp::from_raw([a.l0, a.l1, a.l2, a.l3]) * Fp::from_raw([b.l0, b.l1, b.l2, b.l3]);
    let t = <[u8; 32]>::from(s);
    Fe {
        l0: u64::from_le_bytes(t[0..8].try_into().unwrap()),
        l1: u64::from_le_bytes(t[8..16].try_into().unwrap()),
        l2: u64::from_le_bytes(t[16..24].try_into().unwrap()),
        l3: u64::from_le_bytes(t[24..32].try_into().unwrap()),
    }
}

/// `Fp::from_raw`, `Neg::neg` on `Fp` and `Fp`'s conversion into `[u8; 32]`:
/// the limbs of the canonical representative of the additive inverse.
#[verifier::external_body]
fn fp_neg(a: &Fe) -> (r: Fe)
    requires
        a.wf(),
    ensures
        r.wf(),
        r@ == fneg(a@),
{
    let s = -Fp::from_raw([a.l0, a.l1, a.l2, a.l3]);
    let t = <[u8; 32]>::from(s);
    Fe {
        l0: u64::from_le_bytes(t[0..8].try_into().unwrap()),
        l1: u64::from_le_bytes(t[8..16].try_into().unwrap()),
        l2: u64::from_le_bytes(t[16..24].try_into().unwrap()),
        l3: u64::from_le_bytes(t[24..32].try_into().unwrap()),
    }
}

impl Fe {
    /// The limbs spell a number below the modulus.
    pub open spec fn wf(&self) -> bool {
        canonical(self@)
    }

    /// The additive identity.
    pub fn zero() -> (r: Fe)
        ensures
            r.wf(),
            r@ == 0,
    {
        Fe { l0: 0, l1: 0, l2: 0, l3: 0 }
    }

    /// The multiplicative identity.
    pub fn one() -> (r: Fe)
        ensures
            r.wf(),
            r@ == 1,
    {
        Fe { l0: 1, l1: 0, l2: 0, l3: 0 }
    }

    /// The element that the integer `v` stands for.
    pub fn from_u64(v: u64) -> (r: Fe)
        ensures
            r.wf(),
            r@ == v,
    {
        Fe { l0: v, l1: 0, l2: 0, l3: 0 }
    }

    /// The representative as a `u64`, where it fits.
    pub fn to_u64(&self) -> (r: Option<u64>)
        ensures
            r == (if self@ <= u64::MAX { Some(self@ as u64) } else { None }),
    {
        if self.l1 == 0 && self.l2 == 0 && self.l3 == 0 {
            Some(self.l0)
        } else {
            None
        }
    }

    /// Whether this is the additive identity.
    pub fn is_zero(&self) -> (r: bool)
        ensures
            r == (self@ == 0),
    {
        self.l0 == 0 && self.l1 == 0 && self.l2 == 0 && self.l3 == 0
    }

    /// Whether two elements are the same.
    pub fn equals(&self, other: &Fe) -> (r: bool)
        ensures
            r == (self@ == other@),
            r == (*self == *other),
    {
        proof {
            lemma_view_injective(*self, *other);
        }
        self.l0 == other.l0 && self.l1 == other.l1 && self.l2 == other.l2 && self.l3 == other.l3
    }

    /// `self + rhs` in the field.
    pub fn add(&self, rhs: &Fe) -> (r: Fe)
        requires
            self.wf(),
            rhs.wf(),
        ensures
            r.wf(),
            r@ == fadd(self@, rhs@),
    {
        fp_add(self, rhs)
    }

    /// `self - rhs` in the field.
    pub fn sub(&self, rhs: &Fe) -> (r: Fe)
        requires
            self.wf(),
            rhs.wf(),
        ensures
            r.wf(),
            r@ == fsub(self@, rhs@),
    {
        fp_sub(self, rhs)
    }

    /// `self * rhs` in the field.
    pub fn mul(&self, rhs: &Fe) -> (r: Fe)
        requires
            self.wf(),
            rhs.wf(),
        ensures
            r.wf(),
            r@ == fmul(self@, rhs@),
    {
        fp_mul(self, rhs)
    }

    /// `-self` in the field.
    pub fn neg(&self) -> (r: Fe)
        requires
            self.wf(),
        ensures
            r.wf(),
            r@ == fneg(self@),
    {
        fp_neg(self)
    }
}

/// The results of the field's operations are canonical.
pub proof fn lemma_field_closed(a: int, b: int)
    ensures
        canonical(fadd(a, b)),
        canonical(fsub(a, b)),
        canonical(fmul(a, b)),
        canonical(fneg(a)),
{
}

/// Two elements with the same representative have the same limbs.
pub proof fn lemma_view_injective(a: Fe, b: Fe)
    ensures
        (a@ == b@) == (a == b),
{
}

} // verus!
