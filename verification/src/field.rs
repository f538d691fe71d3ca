//! Elements of the BLS12-381 base field, modeled by their canonical integer
//! representative below the modulus. The arithmetic itself is done by
//! `ark_bls12_381::Fq`; this module states what each operation returns in
//! terms of integer arithmetic modulo the field's prime.

use vstd::prelude::*;
use vstd::arithmetic::div_mod::{
    lemma_add_mod_noop, lemma_mul_mod_noop_left, lemma_mul_mod_noop_right, lemma_small_mod,
};
use vstd::arithmetic::mul::{
    lemma_mul_is_associative, lemma_mul_is_distributive_add,
    lemma_mul_is_distributive_add_other_way,
};

verus! {

/// The BLS12-381 base field modulus, from its six little-endian 64-bit limbs.
pub open spec fn p() -> nat {
    (0xb9feffffffffaaab
        + 0x10000000000000000 * (0x1eabfffeb153ffff
        + 0x10000000000000000 * (0x6730d2a0f6b0f624
        + 0x10000000000000000 * (0x64774b84f38512bf
        + 0x10000000000000000 * (0x4b1ba7b6434bacd7
        + 0x10000000000000000 * 0x1a0111ea397fe69a))))) as nat
}

/// Field addition on canonical representatives.
pub open spec fn fadd(a: nat, b: nat) -> nat {
    (a + b) % p()
}

/// Field multiplication on canonical representatives.
pub open spec fn fmul(a: nat, b: nat) -> nat {
    (a * b) % p()
}

/// The `k`-th power of `r` in the field, with `fpow(r, 0) == 1`.
pub open spec fn fpow(r: nat, k: nat) -> nat
    decreases k,
{
    if k == 0 {
        1
    } else {
        fmul(fpow(r, (k - 1) as nat), r)
    }
}

/// A field element, held as the six little-endian 64-bit limbs of its
/// canonical integer representative.
#[derive(Clone, Copy, PartialEq, Eq, Debug)]
pub struct Fe {
    pub limbs: [u64; 6],
}

impl Fe {
    /// The canonical integer representative of this element.
    pub open spec fn val(self) -> nat {
        (self.limbs[0]
            + 0x10000000000000000 * (self.limbs[1]
            + 0x10000000000000000 * (self.limbs[2]
            + 0x10000000000000000 * (self.limbs[3]
            + 0x10000000000000000 * (self.limbs[4]
            + 0x10000000000000000 * self.limbs[5]))))) as nat
    }

    /// A well-formed element: its representative lies below the modulus.
    pub open spec fn inv(self) -> bool {
        self.val() < p()
    }

    /// The additive identity of the field.
    pub fn zero() -> (r: Fe)
        ensures
            r.inv(),
            r.val() == 0,
    {
        proof {
            lemma_p_bounds();
        }
        Fe { limbs: [0, 0, 0, 0, 0, 0] }
    }

    /// The multiplicative identity of the field.
    pub fn one() -> (r: Fe)
        ensures
            r.inv(),
            r.val() == 1,
    {
        proof {
            lemma_p_bounds();
        }
        Fe { limbs: [1, 0, 0, 0, 0, 0] }
    }

    /// The field element standing for a small nonnegative integer.
    pub fn from_u64(v: u64) -> (r: Fe)
        ensures
            r.inv(),
            r.val() == v,
    {
        proof {
            lemma_p_bounds();
        }
        Fe { limbs: [v, 0, 0, 0, 0, 0] }
    }

    /// Field addition.
    pub fn add_fe(&self, other: &Fe) -> (r: Fe)
        requires
            self.inv(),
            other.inv(),
        ensures
            r.inv(),
            r.val() == fadd(self.val(), other.val()),
    {
        fe_add_raw(self, other)
    }

    /// Field multiplication.
    pub fn mul_fe(&self, other: &Fe) -> (r: Fe)
        requires
            self.inv(),
            other.inv(),
        ensures
            r.inv(),
            r.val() == fmul(self.val(), other.val()),
    {
        fe_mul_raw(self, other)
    }

    /// Field equality.
    pub fn eq_fe(&self, other: &Fe) -> (r: bool)
        requires
            self.inv(),
            other.inv(),
        ensures
            r == (self.val() == other.val()),
    {
        fe_eq_raw(self, other)
    }

    /// A uniformly random field element from the process-wide random source.
    pub fn sample() -> (r: Fe)
        ensures
            r.inv(),
    {
        fe_sample_raw()
    }
}

/// Relies on `ark_ff` addition for `ark_bls12_381::Fq`: the sum of two field
/// elements is their integer sum reduced modulo the field's prime, and
/// `from_bigint` / `into_bigint` convert between field elements and their
/// canonical integers below the modulus.
#[verifier::external_body]
fn fe_add_raw(a: &Fe, b: &Fe) -> (r: Fe)
    requires
        a.inv(),
        b.inv(),
    ensures
        r.inv(),
        r.val() == fadd(a.val(), b.val()),
{
    let x = <ark_bls12_381::Fq as ark_ff::PrimeField>::from_bigint(ark_ff::BigInt::new(a.limbs)).unwrap();
    let y = <ark_bls12_381::Fq as ark_ff::PrimeField>::from_bigint(ark_ff::BigInt::new(b.limbs)).unwrap();
    Fe { limbs: ark_ff::PrimeField::into_bigint(x + y).0 }
}

/// Relies on `ark_ff` multiplication for `ark_bls12_381::Fq`: the product of
/// two field elements is their integer product reduced modulo the field's
/// prime, under the same canonical conversions as `fe_add_raw`.
#[verifier::external_body]
fn fe_mul_raw(a: &Fe, b: &Fe) -> (r: Fe)
    requires
        a.inv(),
        b.inv(),
    ensures
        r.inv(),
        r.val() == fmul(a.val(), b.val()),
{
    let x = <ark_bls12_381::Fq as ark_ff::PrimeField>::from_bigint(ark_ff::BigInt::new(a.limbs)).unwrap();
    let y = <ark_bls12_381::Fq as ark_ff::PrimeField>::from_bigint(ark_ff::BigInt::new(b.limbs)).unwrap();
    Fe { limbs: ark_ff::PrimeField::into_bigint(x * y).0 }
}

/// Relies on `PartialEq` for `ark_bls12_381::Fq`: two field elements are
/// equal exactly when their canonical integer representatives are equal.
#[verifier::external_body]
fn fe_eq_raw(a: &Fe, b: &Fe) -> (r: bool)
    requires
        a.inv(),
        b.inv(),
    ensures
        r == (a.val() == b.val()),
{
    let x = <ark_bls12_381::Fq as ark_ff::PrimeField>::from_bigint(ark_ff::BigInt::new(a.limbs)).unwrap();
    let y = <ark_bls12_381::Fq as ark_ff::PrimeField>::from_bigint(ark_ff::BigInt::new(b.limbs)).unwrap();
    x == y
}

/// Relies on `rand::random::<Fq>()`, through the `Standard` distribution that
/// `ark_ff` implements for its prime fields, for a uniformly random field
/// element; `into_bigint` returns its canonical integer below the modulus.
#[verifier::external_body]
fn fe_sample_raw() -> (r: Fe)
    ensures
        r.inv(),
{
    let x: ark_bls12_381::Fq = rand::random();
    Fe { limbs: ark_ff::PrimeField::into_bigint(x).0 }
}

/// The modulus is larger than any single 64-bit limb (it spans six of them).
pub proof fn lemma_p_bounds()
    ensures
        0x10000000000000000 < p(),
{
}

/// Multiplying by the field's zero gives zero.
pub proof fn lemma_fmul_zero(t: nat)
    ensures
        fmul(0, t) == 0,
        fmul(t, 0) == 0,
{
    lemma_p_bounds();
    lemma_small_mod(0, p());
}

/// Two sums of four terms, grouped differently, are the same field element.
pub proof fn lemma_fadd_rearrange(a: nat, b: nat, c: nat, d: nat)
    ensures
        fadd(fadd(a, b), fadd(c, d)) == fadd(fadd(a, c), fadd(b, d)),
{
    lemma_p_bounds();
    lemma_add_mod_noop((a + b) as int, (c + d) as int, p() as int);
    lemma_add_mod_noop((a + c) as int, (b + d) as int, p() as int);
}

/// Field multiplication is associative.
pub proof fn lemma_fmul_assoc(a: nat, b: nat, c: nat)
    ensures
        fmul(fmul(a, b), c) == fmul(a, fmul(b, c)),
{
    lemma_p_bounds();
    lemma_mul_mod_noop_left((a * b) as int, c as int, p() as int);
    lemma_mul_mod_noop_right(a as int, (b * c) as int, p() as int);
    lemma_mul_is_associative(a as int, b as int, c as int);
}

/// Field multiplication distributes over field addition on the left.
pub proof fn lemma_fmul_distrib(c: nat, a: nat, b: nat)
    ensures
        fmul(c, fadd(a, b)) == fadd(fmul(c, a), fmul(c, b)),
{
    lemma_p_bounds();
    lemma_mul_mod_noop_right(c as int, (a + b) as int, p() as int);
    lemma_mul_is_distributive_add(c as int, a as int, b as int);
    lemma_add_mod_noop((c * a) as int, (c * b) as int, p() as int);
}

/// Field multiplication distributes over field addition on the right.
pub proof fn lemma_fmul_distrib_right(a: nat, b: nat, c: nat)
    ensures
        fmul(fadd(a, b), c) == fadd(fmul(a, c), fmul(b, c)),
{
    lemma_p_bounds();
    lemma_mul_mod_noop_left((a + b) as int, c as int, p() as int);
    lemma_mul_is_distributive_add_other_way(c as int, a as int, b as int);
    lemma_add_mod_noop((a * c) as int, (b * c) as int, p() as int);
}

} // verus!
