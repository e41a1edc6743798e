//! Elements of the BLS12-381 scalar field, held by their canonical integer
//! representative, with arithmetic delegated to `ark_ff`.

use vstd::prelude::*;
use vstd::arithmetic::power::pow;
use vstd::arithmetic::power2::pow2;
use ark_ff::{BigInteger, BigInteger256, Field, FpParameters, PrimeField};
use ark_test_curves::bls12_381::{Fr as ArkFr, FrParameters};

verus! {

/// The prime modulus of the BLS12-381 scalar field.
pub open spec fn modulus() -> nat {
    52435875175126190479447740508185965837690552500527637822603658699938581184513nat
}

/// Number of bits that every integer below the modulus can carry: `⌊log₂ p⌋`.
pub open spec fn capacity_bits_spec() -> nat {
    254
}

/// The integer whose little-endian 64-bit limbs are `l`.
pub open spec fn limbs_value(l: [u64; 4]) -> nat {
    l[0] as nat + l[1] as nat * pow2(64) + l[2] as nat * pow2(128) + l[3] as nat * pow2(192)
}

/// Field addition on canonical values.
pub open spec fn fadd(a: nat, b: nat) -> nat {
    (a + b) % modulus()
}

/// Field multiplication on canonical values.
pub open spec fn fmul(a: nat, b: nat) -> nat {
    (a * b) % modulus()
}

/// Field exponentiation by a natural exponent.
pub open spec fn fpow(a: nat, e: nat) -> nat {
    (pow(a as int, e) % (modulus() as int)) as nat
}

/// Byte `i` of the little-endian encoding of `v`.
pub open spec fn byte_at(v: nat, i: nat) -> nat {
    (v / pow2(8 * i)) % 256
}

/// Bit `i` of the little-endian binary expansion of `v`.
pub open spec fn bit_at(v: nat, i: nat) -> bool {
    (v / pow2(i)) % 2 == 1
}

/// The integer whose little-endian bytes are `b`.
pub open spec fn le_bytes_value(b: Seq<u8>) -> nat
    decreases b.len(),
{
    if b.len() == 0 {
        0
    } else {
        le_bytes_value(b.drop_last()) + b.last() as nat * pow2(8 * (b.len() - 1) as nat)
    }
}

/// The integer whose little-endian bits are `b`.
pub open spec fn bits_value(b: Seq<bool>) -> nat
    decreases b.len(),
{
    if b.len() == 0 {
        0
    } else {
        bits_value(b.drop_last()) + if b.last() {
            pow2((b.len() - 1) as nat)
        } else {
            0
        }
    }
}

/// An element of the BLS12-381 scalar field, held as the little-endian limbs
/// of its canonical representative in `[0, p)`.
#[derive(Clone, Copy, Debug, PartialEq, Eq)]
pub struct Fr {
    l0: u64,
    l1: u64,
    l2: u64,
    l3: u64,
}

impl View for Fr {
    type V = nat;

    closed spec fn view(&self) -> nat {
        self.l0 as nat + self.l1 as nat * pow2(64) + self.l2 as nat * pow2(128) + self.l3 as nat
            * pow2(192)
    }
}

impl Fr {
    #[verifier::type_invariant]
    closed spec fn canonical(self) -> bool {
        self@ < modulus()
    }

    /// The additive identity.
    pub fn zero() -> (r: Fr)
        ensures
            r@ == 0,
    {
        Fr { l0: 0, l1: 0, l2: 0, l3: 0 }
    }

    /// The element whose representative is `x`.
    pub fn from_u64(x: u64) -> (r: Fr)
        ensures
            r@ == x as nat,
    {
        let r = Fr { l0: x, l1: 0, l2: 0, l3: 0 };
        r
    }

    /// The element whose representative has the little-endian limbs `limbs`,
    /// or `None` where that integer is not below the modulus.
    pub fn from_canonical_limbs(limbs: [u64; 4]) -> (r: Option<Fr>)
        ensures
            r.is_some() <==> limbs_value(limbs) < modulus(),
            r.is_some() ==> r.unwrap()@ == limbs_value(limbs),
    {
        fr_from_repr(limbs)
    }

    /// The 32 little-endian bytes of the canonical representative.
    pub fn to_bytes_le(&self) -> (r: Vec<u8>)
        ensures
            r@.len() == 32,
            forall|i: int| 0 <= i < 32 ==> r@[i] as nat == byte_at(self@, i as nat),
    {
        fr_to_bytes_le(self)
    }
}

/// Relies on `PrimeField::from_repr` of ark_ff's `Fp256`: it accepts exactly
/// the representatives below the modulus, and `into_repr` gives them back.
#[verifier::external_body]
fn fr_from_repr(limbs: [u64; 4]) -> (r: Option<Fr>)
    ensures
        r.is_some() <==> limbs_value(limbs) < modulus(),
        r.is_some() ==> r.unwrap()@ == limbs_value(limbs),
{
    ArkFr::from_repr(BigInteger256(limbs)).map(|x| {
        let r = x.into_repr().0;
        Fr { l0: r[0], l1: r[1], l2: r[2], l3: r[3] }
    })
}

/// Relies on addition of ark_ff's `Fp256`: the sum modulo the modulus.
#[verifier::external_body]
pub(crate) fn fr_add(a: &Fr, b: &Fr) -> (r: Fr)
    ensures
        r@ == fadd(a@, b@),
{
    let x = ArkFr::from_repr(BigInteger256([a.l0, a.l1, a.l2, a.l3])).unwrap();
    let y = ArkFr::from_repr(BigInteger256([b.l0, b.l1, b.l2, b.l3])).unwrap();
    let r = (x + y).into_repr().0;
    Fr { l0: r[0], l1: r[1], l2: r[2], l3: r[3] }
}

/// Relies on multiplication of ark_ff's `Fp256`: the product modulo the modulus.
#[verifier::external_body]
pub(crate) fn fr_mul(a: &Fr, b: &Fr) -> (r: Fr)
    ensures
        r@ == fmul(a@, b@),
{
    let x = ArkFr::from_repr(BigInteger256([a.l0, a.l1, a.l2, a.l3])).unwrap();
    let y = ArkFr::from_repr(BigInteger256([b.l0, b.l1, b.l2, b.l3])).unwrap();
    let r = (x * y).into_repr().0;
    Fr { l0: r[0], l1: r[1], l2: r[2], l3: r[3] }
}

/// Relies on `Field::pow` of ark_ff: `a` raised to the exponent given by its
/// little-endian `u64` limbs, here one limb.
#[verifier::external_body]
pub(crate) fn fr_pow(a: &Fr, e: u64) -> (r: Fr)
    ensures
        r@ == fpow(a@, e as nat),
{
    let x = ArkFr::from_repr(BigInteger256([a.l0, a.l1, a.l2, a.l3])).unwrap();
    let r = x.pow(&[e]).into_repr().0;
    Fr { l0: r[0], l1: r[1], l2: r[2], l3: r[3] }
}

/// Relies on `BigInteger::to_bytes_le` of ark_ff's `BigInteger256`: the
/// 32 little-endian bytes of the representative.
#[verifier::external_body]
pub(crate) fn fr_to_bytes_le(a: &Fr) -> (r: Vec<u8>)
    ensures
        r@.len() == 32,
        forall|i: int| 0 <= i < 32 ==> r@[i] as nat == byte_at(a@, i as nat),
{
    let x = ArkFr::from_repr(BigInteger256([a.l0, a.l1, a.l2, a.l3])).unwrap();
    x.into_repr().to_bytes_le()
}

/// Relies on `BigInteger::to_bits_le` of ark_ff's `BigInteger256`: the
/// 256 little-endian bits of the representative.
#[verifier::external_body]
pub(crate) fn fr_to_bits_le(a: &Fr) -> (r: Vec<bool>)
    ensures
        r@.len() == 256,
        forall|i: int| 0 <= i < 256 ==> r@[i] == bit_at(a@, i as nat),
{
    let x = ArkFr::from_repr(BigInteger256([a.l0, a.l1, a.l2, a.l3])).unwrap();
    x.into_repr().to_bits_le()
}

/// Relies on `PrimeField::from_le_bytes_mod_order` of ark_ff: the integer of
/// the little-endian bytes, reduced modulo the modulus.
#[verifier::external_body]
pub(crate) fn fr_from_le_bytes_mod_order(bytes: &[u8]) -> (r: Fr)
    ensures
        r@ == le_bytes_value(bytes@) % modulus(),
{
    let x = ArkFr::from_le_bytes_mod_order(bytes);
    let r = x.into_repr().0;
    Fr { l0: r[0], l1: r[1], l2: r[2], l3: r[3] }
}

/// Relies on `FpParameters::CAPACITY` of the BLS12-381 scalar field
/// parameters: `MODULUS_BITS - 1`, that is 254.
#[verifier::external_body]
pub(crate) fn capacity_bits() -> (r: usize)
    ensures
        r == capacity_bits_spec(),
{
    <FrParameters as FpParameters>::CAPACITY as usize
}

} // verus!
