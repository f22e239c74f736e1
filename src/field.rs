//! Mathematical model of the BN254 base field and of the two curve groups,
//! over big-endian byte strings, together with the few field operations that
//! the codec borrows from the arkworks and rust-kzg-bn254 crates.
use ark_bn254::Fq;
use ark_ff::{BigInteger, PrimeField};
use vstd::prelude::*;

verus! {

/// A 256-bit number from its four 64-bit limbs, most significant first.
pub open spec fn limbs(a: nat, b: nat, c: nat, d: nat) -> nat {
    ((a * 0x1_0000_0000_0000_0000 + b) * 0x1_0000_0000_0000_0000 + c) * 0x1_0000_0000_0000_0000 + d
}

/// The prime modulus of the BN254 base field.
pub open spec fn fq_modulus() -> nat {
    limbs(0x30644e72e131a029, 0xb85045b68181585d, 0x97816a916871ca8d, 0x3c208c16d87cfd47)
}

/// `256^n`.
pub open spec fn pow256(n: nat) -> nat
    decreases n,
{
    if n == 0 {
        1
    } else {
        256 * pow256((n - 1) as nat)
    }
}

/// The unsigned integer that a byte string spells out in big-endian order.
pub open spec fn be_nat(s: Seq<u8>) -> nat
    decreases s.len(),
{
    if s.len() == 0 {
        0
    } else {
        s[0] as nat * pow256((s.len() - 1) as nat) + be_nat(s.drop_first())
    }
}

/// Thirty-two bytes that spell out a field element below the modulus.
pub open spec fn is_canonical(s: Seq<u8>) -> bool {
    s.len() == 32 && be_nat(s) < fq_modulus()
}

/// `n` zero bytes.
pub open spec fn zeros(n: nat) -> Seq<u8> {
    Seq::new(n, |i: int| 0u8)
}

/// A field element is lexicographically largest when it exceeds its negation,
/// i.e. when its canonical value is above `(p - 1) / 2`.
pub open spec fn lex_largest(v: nat) -> bool {
    v % fq_modulus() > (fq_modulus() - 1) as nat / 2
}

/// Field reduction of an integer.
pub open spec fn fq(v: int) -> nat {
    (v % (fq_modulus() as int)) as nat
}

/// Negation in the field.
pub open spec fn fq_neg(v: nat) -> nat {
    fq(-(v as int))
}

/// Negation in the extension, componentwise.
pub open spec fn fq2_neg(y: (nat, nat)) -> (nat, nat) {
    (fq_neg(y.0), fq_neg(y.1))
}

/// The short curve: `y^2 = x^3 + 3`.
pub open spec fn on_g1_curve(x: nat, y: nat) -> bool {
    fq((y * y) as int) == fq((x * x * x + 3) as int)
}

/// Product in the quadratic extension `Fq[u] / (u^2 + 1)`, on pairs `(c0, c1)`.
pub open spec fn fq2_mul(a: (nat, nat), b: (nat, nat)) -> (nat, nat) {
    (fq(a.0 * b.0 - a.1 * b.1), fq((a.0 * b.1 + a.1 * b.0) as int))
}

/// The constant `3 / (u + 9)` of the twist.
pub open spec fn twist_b() -> (nat, nat) {
    (
        limbs(0x2b149d40ceb8aaae, 0x81be18991be06ac3, 0xb5b4c5e559dbefa3, 0x3267e6dc24a138e5),
        limbs(0x9713b03af0fed4, 0xcd2cafadeed8fdf4, 0xa74fa084e52d1852, 0xe4a2bd0685c315d2),
    )
}

/// The twist curve over the extension: `y^2 = x^3 + 3 / (u + 9)`.
pub open spec fn on_g2_curve(x: (nat, nat), y: (nat, nat)) -> bool {
    let x3 = fq2_mul(fq2_mul(x, x), x);
    fq2_mul(y, y) == (fq((x3.0 + twist_b().0) as int), fq((x3.1 + twist_b().1) as int))
}

/// Every point of the short curve at `x` has `y` or its negation as its
/// y-coordinate.
pub open spec fn g1_only_roots(x: nat, y: nat) -> bool {
    forall|v: nat| v < fq_modulus() && #[trigger] on_g1_curve(x, v) ==> v == y || v == fq_neg(y)
}

/// Every point of the twist at `x` has `y` or its negation as its
/// y-coordinate.
pub open spec fn g2_only_roots(x: (nat, nat), y: (nat, nat)) -> bool {
    forall|v0: nat, v1: nat|
        v0 < fq_modulus() && v1 < fq_modulus() && #[trigger] on_g2_curve(x, (v0, v1)) ==> (v0, v1)
            == y || (v0, v1) == fq2_neg(y)
}

/// Lexicographic order of an extension element as the codec uses it: by `c1`,
/// and by `c0` only where `c1` is zero.
pub open spec fn fq2_lex_largest(c0: nat, c1: nat) -> bool {
    lex_largest(c1) || (fq(c1 as int) == 0 && lex_largest(c0))
}

pub proof fn lemma_modulus_below_top_bits()
    ensures
        fq_modulus() < 0x40 * pow256(31),
{
    reveal_with_fuel(pow256, 32);
}

/// A canonical field element leaves the two top bits of its first byte clear,
/// which is where the codec keeps its flags.
pub proof fn lemma_canonical_top_bits(s: Seq<u8>)
    requires
        is_canonical(s),
    ensures
        s[0] < 0x40,
{
    lemma_modulus_below_top_bits();
    let rest = be_nat(s.drop_first());
    assert(be_nat(s) == s[0] as nat * pow256(31) + rest);
    if s[0] >= 0x40 {
        assert(s[0] as nat * pow256(31) >= 0x40 * pow256(31)) by (nonlinear_arith)
            requires
                s[0] >= 0x40,
        ;
    }
}

pub proof fn lemma_be_nat_bound(s: Seq<u8>)
    ensures
        be_nat(s) < pow256(s.len()),
    decreases s.len(),
{
    if s.len() > 0 {
        let w = pow256((s.len() - 1) as nat);
        lemma_be_nat_bound(s.drop_first());
        assert(s[0] as nat * w + be_nat(s.drop_first()) < 256 * w) by (nonlinear_arith)
            requires
                s[0] < 256,
                be_nat(s.drop_first()) < w,
        ;
    }
}

/// Two byte strings of one length that spell out the same number are equal.
pub proof fn lemma_be_nat_injective(a: Seq<u8>, b: Seq<u8>)
    requires
        a.len() == b.len(),
        be_nat(a) == be_nat(b),
    ensures
        a == b,
    decreases a.len(),
{
    if a.len() > 0 {
        let w = pow256((a.len() - 1) as nat);
        let ra = be_nat(a.drop_first());
        let rb = be_nat(b.drop_first());
        lemma_be_nat_bound(a.drop_first());
        lemma_be_nat_bound(b.drop_first());
        assert(a[0] == b[0]) by (nonlinear_arith)
            requires
                a[0] as nat * w + ra == b[0] as nat * w + rb,
                ra < w,
                rb < w,
        ;
        lemma_be_nat_injective(a.drop_first(), b.drop_first());
        assert(a =~= seq![a[0]] + a.drop_first());
        assert(b =~= seq![b[0]] + b.drop_first());
    }
}

pub proof fn lemma_be_nat_zeros(n: nat)
    ensures
        be_nat(zeros(n)) == 0,
    decreases n,
{
    if n > 0 {
        assert(zeros(n).drop_first() =~= zeros((n - 1) as nat));
        lemma_be_nat_zeros((n - 1) as nat);
        assert(zeros(n)[0] == 0);
        assert(be_nat(zeros(n)) == 0 * pow256((n - 1) as nat) + be_nat(zeros((n - 1) as nat)));
    }
}

/// Negation flips the sign of every nonzero element: the two square roots of
/// a nonzero square carry opposite flags.
pub proof fn lemma_negation_flips_sign(v: nat)
    requires
        0 < v < fq_modulus(),
    ensures
        fq(-(v as int)) == fq_modulus() - v,
        lex_largest(fq(-(v as int))) == !lex_largest(v),
{
    let p = fq_modulus();
    assert(p % 2 == 1);
    assert(fq(-(v as int)) == p - v) by {
        vstd::arithmetic::div_mod::lemma_fundamental_div_mod_converse(
            -(v as int),
            p as int,
            -1,
            (p - v) as int,
        );
    }
    vstd::arithmetic::div_mod::lemma_small_mod(v, p);
    vstd::arithmetic::div_mod::lemma_small_mod((p - v) as nat, p);
}

/// Negating twice gives back a canonical element.
pub proof fn lemma_double_negation(v: nat)
    requires
        v < fq_modulus(),
    ensures
        fq_neg(fq_neg(v)) == v,
        fq_neg(v) < fq_modulus(),
        fq_neg(v) == 0 <==> v == 0,
{
    if v == 0 {
        vstd::arithmetic::div_mod::lemma_small_mod(0, fq_modulus());
    } else {
        lemma_negation_flips_sign(v);
        lemma_negation_flips_sign((fq_modulus() - v) as nat);
    }
}

/// A byte string of zeros spells out zero.
pub proof fn lemma_zero_bytes_value(s: Seq<u8>)
    requires
        forall|i: int| 0 <= i < s.len() ==> s[i] == 0,
    ensures
        be_nat(s) == 0,
        s == zeros(s.len()),
{
    assert(s =~= zeros(s.len()));
    lemma_be_nat_zeros(s.len());
}

/// Relies on rust-kzg-bn254's `lexicographically_largest`, after arkworks'
/// `from_be_bytes_mod_order`: whether the reduced element exceeds its negation.
#[verifier::external_body]
pub(crate) fn fq_lexicographically_largest(y: &Vec<u8>) -> (r: bool)
    ensures
        r == lex_largest(be_nat(y@)),
{
    rust_kzg_bn254_primitives::helpers::lexicographically_largest(&Fq::from_be_bytes_mod_order(y))
}

/// Relies on arkworks' `from_be_bytes_mod_order` and `to_bytes_be`: the
/// canonical thirty-two byte form of a big-endian integer reduced modulo `p`.
#[verifier::external_body]
pub(crate) fn fq_reduce(b: &[u8]) -> (r: Vec<u8>)
    ensures
        is_canonical(r@),
        be_nat(r@) == be_nat(b@) % fq_modulus(),
{
    Fq::from_be_bytes_mod_order(b).into_bigint().to_bytes_be()
}

/// Relies on arkworks' `Neg` for `Fq`: the additive inverse, in canonical form.
#[verifier::external_body]
pub(crate) fn fq_negate(y: &Vec<u8>) -> (r: Vec<u8>)
    ensures
        is_canonical(r@),
        be_nat(r@) == fq(-(be_nat(y@) as int)),
{
    (-Fq::from_be_bytes_mod_order(y)).into_bigint().to_bytes_be()
}

} // verus!
