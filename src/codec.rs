//! Compressed encodings of BN254 points, compatible with the gnark-crypto
//! layout that the on-chain certificate verifier reads.
//!
//! A point is encoded by its x-coordinate in big-endian order; the two top
//! bits of the first byte carry a flag: the point at infinity, or which of the
//! two square roots the y-coordinate is.
use crate::field::{
    be_nat, fq, fq2_lex_largest, fq_lexicographically_largest, fq_modulus, fq_negate, fq_reduce,
    fq2_neg, fq_neg, g1_only_roots, g2_only_roots, is_canonical, lemma_be_nat_injective,
    lemma_canonical_top_bits, lemma_double_negation, lemma_negation_flips_sign,
    lemma_zero_bytes_value, lex_largest, on_g1_curve, on_g2_curve, zeros,
};
use ark_bn254::{Fq, Fq2, G2Affine};
use ark_ff::{BigInteger, PrimeField};
use ark_serialize::CanonicalSerialize;
use rust_kzg_bn254_primitives::errors::KzgError;
use vstd::prelude::*;

verus! {

pub const COMPRESSED_SMALLEST: u8 = 0b10 << 6;

pub const COMPRESSED_LARGEST: u8 = 0b11 << 6;

pub const COMPRESSED_INFINITY: u8 = 0b01 << 6;

pub const G2_COMPRESSED_SIZE: usize = 64;

/// Why a byte string is not the encoding of a point.
#[derive(Debug, Clone, Copy, PartialEq, Eq, Structural)]
pub enum CodecError {
    /// The buffer has the wrong length, or a badly coded point at infinity.
    Malformed,
    /// No point of the curve has this x-coordinate.
    NotOnCurve,
    /// The point lies on the curve but outside the prime-order subgroup.
    NotInSubgroup,
}

/// An affine point of the short curve, its coordinates as 32 big-endian bytes.
#[derive(Debug, Clone, PartialEq, Eq)]
pub struct G1Point {
    pub x: Vec<u8>,
    pub y: Vec<u8>,
    pub infinity: bool,
}

/// An affine point of the twist; each coordinate is `c0 + c1 * u`, each
/// component as 32 big-endian bytes.
#[derive(Debug, Clone, PartialEq, Eq)]
pub struct G2Point {
    pub x0: Vec<u8>,
    pub x1: Vec<u8>,
    pub y0: Vec<u8>,
    pub y1: Vec<u8>,
    pub infinity: bool,
}

impl G1Point {
    /// Canonical coordinates; the point at infinity has both set to zero.
    pub open spec fn wf(&self) -> bool {
        &&& is_canonical(self.x@)
        &&& is_canonical(self.y@)
        &&& self.infinity ==> self.x@ == zeros(32) && self.y@ == zeros(32)
    }

    pub open spec fn on_curve(&self) -> bool {
        self.infinity || on_g1_curve(be_nat(self.x@), be_nat(self.y@))
    }

    pub open spec fn is_identity(&self) -> bool {
        self.infinity && self.x@ == zeros(32) && self.y@ == zeros(32)
    }
}

impl G2Point {
    pub open spec fn wf(&self) -> bool {
        &&& is_canonical(self.x0@)
        &&& is_canonical(self.x1@)
        &&& is_canonical(self.y0@)
        &&& is_canonical(self.y1@)
        &&& self.infinity ==> self.x0@ == zeros(32) && self.x1@ == zeros(32) && self.y0@
            == zeros(32) && self.y1@ == zeros(32)
    }

    pub open spec fn x_value(&self) -> (nat, nat) {
        (be_nat(self.x0@), be_nat(self.x1@))
    }

    pub open spec fn y_value(&self) -> (nat, nat) {
        (be_nat(self.y0@), be_nat(self.y1@))
    }

    pub open spec fn on_curve(&self) -> bool {
        self.infinity || on_g2_curve(self.x_value(), self.y_value())
    }

    pub open spec fn is_identity(&self) -> bool {
        self.infinity && self.x0@ == zeros(32) && self.x1@ == zeros(32) && self.y0@ == zeros(32)
            && self.y1@ == zeros(32)
    }
}

/// The flag that records which square root a y-coordinate is.
pub open spec fn sign_flag(largest: bool) -> u8 {
    if largest {
        COMPRESSED_LARGEST
    } else {
        COMPRESSED_SMALLEST
    }
}

/// The two flag bits of an encoding.
pub open spec fn flag_of(b: Seq<u8>) -> u8 {
    b[0] & 0xC0
}

/// An encoding with its flag bits cleared.
pub open spec fn strip_flags(b: Seq<u8>) -> Seq<u8> {
    b.update(0, b[0] & 0x3F)
}

/// The encoding of the point at infinity: the flag and nothing else.
pub open spec fn infinity_encoding(n: nat) -> Seq<u8> {
    zeros(n).update(0, COMPRESSED_INFINITY)
}

/// Whether a buffer that carries the infinity flag holds nothing else.
pub open spec fn infinity_well_coded(b: Seq<u8>) -> bool {
    b[0] & 0x3F == 0 && forall|i: int| 1 <= i < b.len() ==> b[i] == 0
}

/// The values of the three flags.
pub proof fn lemma_flag_values()
    ensures
        COMPRESSED_SMALLEST == 0x80,
        COMPRESSED_LARGEST == 0xC0,
        COMPRESSED_INFINITY == 0x40,
{
    assert(0b10u8 << 6u8 == 0x80u8) by (bit_vector);
    assert(0b11u8 << 6u8 == 0xC0u8) by (bit_vector);
    assert(0b01u8 << 6u8 == 0x40u8) by (bit_vector);
}

proof fn lemma_flag_bits(x0: u8, flag: u8)
    requires
        x0 < 0x40,
        flag == COMPRESSED_LARGEST || flag == COMPRESSED_SMALLEST,
    ensures
        (x0 | flag) & 0x3F == x0,
        (x0 | flag) & 0xC0 == flag,
{
    lemma_flag_values();
    assert((x0 | flag) & 0x3F == x0 && (x0 | flag) & 0xC0 == flag) by (bit_vector)
        requires
            x0 < 0x40,
            flag == 0xC0u8 || flag == 0x80u8,
    ;
}

/// The compressed encoding of a point of the short curve.
pub open spec fn g1_encoding(p: G1Point) -> Seq<u8> {
    if p.infinity {
        infinity_encoding(32)
    } else {
        p.x@.update(0, p.x@[0] | sign_flag(lex_largest(be_nat(p.y@))))
    }
}

/// The x-coordinate that a 32-byte encoding names.
pub open spec fn g1_x_of(b: Seq<u8>) -> nat {
    be_nat(strip_flags(b)) % fq_modulus()
}

/// Some point of the short curve has the x-coordinate that `b` names.
pub open spec fn g1_x_on_curve(b: Seq<u8>) -> bool {
    exists|y: nat| y < fq_modulus() && #[trigger] on_g1_curve(g1_x_of(b), y)
}

/// `q` is a point that decoding the 32 bytes `b` may give: the identity for
/// the infinity flag; otherwise a point of the curve at the named
/// x-coordinate whose y-coordinate is the root that the flag asks for.
pub open spec fn g1_decodes_to(b: Seq<u8>, q: G1Point) -> bool {
    if flag_of(b) == COMPRESSED_INFINITY {
        q.is_identity()
    } else {
        &&& q.wf()
        &&& !q.infinity
        &&& be_nat(q.x@) == g1_x_of(b)
        &&& on_g1_curve(be_nat(q.x@), be_nat(q.y@))
        &&& g1_only_roots(be_nat(q.x@), be_nat(q.y@))
        &&& be_nat(q.y@) != 0
        &&& flag_of(b) == COMPRESSED_LARGEST ==> lex_largest(be_nat(q.y@))
        &&& flag_of(b) == COMPRESSED_SMALLEST ==> !lex_largest(be_nat(q.y@))
    }
}

/// The 32 bytes that decoding accepts: a well-coded point at infinity, or an
/// x-coordinate with a point of the curve.
pub open spec fn g1_decodable(b: Seq<u8>) -> bool {
    b.len() == 32 && if flag_of(b) == COMPRESSED_INFINITY {
        infinity_well_coded(b)
    } else {
        g1_x_on_curve(b)
    }
}

/// Relies on rust-kzg-bn254's `read_g1_point_from_bytes_be`: it refuses a
/// buffer of another length than 32 and a badly coded point at infinity, then
/// takes the square root of `x^3 + 3` and picks the root that the flag asks
/// for. In a field the only other root is the negation of that one. The root
/// is never zero: the curve's group has the odd prime order r, so no point has
/// order two. Every point of the curve lies in the subgroup (cofactor one).
#[verifier::external_body]
fn read_g1_point_from_bytes_be(b: &[u8]) -> (r: Result<G1Point, CodecError>)
    ensures
        b@.len() != 32 ==> r is Err && r->Err_0 == CodecError::Malformed,
        b@.len() == 32 && flag_of(b@) == COMPRESSED_INFINITY ==> (r is Ok <==> infinity_well_coded(
            b@,
        )) && (r is Err ==> r->Err_0 == CodecError::Malformed),
        b@.len() == 32 && flag_of(b@) != COMPRESSED_INFINITY ==> (r is Ok <==> g1_x_on_curve(b@))
            && (r is Err ==> r->Err_0 == CodecError::NotOnCurve),
        r is Ok ==> g1_decodes_to(b@, r->Ok_0),
{
    match rust_kzg_bn254_primitives::helpers::read_g1_point_from_bytes_be(b) {
        Ok(p) => Ok(
            G1Point {
                x: p.x.into_bigint().to_bytes_be(),
                y: p.y.into_bigint().to_bytes_be(),
                infinity: p.infinity,
            },
        ),
        Err(KzgError::NotOnCurveError(_)) => Err(CodecError::NotOnCurve),
        Err(_) => Err(CodecError::Malformed),
    }
}

/// Relies on arkworks' `CanonicalSerialize` for `Fq`: the canonical
/// little-endian bytes of a field element.
#[verifier::external_body]
fn fq_serialize_compressed(x: &Vec<u8>) -> (r: Vec<u8>)
    ensures
        is_canonical(x@) ==> r@ == x@.reverse(),
{
    let mut out = Vec::new();
    match Fq::from_be_bytes_mod_order(x).serialize_compressed(&mut out) {
        Ok(()) => out,
        Err(_) => Vec::new(),
    }
}

/// Decodes a compressed point of the short curve.
pub fn g1_commitment_from_bytes(bytes: &[u8]) -> (r: Result<G1Point, CodecError>)
    ensures
        bytes@.len() != 32 ==> r is Err && r->Err_0 == CodecError::Malformed,
        bytes@.len() == 32 && flag_of(bytes@) == COMPRESSED_INFINITY ==> (r is Ok
            <==> infinity_well_coded(bytes@)) && (r is Err ==> r->Err_0 == CodecError::Malformed),
        bytes@.len() == 32 && flag_of(bytes@) != COMPRESSED_INFINITY ==> (r is Ok <==> g1_x_on_curve(
            bytes@,
        )) && (r is Err ==> r->Err_0 == CodecError::NotOnCurve),
        r is Ok <==> g1_decodable(bytes@),
        r is Ok ==> g1_decodes_to(bytes@, r->Ok_0),
{
    read_g1_point_from_bytes_be(bytes)
}

/// Encodes a point of the short curve in compressed form.
pub fn g1_commitment_to_bytes(point: &G1Point) -> (r: Result<Vec<u8>, CodecError>)
    requires
        point.wf(),
    ensures
        r is Ok,
        r->Ok_0@ == g1_encoding(*point),
{
    let mut bytes: Vec<u8> = vec![0u8; 32];
    if point.infinity {
        bytes[0] = COMPRESSED_INFINITY;
        return Ok(bytes);
    }
    let x_bytes = fq_serialize_compressed(&point.x);
    let mut i: usize = 0;
    while i < 32
        invariant
            x_bytes@ == point.x@.reverse(),
            point.x@.len() == 32,
            bytes@.len() == 32,
            i <= 32,
            forall|j: int| 0 <= j < i ==> bytes@[j] == point.x@[j],
        decreases 32 - i,
    {
        bytes[i] = x_bytes[31 - i];
        i = i + 1;
    }
    assert(bytes@ == point.x@);
    let mask = if fq_lexicographically_largest(&point.y) {
        COMPRESSED_LARGEST
    } else {
        COMPRESSED_SMALLEST
    };
    let first = bytes[0] | mask;
    bytes[0] = first;
    Ok(bytes)
}

/// Encoding a point of the short curve and decoding the result succeeds and
/// gives back the point.
pub proof fn lemma_g1_round_trip(p: G1Point)
    requires
        p.wf(),
        p.on_curve(),
    ensures
        g1_encoding(p).len() == 32,
        p.infinity ==> flag_of(g1_encoding(p)) == COMPRESSED_INFINITY && infinity_well_coded(
            g1_encoding(p),
        ),
        !p.infinity ==> flag_of(g1_encoding(p)) != COMPRESSED_INFINITY && g1_x_on_curve(
            g1_encoding(p),
        ),
        forall|q: G1Point| #[trigger]
            g1_decodes_to(g1_encoding(p), q) ==> {
                &&& q.x@ == p.x@
                &&& q.infinity == p.infinity
                &&& q.y@ == p.y@
            },
{
    let e = g1_encoding(p);
    if p.infinity {
        lemma_flag_values();
        let e0 = e[0];
        assert(e0 & 0xC0 == 0x40 && e0 & 0x3F == 0) by (bit_vector)
            requires
                e0 == 0x40u8,
        ;
    } else {
        lemma_canonical_top_bits(p.x@);
        let flag = sign_flag(lex_largest(be_nat(p.y@)));
        lemma_flag_bits(p.x@[0], flag);
        assert(e[0] == p.x@[0] | flag);
        assert(flag_of(e) == flag);
        lemma_flag_values();
        assert(strip_flags(e) =~= p.x@);
        vstd::arithmetic::div_mod::lemma_small_mod(be_nat(p.x@), fq_modulus());
        assert(g1_x_of(e) == be_nat(p.x@));
        assert(on_g1_curve(g1_x_of(e), be_nat(p.y@)));
        assert forall|q: G1Point| #[trigger] g1_decodes_to(e, q) implies q.x@ == p.x@ && q.y@
            == p.y@ by {
            lemma_be_nat_injective(q.x@, p.x@);
            let qy = be_nat(q.y@);
            let py = be_nat(p.y@);
            assert(on_g1_curve(be_nat(q.x@), py));
            if py != qy {
                assert(py == fq_neg(qy));
                lemma_double_negation(qy);
                if qy != 0 {
                    lemma_negation_flips_sign(qy);
                }
            }
            lemma_be_nat_injective(q.y@, p.y@);
        }
    }
}

/// A byte string without its leading zero bytes.
pub open spec fn strip_leading_zeros(s: Seq<u8>) -> Seq<u8>
    decreases s.len(),
{
    if s.len() > 0 && s[0] == 0 {
        strip_leading_zeros(s.drop_first())
    } else {
        s
    }
}

/// The byte-order transposition between arkworks' little-endian layout and the
/// big-endian wire layout: leading zeros go, the rest is reversed and padded
/// with zeros on the right to 64 bytes.
pub open spec fn switched_endianness(s: Seq<u8>) -> Seq<u8> {
    let t = strip_leading_zeros(s);
    t.reverse() + zeros((G2_COMPRESSED_SIZE - t.len()) as nat)
}

proof fn lemma_strip_step(s: Seq<u8>, k: int)
    requires
        0 <= k < s.len(),
        s[k] == 0,
    ensures
        strip_leading_zeros(s.subrange(k, s.len() as int)) == strip_leading_zeros(
            s.subrange(k + 1, s.len() as int),
        ),
{
    assert(s.subrange(k, s.len() as int).drop_first() =~= s.subrange(k + 1, s.len() as int));
}

/// Converts bytes between little-endian and big-endian order (see
/// `switched_endianness`).
pub fn switch_endianess(bytes: &mut Vec<u8>)
    requires
        strip_leading_zeros(old(bytes)@).len() <= G2_COMPRESSED_SIZE,
    ensures
        final(bytes)@ == switched_endianness(old(bytes)@),
{
    let n = bytes.len();
    let mut k: usize = 0;
    assert(bytes@.subrange(0, n as int) =~= bytes@);
    while k < n && bytes[k] == 0
        invariant
            n == bytes@.len(),
            k <= n,
            strip_leading_zeros(bytes@) == strip_leading_zeros(bytes@.subrange(k as int, n as int)),
        decreases n - k,
    {
        proof {
            lemma_strip_step(bytes@, k as int);
        }
        k = k + 1;
    }
    let ghost t = bytes@.subrange(k as int, n as int);
    assert(strip_leading_zeros(bytes@) == t) by {
        if k == n {
            assert(t.len() == 0);
        }
    }
    let mut filtered: Vec<u8> = Vec::new();
    let mut i: usize = n;
    while i > k
        invariant
            k <= i <= n,
            n == bytes@.len(),
            t == bytes@.subrange(k as int, n as int),
            filtered@ == t.reverse().subrange(0, (n - i) as int),
        decreases i,
    {
        i = i - 1;
        filtered.push(bytes[i]);
        assert(filtered@ =~= t.reverse().subrange(0, (n - i) as int));
    }
    assert(filtered@ =~= t.reverse());
    while filtered.len() != G2_COMPRESSED_SIZE
        invariant
            t.len() <= G2_COMPRESSED_SIZE,
            t.len() <= filtered@.len() <= G2_COMPRESSED_SIZE,
            filtered@ == t.reverse() + zeros((filtered@.len() - t.len()) as nat),
        decreases G2_COMPRESSED_SIZE - filtered@.len(),
    {
        filtered.push(0);
        assert(filtered@ =~= t.reverse() + zeros((filtered@.len() - t.len()) as nat));
    }
    *bytes = filtered;
}

proof fn lemma_strip_len(s: Seq<u8>)
    ensures
        strip_leading_zeros(s).len() <= s.len(),
        s == zeros((s.len() - strip_leading_zeros(s).len()) as nat) + strip_leading_zeros(s),
    decreases s.len(),
{
    if s.len() > 0 && s[0] == 0 {
        let d = s.drop_first();
        lemma_strip_len(d);
        let t = strip_leading_zeros(s);
        assert(strip_leading_zeros(d) == t);
        let k1 = (d.len() - t.len()) as nat;
        assert(d == zeros(k1) + t);
        assert forall|i: int| 0 <= i < s.len() implies s[i] == (zeros(k1 + 1) + t)[i] by {
            if i > 0 {
                assert(s[i] == d[i - 1]);
            }
        }
        assert(s =~= zeros(k1 + 1) + t);
    } else {
        assert(s =~= zeros(0) + s);
    }
}

proof fn lemma_strip_zero_prefix(n: nat, s: Seq<u8>)
    ensures
        strip_leading_zeros(zeros(n) + s) == strip_leading_zeros(s),
    decreases n,
{
    if n > 0 {
        assert((zeros(n) + s).drop_first() =~= zeros((n - 1) as nat) + s);
        lemma_strip_zero_prefix((n - 1) as nat, s);
    } else {
        assert(zeros(n) + s =~= s);
    }
}

/// Undoing the stripping of leading zeros after the reversal gives back the
/// plain reversal.
proof fn lemma_switched_is_reverse(s: Seq<u8>)
    requires
        s.len() == G2_COMPRESSED_SIZE,
    ensures
        strip_leading_zeros(s).len() <= G2_COMPRESSED_SIZE,
        switched_endianness(s) == s.reverse(),
{
    lemma_strip_len(s);
    let t = strip_leading_zeros(s);
    let k = (s.len() - t.len()) as nat;
    assert((zeros(k) + t).reverse() =~= t.reverse() + zeros(k));
}

/// The compressed encoding of a point of the twist: `x.c1` then `x.c0`, big
/// endian, with the flag of `y` in the top bits.
pub open spec fn g2_encoding(p: G2Point) -> Seq<u8> {
    if p.infinity {
        infinity_encoding(64)
    } else {
        let e = p.x1@ + p.x0@;
        e.update(0, e[0] | sign_flag(fq2_lex_largest(be_nat(p.y0@), be_nat(p.y1@))))
    }
}

/// The x-coordinate `(c0, c1)` that a 64-byte encoding names.
pub open spec fn g2_x_of(b: Seq<u8>) -> (nat, nat) {
    (
        be_nat(b.subrange(32, 64)) % fq_modulus(),
        be_nat(strip_flags(b).subrange(0, 32)) % fq_modulus(),
    )
}

/// Some point of the twist has the x-coordinate that `b` names.
pub open spec fn g2_x_on_curve(b: Seq<u8>) -> bool {
    g2_has_root(g2_x_of(b))
}

/// Some point of the twist has the x-coordinate `x`.
pub open spec fn g2_has_root(x: (nat, nat)) -> bool {
    exists|y0: nat, y1: nat|
        y0 < fq_modulus() && y1 < fq_modulus() && #[trigger] on_g2_curve(x, (y0, y1))
}

/// `q` is a point that decoding the 64 bytes `b` may give: the identity for
/// the infinity flag; otherwise a point of the twist in the prime-order
/// subgroup at the named x-coordinate, whose y-coordinate is the root that the
/// flag asks for (the zero root answers either flag).
pub open spec fn g2_decodes_to(b: Seq<u8>, q: G2Point) -> bool {
    if flag_of(b) == COMPRESSED_INFINITY {
        q.is_identity()
    } else {
        g2_candidate(b, q) && g2_subgroup_member(q.x_value(), q.y_value())
    }
}

/// `q` is the point of the twist that 64 bytes without the infinity flag
/// name, before the subgroup is checked: at the named x-coordinate, with the
/// root that the flag asks for, which is never zero.
pub open spec fn g2_candidate(b: Seq<u8>, q: G2Point) -> bool {
    &&& q.wf()
    &&& !q.infinity
    &&& q.x_value() == g2_x_of(b)
    &&& on_g2_curve(q.x_value(), q.y_value())
    &&& g2_only_roots(q.x_value(), q.y_value())
    &&& q.y_value() != (0nat, 0nat)
    &&& fq2_lex_largest(be_nat(q.y0@), be_nat(q.y1@)) == (flag_of(b) == COMPRESSED_LARGEST)
}

/// The 64 bytes that decoding accepts: the infinity flag, or the encoding of
/// a point of the twist in the prime-order subgroup.
pub open spec fn g2_decodable(b: Seq<u8>) -> bool {
    b.len() == 64 && (flag_of(b) == COMPRESSED_INFINITY || exists|q: G2Point|
        #[trigger] g2_decodes_to(b, q))
}

/// Whether the affine point of the twist with these coordinates lies in the
/// prime-order subgroup, as arkworks decides it.
pub uninterp spec fn g2_subgroup_member(x: (nat, nat), y: (nat, nat)) -> bool;

/// An encoding names at most one point of the twist.
pub proof fn lemma_g2_candidate_unique(b: Seq<u8>, q1: G2Point, q2: G2Point)
    requires
        g2_candidate(b, q1),
        g2_candidate(b, q2),
    ensures
        q1.x0@ == q2.x0@ && q1.x1@ == q2.x1@ && q1.y0@ == q2.y0@ && q1.y1@ == q2.y1@,
{
    lemma_be_nat_injective(q1.x0@, q2.x0@);
    lemma_be_nat_injective(q1.x1@, q2.x1@);
    let y1 = q1.y_value();
    let y2 = q2.y_value();
    assert(on_g2_curve(q1.x_value(), y2));
    if y1 != y2 {
        assert(y2 == fq2_neg(y1));
        lemma_double_negation(y1.0);
        lemma_double_negation(y1.1);
        lemma_negated_root(y1);
    }
    lemma_be_nat_injective(q1.y0@, q2.y0@);
    lemma_be_nat_injective(q1.y1@, q2.y1@);
}

/// arkworks' compressed layout of a point of the twist that is not the
/// identity: the big-endian `x.c1 ++ x.c0` reversed, where the top bit of the
/// last byte may carry the sign of `y`.
pub open spec fn g2_serialized_form(p: G2Point, s: Seq<u8>) -> bool {
    let le = (p.x1@ + p.x0@).reverse();
    &&& s.len() == 64
    &&& forall|i: int| 0 <= i < 63 ==> s[i] == le[i]
    &&& s[63] == le[63] || s[63] == le[63] | 0x80
}

/// Relies on arkworks' `G2Affine::serialize_compressed`: `x.c0` then `x.c1`,
/// each in little-endian order, with the sign of `y` in the top bit of the
/// last byte.
#[verifier::external_body]
fn g2_serialize_compressed(p: &G2Point) -> (r: Vec<u8>)
    ensures
        p.wf() && !p.infinity ==> g2_serialized_form(*p, r@),
{
    let x = Fq2::new(Fq::from_be_bytes_mod_order(&p.x0), Fq::from_be_bytes_mod_order(&p.x1));
    let y = Fq2::new(Fq::from_be_bytes_mod_order(&p.y0), Fq::from_be_bytes_mod_order(&p.y1));
    let mut out = Vec::new();
    match G2Affine::new_unchecked(x, y).serialize_compressed(&mut out) {
        Ok(()) => out,
        Err(_) => Vec::new(),
    }
}

/// Relies on arkworks' `G2Affine::get_point_from_x_unchecked(x, true)`: the
/// larger of the two possible y-coordinates of a point of the twist at `x`
/// (`get_ys_from_x_unchecked`), if there is one; the other is its negation.
/// Neither is zero: the twist's group has the odd order r * (2p - r), so no
/// point has order two.
#[verifier::external_body]
fn g2_y_from_x(x0: &Vec<u8>, x1: &Vec<u8>) -> (r: Option<(Vec<u8>, Vec<u8>)>)
    ensures
        r is Some <==> g2_has_root((be_nat(x0@) % fq_modulus(), be_nat(x1@) % fq_modulus())),
        r is Some ==> is_canonical(r->Some_0.0@) && is_canonical(r->Some_0.1@) && on_g2_curve(
            (be_nat(x0@) % fq_modulus(), be_nat(x1@) % fq_modulus()),
            (be_nat(r->Some_0.0@), be_nat(r->Some_0.1@)),
        ),
        r is Some ==> g2_only_roots(
            (be_nat(x0@) % fq_modulus(), be_nat(x1@) % fq_modulus()),
            (be_nat(r->Some_0.0@), be_nat(r->Some_0.1@)),
        ),
        r is Some ==> (be_nat(r->Some_0.0@), be_nat(r->Some_0.1@)) != (0nat, 0nat),
{
    let x = Fq2::new(Fq::from_be_bytes_mod_order(x0), Fq::from_be_bytes_mod_order(x1));
    match G2Affine::get_point_from_x_unchecked(x, true) {
        Some(p) => Some((p.y.c0.into_bigint().to_bytes_be(), p.y.c1.into_bigint().to_bytes_be())),
        None => None,
    }
}

/// Relies on arkworks' `is_in_correct_subgroup_assuming_on_curve` for the
/// twist.
#[verifier::external_body]
pub(crate) fn g2_in_subgroup(p: &G2Point) -> (r: bool)
    ensures
        r == g2_subgroup_member(p.x_value(), p.y_value()),
{
    let x = Fq2::new(Fq::from_be_bytes_mod_order(&p.x0), Fq::from_be_bytes_mod_order(&p.x1));
    let y = Fq2::new(Fq::from_be_bytes_mod_order(&p.y0), Fq::from_be_bytes_mod_order(&p.y1));
    G2Affine::new_unchecked(x, y).is_in_correct_subgroup_assuming_on_curve()
}

/// Whether a canonical element is zero.
fn is_zero_element(v: &Vec<u8>) -> (r: bool)
    requires
        is_canonical(v@),
    ensures
        r == (be_nat(v@) == 0),
{
    let mut i: usize = 0;
    while i < v.len()
        invariant
            i <= v@.len(),
            v@.len() == 32,
            forall|j: int| 0 <= j < i ==> v@[j] == 0,
        decreases v@.len() - i,
    {
        if v[i] != 0 {
            proof {
                if be_nat(v@) == 0 {
                    crate::field::lemma_be_nat_zeros(32);
                    assert(zeros(32).len() == 32);
                    lemma_be_nat_injective(v@, zeros(32));
                    assert(v@[i as int] == zeros(32)[i as int]);
                }
            }
            return false;
        }
        i = i + 1;
    }
    proof {
        lemma_zero_bytes_value(v@);
    }
    true
}

/// Whether `y` is the larger of its two roots in the order the codec uses:
/// by `c1`, and by `c0` where `c1` is zero.
fn g2_y_lex_largest(y0: &Vec<u8>, y1: &Vec<u8>) -> (r: bool)
    requires
        is_canonical(y0@),
        is_canonical(y1@),
    ensures
        r == fq2_lex_largest(be_nat(y0@), be_nat(y1@)),
{
    let mut lex_largest = fq_lexicographically_largest(y1);
    if !lex_largest && is_zero_element(y1) {
        lex_largest = fq_lexicographically_largest(y0);
    }
    proof {
        vstd::arithmetic::div_mod::lemma_small_mod(be_nat(y1@), fq_modulus());
    }
    lex_largest
}

/// The negation of a root is a root of the other sign, unless it is zero.
proof fn lemma_negated_root(y: (nat, nat))
    requires
        y.0 < fq_modulus(),
        y.1 < fq_modulus(),
    ensures
        fq(-(y.0 as int)) < fq_modulus(),
        fq(-(y.1 as int)) < fq_modulus(),
        y == (0nat, 0nat) ==> (fq(-(y.0 as int)), fq(-(y.1 as int))) == (0nat, 0nat),
        y != (0nat, 0nat) ==> fq2_lex_largest(fq(-(y.0 as int)), fq(-(y.1 as int)))
            == !fq2_lex_largest(y.0, y.1),
{
    let p = fq_modulus();
    vstd::arithmetic::div_mod::lemma_small_mod(0, p);
    if y.1 != 0 {
        lemma_negation_flips_sign(y.1);
        vstd::arithmetic::div_mod::lemma_small_mod(y.1, p);
        vstd::arithmetic::div_mod::lemma_small_mod(fq(-(y.1 as int)), p);
    }
    if y.0 != 0 {
        lemma_negation_flips_sign(y.0);
    }
    vstd::arithmetic::div_mod::lemma_small_mod(y.0, p);
}

proof fn lemma_neg_square(a: int, b: int)
    ensures
        fq((fq(-a) * fq(-b)) as int) == fq(a * b),
{
    let p = fq_modulus() as int;
    vstd::arithmetic::div_mod::lemma_mul_mod_noop_general(-a, -b, p);
    assert((-a) * (-b) == a * b) by (nonlinear_arith);
}

/// Negating the y-coordinate keeps a point on the twist.
proof fn lemma_negated_on_curve(x: (nat, nat), y: (nat, nat))
    requires
        on_g2_curve(x, y),
    ensures
        on_g2_curve(x, (fq(-(y.0 as int)), fq(-(y.1 as int)))),
{
    let p = fq_modulus() as int;
    let n0 = fq(-(y.0 as int)) as int;
    let n1 = fq(-(y.1 as int)) as int;
    let a0 = y.0 as int;
    let a1 = y.1 as int;
    lemma_neg_square(a0, a0);
    lemma_neg_square(a1, a1);
    lemma_neg_square(a0, a1);
    lemma_neg_square(a1, a0);
    vstd::arithmetic::div_mod::lemma_sub_mod_noop(n0 * n0, n1 * n1, p);
    vstd::arithmetic::div_mod::lemma_sub_mod_noop(a0 * a0, a1 * a1, p);
    vstd::arithmetic::div_mod::lemma_add_mod_noop(n0 * n1, n1 * n0, p);
    vstd::arithmetic::div_mod::lemma_add_mod_noop(a0 * a1, a1 * a0, p);
}

/// Decodes a compressed point of the twist.
pub fn g2_commitment_from_bytes(bytes: &[u8]) -> (r: Result<G2Point, CodecError>)
    ensures
        bytes@.len() != 64 ==> r is Err && r->Err_0 == CodecError::Malformed,
        bytes@.len() == 64 && flag_of(bytes@) == COMPRESSED_INFINITY ==> r is Ok,
        bytes@.len() == 64 && flag_of(bytes@) != COMPRESSED_INFINITY ==> (r is Err && r->Err_0
            == CodecError::NotOnCurve <==> !g2_x_on_curve(bytes@)),
        r is Err ==> r->Err_0 != CodecError::Malformed || bytes@.len() != 64,
        r is Err && r->Err_0 == CodecError::NotInSubgroup ==> exists|q: G2Point|
            g2_candidate(bytes@, q) && !g2_subgroup_member(q.x_value(), q.y_value()),
        r is Ok <==> g2_decodable(bytes@),
        r is Ok ==> g2_decodes_to(bytes@, r->Ok_0),
{
    if bytes.len() != 64 {
        return Err(CodecError::Malformed);
    }
    proof {
        lemma_flag_values();
    }
    let msb_mask = bytes[0] & (COMPRESSED_INFINITY | COMPRESSED_SMALLEST | COMPRESSED_LARGEST);
    assert(msb_mask == flag_of(bytes@)) by {
        let b0 = bytes@[0];
        assert(b0 & (0x40u8 | 0x80u8 | 0xC0u8) == b0 & 0xC0) by (bit_vector);
    }
    if msb_mask == COMPRESSED_INFINITY {
        let point = G2Point {
            x0: vec![0u8; 32],
            x1: vec![0u8; 32],
            y0: vec![0u8; 32],
            y1: vec![0u8; 32],
            infinity: true,
        };
        assert(point.x0@ =~= zeros(32) && point.x1@ =~= zeros(32));
        assert(point.y0@ =~= zeros(32) && point.y1@ =~= zeros(32));
        return Ok(point);
    }
    let clear_mask: u8 = !(COMPRESSED_INFINITY | COMPRESSED_SMALLEST | COMPRESSED_LARGEST);
    assert(clear_mask == 0x3F) by {
        assert(!(0x40u8 | 0x80u8 | 0xC0u8) == 0x3Fu8) by (bit_vector);
    }
    let mut stripped: Vec<u8> = Vec::new();
    let mut i: usize = 0;
    while i < 64
        invariant
            i <= 64,
            bytes@.len() == 64,
            stripped@ == strip_flags(bytes@).subrange(0, i as int),
            clear_mask == 0x3F,
        decreases 64 - i,
    {
        if i == 0 {
            stripped.push(bytes[0] & clear_mask);
        } else {
            stripped.push(bytes[i]);
        }
        i = i + 1;
        assert(stripped@ =~= strip_flags(bytes@).subrange(0, i as int));
    }
    let x1 = fq_reduce(vstd::slice::slice_subrange(stripped.as_slice(), 0, 32));
    let x0 = fq_reduce(vstd::slice::slice_subrange(stripped.as_slice(), 32, 64));
    assert(stripped@ =~= strip_flags(bytes@));
    assert(strip_flags(bytes@).subrange(32, 64) =~= bytes@.subrange(32, 64));
    assert(g2_x_of(bytes@) == (be_nat(x0@), be_nat(x1@))) by {
        vstd::arithmetic::div_mod::lemma_small_mod(be_nat(x0@), fq_modulus());
        vstd::arithmetic::div_mod::lemma_small_mod(be_nat(x1@), fq_modulus());
    }
    proof {
        vstd::arithmetic::div_mod::lemma_small_mod(be_nat(x0@), fq_modulus());
        vstd::arithmetic::div_mod::lemma_small_mod(be_nat(x1@), fq_modulus());
    }
    let ys = g2_y_from_x(&x0, &x1);
    let (y0, y1) = match ys {
        None => {
            assert(!g2_x_on_curve(bytes@)) by {
                vstd::arithmetic::div_mod::lemma_small_mod(be_nat(x0@), fq_modulus());
                vstd::arithmetic::div_mod::lemma_small_mod(be_nat(x1@), fq_modulus());
            }
            return Err(CodecError::NotOnCurve);
        },
        Some(ys) => ys,
    };
    let ghost root = (be_nat(y0@), be_nat(y1@));
    let lex_largest = g2_y_lex_largest(&y0, &y1);
    let mut point = G2Point { x0, x1, y0, y1, infinity: false };
    if (msb_mask == COMPRESSED_LARGEST) != lex_largest {
        point.y0 = fq_negate(&point.y0);
        point.y1 = fq_negate(&point.y1);
        proof {
            lemma_negated_root(root);
            lemma_negated_on_curve(point.x_value(), root);
            lemma_double_negation(root.0);
            lemma_double_negation(root.1);
            assert(fq2_neg(fq2_neg(root)) == root);
            assert(fq2_neg(root) != (0nat, 0nat));
        }
    }
    proof {
        vstd::arithmetic::div_mod::lemma_small_mod(be_nat(point.x0@), fq_modulus());
        vstd::arithmetic::div_mod::lemma_small_mod(be_nat(point.x1@), fq_modulus());
    }
    assert(g2_candidate(bytes@, point));
    if !g2_in_subgroup(&point) {
        assert(!g2_decodable(bytes@)) by {
            assert forall|q: G2Point| !(#[trigger] g2_decodes_to(bytes@, q)) by {
                if g2_decodes_to(bytes@, q) {
                    lemma_g2_candidate_unique(bytes@, point, q);
                }
            }
        }
        return Err(CodecError::NotInSubgroup);
    }
    assert(g2_decodes_to(bytes@, point));
    Ok(point)
}

/// Encodes a point of the twist in compressed form.
pub fn g2_commitment_to_bytes(point: &G2Point) -> (r: Result<Vec<u8>, CodecError>)
    requires
        point.wf(),
    ensures
        r is Ok,
        r->Ok_0@ == g2_encoding(*point),
{
    let mut bytes: Vec<u8> = vec![0u8; 64];
    if point.infinity {
        proof {
            lemma_flag_values();
        }
        let first = bytes[0] | COMPRESSED_INFINITY;
        assert(first == COMPRESSED_INFINITY) by {
            assert(0u8 | 0x40u8 == 0x40u8) by (bit_vector);
        }
        bytes[0] = first;
        assert(bytes@ =~= infinity_encoding(64));
        return Ok(bytes);
    }
    let mut ser = g2_serialize_compressed(point);
    let ghost s = ser@;
    bytes.append(&mut ser);
    proof {
        assert(bytes@ =~= zeros(64) + s);
        lemma_strip_zero_prefix(64, s);
        lemma_switched_is_reverse(s);
    }
    switch_endianess(&mut bytes);
    assert(bytes@ =~= (point.x1@ + point.x0@).update(0, s[63]));
    let mask = if g2_y_lex_largest(&point.y0, &point.y1) {
        COMPRESSED_LARGEST
    } else {
        COMPRESSED_SMALLEST
    };
    proof {
        lemma_flag_values();
        lemma_canonical_top_bits(point.x1@);
        let a = point.x1@[0];
        let b0 = bytes@[0];
        assert((b0 | mask) == (a | mask)) by (bit_vector)
            requires
                b0 == a || b0 == a | 0x80u8,
                mask == 0xC0u8 || mask == 0x80u8,
        ;
    }
    let first = bytes[0] | mask;
    bytes[0] = first;
    assert(bytes@ =~= g2_encoding(*point));
    Ok(bytes)
}

/// Encoding a point of the twist and decoding the result gives back the
/// point: the x-coordinate is on the twist, and the only point that the
/// encoding names is the point itself, which lies in the subgroup.
pub proof fn lemma_g2_round_trip(p: G2Point)
    requires
        p.wf(),
        p.on_curve(),
        p.infinity || g2_subgroup_member(p.x_value(), p.y_value()),
    ensures
        g2_encoding(p).len() == 64,
        p.infinity ==> flag_of(g2_encoding(p)) == COMPRESSED_INFINITY,
        !p.infinity ==> flag_of(g2_encoding(p)) != COMPRESSED_INFINITY && g2_x_on_curve(
            g2_encoding(p),
        ),
        forall|q: G2Point| #[trigger]
            g2_candidate(g2_encoding(p), q) && !p.infinity ==> q.x0@ == p.x0@ && q.x1@ == p.x1@
                && q.y0@ == p.y0@ && q.y1@ == p.y1@ && !q.infinity,
        forall|q: G2Point| #[trigger]
            g2_decodes_to(g2_encoding(p), q) ==> {
                &&& q.x0@ == p.x0@
                &&& q.x1@ == p.x1@
                &&& q.infinity == p.infinity
                &&& q.y0@ == p.y0@
                &&& q.y1@ == p.y1@
            },
{
    let e = g2_encoding(p);
    lemma_flag_values();
    if p.infinity {
        let e0 = e[0];
        assert(e0 & 0xC0 == 0x40) by (bit_vector)
            requires
                e0 == 0x40u8,
        ;
    } else {
        lemma_canonical_top_bits(p.x1@);
        let x = p.x1@ + p.x0@;
        let flag = sign_flag(fq2_lex_largest(be_nat(p.y0@), be_nat(p.y1@)));
        lemma_flag_bits(x[0], flag);
        assert(e[0] == x[0] | flag);
        assert(flag_of(e) == flag);
        assert(strip_flags(e) =~= x);
        assert(strip_flags(e).subrange(0, 32) =~= p.x1@);
        assert(e.subrange(32, 64) =~= p.x0@);
        vstd::arithmetic::div_mod::lemma_small_mod(be_nat(p.x0@), fq_modulus());
        vstd::arithmetic::div_mod::lemma_small_mod(be_nat(p.x1@), fq_modulus());
        assert(g2_x_of(e) == p.x_value());
        assert(on_g2_curve(g2_x_of(e), (be_nat(p.y0@), be_nat(p.y1@))));
        assert forall|q: G2Point| #[trigger] g2_candidate(e, q) implies q.x0@ == p.x0@
            && q.x1@ == p.x1@ && q.y0@ == p.y0@ && q.y1@ == p.y1@ by {
            lemma_be_nat_injective(q.x0@, p.x0@);
            lemma_be_nat_injective(q.x1@, p.x1@);
            let qy = q.y_value();
            let py = p.y_value();
            assert(on_g2_curve(q.x_value(), py));
            if py != qy {
                assert(py == fq2_neg(qy));
                lemma_double_negation(qy.0);
                lemma_double_negation(qy.1);
                lemma_negated_root(qy);
            }
            lemma_be_nat_injective(q.y0@, p.y0@);
            lemma_be_nat_injective(q.y1@, p.y1@);
        }
    }
}

} // verus!
