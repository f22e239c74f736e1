//! The certificate model: nested value types built from points, byte strings
//! and integers, with two conversions. One goes to and from a byte form, in
//! which every point is compressed by the codec; the other goes to the call
//! data of the on-chain certificate verifier, in which every coordinate is a
//! 256-bit word.
use crate::codec::{
    g1_commitment_from_bytes, g1_commitment_to_bytes, g1_decodes_to, g1_encoding,
    g1_decodable, g2_commitment_from_bytes, g2_commitment_to_bytes, g2_decodable, g2_decodes_to,
    g2_encoding, g2_in_subgroup,
    g2_subgroup_member, CodecError, G1Point, G2Point,
};
use crate::field::{be_nat, fq_modulus, fq_reduce, on_g1_curve, on_g2_curve};
use ark_bn254::{Fq, Fq2, G1Affine, G2Affine};
use ark_ff::PrimeField;
use vstd::prelude::*;

verus! {

/// The blob's commitment, the commitment to its length, the proof of that
/// length, and the length itself.
pub struct BlobCommitments {
    pub commitment: G1Point,
    pub length_commitment: G2Point,
    pub length_proof: G2Point,
    pub length: u32,
}

impl BlobCommitments {
    pub open spec fn wf(&self) -> bool {
        self.commitment.wf() && self.length_commitment.wf() && self.length_proof.wf()
    }
}

/// The byte form of `BlobCommitments`: each point compressed.
pub struct BlobCommitmentsHelper {
    pub commitment: Vec<u8>,
    pub length_commitment: Vec<u8>,
    pub length_proof: Vec<u8>,
    pub length: u32,
}

impl BlobCommitmentsHelper {
    /// Compresses each point.
    pub fn try_from_commitments(b: BlobCommitments) -> (r: Result<BlobCommitmentsHelper, CodecError>)
        requires
            b.wf(),
        ensures
            r is Ok,
            r->Ok_0.commitment@ == g1_encoding(b.commitment),
            r->Ok_0.length_commitment@ == g2_encoding(b.length_commitment),
            r->Ok_0.length_proof@ == g2_encoding(b.length_proof),
            r->Ok_0.length == b.length,
    {
        Ok(
            BlobCommitmentsHelper {
                commitment: g1_commitment_to_bytes(&b.commitment)?,
                length_commitment: g2_commitment_to_bytes(&b.length_commitment)?,
                length_proof: g2_commitment_to_bytes(&b.length_proof)?,
                length: b.length,
            },
        )
    }
}

impl BlobCommitments {
    /// Decodes each point; the first point that does not decode gives the
    /// error.
    pub fn try_from_helper(helper: BlobCommitmentsHelper) -> (r: Result<BlobCommitments, CodecError>)
        ensures
            r is Ok ==> g1_decodes_to(helper.commitment@, r->Ok_0.commitment),
            r is Ok ==> g2_decodes_to(helper.length_commitment@, r->Ok_0.length_commitment),
            r is Ok ==> g2_decodes_to(helper.length_proof@, r->Ok_0.length_proof),
            r is Ok ==> r->Ok_0.length == helper.length,
            r is Ok <==> g1_decodable(helper.commitment@) && g2_decodable(helper.length_commitment@)
                && g2_decodable(helper.length_proof@),
    {
        Ok(
            BlobCommitments {
                commitment: g1_commitment_from_bytes(helper.commitment.as_slice())?,
                length_commitment: g2_commitment_from_bytes(helper.length_commitment.as_slice())?,
                length_proof: g2_commitment_from_bytes(helper.length_proof.as_slice())?,
                length: helper.length,
            },
        )
    }
}

pub struct BlobHeader {
    pub version: u16,
    pub quorum_numbers: Vec<u8>,
    pub commitment: BlobCommitments,
    pub payment_header_hash: [u8; 32],
}

/// A full description of a blob and of how it is dispersed: the header comes
/// from the submitter, the relay keys from the disperser.
pub struct BlobCertificate {
    pub blob_header: BlobHeader,
    pub signature: Vec<u8>,
    pub relay_keys: Vec<u32>,
}

/// What is needed to verify that a blob is included in a batch.
pub struct BlobInclusionInfo {
    pub blob_certificate: BlobCertificate,
    pub blob_index: u32,
    pub inclusion_proof: Vec<u8>,
}

pub struct BatchHeaderV2 {
    pub batch_root: [u8; 32],
    pub reference_block_number: u32,
}

/// Aggregated-signature data of the quorums that attested to the batch.
pub struct NonSignerStakesAndSignature {
    pub non_signer_quorum_bitmap_indices: Vec<u32>,
    pub non_signer_pubkeys: Vec<G1Point>,
    pub quorum_apks: Vec<G1Point>,
    pub apk_g2: G2Point,
    pub sigma: G1Point,
    pub quorum_apk_indices: Vec<u32>,
    pub total_stake_indices: Vec<u32>,
    pub non_signer_stake_indices: Vec<Vec<u32>>,
}

impl NonSignerStakesAndSignature {
    pub open spec fn wf(&self) -> bool {
        &&& forall|i: int| 0 <= i < self.non_signer_pubkeys@.len() ==> (
        #[trigger] self.non_signer_pubkeys@[i]).wf()
        &&& forall|i: int| 0 <= i < self.quorum_apks@.len() ==> (#[trigger] self.quorum_apks@[i]).wf()
        &&& self.apk_g2.wf()
        &&& self.sigma.wf()
    }
}

/// The byte form of `NonSignerStakesAndSignature`: each point compressed.
pub struct NonSignerStakesAndSignatureHelper {
    pub non_signer_quorum_bitmap_indices: Vec<u32>,
    pub non_signer_pubkeys: Vec<Vec<u8>>,
    pub quorum_apks: Vec<Vec<u8>>,
    pub apk_g2: Vec<u8>,
    pub sigma: Vec<u8>,
    pub quorum_apk_indices: Vec<u32>,
    pub total_stake_indices: Vec<u32>,
    pub non_signer_stake_indices: Vec<Vec<u32>>,
}

/// Compresses each point of a list.
fn encode_g1_points(points: &Vec<G1Point>) -> (r: Vec<Vec<u8>>)
    requires
        forall|i: int| 0 <= i < points@.len() ==> (#[trigger] points@[i]).wf(),
    ensures
        r@.len() == points@.len(),
        forall|i: int| 0 <= i < r@.len() ==> (#[trigger] r@[i])@ == g1_encoding(points@[i]),
{
    let mut out: Vec<Vec<u8>> = Vec::new();
    let mut i: usize = 0;
    while i < points.len()
        invariant
            i <= points@.len(),
            out@.len() == i,
            forall|j: int| 0 <= j < points@.len() ==> (#[trigger] points@[j]).wf(),
            forall|j: int| 0 <= j < i ==> (#[trigger] out@[j])@ == g1_encoding(points@[j]),
        decreases points@.len() - i,
    {
        let encoded = g1_commitment_to_bytes(&points[i]);
        match encoded {
            Ok(b) => out.push(b),
            Err(_) => {
                assert(false);
            },
        }
        i = i + 1;
    }
    out
}

/// Decodes each point of a list; the first that does not decode gives the
/// error.
fn decode_g1_points(encoded: &Vec<Vec<u8>>) -> (r: Result<Vec<G1Point>, CodecError>)
    ensures
        r is Ok ==> r->Ok_0@.len() == encoded@.len(),
        r is Ok ==> forall|i: int|
            0 <= i < encoded@.len() ==> g1_decodes_to(encoded@[i]@, #[trigger] r->Ok_0@[i]),
        r is Ok <==> forall|i: int| 0 <= i < encoded@.len() ==> g1_decodable(#[trigger] encoded@[i]@),
{
    let mut out: Vec<G1Point> = Vec::new();
    let mut i: usize = 0;
    while i < encoded.len()
        invariant
            i <= encoded@.len(),
            out@.len() == i,
            forall|j: int| 0 <= j < i ==> g1_decodes_to(encoded@[j]@, #[trigger] out@[j]),
            forall|j: int| 0 <= j < i ==> g1_decodable(#[trigger] encoded@[j]@),
        decreases encoded@.len() - i,
    {
        let p = g1_commitment_from_bytes(encoded[i].as_slice())?;
        out.push(p);
        i = i + 1;
    }
    Ok(out)
}

impl NonSignerStakesAndSignatureHelper {
    /// Compresses each point.
    pub fn try_from_signature(n: NonSignerStakesAndSignature) -> (r: Result<
        NonSignerStakesAndSignatureHelper,
        CodecError,
    >)
        requires
            n.wf(),
        ensures
            r is Ok,
            r->Ok_0.non_signer_pubkeys@.len() == n.non_signer_pubkeys@.len(),
            forall|i: int|
                0 <= i < n.non_signer_pubkeys@.len() ==> (#[trigger] r->Ok_0.non_signer_pubkeys@[i])@
                    == g1_encoding(n.non_signer_pubkeys@[i]),
            r->Ok_0.quorum_apks@.len() == n.quorum_apks@.len(),
            forall|i: int|
                0 <= i < n.quorum_apks@.len() ==> (#[trigger] r->Ok_0.quorum_apks@[i])@
                    == g1_encoding(n.quorum_apks@[i]),
            r->Ok_0.apk_g2@ == g2_encoding(n.apk_g2),
            r->Ok_0.sigma@ == g1_encoding(n.sigma),
            r->Ok_0.non_signer_quorum_bitmap_indices == n.non_signer_quorum_bitmap_indices,
            r->Ok_0.quorum_apk_indices == n.quorum_apk_indices,
            r->Ok_0.total_stake_indices == n.total_stake_indices,
            r->Ok_0.non_signer_stake_indices == n.non_signer_stake_indices,
    {
        let non_signer_pubkeys = encode_g1_points(&n.non_signer_pubkeys);
        let quorum_apks = encode_g1_points(&n.quorum_apks);
        Ok(
            NonSignerStakesAndSignatureHelper {
                non_signer_quorum_bitmap_indices: n.non_signer_quorum_bitmap_indices,
                non_signer_pubkeys,
                quorum_apks,
                apk_g2: g2_commitment_to_bytes(&n.apk_g2)?,
                sigma: g1_commitment_to_bytes(&n.sigma)?,
                quorum_apk_indices: n.quorum_apk_indices,
                total_stake_indices: n.total_stake_indices,
                non_signer_stake_indices: n.non_signer_stake_indices,
            },
        )
    }
}

impl NonSignerStakesAndSignature {
    /// Decodes each point; the first that does not decode gives the error.
    pub fn try_from_helper(helper: NonSignerStakesAndSignatureHelper) -> (r: Result<
        NonSignerStakesAndSignature,
        CodecError,
    >)
        ensures
            r is Ok ==> r->Ok_0.non_signer_pubkeys@.len() == helper.non_signer_pubkeys@.len(),
            r is Ok ==> forall|i: int|
                0 <= i < helper.non_signer_pubkeys@.len() ==> g1_decodes_to(
                    helper.non_signer_pubkeys@[i]@,
                    #[trigger] r->Ok_0.non_signer_pubkeys@[i],
                ),
            r is Ok ==> r->Ok_0.quorum_apks@.len() == helper.quorum_apks@.len(),
            r is Ok ==> forall|i: int|
                0 <= i < helper.quorum_apks@.len() ==> g1_decodes_to(
                    helper.quorum_apks@[i]@,
                    #[trigger] r->Ok_0.quorum_apks@[i],
                ),
            r is Ok ==> g2_decodes_to(helper.apk_g2@, r->Ok_0.apk_g2),
            r is Ok ==> g1_decodes_to(helper.sigma@, r->Ok_0.sigma),
            r is Ok ==> r->Ok_0.non_signer_quorum_bitmap_indices
                == helper.non_signer_quorum_bitmap_indices,
            r is Ok ==> r->Ok_0.quorum_apk_indices == helper.quorum_apk_indices,
            r is Ok ==> r->Ok_0.total_stake_indices == helper.total_stake_indices,
            r is Ok ==> r->Ok_0.non_signer_stake_indices == helper.non_signer_stake_indices,
            r is Ok <==> (forall|i: int|
                0 <= i < helper.non_signer_pubkeys@.len() ==> g1_decodable(
                    #[trigger] helper.non_signer_pubkeys@[i]@,
                )) && (forall|i: int|
                0 <= i < helper.quorum_apks@.len() ==> g1_decodable(
                    #[trigger] helper.quorum_apks@[i]@,
                )) && g2_decodable(helper.apk_g2@) && g1_decodable(helper.sigma@),
    {
        let non_signer_pubkeys = decode_g1_points(&helper.non_signer_pubkeys)?;
        let quorum_apks = decode_g1_points(&helper.quorum_apks)?;
        Ok(
            NonSignerStakesAndSignature {
                non_signer_quorum_bitmap_indices: helper.non_signer_quorum_bitmap_indices,
                non_signer_pubkeys,
                quorum_apks,
                apk_g2: g2_commitment_from_bytes(helper.apk_g2.as_slice())?,
                sigma: g1_commitment_from_bytes(helper.sigma.as_slice())?,
                quorum_apk_indices: helper.quorum_apk_indices,
                total_stake_indices: helper.total_stake_indices,
                non_signer_stake_indices: helper.non_signer_stake_indices,
            },
        )
    }
}

/// A point of the short curve as call data: two 256-bit big-endian words.
pub struct G1PointCall {
    pub x: Vec<u8>,
    pub y: Vec<u8>,
}

/// A point of the twist as call data. The verifier takes each coordinate as
/// the pair of words `[c1, c0]`.
pub struct G2PointCall {
    pub x: (Vec<u8>, Vec<u8>),
    pub y: (Vec<u8>, Vec<u8>),
}

/// Why call data does not hold a point of the group.
#[derive(Debug, Clone, Copy, PartialEq, Eq, Structural)]
pub enum ConversionError {
    G1NotOnCurve,
    G1NotInSubgroup,
    G2NotOnCurve,
    G2NotInSubgroup,
}

fn copy_bytes(v: &Vec<u8>) -> (r: Vec<u8>)
    ensures
        r@ == v@,
{
    let mut out: Vec<u8> = Vec::new();
    let mut i: usize = 0;
    while i < v.len()
        invariant
            i <= v@.len(),
            out@ == v@.subrange(0, i as int),
        decreases v@.len() - i,
    {
        out.push(v[i]);
        i = i + 1;
        assert(out@ =~= v@.subrange(0, i as int));
    }
    assert(v@.subrange(0, v@.len() as int) =~= v@);
    out
}

/// The call data of a point of the short curve: its coordinates.
pub fn g1_contract_point_from_g1_affine(p: &G1Point) -> (r: G1PointCall)
    ensures
        r.x@ == p.x@,
        r.y@ == p.y@,
{
    G1PointCall { x: copy_bytes(&p.x), y: copy_bytes(&p.y) }
}

/// The call data of a point of the twist: `[x.c1, x.c0]` and `[y.c1, y.c0]`.
pub fn g2_contract_point_from_g2_affine(p: &G2Point) -> (r: G2PointCall)
    ensures
        r.x.0@ == p.x1@,
        r.x.1@ == p.x0@,
        r.y.0@ == p.y1@,
        r.y.1@ == p.y0@,
{
    G2PointCall {
        x: (copy_bytes(&p.x1), copy_bytes(&p.x0)),
        y: (copy_bytes(&p.y1), copy_bytes(&p.y0)),
    }
}

/// Relies on arkworks' `is_on_curve` for an affine point of the short curve
/// that is not the identity: `y^2 = x^3 + 3`.
#[verifier::external_body]
pub(crate) fn g1_is_on_curve(x: &Vec<u8>, y: &Vec<u8>) -> (r: bool)
    ensures
        r == on_g1_curve(be_nat(x@) % fq_modulus(), be_nat(y@) % fq_modulus()),
{
    G1Affine::new_unchecked(Fq::from_be_bytes_mod_order(x), Fq::from_be_bytes_mod_order(y)).is_on_curve()
}

/// Relies on arkworks' `is_in_correct_subgroup_assuming_on_curve` for the
/// short curve, which ark-bn254 answers with `true`: the cofactor is one, so
/// every point of the curve lies in the subgroup.
#[verifier::external_body]
fn g1_in_subgroup(x: &Vec<u8>, y: &Vec<u8>) -> (r: bool)
    ensures
        r,
{
    G1Affine::new_unchecked(Fq::from_be_bytes_mod_order(x), Fq::from_be_bytes_mod_order(y))
        .is_in_correct_subgroup_assuming_on_curve()
}

/// Relies on arkworks' `is_on_curve` for an affine point of the twist that is
/// not the identity: `y^2 = x^3 + 3 / (u + 9)`.
#[verifier::external_body]
fn g2_is_on_curve(p: &G2Point) -> (r: bool)
    ensures
        r == on_g2_curve(p.x_value(), p.y_value()),
{
    let x = Fq2::new(Fq::from_be_bytes_mod_order(&p.x0), Fq::from_be_bytes_mod_order(&p.x1));
    let y = Fq2::new(Fq::from_be_bytes_mod_order(&p.y0), Fq::from_be_bytes_mod_order(&p.y1));
    G2Affine::new_unchecked(x, y).is_on_curve()
}

/// The point of the short curve that call data names: each word reduced into
/// the field, then the point checked to lie on the curve and in the subgroup.
/// Call data cannot name the identity.
pub fn g1_affine_from_g1_contract_point(c: &G1PointCall) -> (r: Result<G1Point, ConversionError>)
    ensures
        !on_g1_curve(be_nat(c.x@) % fq_modulus(), be_nat(c.y@) % fq_modulus()) <==> r is Err
            && r->Err_0 == ConversionError::G1NotOnCurve,
        r is Ok <==> on_g1_curve(be_nat(c.x@) % fq_modulus(), be_nat(c.y@) % fq_modulus()),
        r is Ok ==> r->Ok_0.wf() && !r->Ok_0.infinity && be_nat(r->Ok_0.x@) == be_nat(c.x@)
            % fq_modulus() && be_nat(r->Ok_0.y@) == be_nat(c.y@) % fq_modulus(),
{
    let x = fq_reduce(c.x.as_slice());
    let y = fq_reduce(c.y.as_slice());
    proof {
        vstd::arithmetic::div_mod::lemma_small_mod(be_nat(x@), fq_modulus());
        vstd::arithmetic::div_mod::lemma_small_mod(be_nat(y@), fq_modulus());
    }
    if !g1_is_on_curve(&x, &y) {
        return Err(ConversionError::G1NotOnCurve);
    }
    if !g1_in_subgroup(&x, &y) {
        return Err(ConversionError::G1NotInSubgroup);
    }
    Ok(G1Point { x, y, infinity: false })
}

/// The point of the twist that call data names: each word reduced into the
/// field, then the point checked to lie on the twist and in the subgroup.
pub fn g2_affine_from_g2_contract_point(c: &G2PointCall) -> (r: Result<G2Point, ConversionError>)
    ensures
        r is Ok <==> on_g2_curve(g2_call_x(*c), g2_call_y(*c)) && g2_subgroup_member(
            g2_call_x(*c),
            g2_call_y(*c),
        ),
        !on_g2_curve(g2_call_x(*c), g2_call_y(*c)) ==> r is Err && r->Err_0
            == ConversionError::G2NotOnCurve,
        on_g2_curve(g2_call_x(*c), g2_call_y(*c)) && !g2_subgroup_member(g2_call_x(*c), g2_call_y(*c))
            ==> r is Err && r->Err_0 == ConversionError::G2NotInSubgroup,
        r is Ok ==> r->Ok_0.wf() && !r->Ok_0.infinity && r->Ok_0.x_value() == g2_call_x(*c)
            && r->Ok_0.y_value() == g2_call_y(*c),
{
    let point = G2Point {
        x0: fq_reduce(c.x.1.as_slice()),
        x1: fq_reduce(c.x.0.as_slice()),
        y0: fq_reduce(c.y.1.as_slice()),
        y1: fq_reduce(c.y.0.as_slice()),
        infinity: false,
    };
    proof {
        vstd::arithmetic::div_mod::lemma_small_mod(be_nat(point.x0@), fq_modulus());
        vstd::arithmetic::div_mod::lemma_small_mod(be_nat(point.x1@), fq_modulus());
        vstd::arithmetic::div_mod::lemma_small_mod(be_nat(point.y0@), fq_modulus());
        vstd::arithmetic::div_mod::lemma_small_mod(be_nat(point.y1@), fq_modulus());
    }
    if !g2_is_on_curve(&point) {
        return Err(ConversionError::G2NotOnCurve);
    }
    if !g2_in_subgroup(&point) {
        return Err(ConversionError::G2NotInSubgroup);
    }
    Ok(point)
}

/// The x-coordinate `(c0, c1)` that call data names, reduced into the field.
pub open spec fn g2_call_x(c: G2PointCall) -> (nat, nat) {
    (be_nat(c.x.1@) % fq_modulus(), be_nat(c.x.0@) % fq_modulus())
}

/// The y-coordinate `(c0, c1)` that call data names, reduced into the field.
pub open spec fn g2_call_y(c: G2PointCall) -> (nat, nat) {
    (be_nat(c.y.1@) % fq_modulus(), be_nat(c.y.0@) % fq_modulus())
}

/// The call data of a list of points of the short curve.
fn g1_points_call(points: &Vec<G1Point>) -> (r: Vec<G1PointCall>)
    ensures
        r@.len() == points@.len(),
        forall|i: int|
            0 <= i < r@.len() ==> (#[trigger] r@[i]).x@ == points@[i].x@ && r@[i].y@
                == points@[i].y@,
{
    let mut out: Vec<G1PointCall> = Vec::new();
    let mut i: usize = 0;
    while i < points.len()
        invariant
            i <= points@.len(),
            out@.len() == i,
            forall|j: int|
                0 <= j < i ==> (#[trigger] out@[j]).x@ == points@[j].x@ && out@[j].y@
                    == points@[j].y@,
        decreases points@.len() - i,
    {
        out.push(g1_contract_point_from_g1_affine(&points[i]));
        i = i + 1;
    }
    out
}

/// `NonSignerStakesAndSignature` of the verifier: every point as words.
pub struct NonSignerStakesAndSignatureCall {
    pub non_signer_quorum_bitmap_indices: Vec<u32>,
    pub non_signer_pubkeys: Vec<G1PointCall>,
    pub quorum_apks: Vec<G1PointCall>,
    pub apk_g2: G2PointCall,
    pub sigma: G1PointCall,
    pub quorum_apk_indices: Vec<u32>,
    pub total_stake_indices: Vec<u32>,
    pub non_signer_stake_indices: Vec<Vec<u32>>,
}

impl NonSignerStakesAndSignatureCall {
    /// Turns every point into words; the indices are kept as they are.
    pub fn from_signature(n: NonSignerStakesAndSignature) -> (r: NonSignerStakesAndSignatureCall)
        ensures
            r.non_signer_pubkeys@.len() == n.non_signer_pubkeys@.len(),
            forall|i: int|
                0 <= i < n.non_signer_pubkeys@.len() ==> (#[trigger] r.non_signer_pubkeys@[i]).x@
                    == n.non_signer_pubkeys@[i].x@ && r.non_signer_pubkeys@[i].y@
                    == n.non_signer_pubkeys@[i].y@,
            r.quorum_apks@.len() == n.quorum_apks@.len(),
            forall|i: int|
                0 <= i < n.quorum_apks@.len() ==> (#[trigger] r.quorum_apks@[i]).x@
                    == n.quorum_apks@[i].x@ && r.quorum_apks@[i].y@ == n.quorum_apks@[i].y@,
            r.apk_g2.x.0@ == n.apk_g2.x1@ && r.apk_g2.x.1@ == n.apk_g2.x0@,
            r.apk_g2.y.0@ == n.apk_g2.y1@ && r.apk_g2.y.1@ == n.apk_g2.y0@,
            r.sigma.x@ == n.sigma.x@ && r.sigma.y@ == n.sigma.y@,
            r.non_signer_quorum_bitmap_indices == n.non_signer_quorum_bitmap_indices,
            r.quorum_apk_indices == n.quorum_apk_indices,
            r.total_stake_indices == n.total_stake_indices,
            r.non_signer_stake_indices == n.non_signer_stake_indices,
    {
        NonSignerStakesAndSignatureCall {
            non_signer_pubkeys: g1_points_call(&n.non_signer_pubkeys),
            quorum_apks: g1_points_call(&n.quorum_apks),
            apk_g2: g2_contract_point_from_g2_affine(&n.apk_g2),
            sigma: g1_contract_point_from_g1_affine(&n.sigma),
            non_signer_quorum_bitmap_indices: n.non_signer_quorum_bitmap_indices,
            quorum_apk_indices: n.quorum_apk_indices,
            total_stake_indices: n.total_stake_indices,
            non_signer_stake_indices: n.non_signer_stake_indices,
        }
    }
}

/// The call data of an attestation: every point as words.
pub struct AttestationCall {
    pub non_signer_pubkeys: Vec<G1PointCall>,
    pub quorum_apks: Vec<G1PointCall>,
    pub sigma: G1PointCall,
    pub apk_g2: G2PointCall,
    pub quorum_numbers: Vec<u32>,
}

impl AttestationCall {
    /// Turns every point into words; the quorum numbers are kept.
    pub fn from_attestation(a: Attestation) -> (r: AttestationCall)
        ensures
            r.non_signer_pubkeys@.len() == a.non_signer_pubkeys@.len(),
            forall|i: int|
                0 <= i < a.non_signer_pubkeys@.len() ==> (#[trigger] r.non_signer_pubkeys@[i]).x@
                    == a.non_signer_pubkeys@[i].x@ && r.non_signer_pubkeys@[i].y@
                    == a.non_signer_pubkeys@[i].y@,
            r.quorum_apks@.len() == a.quorum_apks@.len(),
            forall|i: int|
                0 <= i < a.quorum_apks@.len() ==> (#[trigger] r.quorum_apks@[i]).x@
                    == a.quorum_apks@[i].x@ && r.quorum_apks@[i].y@ == a.quorum_apks@[i].y@,
            r.sigma.x@ == a.sigma.x@ && r.sigma.y@ == a.sigma.y@,
            r.apk_g2.x.0@ == a.apk_g2.x1@ && r.apk_g2.x.1@ == a.apk_g2.x0@,
            r.apk_g2.y.0@ == a.apk_g2.y1@ && r.apk_g2.y.1@ == a.apk_g2.y0@,
            r.quorum_numbers == a.quorum_numbers,
    {
        AttestationCall {
            non_signer_pubkeys: g1_points_call(&a.non_signer_pubkeys),
            quorum_apks: g1_points_call(&a.quorum_apks),
            sigma: g1_contract_point_from_g1_affine(&a.sigma),
            apk_g2: g2_contract_point_from_g2_affine(&a.apk_g2),
            quorum_numbers: a.quorum_numbers,
        }
    }
}

/// The aggregated public keys and signature of an attestation.
pub struct Attestation {
    pub non_signer_pubkeys: Vec<G1Point>,
    pub quorum_apks: Vec<G1Point>,
    pub sigma: G1Point,
    pub apk_g2: G2Point,
    pub quorum_numbers: Vec<u32>,
}

/// The top-level certificate of a blob, as a rollup inbox holds it.
pub struct EigenDACert {
    pub blob_inclusion_info: BlobInclusionInfo,
    pub batch_header: BatchHeaderV2,
    pub non_signer_stakes_and_signature: NonSignerStakesAndSignature,
    pub signed_quorum_numbers: Vec<u8>,
}

} // verus!
