//! The commitment consistency check: the payload is turned into a blob, its
//! commitment is recomputed from the structured reference string and compared
//! with the certificate's, then the blob is opened at a Fiat-Shamir challenge.
//!
//! Every step is a computation of the KZG crates that depends on its
//! arguments alone; each has a name here, and the contract of
//! `check_payload_consistency` says, over those names, what comes out for
//! every input.
use crate::cert::g1_is_on_curve;
use crate::codec::G1Point;
use crate::field::{
    be_nat, fq_modulus, fq_reduce, is_canonical, lemma_be_nat_injective, limbs, on_g1_curve, zeros,
};
use ark_bn254::{Fq, Fr, G1Affine};
use ark_ff::{BigInteger, PrimeField};
use rust_eigenda_v2_common::{Payload, PayloadForm};
use rust_kzg_bn254_primitives::blob::Blob;
use rust_kzg_bn254_prover::kzg::KZG;
use rust_kzg_bn254_prover::srs::SRS;
use vstd::prelude::*;

verus! {

#[verifier::external_type_specification]
#[verifier::external_body]
pub struct ExSrs<'a>(SRS<'a>);

/// How dispersed payloads are read: as polynomial coefficients or as
/// evaluations.
#[derive(Debug, Clone, Copy, PartialEq, Eq, Structural)]
pub enum PolynomialForm {
    Coeff,
    Eval,
}

/// Why a payload does not check against a certificate; each variant names the
/// step that failed.
#[derive(Debug, Clone, Copy, PartialEq, Eq, Structural)]
pub enum CheckError {
    /// The claimed commitment is not a point of the curve.
    InvalidCommitment,
    /// The payload could not be encoded into a blob.
    PayloadEncoding,
    /// The blob holds a non-canonical field element.
    InvalidBlob,
    /// A commitment to the blob could not be computed.
    Commitment,
    /// The commitment recomputed from the payload is not the certificate's.
    CommitmentMismatch,
    /// The Fiat-Shamir challenge could not be derived.
    Challenge,
    /// The opening proof could not be computed.
    Opening,
}

/// A point as plain values: its coordinates and its infinity flag.
pub open spec fn point_model(p: G1Point) -> (Seq<u8>, Seq<u8>, bool) {
    (p.x@, p.y@, p.infinity)
}

/// The structured reference string: the G1 points of the setup in monomial
/// form, held both as plain values and in the prover's own form, built from
/// the same points.
pub struct ReferenceString {
    points: Vec<G1Point>,
    srs: SRS<'static>,
}

impl View for ReferenceString {
    type V = Seq<(Seq<u8>, Seq<u8>, bool)>;

    closed spec fn view(&self) -> Seq<(Seq<u8>, Seq<u8>, bool)> {
        self.points@.map_values(|p: G1Point| point_model(p))
    }
}

/// Relies on the public `g1` field of rust-kzg-bn254's `SRS`: its points,
/// converted to plain coordinates.
#[verifier::external_body]
fn srs_points(srs: &SRS<'static>) -> (r: Vec<G1Point>) {
    srs.g1.iter().map(
        |p| G1Point {
            x: p.x.into_bigint().to_bytes_be(),
            y: p.y.into_bigint().to_bytes_be(),
            infinity: p.infinity,
        },
    ).collect()
}

impl ReferenceString {
    /// The reference string of a loaded `SRS`.
    pub fn from_srs(srs: SRS<'static>) -> (r: ReferenceString) {
        let points = srs_points(&srs);
        ReferenceString { points, srs }
    }

    /// The number of points.
    pub fn len(&self) -> (r: usize)
        ensures
            r == self@.len(),
    {
        self.points.len()
    }
}

/// The bytes of the blob that a payload is encoded into, if it can be.
pub uninterp spec fn payload_blob(data: Seq<u8>, eval_form: bool) -> Option<Seq<u8>>;

/// The commitment to the blob read as coefficients, if it can be computed.
pub uninterp spec fn coeff_commitment(blob: Seq<u8>, srs: Seq<(Seq<u8>, Seq<u8>, bool)>) -> Option<
    (Seq<u8>, Seq<u8>, bool),
>;

/// The commitment to the blob's polynomial in evaluation form, if it can be
/// computed.
pub uninterp spec fn eval_commitment(blob: Seq<u8>, srs: Seq<(Seq<u8>, Seq<u8>, bool)>) -> Option<
    (Seq<u8>, Seq<u8>, bool),
>;

/// The Fiat-Shamir challenge of the blob and a commitment, as the big-endian
/// bytes of a scalar, if it can be derived.
pub uninterp spec fn fiat_shamir_challenge(blob: Seq<u8>, commitment: (Seq<u8>, Seq<u8>, bool)) -> Option<
    Seq<u8>,
>;

/// The KZG opening proof of the blob's polynomial at the challenge, if it can
/// be computed.
pub uninterp spec fn opening_proof(
    blob: Seq<u8>,
    challenge: Seq<u8>,
    srs: Seq<(Seq<u8>, Seq<u8>, bool)>,
) -> Option<(Seq<u8>, Seq<u8>, bool)>;

/// The modulus of the BN254 scalar field.
pub open spec fn fr_modulus() -> nat {
    limbs(0x30644e72e131a029, 0xb85045b68181585d, 0x2833e84879b97091, 0x43e1f593f0000001)
}

/// Blob bytes: 32-byte big-endian scalars, each below the scalar modulus.
pub open spec fn scalars_canonical(b: Seq<u8>) -> bool {
    &&& b.len() % 32 == 0
    &&& forall|i: int|
        0 <= i < b.len() / 32 ==> be_nat(#[trigger] b.subrange(32 * i, 32 * i + 32)) < fr_modulus()
}

/// Relies on rust-eigenda-v2-common's `Payload::to_blob` and `Blob::serialize`:
/// the padded field elements of the payload, converted to coefficient form
/// where the payload is in evaluation form.
#[verifier::external_body]
fn encode_payload(data: &Vec<u8>, form: PolynomialForm) -> (r: Result<Vec<u8>, CheckError>)
    ensures
        r is Ok <==> payload_blob(data@, form == PolynomialForm::Eval) is Some,
        r is Ok ==> r->Ok_0@ == payload_blob(data@, form == PolynomialForm::Eval)->Some_0,
        r is Err ==> r->Err_0 == CheckError::PayloadEncoding,
{
    let form = match form {
        PolynomialForm::Coeff => PayloadForm::Coeff,
        PolynomialForm::Eval => PayloadForm::Eval,
    };
    match Payload::new(data.clone()).to_blob(form) {
        Ok(blob) => Ok(blob.serialize()),
        Err(_) => Err(CheckError::PayloadEncoding),
    }
}

/// Relies on rust-kzg-bn254's `Blob::new`, which accepts a whole number of
/// 32-byte chunks, each the big-endian form of a scalar below the modulus.
#[verifier::external_body]
fn validate_blob(bytes: &Vec<u8>) -> (r: Result<(), CheckError>)
    ensures
        r is Ok <==> scalars_canonical(bytes@),
        r is Err ==> r->Err_0 == CheckError::InvalidBlob,
{
    match Blob::new(bytes) {
        Ok(_) => Ok(()),
        Err(_) => Err(CheckError::InvalidBlob),
    }
}

/// Relies on rust-kzg-bn254's `KZG::commit_coeff_form`, on the blob's bytes
/// read as coefficients; the point comes back in affine coordinates.
#[verifier::external_body]
fn commit_coeff_form(blob: &Vec<u8>, srs: &ReferenceString) -> (r: Result<G1Point, CheckError>)
    ensures
        r is Ok <==> coeff_commitment(blob@, srs@) is Some,
        r is Ok ==> point_model(r->Ok_0) == coeff_commitment(blob@, srs@)->Some_0 && r->Ok_0.wf(),
        r is Err ==> r->Err_0 == CheckError::Commitment,
{
    let commitment = match Blob::from(blob.clone()).to_polynomial_coeff_form() {
        Ok(poly) => KZG::new().commit_coeff_form(&poly, &srs.srs),
        Err(e) => Err(e),
    };
    match commitment {
        Ok(p) => Ok(G1Point { x: p.x.into_bigint().to_bytes_be(), y: p.y.into_bigint().to_bytes_be(), infinity: p.infinity }),
        Err(_) => Err(CheckError::Commitment),
    }
}

/// Relies on rust-kzg-bn254's `KZG::commit_eval_form`, on the evaluations of
/// the blob's polynomial over its domain (`to_eval_form`, an FFT).
#[verifier::external_body]
fn commit_eval_form(blob: &Vec<u8>, srs: &ReferenceString) -> (r: Result<G1Point, CheckError>)
    ensures
        r is Ok <==> eval_commitment(blob@, srs@) is Some,
        r is Ok ==> point_model(r->Ok_0) == eval_commitment(blob@, srs@)->Some_0 && r->Ok_0.wf(),
        r is Err ==> r->Err_0 == CheckError::Commitment,
{
    let commitment = match Blob::from(blob.clone()).to_polynomial_coeff_form() {
        Ok(poly) => match poly.to_eval_form() {
            Ok(evals) => KZG::new().commit_eval_form(&evals, &srs.srs),
            Err(e) => Err(e.into()),
        },
        Err(e) => Err(e),
    };
    match commitment {
        Ok(p) => Ok(G1Point { x: p.x.into_bigint().to_bytes_be(), y: p.y.into_bigint().to_bytes_be(), infinity: p.infinity }),
        Err(_) => Err(CheckError::Commitment),
    }
}

/// Relies on rust-kzg-bn254's `compute_challenge`: the Fiat-Shamir challenge
/// of the blob and the commitment, as big-endian bytes of a scalar.
#[verifier::external_body]
fn compute_challenge(blob: &Vec<u8>, commitment: &G1Point) -> (r: Result<Vec<u8>, CheckError>)
    ensures
        r is Ok <==> fiat_shamir_challenge(blob@, point_model(*commitment)) is Some,
        r is Ok ==> r->Ok_0@ == fiat_shamir_challenge(blob@, point_model(*commitment))->Some_0,
        r is Err ==> r->Err_0 == CheckError::Challenge,
{
    let c = G1Affine::new_unchecked(Fq::from_be_bytes_mod_order(&commitment.x), Fq::from_be_bytes_mod_order(&commitment.y));
    let c = if commitment.infinity { G1Affine { x: c.x, y: c.y, infinity: true } } else { c };
    match rust_kzg_bn254_primitives::helpers::compute_challenge(&Blob::from(blob.clone()), &c) {
        Ok(z) => Ok(z.into_bigint().to_bytes_be()),
        Err(_) => Err(CheckError::Challenge),
    }
}

/// Relies on rust-kzg-bn254's `KZG::compute_proof`, with the roots of unity of
/// the blob's length (`calculate_and_store_roots_of_unity`), on the blob's
/// polynomial in evaluation form: the commitment to the quotient polynomial
/// that opens it at the challenge.
#[verifier::external_body]
fn compute_proof(blob: &Vec<u8>, z: &Vec<u8>, srs: &ReferenceString) -> (r: Result<G1Point, CheckError>)
    ensures
        r is Ok <==> opening_proof(blob@, z@, srs@) is Some,
        r is Ok ==> point_model(r->Ok_0) == opening_proof(blob@, z@, srs@)->Some_0 && r->Ok_0.wf(),
        r is Err ==> r->Err_0 == CheckError::Opening,
{
    let mut kzg = KZG::new();
    let b = Blob::from(blob.clone());
    let opened = kzg.calculate_and_store_roots_of_unity(b.len() as u64)
        .and_then(|_| b.to_polynomial_coeff_form())
        .and_then(|p| p.to_eval_form().map_err(|e| e.into()))
        .and_then(|e| kzg.compute_proof(&e, &Fr::from_be_bytes_mod_order(z), &srs.srs));
    match opened {
        Ok(p) => Ok(G1Point { x: p.x.into_bigint().to_bytes_be(), y: p.y.into_bigint().to_bytes_be(), infinity: p.infinity }),
        Err(_) => Err(CheckError::Opening),
    }
}

/// Two points with the same coordinates and the same infinity flag.
pub open spec fn same_point(a: G1Point, b: G1Point) -> bool {
    point_model(a) == point_model(b)
}

fn bytes_equal(a: &Vec<u8>, b: &Vec<u8>) -> (r: bool)
    ensures
        r == (a@ == b@),
{
    if a.len() != b.len() {
        return false;
    }
    let mut i: usize = 0;
    while i < a.len()
        invariant
            i <= a@.len(),
            a@.len() == b@.len(),
            forall|j: int| 0 <= j < i ==> a@[j] == b@[j],
        decreases a@.len() - i,
    {
        if a[i] != b[i] {
            return false;
        }
        i = i + 1;
    }
    assert(a@ =~= b@);
    true
}

/// Compares the commitment recomputed from the payload with the one that the
/// certificate claims.
pub fn check_commitment(claimed: &G1Point, computed: &G1Point) -> (r: Result<(), CheckError>)
    ensures
        r is Ok <==> same_point(*claimed, *computed),
        r is Err ==> r->Err_0 == CheckError::CommitmentMismatch,
{
    if claimed.infinity == computed.infinity && bytes_equal(&claimed.x, &computed.x)
        && bytes_equal(&claimed.y, &computed.y) {
        Ok(())
    } else {
        Err(CheckError::CommitmentMismatch)
    }
}

/// A commitment that names a point of the curve: canonical coordinates, on
/// the curve, or the identity with zero coordinates.
pub open spec fn valid_commitment(c: (Seq<u8>, Seq<u8>, bool)) -> bool {
    &&& is_canonical(c.0)
    &&& is_canonical(c.1)
    &&& c.2 ==> c.0 == zeros(32) && c.1 == zeros(32)
    &&& !c.2 ==> on_g1_curve(be_nat(c.0), be_nat(c.1))
}

fn is_canonical_element(v: &Vec<u8>) -> (r: bool)
    ensures
        r == is_canonical(v@),
{
    if v.len() != 32 {
        return false;
    }
    let reduced = fq_reduce(v.as_slice());
    proof {
        if is_canonical(v@) {
            vstd::arithmetic::div_mod::lemma_small_mod(be_nat(v@), fq_modulus());
            lemma_be_nat_injective(reduced@, v@);
        }
    }
    bytes_equal(&reduced, v)
}

/// Whether a claimed commitment names a point of the curve.
pub fn is_valid_commitment(c: &G1Point) -> (r: bool)
    ensures
        r == valid_commitment(point_model(*c)),
{
    if !is_canonical_element(&c.x) || !is_canonical_element(&c.y) {
        return false;
    }
    if c.infinity {
        let zero = vec![0u8; 32];
        assert(zero@ =~= zeros(32));
        bytes_equal(&c.x, &zero) && bytes_equal(&c.y, &zero)
    } else {
        proof {
            vstd::arithmetic::div_mod::lemma_small_mod(be_nat(c.x@), fq_modulus());
            vstd::arithmetic::div_mod::lemma_small_mod(be_nat(c.y@), fq_modulus());
        }
        g1_is_on_curve(&c.x, &c.y)
    }
}

/// What the consistency check hands to the prover.
pub struct ConsistencyProof {
    /// The commitment recomputed from the payload, in coefficient form.
    pub commitment: G1Point,
    /// The commitment to the same polynomial in evaluation form.
    pub eval_commitment: G1Point,
    /// The opening proof at the Fiat-Shamir challenge.
    pub proof: G1Point,
}

/// The outcome of the consistency check, step by step: the claimed commitment
/// must be a point; the payload is encoded into a blob of canonical scalars;
/// its coefficient-form commitment must be the claimed one; then come the
/// evaluation-form commitment, the challenge and the opening proof. The first
/// step that fails gives the error.
pub open spec fn consistency_outcome(
    data: Seq<u8>,
    eval_form: bool,
    claimed: (Seq<u8>, Seq<u8>, bool),
    srs: Seq<(Seq<u8>, Seq<u8>, bool)>,
) -> Result<((Seq<u8>, Seq<u8>, bool), (Seq<u8>, Seq<u8>, bool), (Seq<u8>, Seq<u8>, bool)), CheckError> {
    if !valid_commitment(claimed) {
        Err(CheckError::InvalidCommitment)
    } else {
        match payload_blob(data, eval_form) {
            None => Err(CheckError::PayloadEncoding),
            Some(blob) => if !scalars_canonical(blob) {
                Err(CheckError::InvalidBlob)
            } else {
                match coeff_commitment(blob, srs) {
                    None => Err(CheckError::Commitment),
                    Some(c) => if c != claimed {
                        Err(CheckError::CommitmentMismatch)
                    } else {
                        match eval_commitment(blob, srs) {
                            None => Err(CheckError::Commitment),
                            Some(e) => match fiat_shamir_challenge(blob, c) {
                                None => Err(CheckError::Challenge),
                                Some(z) => match opening_proof(blob, z, srs) {
                                    None => Err(CheckError::Opening),
                                    Some(p) => Ok((c, e, p)),
                                },
                            },
                        }
                    },
                }
            },
        }
    }
}

/// A result of the check agrees with its outcome.
pub open spec fn matches_outcome(
    r: Result<ConsistencyProof, CheckError>,
    o: Result<((Seq<u8>, Seq<u8>, bool), (Seq<u8>, Seq<u8>, bool), (Seq<u8>, Seq<u8>, bool)), CheckError>,
) -> bool {
    match r {
        Ok(v) => o == Ok::<_, CheckError>(
            (point_model(v.commitment), point_model(v.eval_commitment), point_model(v.proof)),
        ),
        Err(e) => o == Err::<((Seq<u8>, Seq<u8>, bool), (Seq<u8>, Seq<u8>, bool), (Seq<u8>, Seq<u8>, bool)), CheckError>(e),
    }
}

/// Checks a payload against the commitment of its certificate and opens it.
pub fn check_payload_consistency(
    data: &Vec<u8>,
    claimed: &G1Point,
    srs: &ReferenceString,
    form: PolynomialForm,
) -> (r: Result<ConsistencyProof, CheckError>)
    ensures
        matches_outcome(
            r,
            consistency_outcome(data@, form == PolynomialForm::Eval, point_model(*claimed), srs@),
        ),
        r is Ok ==> same_point(r->Ok_0.commitment, *claimed) && r->Ok_0.commitment.wf()
            && r->Ok_0.eval_commitment.wf() && r->Ok_0.proof.wf(),
{
    if !is_valid_commitment(claimed) {
        return Err(CheckError::InvalidCommitment);
    }
    let blob = encode_payload(data, form)?;
    validate_blob(&blob)?;
    let commitment = commit_coeff_form(&blob, srs)?;
    check_commitment(claimed, &commitment)?;
    let eval_commitment = commit_eval_form(&blob, srs)?;
    let z = compute_challenge(&blob, &commitment)?;
    let opening = compute_proof(&blob, &z, srs)?;
    Ok(ConsistencyProof { commitment, eval_commitment, proof: opening })
}

} // verus!
