use std::borrow::Cow;

use ark_bn254::{Fr, G1Affine};
use ark_ff::{BigInteger, PrimeField};
use eigenda_sidecar::consistency::{
    check_commitment, check_payload_consistency, is_valid_commitment, CheckError, PolynomialForm,
    ReferenceString,
};
use eigenda_sidecar::codec::G1Point;
use rust_eigenda_v2_common::{Payload, PayloadForm};
use rust_kzg_bn254_primitives::blob::Blob;
use rust_kzg_bn254_prover::kzg::KZG;
use rust_kzg_bn254_prover::srs::SRS;

/// A reference string from a known secret: enough for tests.
fn test_srs(points: usize) -> SRS<'static> {
    let g = G1Affine::new_unchecked(ark_bn254::g1::G1_GENERATOR_X, ark_bn254::g1::G1_GENERATOR_Y);
    let tau = Fr::from(987654321u64);
    let mut power = Fr::from(1u64);
    let mut g1 = Vec::new();
    for _ in 0..points {
        let p: G1Affine = (g * power).into();
        g1.push(p);
        power *= tau;
    }
    SRS { g1: Cow::Owned(g1), order: points as u32 }
}

fn point(p: &G1Affine) -> G1Point {
    G1Point {
        x: p.x.into_bigint().to_bytes_be(),
        y: p.y.into_bigint().to_bytes_be(),
        infinity: p.infinity,
    }
}

/// The commitment that a disperser computes for a payload.
fn dispersed_commitment(data: &[u8], srs: &SRS) -> G1Point {
    let bytes = Payload::new(data.to_vec()).to_blob(PayloadForm::Coeff).unwrap().serialize();
    let poly = Blob::new(&bytes).unwrap().to_polynomial_coeff_form().unwrap();
    point(&KZG::new().commit_coeff_form(&poly, srs).unwrap())
}

/// The commitment to the same polynomial in evaluation form.
fn dispersed_eval_commitment(data: &[u8], srs: &SRS) -> G1Point {
    let bytes = Payload::new(data.to_vec()).to_blob(PayloadForm::Coeff).unwrap().serialize();
    let blob = Blob::new(&bytes).unwrap();
    let poly = blob.to_polynomial_coeff_form().unwrap().to_eval_form().unwrap();
    let mut kzg = KZG::new();
    kzg.calculate_and_store_roots_of_unity(blob.len() as u64).unwrap();
    point(&kzg.commit_eval_form(&poly, srs).unwrap())
}

fn payload() -> Vec<u8> {
    (0u8..100).map(|i| i.wrapping_mul(37).wrapping_add(11)).collect()
}

#[test]
fn genuine_commitment_checks() {
    let srs = test_srs(64);
    let data = payload();
    let claimed = dispersed_commitment(&data, &srs);
    let reference = ReferenceString::from_srs(srs);
    assert_eq!(reference.len(), 64);
    let result = match check_payload_consistency(&data, &claimed, &reference, PolynomialForm::Coeff) {
        Ok(r) => r,
        Err(e) => panic!("consistent payload refused: {:?}", e),
    };
    assert_eq!(result.commitment, claimed);
    let expected = dispersed_eval_commitment(&data, &test_srs(64));
    assert_eq!(result.eval_commitment, expected);
    assert!(!result.proof.infinity);
}

#[test]
fn mutated_payload_is_a_commitment_mismatch() {
    let srs = test_srs(64);
    let data = payload();
    let claimed = dispersed_commitment(&data, &srs);
    let reference = ReferenceString::from_srs(srs);
    for index in [0usize, 31, 99] {
        let mut changed = data.clone();
        changed[index] ^= 0x01;
        let r = check_payload_consistency(&changed, &claimed, &reference, PolynomialForm::Coeff);
        assert!(matches!(r, Err(CheckError::CommitmentMismatch)));
    }
}

#[test]
fn commitments_compare_by_coordinates_and_flag() {
    let a = G1Point { x: vec![1; 32], y: vec![2; 32], infinity: false };
    let b = G1Point { x: vec![1; 32], y: vec![3; 32], infinity: false };
    let c = G1Point { x: vec![1; 32], y: vec![2; 32], infinity: true };
    assert_eq!(check_commitment(&a, &a.clone()), Ok(()));
    assert_eq!(check_commitment(&a, &b), Err(CheckError::CommitmentMismatch));
    assert_eq!(check_commitment(&a, &c), Err(CheckError::CommitmentMismatch));
}

#[test]
fn claimed_commitment_off_the_curve_is_refused() {
    let reference = ReferenceString::from_srs(test_srs(64));
    let data = payload();
    let mut x = vec![0u8; 32];
    x[31] = 1;
    let mut y = vec![0u8; 32];
    y[31] = 3;
    let off = G1Point { x: x.clone(), y, infinity: false };
    assert!(!is_valid_commitment(&off));
    let r = check_payload_consistency(&data, &off, &reference, PolynomialForm::Coeff);
    assert!(matches!(r, Err(CheckError::InvalidCommitment)));
    let mut two = vec![0u8; 32];
    two[31] = 2;
    assert!(is_valid_commitment(&G1Point { x: x.clone(), y: two, infinity: false }));
    let not_canonical = G1Point { x: vec![0xff; 32], y: vec![0; 32], infinity: false };
    assert!(!is_valid_commitment(&not_canonical));
    let identity = G1Point { x: vec![0; 32], y: vec![0; 32], infinity: true };
    assert!(is_valid_commitment(&identity));
}

#[test]
fn another_curve_point_is_a_mismatch() {
    let srs = test_srs(64);
    let data = payload();
    let mut other = dispersed_commitment(&data, &srs);
    other = point(&(-G1Affine::new_unchecked(
        ark_bn254::Fq::from_be_bytes_mod_order(&other.x),
        ark_bn254::Fq::from_be_bytes_mod_order(&other.y),
    )));
    let reference = ReferenceString::from_srs(srs);
    let r = check_payload_consistency(&data, &other, &reference, PolynomialForm::Coeff);
    assert!(matches!(r, Err(CheckError::CommitmentMismatch)));
}

#[test]
fn too_short_reference_string_fails_the_commitment_step() {
    let srs = test_srs(64);
    let data = payload();
    let claimed = dispersed_commitment(&data, &srs);
    let reference = ReferenceString::from_srs(test_srs(1));
    let r = check_payload_consistency(&data, &claimed, &reference, PolynomialForm::Coeff);
    assert!(matches!(r, Err(CheckError::Commitment)));
}
