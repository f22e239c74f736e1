use ark_bn254::{G1Affine, G2Affine};
use ark_ff::{BigInteger, PrimeField};
use eigenda_sidecar::cert::{
    g1_affine_from_g1_contract_point, g1_contract_point_from_g1_affine,
    g2_affine_from_g2_contract_point, g2_contract_point_from_g2_affine, ConversionError,
    G1PointCall,
};
use eigenda_sidecar::codec::{
    g1_commitment_from_bytes, g1_commitment_to_bytes, g2_commitment_from_bytes,
    g2_commitment_to_bytes, switch_endianess, CodecError, G1Point, G2Point,
};

fn be32(v: u64) -> Vec<u8> {
    let mut b = vec![0u8; 32];
    b[24..].copy_from_slice(&v.to_be_bytes());
    b
}

fn g1_generator() -> G1Point {
    let g = G1Affine::new_unchecked(ark_bn254::g1::G1_GENERATOR_X, ark_bn254::g1::G1_GENERATOR_Y);
    G1Point {
        x: g.x.into_bigint().to_bytes_be(),
        y: g.y.into_bigint().to_bytes_be(),
        infinity: false,
    }
}

fn g2_generator() -> G2Point {
    let g = G2Affine::new_unchecked(ark_bn254::g2::G2_GENERATOR_X, ark_bn254::g2::G2_GENERATOR_Y);
    G2Point {
        x0: g.x.c0.into_bigint().to_bytes_be(),
        x1: g.x.c1.into_bigint().to_bytes_be(),
        y0: g.y.c0.into_bigint().to_bytes_be(),
        y1: g.y.c1.into_bigint().to_bytes_be(),
        infinity: false,
    }
}

fn g1_identity() -> G1Point {
    G1Point { x: vec![0u8; 32], y: vec![0u8; 32], infinity: true }
}

fn g2_identity() -> G2Point {
    G2Point {
        x0: vec![0u8; 32],
        x1: vec![0u8; 32],
        y0: vec![0u8; 32],
        y1: vec![0u8; 32],
        infinity: true,
    }
}

#[test]
fn g1_generator_encoding_is_x_with_smallest_flag() {
    let p = g1_generator();
    assert_eq!(p.x, be32(1));
    assert_eq!(p.y, be32(2));
    let bytes = g1_commitment_to_bytes(&p).unwrap();
    let mut expected = be32(1);
    expected[0] = 0x80;
    assert_eq!(bytes, expected);
}

#[test]
fn g1_round_trip_generator() {
    let p = g1_generator();
    let bytes = g1_commitment_to_bytes(&p).unwrap();
    assert_eq!(g1_commitment_from_bytes(&bytes).unwrap(), p);
}

#[test]
fn g1_round_trip_negated_generator() {
    let g = -G1Affine::new_unchecked(ark_bn254::g1::G1_GENERATOR_X, ark_bn254::g1::G1_GENERATOR_Y);
    let p = G1Point {
        x: g.x.into_bigint().to_bytes_be(),
        y: g.y.into_bigint().to_bytes_be(),
        infinity: false,
    };
    let bytes = g1_commitment_to_bytes(&p).unwrap();
    assert_eq!(bytes[0] & 0xC0, 0xC0);
    assert_eq!(g1_commitment_from_bytes(&bytes).unwrap(), p);
}

#[test]
fn g1_infinity_encodes_to_flag_only() {
    let bytes = g1_commitment_to_bytes(&g1_identity()).unwrap();
    let mut expected = vec![0u8; 32];
    expected[0] = 0x40;
    assert_eq!(bytes, expected);
    assert_eq!(g1_commitment_from_bytes(&bytes).unwrap(), g1_identity());
}

#[test]
fn g1_decode_rejects_wrong_length() {
    assert_eq!(g1_commitment_from_bytes(&[0x80u8; 31]), Err(CodecError::Malformed));
    assert_eq!(g1_commitment_from_bytes(&[]), Err(CodecError::Malformed));
}

#[test]
fn g1_decode_rejects_dirty_infinity() {
    let mut bytes = vec![0u8; 32];
    bytes[0] = 0x40;
    bytes[31] = 1;
    assert_eq!(g1_commitment_from_bytes(&bytes), Err(CodecError::Malformed));
}

#[test]
fn g1_decode_rejects_x_off_curve() {
    // about half of all x-coordinates have no point on the curve
    let mut found = false;
    for v in 2u64..40 {
        let mut bytes = be32(v);
        bytes[0] = 0x80;
        if g1_commitment_from_bytes(&bytes) == Err(CodecError::NotOnCurve) {
            found = true;
            break;
        }
    }
    assert!(found);
}

#[test]
fn g2_round_trip_generator() {
    let p = g2_generator();
    let bytes = g2_commitment_to_bytes(&p).unwrap();
    assert_eq!(bytes.len(), 64);
    let mut x_be = p.x1.clone();
    x_be.extend_from_slice(&p.x0);
    assert_eq!(bytes[1..], x_be[1..]);
    assert_eq!(bytes[0] & 0x3F, x_be[0]);
    assert_eq!(g2_commitment_from_bytes(&bytes).unwrap(), p);
}

#[test]
fn g2_round_trip_negated_generator() {
    let g = -G2Affine::new_unchecked(ark_bn254::g2::G2_GENERATOR_X, ark_bn254::g2::G2_GENERATOR_Y);
    let p = G2Point {
        x0: g.x.c0.into_bigint().to_bytes_be(),
        x1: g.x.c1.into_bigint().to_bytes_be(),
        y0: g.y.c0.into_bigint().to_bytes_be(),
        y1: g.y.c1.into_bigint().to_bytes_be(),
        infinity: false,
    };
    let bytes = g2_commitment_to_bytes(&p).unwrap();
    let other = g2_commitment_to_bytes(&g2_generator()).unwrap();
    assert_ne!(bytes[0] & 0xC0, other[0] & 0xC0);
    assert_eq!(g2_commitment_from_bytes(&bytes).unwrap(), p);
}

#[test]
fn g2_infinity_encodes_to_flag_only() {
    let bytes = g2_commitment_to_bytes(&g2_identity()).unwrap();
    let mut expected = vec![0u8; 64];
    expected[0] = 0x40;
    assert_eq!(bytes, expected);
    assert_eq!(g2_commitment_from_bytes(&bytes).unwrap(), g2_identity());
}

#[test]
fn g2_decode_rejects_wrong_length() {
    let bytes = g2_commitment_to_bytes(&g2_generator()).unwrap();
    assert_eq!(g2_commitment_from_bytes(&bytes[..63]), Err(CodecError::Malformed));
    let mut longer = bytes.clone();
    longer.push(0);
    assert_eq!(g2_commitment_from_bytes(&longer), Err(CodecError::Malformed));
}

#[test]
fn g2_decode_rejects_flipped_bit() {
    let bytes = g2_commitment_to_bytes(&g2_generator()).unwrap();
    for (index, bit) in [(63usize, 0u8), (40, 3), (10, 5), (1, 7)] {
        let mut flipped = bytes.clone();
        flipped[index] ^= 1 << bit;
        let r = g2_commitment_from_bytes(&flipped);
        assert!(
            r == Err(CodecError::NotOnCurve) || r == Err(CodecError::NotInSubgroup),
            "flipping bit {} of byte {} gave {:?}",
            bit,
            index,
            r
        );
    }
}

#[test]
fn switch_endianess_strips_reverses_and_pads() {
    let mut bytes = vec![0u8, 0, 1, 2, 0, 3];
    switch_endianess(&mut bytes);
    let mut expected = vec![3u8, 0, 2, 1];
    expected.resize(64, 0);
    assert_eq!(bytes, expected);
}

#[test]
fn switch_endianess_of_zeros_is_zeros() {
    let mut bytes = vec![0u8; 70];
    switch_endianess(&mut bytes);
    assert_eq!(bytes, vec![0u8; 64]);
}

#[test]
fn g1_call_data_round_trip() {
    let p = g1_generator();
    let call = g1_contract_point_from_g1_affine(&p);
    assert_eq!(call.x, be32(1));
    assert_eq!(call.y, be32(2));
    assert_eq!(g1_affine_from_g1_contract_point(&call).unwrap(), p);
}

#[test]
fn g1_call_data_off_curve() {
    let call = G1PointCall { x: be32(1), y: be32(3) };
    assert_eq!(g1_affine_from_g1_contract_point(&call), Err(ConversionError::G1NotOnCurve));
    let zero = G1PointCall { x: be32(0), y: be32(0) };
    assert_eq!(g1_affine_from_g1_contract_point(&zero), Err(ConversionError::G1NotOnCurve));
}

#[test]
fn g2_call_data_round_trip() {
    let p = g2_generator();
    let call = g2_contract_point_from_g2_affine(&p);
    assert_eq!(call.x.0, p.x1);
    assert_eq!(call.x.1, p.x0);
    assert_eq!(g2_affine_from_g2_contract_point(&call).unwrap(), p);
    let mut bad = g2_contract_point_from_g2_affine(&p);
    bad.y.1[31] ^= 1;
    assert_eq!(g2_affine_from_g2_contract_point(&bad), Err(ConversionError::G2NotOnCurve));
}
