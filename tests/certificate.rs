use eigenda_sidecar::blob_info::{
    BatchHeader, BatchMetadata, BlobHeader, BlobHeaderCall, BlobQuorumParam,
    BlobVerificationProof, BlobVerificationProofCall, G1Commitment, QuorumBlobParamCall,
};
use eigenda_sidecar::cert::{
    Attestation, AttestationCall, BlobCommitments, BlobCommitmentsHelper, G1PointCall,
    NonSignerStakesAndSignature, NonSignerStakesAndSignatureCall, NonSignerStakesAndSignatureHelper,
};
use eigenda_sidecar::codec::{CodecError, G1Point, G2Point};

fn zero_g2() -> G2Point {
    G2Point { x0: vec![0; 32], x1: vec![0; 32], y0: vec![0; 32], y1: vec![0; 32], infinity: true }
}

fn g1_generator() -> G1Point {
    let mut x = vec![0u8; 32];
    x[31] = 1;
    let mut y = vec![0u8; 32];
    y[31] = 2;
    G1Point { x, y, infinity: false }
}

#[test]
fn quorum_params_narrow_to_bytes() {
    let p = BlobQuorumParam {
        quorum_number: 0x101,
        adversary_threshold_percentage: 33,
        confirmation_threshold_percentage: 55,
        chunk_length: 1000,
    };
    let c = QuorumBlobParamCall::from_param(&p);
    assert_eq!(c.quorum_number, 1);
    assert_eq!(c.adversary_threshold_percentage, 33);
    assert_eq!(c.confirmation_threshold_percentage, 55);
    assert_eq!(c.chunk_length, 1000);
}

#[test]
fn v1_header_and_proof_become_call_data() {
    let header = BlobHeader {
        commitment: G1Commitment { x: vec![1; 32], y: vec![2; 32] },
        data_length: 7,
        blob_quorum_params: vec![BlobQuorumParam {
            quorum_number: 1,
            adversary_threshold_percentage: 2,
            confirmation_threshold_percentage: 3,
            chunk_length: 4,
        }],
    };
    let call = BlobHeaderCall::from_header(header);
    assert_eq!(call.commitment.x, vec![1; 32]);
    assert_eq!(call.data_length, 7);
    assert_eq!(call.quorum_blob_params.len(), 1);
    assert_eq!(call.quorum_blob_params[0].chunk_length, 4);

    let proof = BlobVerificationProof {
        batch_id: 9,
        blob_index: 3,
        batch_medatada: BatchMetadata {
            batch_header: BatchHeader {
                batch_root: vec![5; 32],
                quorum_numbers: vec![0, 1],
                quorum_signed_percentages: vec![80, 90],
                reference_block_number: 100,
            },
            signatory_record_hash: vec![6; 32],
            fee: vec![0],
            confirmation_block_number: 120,
            batch_header_hash: vec![7; 32],
        },
        inclusion_proof: vec![8, 8],
        quorum_indexes: vec![0, 1],
    };
    let call = BlobVerificationProofCall::from_proof(proof);
    assert_eq!(call.batch_id, 9);
    assert_eq!(call.blob_index, 3);
    assert_eq!(call.batch_metadata.batch_header.blob_headers_root, vec![5; 32]);
    assert_eq!(call.batch_metadata.batch_header.signed_stake_for_quorums, vec![80, 90]);
    assert_eq!(call.batch_metadata.signatory_record_hash, vec![6; 32]);
    assert_eq!(call.batch_metadata.confirmation_block_number, 120);
    assert_eq!(call.quorum_indices, vec![0, 1]);
    let point = G1PointCall::from_commitment(G1Commitment { x: vec![3; 32], y: vec![4; 32] });
    assert_eq!(point.y, vec![4; 32]);
}

#[test]
fn blob_commitments_byte_form_round_trip() {
    let b = BlobCommitments {
        commitment: g1_generator(),
        length_commitment: zero_g2(),
        length_proof: zero_g2(),
        length: 16,
    };
    let helper = BlobCommitmentsHelper::try_from_commitments(b).unwrap();
    let mut expected = vec![0u8; 32];
    expected[0] = 0x80;
    expected[31] = 1;
    assert_eq!(helper.commitment, expected);
    assert_eq!(helper.length_proof[0], 0x40);
    assert_eq!(helper.length, 16);
    let back = BlobCommitments::try_from_helper(helper).unwrap();
    assert_eq!(back.commitment, g1_generator());
    assert_eq!(back.length_commitment, zero_g2());
    assert_eq!(back.length, 16);
}

#[test]
fn blob_commitments_byte_form_refuses_short_points() {
    let helper = BlobCommitmentsHelper {
        commitment: vec![0x40; 31],
        length_commitment: vec![0; 64],
        length_proof: vec![0; 64],
        length: 1,
    };
    assert!(matches!(BlobCommitments::try_from_helper(helper), Err(CodecError::Malformed)));
}

#[test]
fn non_signer_byte_form_round_trip() {
    let n = NonSignerStakesAndSignature {
        non_signer_quorum_bitmap_indices: vec![1, 2],
        non_signer_pubkeys: vec![g1_generator(), g1_generator()],
        quorum_apks: vec![g1_generator()],
        apk_g2: zero_g2(),
        sigma: g1_generator(),
        quorum_apk_indices: vec![3],
        total_stake_indices: vec![4],
        non_signer_stake_indices: vec![vec![5, 6], vec![]],
    };
    let helper = NonSignerStakesAndSignatureHelper::try_from_signature(n).unwrap();
    assert_eq!(helper.non_signer_pubkeys.len(), 2);
    assert_eq!(helper.non_signer_pubkeys[1][0], 0x80);
    let back = NonSignerStakesAndSignature::try_from_helper(helper).unwrap();
    assert_eq!(back.non_signer_pubkeys, vec![g1_generator(), g1_generator()]);
    assert_eq!(back.sigma, g1_generator());
    assert_eq!(back.non_signer_stake_indices, vec![vec![5, 6], vec![]]);
}

#[test]
fn signature_and_attestation_call_data() {
    let n = NonSignerStakesAndSignature {
        non_signer_quorum_bitmap_indices: vec![1],
        non_signer_pubkeys: vec![g1_generator()],
        quorum_apks: vec![g1_generator(), g1_generator()],
        apk_g2: zero_g2(),
        sigma: g1_generator(),
        quorum_apk_indices: vec![2],
        total_stake_indices: vec![3],
        non_signer_stake_indices: vec![vec![4]],
    };
    let call = NonSignerStakesAndSignatureCall::from_signature(n);
    assert_eq!(call.non_signer_pubkeys.len(), 1);
    assert_eq!(call.quorum_apks.len(), 2);
    assert_eq!(call.sigma.y[31], 2);
    assert_eq!(call.apk_g2.x.0, vec![0; 32]);
    assert_eq!(call.non_signer_stake_indices, vec![vec![4]]);
    let a = Attestation {
        non_signer_pubkeys: vec![],
        quorum_apks: vec![g1_generator()],
        sigma: g1_generator(),
        apk_g2: zero_g2(),
        quorum_numbers: vec![0, 1],
    };
    let call = AttestationCall::from_attestation(a);
    assert!(call.non_signer_pubkeys.is_empty());
    assert_eq!(call.quorum_apks[0].x[31], 1);
    assert_eq!(call.quorum_numbers, vec![0, 1]);
}
