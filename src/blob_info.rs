//! The first version of the blob certificate (`BlobInfo`), as the disperser
//! returns it, and its conversion to the call data of `verifyBlobV1`.
use crate::cert::{EigenDACert, G1PointCall};
use vstd::prelude::*;

verus! {

/// The KZG commitment of a blob, as two 32-byte big-endian coordinates.
pub struct G1Commitment {
    pub x: Vec<u8>,
    pub y: Vec<u8>,
}

/// The parameters of one quorum that a blob is dispersed to.
pub struct BlobQuorumParam {
    /// The ID of the quorum.
    pub quorum_number: u32,
    /// The max percentage of stake within the quorum that can be held by or
    /// delegated to adversarial operators.
    pub adversary_threshold_percentage: u32,
    /// The min percentage of stake that must attest in order to consider the
    /// dispersal successful.
    pub confirmation_threshold_percentage: u32,
    /// The length of each chunk in field elements (32 bytes each).
    pub chunk_length: u32,
}

pub struct BlobHeader {
    pub commitment: G1Commitment,
    pub data_length: u32,
    pub blob_quorum_params: Vec<BlobQuorumParam>,
}

pub struct BatchHeader {
    pub batch_root: Vec<u8>,
    pub quorum_numbers: Vec<u8>,
    pub quorum_signed_percentages: Vec<u8>,
    pub reference_block_number: u32,
}

pub struct BatchMetadata {
    pub batch_header: BatchHeader,
    pub signatory_record_hash: Vec<u8>,
    pub fee: Vec<u8>,
    pub confirmation_block_number: u32,
    pub batch_header_hash: Vec<u8>,
}

pub struct BlobVerificationProof {
    pub batch_id: u32,
    pub blob_index: u32,
    pub batch_medatada: BatchMetadata,
    pub inclusion_proof: Vec<u8>,
    pub quorum_indexes: Vec<u8>,
}

/// What the disperser returns when a blob is dispersed.
pub struct BlobInfo {
    pub blob_header: BlobHeader,
    pub blob_verification_proof: BlobVerificationProof,
}

/// A certificate of either version.
pub enum Certificate {
    V1(BlobInfo),
    V2(EigenDACert),
}

/// `QuorumBlobParam` of the verifier; the three counts are `uint8` there.
pub struct QuorumBlobParamCall {
    pub quorum_number: u8,
    pub adversary_threshold_percentage: u8,
    pub confirmation_threshold_percentage: u8,
    pub chunk_length: u32,
}

/// `BlobHeader` of the verifier.
pub struct BlobHeaderCall {
    pub commitment: G1PointCall,
    pub data_length: u32,
    pub quorum_blob_params: Vec<QuorumBlobParamCall>,
}

/// `BatchHeader` of the verifier.
pub struct BatchHeaderCall {
    pub blob_headers_root: Vec<u8>,
    pub quorum_numbers: Vec<u8>,
    pub signed_stake_for_quorums: Vec<u8>,
    pub reference_block_number: u32,
}

/// `BatchMetadata` of the verifier.
pub struct BatchMetadataCall {
    pub batch_header: BatchHeaderCall,
    pub signatory_record_hash: Vec<u8>,
    pub confirmation_block_number: u32,
}

/// `BlobVerificationProof` of the verifier.
pub struct BlobVerificationProofCall {
    pub batch_id: u32,
    pub blob_index: u32,
    pub batch_metadata: BatchMetadataCall,
    pub inclusion_proof: Vec<u8>,
    pub quorum_indices: Vec<u8>,
}

impl QuorumBlobParamCall {
    /// Narrows the three counts to a byte each, as the verifier takes them.
    pub fn from_param(param: &BlobQuorumParam) -> (r: QuorumBlobParamCall)
        ensures
            r.quorum_number == param.quorum_number as u8,
            r.adversary_threshold_percentage == param.adversary_threshold_percentage as u8,
            r.confirmation_threshold_percentage == param.confirmation_threshold_percentage as u8,
            r.chunk_length == param.chunk_length,
    {
        QuorumBlobParamCall {
            quorum_number: param.quorum_number as u8,
            adversary_threshold_percentage: param.adversary_threshold_percentage as u8,
            confirmation_threshold_percentage: param.confirmation_threshold_percentage as u8,
            chunk_length: param.chunk_length,
        }
    }
}

impl BlobHeaderCall {
    pub fn from_header(header: BlobHeader) -> (r: BlobHeaderCall)
        requires
            header.commitment.x@.len() == 32,
            header.commitment.y@.len() == 32,
        ensures
            r.commitment.x@ == header.commitment.x@,
            r.commitment.y@ == header.commitment.y@,
            r.data_length == header.data_length,
            r.quorum_blob_params@.len() == header.blob_quorum_params@.len(),
            forall|i: int|
                0 <= i < r.quorum_blob_params@.len() ==> #[trigger] r.quorum_blob_params@[i]
                    == quorum_param_call(header.blob_quorum_params@[i]),
    {
        let mut params: Vec<QuorumBlobParamCall> = Vec::new();
        let mut i: usize = 0;
        while i < header.blob_quorum_params.len()
            invariant
                i <= header.blob_quorum_params@.len(),
                params@.len() == i,
                forall|j: int|
                    0 <= j < i ==> #[trigger] params@[j] == quorum_param_call(
                        header.blob_quorum_params@[j],
                    ),
            decreases header.blob_quorum_params@.len() - i,
        {
            params.push(QuorumBlobParamCall::from_param(&header.blob_quorum_params[i]));
            i = i + 1;
        }
        BlobHeaderCall {
            commitment: G1PointCall { x: header.commitment.x, y: header.commitment.y },
            data_length: header.data_length,
            quorum_blob_params: params,
        }
    }
}

/// The call data of one quorum parameter.
pub open spec fn quorum_param_call(p: BlobQuorumParam) -> QuorumBlobParamCall {
    QuorumBlobParamCall {
        quorum_number: p.quorum_number as u8,
        adversary_threshold_percentage: p.adversary_threshold_percentage as u8,
        confirmation_threshold_percentage: p.confirmation_threshold_percentage as u8,
        chunk_length: p.chunk_length,
    }
}

impl G1PointCall {
    /// The call data of a commitment: its two coordinates.
    pub fn from_commitment(c: G1Commitment) -> (r: G1PointCall)
        requires
            c.x@.len() == 32,
            c.y@.len() == 32,
        ensures
            r.x@ == c.x@,
            r.y@ == c.y@,
    {
        G1PointCall { x: c.x, y: c.y }
    }
}

impl BatchHeaderCall {
    pub fn from_header(h: BatchHeader) -> (r: BatchHeaderCall)
        requires
            h.batch_root@.len() == 32,
        ensures
            r.blob_headers_root@ == h.batch_root@,
            r.quorum_numbers@ == h.quorum_numbers@,
            r.signed_stake_for_quorums@ == h.quorum_signed_percentages@,
            r.reference_block_number == h.reference_block_number,
    {
        BatchHeaderCall {
            blob_headers_root: h.batch_root,
            quorum_numbers: h.quorum_numbers,
            signed_stake_for_quorums: h.quorum_signed_percentages,
            reference_block_number: h.reference_block_number,
        }
    }
}

impl BatchMetadataCall {
    /// Keeps the header, the signatory record hash and the confirmation block;
    /// the fee and the header hash are not part of the call.
    pub fn from_metadata(m: BatchMetadata) -> (r: BatchMetadataCall)
        requires
            m.batch_header.batch_root@.len() == 32,
            m.signatory_record_hash@.len() == 32,
        ensures
            r.batch_header.blob_headers_root@ == m.batch_header.batch_root@,
            r.batch_header.quorum_numbers@ == m.batch_header.quorum_numbers@,
            r.batch_header.signed_stake_for_quorums@ == m.batch_header.quorum_signed_percentages@,
            r.batch_header.reference_block_number == m.batch_header.reference_block_number,
            r.signatory_record_hash@ == m.signatory_record_hash@,
            r.confirmation_block_number == m.confirmation_block_number,
    {
        BatchMetadataCall {
            batch_header: BatchHeaderCall::from_header(m.batch_header),
            signatory_record_hash: m.signatory_record_hash,
            confirmation_block_number: m.confirmation_block_number,
        }
    }
}

impl BlobVerificationProofCall {
    pub fn from_proof(p: BlobVerificationProof) -> (r: BlobVerificationProofCall)
        requires
            p.batch_medatada.batch_header.batch_root@.len() == 32,
            p.batch_medatada.signatory_record_hash@.len() == 32,
        ensures
            r.batch_id == p.batch_id,
            r.blob_index == p.blob_index,
            r.batch_metadata.signatory_record_hash@ == p.batch_medatada.signatory_record_hash@,
            r.batch_metadata.confirmation_block_number
                == p.batch_medatada.confirmation_block_number,
            r.batch_metadata.batch_header.blob_headers_root@
                == p.batch_medatada.batch_header.batch_root@,
            r.inclusion_proof@ == p.inclusion_proof@,
            r.quorum_indices@ == p.quorum_indexes@,
    {
        BlobVerificationProofCall {
            batch_id: p.batch_id,
            blob_index: p.blob_index,
            batch_metadata: BatchMetadataCall::from_metadata(p.batch_medatada),
            inclusion_proof: p.inclusion_proof,
            quorum_indices: p.quorum_indexes,
        }
    }
}

} // verus!
