//! The request surface: `generate_proof` submits an identifier, `get_proof`
//! reports where its request stands.
use crate::store::{
    has_request, proof_request_exists, retrieve_blob_id_proof, row_at, store_blob_proof_request,
    ProofStore, RequestRow,
};
use vstd::prelude::*;

verus! {

/// JSON-RPC code of a request that is still queued.
pub const PROOF_NOT_FOUND_ERROR: i64 = -32001;

/// JSON-RPC code of an identifier that was submitted before.
pub const ALREADY_SUBMITTED_ERROR: i64 = -32002;

/// JSON-RPC code of an identifier that was never submitted.
pub const REQUEST_NOT_FOUND_ERROR: i64 = -32003;

/// JSON-RPC code of a request whose proof could not be generated.
pub const REQUEST_FAILED_ERROR: i64 = -32004;

/// JSON-RPC code for invalid parameters.
pub const INVALID_PARAMS_ERROR: i64 = -32602;

/// JSON-RPC code for an internal error.
pub const INTERNAL_ERROR: i64 = -32603;

/// Where a request stands.
#[derive(Debug, Clone, PartialEq, Eq)]
pub enum RequestStatus {
    NotFound,
    Queued,
    Failed,
    Done(String),
}

/// An error answer of the request surface.
#[derive(Debug, Clone, Copy, PartialEq, Eq, Structural)]
pub enum ApiError {
    /// The identifier is not a well-formed blob key, or not known upstream.
    InvalidId,
    AlreadySubmitted,
    NotFound,
    StillQueued,
    /// The proof of this request could not be generated.
    RequestFailed,
    Internal,
}

impl ApiError {
    /// The machine-readable code of the error.
    pub fn code(&self) -> (r: i64)
        ensures
            r == error_code(*self),
    {
        match self {
            ApiError::InvalidId => INVALID_PARAMS_ERROR,
            ApiError::AlreadySubmitted => ALREADY_SUBMITTED_ERROR,
            ApiError::NotFound => REQUEST_NOT_FOUND_ERROR,
            ApiError::StillQueued => PROOF_NOT_FOUND_ERROR,
            ApiError::RequestFailed => REQUEST_FAILED_ERROR,
            ApiError::Internal => INTERNAL_ERROR,
        }
    }

    /// The human-readable message of the error.
    pub fn message(&self) -> String {
        match self {
            ApiError::InvalidId => "Invalid blob ID".to_string(),
            ApiError::AlreadySubmitted => "Blob ID already submitted".to_string(),
            ApiError::NotFound => "Proof request for Blob ID not found".to_string(),
            ApiError::StillQueued => "Proof not found (still queued)".to_string(),
            ApiError::RequestFailed => "Proof request for Blob ID was not valid".to_string(),
            ApiError::Internal => "Internal error".to_string(),
        }
    }
}

/// The code of each error; no two errors share one.
pub open spec fn error_code(e: ApiError) -> i64 {
    match e {
        ApiError::InvalidId => INVALID_PARAMS_ERROR,
        ApiError::AlreadySubmitted => ALREADY_SUBMITTED_ERROR,
        ApiError::NotFound => REQUEST_NOT_FOUND_ERROR,
        ApiError::StillQueued => PROOF_NOT_FOUND_ERROR,
        ApiError::RequestFailed => REQUEST_FAILED_ERROR,
        ApiError::Internal => INTERNAL_ERROR,
    }
}

/// The status that a row gives: a failed request is `Failed` whatever else
/// it holds, one with a proof is `Done`, any other is `Queued`.
pub open spec fn status_of_row(row: Option<RequestRow>, status: RequestStatus) -> bool {
    match row {
        None => status == RequestStatus::NotFound,
        Some(r) => if r.failed {
            status == RequestStatus::Failed
        } else {
            match r.proof {
                Some(p) => status is Done && status->Done_0@ == p,
                None => status == RequestStatus::Queued,
            }
        },
    }
}

/// The status of what the table holds for one identifier: the proof, if
/// any, and the failure flag.
pub fn request_status(row: Option<(Option<String>, bool)>) -> (r: RequestStatus)
    ensures
        row is None ==> r == RequestStatus::NotFound,
        row is Some && row->Some_0.1 ==> r == RequestStatus::Failed,
        row is Some && !row->Some_0.1 && row->Some_0.0 is None ==> r == RequestStatus::Queued,
        row is Some && !row->Some_0.1 && row->Some_0.0 is Some ==> r is Done && r->Done_0
            == row->Some_0.0->Some_0,
{
    match row {
        None => RequestStatus::NotFound,
        Some((stored, failed)) => {
            if failed {
                RequestStatus::Failed
            } else {
                match stored {
                    None => RequestStatus::Queued,
                    Some(p) => RequestStatus::Done(p),
                }
            }
        },
    }
}

/// Where the request for `blob_id` stands.
pub fn query(db: &ProofStore, blob_id: &String) -> (r: RequestStatus)
    requires
        db.wf(),
    ensures
        !has_request(db@, blob_id@) ==> r == RequestStatus::NotFound,
        has_request(db@, blob_id@) ==> exists|i: int|
            #![trigger db@[i]]
            row_at(db@, blob_id@, i) && status_of_row(Some(db@[i]), r),
{
    request_status(retrieve_blob_id_proof(db, blob_id))
}

/// The answer of `get_proof`: the proof of a done request, or the error that
/// says why there is none.
pub fn get_proof_response(status: RequestStatus) -> (r: Result<String, ApiError>)
    ensures
        status is Done ==> r is Ok && r->Ok_0 == status->Done_0,
        status is NotFound ==> r is Err && r->Err_0 == ApiError::NotFound,
        status is Queued ==> r is Err && r->Err_0 == ApiError::StillQueued,
        status is Failed ==> r is Err && r->Err_0 == ApiError::RequestFailed,
{
    match status {
        RequestStatus::Done(p) => Ok(p),
        RequestStatus::NotFound => Err(ApiError::NotFound),
        RequestStatus::Queued => Err(ApiError::StillQueued),
        RequestStatus::Failed => Err(ApiError::RequestFailed),
    }
}

/// Submits `blob_id`: a new queued request, or `AlreadySubmitted` when the
/// table has one for it in any state. It returns at once.
pub fn submit(db: &mut ProofStore, blob_id: String) -> (r: Result<(), ApiError>)
    requires
        old(db).wf(),
    ensures
        final(db).wf(),
        final(db)@ == crate::store::after_submit(old(db)@, blob_id@),
        r is Err <==> has_request(old(db)@, blob_id@),
        r is Err ==> r->Err_0 == ApiError::AlreadySubmitted,
{
    if proof_request_exists(db, &blob_id) {
        return Err(ApiError::AlreadySubmitted);
    }
    match store_blob_proof_request(db, blob_id) {
        Ok(()) => Ok(()),
        Err(_) => Err(ApiError::AlreadySubmitted),
    }
}

} // verus!
