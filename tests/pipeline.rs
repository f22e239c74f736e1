use eigenda_sidecar::api::{
    get_proof_response, query, request_status, submit, ApiError, RequestStatus,
    INTERNAL_ERROR, INVALID_PARAMS_ERROR, PROOF_NOT_FOUND_ERROR,
};
use eigenda_sidecar::artifact::{
    artifact_hex, block_proof_bytes, encode_proof_artifact, ArtifactError, Output,
};
use eigenda_sidecar::store::{
    mark_blob_proof_request_failed, proof_request_exists, retrieve_blob_id_proof,
    restore_request, retrieve_next_pending_proof, store_blob_proof, store_blob_proof_request,
    ProofRequest, ProofStore, StoreError,
};
use eigenda_sidecar::worker::{
    next_step, WorkerAction, WorkerEvent, WorkerState, IDLE_BACKOFF_SECS, RESOLVE_RETRY_SECS,
};
use ethabi::{ParamType, Token};

fn s(v: &str) -> String {
    v.to_string()
}

fn apply(db: &mut ProofStore, action: &WorkerAction) {
    match action {
        WorkerAction::StoreProof(id, proof) => {
            store_blob_proof(db, id.clone(), proof.clone()).unwrap();
        }
        WorkerAction::MarkFailed(id) => {
            mark_blob_proof_request_failed(db, id.clone()).unwrap();
        }
        _ => {}
    }
}

fn decode_hex(text: &str) -> Vec<u8> {
    (0..text.len())
        .step_by(2)
        .map(|i| u8::from_str_radix(&text[i..i + 2], 16).unwrap())
        .collect()
}

#[test]
fn submitting_twice_conflicts_and_keeps_one_row() {
    let mut db = ProofStore::new();
    assert_eq!(submit(&mut db, s("x")), Ok(()));
    assert_eq!(submit(&mut db, s("x")), Err(ApiError::AlreadySubmitted));
    assert_eq!(db.len(), 1);
    assert_eq!(query(&db, &s("x")), RequestStatus::Queued);
}

#[test]
fn store_refuses_duplicate_request() {
    let mut db = ProofStore::new();
    assert_eq!(store_blob_proof_request(&mut db, s("a")), Ok(()));
    assert_eq!(store_blob_proof_request(&mut db, s("a")), Err(StoreError::AlreadySubmitted));
    assert!(proof_request_exists(&db, &s("a")));
    assert!(!proof_request_exists(&db, &s("b")));
}

#[test]
fn resubmitting_a_finished_request_conflicts() {
    let mut db = ProofStore::new();
    submit(&mut db, s("done")).unwrap();
    submit(&mut db, s("failed")).unwrap();
    store_blob_proof(&mut db, s("done"), s("00")).unwrap();
    mark_blob_proof_request_failed(&mut db, s("failed")).unwrap();
    assert_eq!(submit(&mut db, s("done")), Err(ApiError::AlreadySubmitted));
    assert_eq!(submit(&mut db, s("failed")), Err(ApiError::AlreadySubmitted));
    assert_eq!(db.len(), 2);
}

#[test]
fn terminal_rows_are_never_rewritten() {
    let mut db = ProofStore::new();
    submit(&mut db, s("a")).unwrap();
    submit(&mut db, s("b")).unwrap();
    store_blob_proof(&mut db, s("a"), s("abcd")).unwrap();
    mark_blob_proof_request_failed(&mut db, s("b")).unwrap();
    assert_eq!(store_blob_proof(&mut db, s("a"), s("ffff")), Err(StoreError::AlreadyFinished));
    assert_eq!(mark_blob_proof_request_failed(&mut db, s("a")), Err(StoreError::AlreadyFinished));
    assert_eq!(store_blob_proof(&mut db, s("b"), s("ffff")), Err(StoreError::AlreadyFinished));
    assert_eq!(mark_blob_proof_request_failed(&mut db, s("b")), Err(StoreError::AlreadyFinished));
    assert_eq!(query(&db, &s("a")), RequestStatus::Done(s("abcd")));
    assert_eq!(query(&db, &s("b")), RequestStatus::Failed);
    assert_eq!(retrieve_blob_id_proof(&db, &s("a")), Some((Some(s("abcd")), false)));
    assert_eq!(retrieve_blob_id_proof(&db, &s("b")), Some((None, true)));
}

#[test]
fn finishing_an_unknown_request_is_not_found() {
    let mut db = ProofStore::new();
    assert_eq!(store_blob_proof(&mut db, s("zz"), s("00")), Err(StoreError::NotFound));
    assert_eq!(mark_blob_proof_request_failed(&mut db, s("zz")), Err(StoreError::NotFound));
    assert_eq!(db.len(), 0);
}

#[test]
fn pending_requests_come_out_oldest_first() {
    let mut db = ProofStore::new();
    assert_eq!(retrieve_next_pending_proof(&db), None);
    submit(&mut db, s("first")).unwrap();
    submit(&mut db, s("second")).unwrap();
    submit(&mut db, s("third")).unwrap();
    assert_eq!(retrieve_next_pending_proof(&db), Some(s("first")));
    mark_blob_proof_request_failed(&mut db, s("first")).unwrap();
    assert_eq!(retrieve_next_pending_proof(&db), Some(s("second")));
    store_blob_proof(&mut db, s("second"), s("01")).unwrap();
    assert_eq!(retrieve_next_pending_proof(&db), Some(s("third")));
    store_blob_proof(&mut db, s("third"), s("02")).unwrap();
    assert_eq!(retrieve_next_pending_proof(&db), None);
}

#[test]
fn a_restarted_worker_takes_up_the_queued_row() {
    let mut db = ProofStore::new();
    submit(&mut db, s("crash")).unwrap();
    // the first worker takes the request and stops before it finishes
    let pending = retrieve_next_pending_proof(&db);
    let (state, _) = next_step(WorkerState::Idle, WorkerEvent::Pending(pending));
    assert_eq!(state, WorkerState::Resolving(s("crash")));
    // a new worker starts from scratch on the same table
    let pending = retrieve_next_pending_proof(&db);
    assert_eq!(pending, Some(s("crash")));
    let mut state = WorkerState::Idle;
    let mut action;
    for event in [
        WorkerEvent::Pending(pending),
        WorkerEvent::CertificateFound,
        WorkerEvent::PayloadRetrieved,
        WorkerEvent::ConsistencyChecked,
        WorkerEvent::Proved(vec![0xab, 0x01]),
    ] {
        (state, action) = next_step(state, event);
        apply(&mut db, &action);
    }
    assert_eq!(state, WorkerState::Idle);
    assert_eq!(query(&db, &s("crash")), RequestStatus::Done(s("ab01")));
    assert_eq!(db.len(), 1);
    assert_eq!(retrieve_next_pending_proof(&db), None);
}

#[test]
fn mismatched_commitment_ends_failed() {
    let mut db = ProofStore::new();
    submit(&mut db, s("abc123")).unwrap();
    let mut state = WorkerState::Idle;
    let mut actions = Vec::new();
    for event in [
        WorkerEvent::Pending(retrieve_next_pending_proof(&db)),
        WorkerEvent::CertificateMissing,
        WorkerEvent::CertificateFound,
        WorkerEvent::PayloadRetrieved,
        WorkerEvent::ConsistencyFailed,
    ] {
        let (next, action) = next_step(state, event);
        apply(&mut db, &action);
        actions.push(action);
        state = next;
    }
    assert_eq!(actions[1], WorkerAction::ResolveCertificate(s("abc123"), RESOLVE_RETRY_SECS));
    assert_eq!(actions[4], WorkerAction::MarkFailed(s("abc123")));
    assert_eq!(state, WorkerState::Idle);
    assert_eq!(query(&db, &s("abc123")), RequestStatus::Failed);
    assert_eq!(
        get_proof_response(query(&db, &s("abc123"))),
        Err(ApiError::RequestFailed)
    );
    // a later pass does not touch it again
    assert_eq!(retrieve_next_pending_proof(&db), None);
    let (_, action) = next_step(WorkerState::Idle, WorkerEvent::Pending(None));
    assert_eq!(action, WorkerAction::FetchPending(IDLE_BACKOFF_SECS));
}

#[test]
fn consistent_pair_ends_done_with_four_component_artifact() {
    let mut db = ProofStore::new();
    submit(&mut db, s("feed")).unwrap();
    let seal = block_proof_bytes(Some((&[1u8, 2, 3, 4, 5][..], &[9u8, 9][..]))).unwrap();
    let image_id = vec![7u8; 32];
    let journal_digest = vec![8u8; 32];
    let payload_hash = vec![6u8; 32];
    let artifact = encode_proof_artifact(
        seal.clone(),
        image_id.clone(),
        journal_digest.clone(),
        payload_hash.clone(),
    );
    let mut state = WorkerState::Idle;
    for event in [
        WorkerEvent::Pending(retrieve_next_pending_proof(&db)),
        WorkerEvent::CertificateFound,
        WorkerEvent::PayloadRetrieved,
        WorkerEvent::ConsistencyChecked,
        WorkerEvent::Proved(artifact.clone()),
    ] {
        let (next, action) = next_step(state, event);
        apply(&mut db, &action);
        state = next;
    }
    let text = match get_proof_response(query(&db, &s("feed"))) {
        Ok(text) => text,
        Err(e) => panic!("no proof: {:?}", e),
    };
    let bytes = decode_hex(&text);
    assert_eq!(bytes, artifact);
    let tokens = ethabi::decode(
        &[ParamType::Tuple(vec![
            ParamType::Bytes,
            ParamType::FixedBytes(32),
            ParamType::FixedBytes(32),
            ParamType::FixedBytes(32),
        ])],
        &bytes,
    )
    .unwrap();
    assert_eq!(
        tokens,
        vec![Token::Tuple(vec![
            Token::Bytes(vec![1, 2, 3, 4, 9, 9]),
            Token::FixedBytes(image_id),
            Token::FixedBytes(journal_digest),
            Token::FixedBytes(payload_hash),
        ])]
    );
}

#[test]
fn block_proof_of_other_receipts_is_four_zeros() {
    assert_eq!(block_proof_bytes(None), Ok(vec![0u8; 4]));
}

#[test]
fn block_proof_needs_a_selector() {
    assert_eq!(
        block_proof_bytes(Some((&[1u8, 2, 3][..], &[9u8][..]))),
        Err(ArtifactError::VerifierParametersTooShort)
    );
    assert_eq!(
        block_proof_bytes(Some((&[1u8, 2, 3, 4][..], &[][..]))),
        Ok(vec![1, 2, 3, 4])
    );
}

#[test]
fn artifact_hex_is_lowercase_two_digits_per_byte() {
    assert_eq!(artifact_hex(&[0x00, 0x0f, 0xa0, 0xff]), s("000fa0ff"));
    assert_eq!(artifact_hex(&[]), s(""));
}

#[test]
fn output_abi_encoding_decodes() {
    let out = Output { hash: vec![5u8; 32], env_commitment: vec![1, 2, 3], proof: vec![] };
    let bytes = out.abi_encode();
    let tokens = ethabi::decode(
        &[ParamType::Tuple(vec![ParamType::FixedBytes(32), ParamType::Bytes, ParamType::Bytes])],
        &bytes,
    )
    .unwrap();
    assert_eq!(
        tokens,
        vec![Token::Tuple(vec![
            Token::FixedBytes(vec![5u8; 32]),
            Token::Bytes(vec![1, 2, 3]),
            Token::Bytes(vec![]),
        ])]
    );
}

#[test]
fn request_status_of_each_row() {
    assert_eq!(request_status(None), RequestStatus::NotFound);
    assert_eq!(request_status(Some((None, false))), RequestStatus::Queued);
    assert_eq!(request_status(Some((None, true))), RequestStatus::Failed);
    assert_eq!(request_status(Some((Some(s("aa")), true))), RequestStatus::Failed);
    assert_eq!(request_status(Some((Some(s("aa")), false))), RequestStatus::Done(s("aa")));
}

#[test]
fn get_proof_answers() {
    assert_eq!(get_proof_response(RequestStatus::Done(s("aa"))), Ok(s("aa")));
    assert_eq!(get_proof_response(RequestStatus::NotFound), Err(ApiError::NotFound));
    assert_eq!(get_proof_response(RequestStatus::Queued), Err(ApiError::StillQueued));
    assert_eq!(get_proof_response(RequestStatus::Failed), Err(ApiError::RequestFailed));
    let db = ProofStore::new();
    assert_eq!(query(&db, &s("nothing")), RequestStatus::NotFound);
}

#[test]
fn error_codes_are_distinct() {
    let all = [
        ApiError::InvalidId,
        ApiError::AlreadySubmitted,
        ApiError::NotFound,
        ApiError::StillQueued,
        ApiError::RequestFailed,
        ApiError::Internal,
    ];
    for (i, a) in all.iter().enumerate() {
        for b in all.iter().skip(i + 1) {
            assert_ne!(a.code(), b.code());
        }
    }
    assert_eq!(ApiError::StillQueued.code(), PROOF_NOT_FOUND_ERROR);
    assert_eq!(ApiError::InvalidId.code(), INVALID_PARAMS_ERROR);
    assert_eq!(ApiError::Internal.code(), INTERNAL_ERROR);
    assert_eq!(ApiError::StillQueued.message(), s("Proof not found (still queued)"));
}

#[test]
fn worker_resolution_and_retrieval_failures_mark_failed() {
    let id = s("q");
    let (st, act) = next_step(WorkerState::Resolving(id.clone()), WorkerEvent::ResolutionFailed);
    assert_eq!((st, act), (WorkerState::Idle, WorkerAction::MarkFailed(id.clone())));
    let (st, act) = next_step(WorkerState::Retrieving(id.clone()), WorkerEvent::RetrievalFailed);
    assert_eq!((st, act), (WorkerState::Idle, WorkerAction::MarkFailed(id.clone())));
    let (st, act) = next_step(WorkerState::Proving(id.clone()), WorkerEvent::ProvingFailed);
    assert_eq!((st, act), (WorkerState::Idle, WorkerAction::MarkFailed(id.clone())));
    let (st, act) = next_step(WorkerState::Idle, WorkerEvent::Recorded);
    assert_eq!((st, act), (WorkerState::Idle, WorkerAction::FetchPending(0)));
}

#[test]
fn restoring_rows_keeps_their_states() {
    let mut db = ProofStore::new();
    let row = |id: &str, proof: Option<&str>, failed: bool| ProofRequest {
        blob_id: s(id),
        proof: proof.map(s),
        failed,
    };
    assert_eq!(restore_request(&mut db, row("a", Some("aa"), false)), Ok(()));
    assert_eq!(restore_request(&mut db, row("b", None, true)), Ok(()));
    assert_eq!(restore_request(&mut db, row("c", None, false)), Ok(()));
    assert_eq!(restore_request(&mut db, row("c", None, false)), Err(StoreError::AlreadySubmitted));
    assert_eq!(restore_request(&mut db, row("d", Some("dd"), true)), Err(StoreError::Inconsistent));
    assert_eq!(db.len(), 3);
    assert_eq!(query(&db, &s("a")), RequestStatus::Done(s("aa")));
    assert_eq!(query(&db, &s("b")), RequestStatus::Failed);
    assert_eq!(retrieve_next_pending_proof(&db), Some(s("c")));
}

#[test]
fn artifact_components_sit_at_fixed_places() {
    let artifact = encode_proof_artifact(vec![1, 2, 3], vec![7u8; 32], vec![8u8; 32], vec![6u8; 32]);
    assert_eq!(artifact.len(), 224);
    assert_eq!(artifact[31], 32);
    assert_eq!(artifact[63], 128);
    assert_eq!(artifact[64..96], [7u8; 32]);
    assert_eq!(artifact[96..128], [8u8; 32]);
    assert_eq!(artifact[128..160], [6u8; 32]);
    assert_eq!(artifact[191], 3);
    assert_eq!(artifact[192..195], [1, 2, 3]);
    assert!(artifact[195..].iter().all(|b| *b == 0));
}
