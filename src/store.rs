//! The table of proof requests, keyed by blob identifier.
//!
//! A request is created `queued`; the worker moves it once to `done` (its
//! proof is set) or to `failed`, and nothing moves it again. Rows keep their
//! insertion order, which is the order in which the worker takes them up.
use vstd::prelude::*;

verus! {

/// One row of the table, as plain values.
pub struct RequestRow {
    pub blob_id: Seq<char>,
    pub proof: Option<Seq<char>>,
    pub failed: bool,
}

impl RequestRow {
    pub open spec fn is_queued(self) -> bool {
        self.proof is None && !self.failed
    }

    pub open spec fn is_terminal(self) -> bool {
        !self.is_queued()
    }
}

/// A freshly submitted request.
pub open spec fn queued_row(blob_id: Seq<char>) -> RequestRow {
    RequestRow { blob_id, proof: None, failed: false }
}

/// Some row of `v` belongs to `blob_id`.
pub open spec fn has_request(v: Seq<RequestRow>, blob_id: Seq<char>) -> bool {
    exists|i: int| 0 <= i < v.len() && #[trigger] v[i].blob_id == blob_id
}

/// The row of `blob_id` is at index `i`.
pub open spec fn row_at(v: Seq<RequestRow>, blob_id: Seq<char>, i: int) -> bool {
    0 <= i < v.len() && v[i].blob_id == blob_id
}

/// Exactly one row of `v` belongs to `blob_id`.
pub open spec fn has_single_row(v: Seq<RequestRow>, blob_id: Seq<char>) -> bool {
    exists|i: int|
        #![trigger v[i]]
        row_at(v, blob_id, i) && forall|j: int| 0 <= j < v.len() && j != i ==> v[j].blob_id != blob_id
}

/// No two rows share a blob identifier.
pub open spec fn ids_unique(v: Seq<RequestRow>) -> bool {
    forall|i: int, j: int|
        0 <= i < v.len() && 0 <= j < v.len() && i != j ==> #[trigger] v[i].blob_id
            != #[trigger] v[j].blob_id
}

/// No row is both done and failed.
pub open spec fn states_exclusive(v: Seq<RequestRow>) -> bool {
    forall|i: int| 0 <= i < v.len() ==> !(#[trigger] v[i].proof is Some && v[i].failed)
}

/// The table after a submission: a new queued row at the end, unless the
/// identifier is already there.
pub open spec fn after_submit(v: Seq<RequestRow>, blob_id: Seq<char>) -> Seq<RequestRow> {
    if has_request(v, blob_id) {
        v
    } else {
        v.push(queued_row(blob_id))
    }
}

/// The table after a terminal write to the row of `blob_id`: the row takes
/// the new state only while it is queued.
pub open spec fn after_finish(v: Seq<RequestRow>, blob_id: Seq<char>, done: RequestRow) -> Seq<
    RequestRow,
> {
    Seq::new(
        v.len(),
        |i: int|
            if v[i].blob_id == blob_id && v[i].is_queued() {
                done
            } else {
                v[i]
            },
    )
}

/// The table after the proof of `blob_id` is stored.
pub open spec fn after_store_proof(v: Seq<RequestRow>, blob_id: Seq<char>, proof: Seq<char>) -> Seq<
    RequestRow,
> {
    after_finish(v, blob_id, RequestRow { blob_id, proof: Some(proof), failed: false })
}

/// The table after the request of `blob_id` is marked failed.
pub open spec fn after_mark_failed(v: Seq<RequestRow>, blob_id: Seq<char>) -> Seq<RequestRow> {
    after_finish(v, blob_id, RequestRow { blob_id, proof: None, failed: true })
}

/// `i` is the oldest queued row.
pub open spec fn is_oldest_queued(v: Seq<RequestRow>, i: int) -> bool {
    0 <= i < v.len() && v[i].is_queued() && forall|j: int| 0 <= j < i ==> !(#[trigger] v[j].is_queued())
}

/// The number of queued rows.
pub open spec fn queued_count(v: Seq<RequestRow>) -> nat
    decreases v.len(),
{
    if v.len() == 0 {
        0
    } else {
        queued_count(v.drop_last()) + if v.last().is_queued() {
            1nat
        } else {
            0nat
        }
    }
}

/// Why the table refused a change.
#[derive(Debug, Clone, Copy, PartialEq, Eq, Structural)]
pub enum StoreError {
    /// A request for this identifier exists already, in whatever state.
    AlreadySubmitted,
    /// No request has this identifier.
    NotFound,
    /// The request is done or failed already.
    AlreadyFinished,
    /// A stored row claims to be both done and failed.
    Inconsistent,
}

/// The view of an optional string.
pub open spec fn opt_view(o: Option<String>) -> Option<Seq<char>> {
    match o {
        Some(s) => Some(s@),
        None => None,
    }
}

/// A stored request.
pub struct ProofRequest {
    pub blob_id: String,
    pub proof: Option<String>,
    pub failed: bool,
}

impl ProofRequest {
    pub open spec fn model(&self) -> RequestRow {
        RequestRow {
            blob_id: self.blob_id@,
            proof: opt_view(self.proof),
            failed: self.failed,
        }
    }
}

/// The table of proof requests.
pub struct ProofStore {
    rows: Vec<ProofRequest>,
}

impl View for ProofStore {
    type V = Seq<RequestRow>;

    closed spec fn view(&self) -> Seq<RequestRow> {
        Seq::new(self.rows@.len(), |i: int| self.rows@[i].model())
    }
}

impl ProofStore {
    /// Identifiers are unique and no row is both done and failed.
    pub open spec fn wf(&self) -> bool {
        ids_unique(self@) && states_exclusive(self@)
    }

    /// An empty table.
    pub fn new() -> (r: ProofStore)
        ensures
            r@ == Seq::<RequestRow>::empty(),
            r.wf(),
    {
        let r = ProofStore { rows: Vec::new() };
        assert(r@ =~= Seq::<RequestRow>::empty());
        r
    }

    /// The number of rows.
    pub fn len(&self) -> (r: usize)
        ensures
            r == self@.len(),
    {
        self.rows.len()
    }

    /// The index of the row of `blob_id`, if there is one.
    fn find(&self, blob_id: &String) -> (r: Option<usize>)
        requires
            self.wf(),
        ensures
            r is None <==> !has_request(self@, blob_id@),
            r is Some ==> row_at(self@, blob_id@, r->Some_0 as int),
    {
        let mut i: usize = 0;
        while i < self.rows.len()
            invariant
                i <= self.rows@.len(),
                forall|j: int| 0 <= j < i ==> #[trigger] self@[j].blob_id != blob_id@,
            decreases self.rows@.len() - i,
        {
            if self.rows[i].blob_id == *blob_id {
                assert(self@[i as int].blob_id == blob_id@);
                return Some(i);
            }
            i = i + 1;
        }
        proof {
            if has_request(self@, blob_id@) {
                let k = choose|k: int| 0 <= k < self@.len() && #[trigger] self@[k].blob_id == blob_id@;
                assert(self@[k].blob_id != blob_id@);
            }
        }
        None
    }
}

/// Stores a new queued request for `blob_id`; refuses an identifier that is
/// already present, whatever its state.
pub fn store_blob_proof_request(db: &mut ProofStore, blob_id: String) -> (r: Result<(), StoreError>)
    requires
        old(db).wf(),
    ensures
        final(db).wf(),
        final(db)@ == after_submit(old(db)@, blob_id@),
        r is Err <==> has_request(old(db)@, blob_id@),
        r is Err ==> r->Err_0 == StoreError::AlreadySubmitted,
{
    match db.find(&blob_id) {
        Some(_) => Err(StoreError::AlreadySubmitted),
        None => {
            let ghost before = db@;
            db.rows.push(ProofRequest { blob_id, proof: None, failed: false });
            assert(db@ =~= after_submit(before, blob_id@));
            Ok(())
        },
    }
}

/// Puts back a row read from persistent storage, in the state it was saved
/// in; the table is refilled this way when the process starts.
pub fn restore_request(db: &mut ProofStore, row: ProofRequest) -> (r: Result<(), StoreError>)
    requires
        old(db).wf(),
    ensures
        final(db).wf(),
        r is Ok ==> final(db)@ == old(db)@.push(row.model()),
        r is Err ==> final(db)@ == old(db)@,
        r is Err <==> has_request(old(db)@, row.blob_id@) || (row.proof is Some && row.failed),
        has_request(old(db)@, row.blob_id@) ==> r is Err && r->Err_0 == StoreError::AlreadySubmitted,
{
    match db.find(&row.blob_id) {
        Some(_) => Err(StoreError::AlreadySubmitted),
        None => {
            if row.proof.is_some() && row.failed {
                return Err(StoreError::Inconsistent);
            }
            let ghost before = db@;
            let ghost m = row.model();
            db.rows.push(row);
            assert(db@ =~= before.push(m));
            Ok(())
        },
    }
}

/// Whether a request for `blob_id` exists.
pub fn proof_request_exists(db: &ProofStore, blob_id: &String) -> (r: bool)
    requires
        db.wf(),
    ensures
        r == has_request(db@, blob_id@),
{
    db.find(blob_id).is_some()
}

/// The identifier of the oldest queued request, if any.
pub fn retrieve_next_pending_proof(db: &ProofStore) -> (r: Option<String>)
    ensures
        r is None <==> forall|i: int| 0 <= i < db@.len() ==> !(#[trigger] db@[i].is_queued()),
        r is Some ==> exists|i: int| is_oldest_queued(db@, i) && db@[i].blob_id == r->Some_0@,
{
    let mut i: usize = 0;
    while i < db.rows.len()
        invariant
            i <= db.rows@.len(),
            forall|j: int| 0 <= j < i ==> !(#[trigger] db@[j].is_queued()),
        decreases db.rows@.len() - i,
    {
        let row = &db.rows[i];
        if row.proof.is_none() && !row.failed {
            assert(is_oldest_queued(db@, i as int));
            return Some(row.blob_id.clone());
        }
        i = i + 1;
    }
    None
}

/// The proof and the failure flag of the request for `blob_id`, if there is
/// one.
pub fn retrieve_blob_id_proof(db: &ProofStore, blob_id: &String) -> (r: Option<(Option<String>, bool)>)
    requires
        db.wf(),
    ensures
        r is None <==> !has_request(db@, blob_id@),
        r is Some ==> exists|i: int|
            #![trigger db@[i]]
            row_at(db@, blob_id@, i) && db@[i].failed == r->Some_0.1 && match r->Some_0.0 {
                Some(p) => db@[i].proof == Some(p@),
                None => db@[i].proof is None,
            },
{
    match db.find(blob_id) {
        None => None,
        Some(i) => {
            let row = &db.rows[i];
            let proof = match &row.proof {
                Some(p) => Some(p.clone()),
                None => None,
            };
            Some((proof, row.failed))
        },
    }
}

impl ProofStore {
    /// Moves the request of `blob_id` from queued to `done`.
    fn finish(&mut self, blob_id: &String, proof: Option<String>, failed: bool) -> (r: Result<
        (),
        StoreError,
    >)
        requires
            old(self).wf(),
            proof is Some ==> !failed,
        ensures
            final(self).wf(),
            final(self)@ == after_finish(
                old(self)@,
                blob_id@,
                RequestRow {
                    blob_id: blob_id@,
                    proof: opt_view(proof),
                    failed,
                },
            ),
            r is Ok <==> exists|i: int| row_at(old(self)@, blob_id@, i) && #[trigger] old(
                self,
            )@[i].is_queued(),
            !has_request(old(self)@, blob_id@) ==> r is Err && r->Err_0 == StoreError::NotFound,
            has_request(old(self)@, blob_id@) && r is Err ==> r->Err_0 == StoreError::AlreadyFinished,
    {
        let ghost done = RequestRow {
            blob_id: blob_id@,
            proof: opt_view(proof),
            failed,
        };
        let ghost before = self@;
        match self.find(blob_id) {
            None => {
                assert(self@ =~= after_finish(before, blob_id@, done));
                Err(StoreError::NotFound)
            },
            Some(i) => {
                if self.rows[i].proof.is_some() || self.rows[i].failed {
                    assert(self@ =~= after_finish(before, blob_id@, done)) by {
                        assert forall|j: int| 0 <= j < before.len() implies #[trigger] before[j]
                            == after_finish(before, blob_id@, done)[j] by {
                            if j != i && before[j].blob_id == blob_id@ {
                                assert(before[i as int].blob_id == blob_id@);
                            }
                        }
                    }
                    assert forall|j: int| row_at(before, blob_id@, j) implies !(
                    #[trigger] before[j].is_queued()) by {
                        assert(before[i as int].blob_id == blob_id@);
                    }
                    Err(StoreError::AlreadyFinished)
                } else {
                    let id = self.rows[i].blob_id.clone();
                    self.rows.set(i, ProofRequest { blob_id: id, proof, failed });
                    assert(self@ =~= after_finish(before, blob_id@, done)) by {
                        assert forall|j: int| 0 <= j < before.len() implies #[trigger] self@[j]
                            == after_finish(before, blob_id@, done)[j] by {
                            if j != i && before[j].blob_id == blob_id@ {
                                assert(before[i as int].blob_id == blob_id@);
                            }
                        }
                    }
                    assert(row_at(before, blob_id@, i as int) && before[i as int].is_queued());
                    Ok(())
                }
            },
        }
    }
}

/// Stores the proof of the request for `blob_id`; only a queued request
/// takes it.
pub fn store_blob_proof(db: &mut ProofStore, blob_id: String, proof: String) -> (r: Result<
    (),
    StoreError,
>)
    requires
        old(db).wf(),
    ensures
        final(db).wf(),
        final(db)@ == after_store_proof(old(db)@, blob_id@, proof@),
        r is Ok <==> exists|i: int| row_at(old(db)@, blob_id@, i) && #[trigger] old(db)@[i].is_queued(),
        !has_request(old(db)@, blob_id@) ==> r is Err && r->Err_0 == StoreError::NotFound,
        has_request(old(db)@, blob_id@) && r is Err ==> r->Err_0 == StoreError::AlreadyFinished,
{
    db.finish(&blob_id, Some(proof), false)
}

/// Marks the request for `blob_id` as failed; only a queued request changes.
pub fn mark_blob_proof_request_failed(db: &mut ProofStore, blob_id: String) -> (r: Result<
    (),
    StoreError,
>)
    requires
        old(db).wf(),
    ensures
        final(db).wf(),
        final(db)@ == after_mark_failed(old(db)@, blob_id@),
        r is Ok <==> exists|i: int| row_at(old(db)@, blob_id@, i) && #[trigger] old(db)@[i].is_queued(),
        !has_request(old(db)@, blob_id@) ==> r is Err && r->Err_0 == StoreError::NotFound,
        has_request(old(db)@, blob_id@) && r is Err ==> r->Err_0 == StoreError::AlreadyFinished,
{
    db.finish(&blob_id, None, true)
}

/// Submitting an identifier twice leaves one row for it: the second
/// submission finds it present (and is refused), and changes nothing.
pub proof fn lemma_submit_is_idempotent(v: Seq<RequestRow>, blob_id: Seq<char>)
    requires
        ids_unique(v),
    ensures
        ids_unique(after_submit(v, blob_id)),
        has_request(after_submit(v, blob_id), blob_id),
        after_submit(after_submit(v, blob_id), blob_id) == after_submit(v, blob_id),
        has_single_row(after_submit(v, blob_id), blob_id),
{
    let w = after_submit(v, blob_id);
    if has_request(v, blob_id) {
        let k = choose|k: int| 0 <= k < v.len() && #[trigger] v[k].blob_id == blob_id;
        assert(row_at(w, blob_id, k));
    } else {
        let k = v.len() as int;
        assert(w[k].blob_id == blob_id);
        assert forall|i: int, j: int|
            0 <= i < w.len() && 0 <= j < w.len() && i != j implies #[trigger] w[i].blob_id
            != #[trigger] w[j].blob_id by {
            if i < k && j < k {
                assert(v[i] == w[i] && v[j] == w[j]);
            } else if i < k {
                assert(v[i] == w[i]);
            } else {
                assert(v[j] == w[j]);
            }
        }
        assert forall|j: int| 0 <= j < w.len() && j != k implies w[j].blob_id != blob_id by {
            assert(v[j] == w[j]);
        }
        assert(row_at(w, blob_id, k));
    }
}

/// A request that is done or failed keeps its row unchanged under every later
/// submission, stored proof or failure mark.
pub proof fn lemma_terminal_rows_stay(
    v: Seq<RequestRow>,
    i: int,
    blob_id: Seq<char>,
    proof: Seq<char>,
)
    requires
        0 <= i < v.len(),
        v[i].is_terminal(),
    ensures
        after_submit(v, blob_id)[i] == v[i],
        after_store_proof(v, blob_id, proof)[i] == v[i],
        after_mark_failed(v, blob_id)[i] == v[i],
{
}

/// Two tables that differ in one row only, queued in the first and finished
/// in the second, differ by one in their number of queued rows.
proof fn lemma_queued_count_finish(a: Seq<RequestRow>, b: Seq<RequestRow>, i: int)
    requires
        a.len() == b.len(),
        0 <= i < a.len(),
        a[i].is_queued(),
        b[i].is_terminal(),
        forall|j: int| 0 <= j < a.len() && j != i ==> a[j] == b[j],
    ensures
        queued_count(b) + 1 == queued_count(a),
    decreases a.len(),
{
    let n = a.len() - 1;
    if i == n {
        assert(a.drop_last() =~= b.drop_last());
    } else {
        lemma_queued_count_finish(a.drop_last(), b.drop_last(), i);
        assert(a.last() == b.last());
    }
}

/// One pass of the worker takes the oldest queued request and finishes it,
/// with a proof or as failed: the row becomes terminal, no row is added, the
/// identifiers stay unique, and one request fewer is queued. The queue is
/// kept in the table alone, so a worker that restarts picks up where the
/// last one stopped, and after as many passes as there are queued rows none
/// is left.
pub proof fn lemma_worker_pass_progress(v: Seq<RequestRow>, i: int, proof: Seq<char>)
    requires
        ids_unique(v),
        is_oldest_queued(v, i),
    ensures
        after_store_proof(v, v[i].blob_id, proof).len() == v.len(),
        after_mark_failed(v, v[i].blob_id).len() == v.len(),
        after_store_proof(v, v[i].blob_id, proof)[i].proof == Some(proof),
        after_mark_failed(v, v[i].blob_id)[i].failed,
        ids_unique(after_store_proof(v, v[i].blob_id, proof)),
        ids_unique(after_mark_failed(v, v[i].blob_id)),
        queued_count(after_store_proof(v, v[i].blob_id, proof)) + 1 == queued_count(v),
        queued_count(after_mark_failed(v, v[i].blob_id)) + 1 == queued_count(v),
{
    let id = v[i].blob_id;
    let s = after_store_proof(v, id, proof);
    let f = after_mark_failed(v, id);
    assert forall|j: int| 0 <= j < v.len() && j != i implies v[j] == s[j] && v[j] == f[j] by {
        assert(v[j].blob_id != v[i].blob_id);
    }
    lemma_queued_count_finish(v, s, i);
    lemma_queued_count_finish(v, f, i);
    assert forall|a: int, b: int|
        0 <= a < s.len() && 0 <= b < s.len() && a != b implies #[trigger] s[a].blob_id
        != #[trigger] s[b].blob_id by {
        assert(v[a].blob_id == s[a].blob_id && v[b].blob_id == s[b].blob_id);
    }
    assert forall|a: int, b: int|
        0 <= a < f.len() && 0 <= b < f.len() && a != b implies #[trigger] f[a].blob_id
        != #[trigger] f[b].blob_id by {
        assert(v[a].blob_id == f[a].blob_id && v[b].blob_id == f[b].blob_id);
    }
}

/// The oldest queued row, where there is one.
pub open spec fn oldest_queued(v: Seq<RequestRow>) -> int {
    choose|i: int| is_oldest_queued(v, i)
}

/// One pass of the worker over the table: the oldest queued request is
/// finished, with the proof that the pass produced or as failed; a table
/// without queued requests stays as it is.
pub open spec fn worker_pass(v: Seq<RequestRow>, outcome: Option<Seq<char>>) -> Seq<RequestRow> {
    if exists|i: int| is_oldest_queued(v, i) {
        let id = v[oldest_queued(v)].blob_id;
        match outcome {
            Some(proof) => after_store_proof(v, id, proof),
            None => after_mark_failed(v, id),
        }
    } else {
        v
    }
}

/// Passes of the worker, one for each outcome, from a table as it was left
/// by whatever ran before (a worker that stopped included).
pub open spec fn worker_run(v: Seq<RequestRow>, outcomes: Seq<Option<Seq<char>>>) -> Seq<
    RequestRow,
>
    decreases outcomes.len(),
{
    if outcomes.len() == 0 {
        v
    } else {
        worker_run(worker_pass(v, outcomes[0]), outcomes.drop_first())
    }
}

/// A pass is what the worker does with the request that
/// `retrieve_next_pending_proof` hands it: storing its proof, or marking it
/// failed, is the pass with that outcome.
pub proof fn lemma_pass_finishes_oldest(v: Seq<RequestRow>, i: int, proof: Seq<char>)
    requires
        is_oldest_queued(v, i),
    ensures
        worker_pass(v, Some(proof)) == after_store_proof(v, v[i].blob_id, proof),
        worker_pass(v, None) == after_mark_failed(v, v[i].blob_id),
{
    let k = oldest_queued(v);
    assert(is_oldest_queued(v, k));
    if k < i {
        assert(!v[k].is_queued());
    } else if i < k {
        assert(!v[i].is_queued());
    }
}

proof fn lemma_queued_row_exists(v: Seq<RequestRow>)
    requires
        queued_count(v) > 0,
    ensures
        exists|i: int| is_oldest_queued(v, i),
    decreases v.len(),
{
    let d = v.drop_last();
    assert forall|j: int| 0 <= j < d.len() implies #[trigger] v[j] == d[j] by {}
    if queued_count(d) > 0 {
        lemma_queued_row_exists(d);
        let i = choose|i: int| is_oldest_queued(d, i);
        assert(v[i] == d[i]);
        assert forall|j: int| 0 <= j < i implies !(#[trigger] v[j].is_queued()) by {
            assert(v[j] == d[j]);
        }
        assert(is_oldest_queued(v, i));
    } else {
        lemma_no_queued_rows(d);
        let i = v.len() - 1;
        assert(v.last().is_queued());
        assert forall|j: int| 0 <= j < i implies !(#[trigger] v[j].is_queued()) by {
            assert(v[j] == d[j]);
        }
        assert(is_oldest_queued(v, i));
    }
}

proof fn lemma_no_queued_rows(v: Seq<RequestRow>)
    requires
        queued_count(v) == 0,
    ensures
        forall|i: int| 0 <= i < v.len() ==> !(#[trigger] v[i].is_queued()),
    decreases v.len(),
{
    if v.len() > 0 {
        let d = v.drop_last();
        lemma_no_queued_rows(d);
        assert forall|i: int| 0 <= i < v.len() implies !(#[trigger] v[i].is_queued()) by {
            if i < v.len() - 1 {
                assert(v[i] == d[i]);
            }
        }
    }
}

/// A worker that restarts on the table finishes every queued request: after
/// as many passes as there are queued requests, none is left queued, no row
/// was added, the identifiers stay unique, and the rows that were done or
/// failed are as they were.
pub proof fn lemma_worker_run_drains_queue(v: Seq<RequestRow>, outcomes: Seq<Option<Seq<char>>>)
    requires
        ids_unique(v),
        outcomes.len() >= queued_count(v),
    ensures
        queued_count(worker_run(v, outcomes)) == 0,
        worker_run(v, outcomes).len() == v.len(),
        ids_unique(worker_run(v, outcomes)),
        forall|i: int|
            0 <= i < v.len() ==> (#[trigger] worker_run(v, outcomes)[i]).blob_id == v[i].blob_id,
        forall|i: int|
            0 <= i < v.len() && v[i].is_terminal() ==> #[trigger] worker_run(v, outcomes)[i]
                == v[i],
    decreases outcomes.len(),
{
    if outcomes.len() > 0 {
        let w = worker_pass(v, outcomes[0]);
        if exists|i: int| is_oldest_queued(v, i) {
            let i = oldest_queued(v);
            let id = v[i].blob_id;
            lemma_worker_pass_progress(v, i, outcomes[0].unwrap_or(Seq::empty()));
            assert forall|j: int| 0 <= j < v.len() implies (#[trigger] w[j]).blob_id == v[j].blob_id
                && (v[j].is_terminal() ==> w[j] == v[j]) by {}
        } else {
            if queued_count(v) > 0 {
                lemma_queued_row_exists(v);
            }
        }
        lemma_worker_run_drains_queue(w, outcomes.drop_first());
    } else {
        if queued_count(v) > 0 {
            lemma_queued_row_exists(v);
        }
    }
}

} // verus!
