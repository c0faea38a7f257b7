//! Sector protocol: request and response types, the storage interface, the
//! write policy of a sector slot, and the request handler that enforces
//! program and size limits before delegating to storage.
use std::sync::Arc;
use vstd::prelude::*;
use crate::bytes::bytes32_eq;
use crate::hashing::{push_bytes, sha256, sha256_spec};
use crate::hexcode::{hex_encode, hex_spec};
use vstd::string::*;

verus! {

/// Maximum entries in a single batch request.
pub const MAX_BATCH_ENTRIES: usize = 64;

/// Maximum total payload bytes in a single batch request (4 MB).
pub const MAX_BATCH_PAYLOAD_BYTES: usize = 4194304;

/// A 32-byte program identifier.
#[derive(Debug, Clone, Copy, PartialEq, Eq, Hash)]
pub struct ProgramId(pub [u8; 32]);

impl ProgramId {
    /// The program id of a canonical descriptor encoding: its SHA-256 hash.
    pub fn from_descriptor_bytes(bytes: &[u8]) -> (r: Self)
        ensures
            r.0@ == sha256_spec(bytes@),
    {
        ProgramId(sha256(bytes))
    }

    /// The raw 32 bytes.
    pub fn as_bytes(&self) -> (r: &[u8; 32])
        ensures
            *r == self.0,
    {
        &self.0
    }
}

/// The gossip topic prefix of programs, `prog/`.
pub open spec fn topic_prefix() -> Seq<char> {
    seq!['p', 'r', 'o', 'g', '/']
}

/// The gossip topic of a program: `prog/` followed by the hex form of its
/// id.
pub fn program_topic(pid: &ProgramId) -> (r: String)
    ensures
        r@ == topic_prefix() + hex_spec(pid.0@),
{
    let hex = hex_encode(pid.0.as_slice());
    let mut t = String::from_str("prog/");
    t.append(hex.as_str());
    proof {
        reveal_strlit("prog/");
        assert("prog/"@ =~= topic_prefix());
    }
    t
}

/// A sector identifier: an arbitrary byte string.
#[derive(Debug, PartialEq, Eq, Hash)]
pub struct SectorId(pub Vec<u8>);

impl SectorId {
    pub fn from_bytes(bytes: Vec<u8>) -> (r: Self)
        ensures
            r.0@ == bytes@,
    {
        SectorId(bytes)
    }

    pub fn as_bytes(&self) -> (r: &[u8])
        ensures
            r@ == self.0@,
    {
        self.0.as_slice()
    }
}

impl Clone for SectorId {
    fn clone(&self) -> (r: Self)
        ensures
            r.0@ == self.0@,
    {
        SectorId(crate::types::copy_bytes(&self.0))
    }
}

/// Protocol-level error codes.
#[derive(Debug, Clone, Copy, PartialEq, Eq)]
pub enum ErrorCode {
    SlotOccupied,
    ConditionFailed,
    BatchTooLarge,
    StorageFull,
    InvalidPayload,
    PolicyReject,
}

/// Storage-level errors.
#[derive(Debug, Clone, PartialEq, Eq)]
pub enum StorageError {
    /// A write-once slot already holds a value.
    SlotOccupied,
    /// A compare-and-swap precondition did not hold.
    ConditionFailed,
    /// A batch exceeds the limits (number of entries given).
    BatchTooLarge(usize),
    /// The store is out of space.
    Full { max_bytes: u64 },
    /// Any other backend failure.
    Backend(String),
}

/// The protocol error code for a storage error.
pub open spec fn spec_err_code(e: StorageError) -> ErrorCode {
    match e {
        StorageError::SlotOccupied => ErrorCode::SlotOccupied,
        StorageError::ConditionFailed => ErrorCode::ConditionFailed,
        StorageError::BatchTooLarge(_) => ErrorCode::BatchTooLarge,
        StorageError::Full { .. } => ErrorCode::StorageFull,
        _ => ErrorCode::InvalidPayload,
    }
}

/// The protocol error code for a storage error.
pub fn storage_err_to_code(e: &StorageError) -> (r: ErrorCode)
    ensures
        r == spec_err_code(*e),
{
    match e {
        StorageError::SlotOccupied => ErrorCode::SlotOccupied,
        StorageError::ConditionFailed => ErrorCode::ConditionFailed,
        StorageError::BatchTooLarge(_) => ErrorCode::BatchTooLarge,
        StorageError::Full { .. } => ErrorCode::StorageFull,
        _ => ErrorCode::InvalidPayload,
    }
}

/// Store a single sector payload (write-once or mutable with optional CAS).
#[derive(Debug)]
pub struct SectorStoreRequest {
    pub program_id: ProgramId,
    pub sector_id: SectorId,
    pub payload: Vec<u8>,
    /// Allow overwriting an existing value. `false` = write-once.
    pub overwrite: bool,
    /// Optional SHA-256 hash of the current payload for compare-and-swap.
    /// Only checked when `overwrite` is true.
    pub expected_hash: Option<Vec<u8>>,
}

/// Response to a single sector store.
#[derive(Debug, Clone, Copy, PartialEq, Eq)]
pub struct SectorStoreResponse {
    pub ok: bool,
    pub error_code: Option<ErrorCode>,
}

/// Fetch a single sector by id.
#[derive(Debug)]
pub struct SectorFetchRequest {
    pub program_id: ProgramId,
    pub sector_id: SectorId,
}

/// Response to a single sector fetch.
#[derive(Debug)]
pub struct SectorFetchResponse {
    pub payload: Option<Vec<u8>>,
    pub error_code: Option<ErrorCode>,
}

/// One entry in a batch store request.
#[derive(Debug)]
pub struct SectorBatchStoreEntry {
    pub sector_id: SectorId,
    pub payload: Vec<u8>,
    pub overwrite: bool,
    pub expected_hash: Option<Vec<u8>>,
}

/// Batch store request (all entries share one program id).
#[derive(Debug)]
pub struct SectorBatchStoreRequest {
    pub program_id: ProgramId,
    pub entries: Vec<SectorBatchStoreEntry>,
}

/// Per-entry result in a batch store response.
#[derive(Debug, Clone, Copy, PartialEq, Eq)]
pub struct SectorStoreResult {
    pub ok: bool,
    pub error_code: Option<ErrorCode>,
}

/// Response to a batch store request (one result per entry).
#[derive(Debug)]
pub struct SectorBatchStoreResponse {
    pub results: Vec<SectorStoreResult>,
}

/// Batch fetch request (all entries share one program id).
#[derive(Debug)]
pub struct SectorBatchFetchRequest {
    pub program_id: ProgramId,
    pub sector_ids: Vec<SectorId>,
}

/// Response to a batch fetch (one optional payload per requested id).
#[derive(Debug)]
pub struct SectorBatchFetchResponse {
    pub payloads: Vec<Option<Vec<u8>>>,
    pub error_code: Option<ErrorCode>,
}

/// Lightweight sector announcement for gossip propagation.
#[derive(Debug)]
pub struct GossipSector {
    pub program_id: ProgramId,
    pub sector_id: SectorId,
    pub payload: Vec<u8>,
    pub overwrite: bool,
}

/// Client to node: a sector request.
#[derive(Debug)]
pub enum SectorRequest {
    Store(SectorStoreRequest),
    Fetch(SectorFetchRequest),
    BatchStore(SectorBatchStoreRequest),
    BatchFetch(SectorBatchFetchRequest),
}

/// Node to client: a sector response.
#[derive(Debug)]
pub enum SectorResponse {
    Store(SectorStoreResponse),
    Fetch(SectorFetchResponse),
    BatchStore(SectorBatchStoreResponse),
    BatchFetch(SectorBatchFetchResponse),
}

/// Per-entry result of a sector batch put operation.
#[derive(Debug)]
pub struct SectorPutResult {
    pub ok: bool,
    pub error: Option<StorageError>,
}

/// Statistics for the sector store.
#[derive(Debug, Clone, Copy, Default)]
pub struct SectorStorageStats {
    /// Number of sector entries stored.
    pub sector_count: u64,
    /// Approximate size of sector data in bytes.
    pub sector_size_bytes: u64,
}

/// Entry for batch sector put: `(sector_id, payload, overwrite, expected_hash)`.
pub type SectorBatchEntry = (SectorId, Vec<u8>, bool, Option<Vec<u8>>);

/// Key-value storage for encrypted sector payloads.
///
/// Each sector is identified by `(program_id, sector_id)`. Supports
/// write-once semantics, mutable overwrites, and compare-and-swap (see
/// [`decide_put`]).
pub trait SectorStore {
    /// Store a sector payload.
    fn put(
        &self,
        program_id: &ProgramId,
        sector_id: &SectorId,
        payload: &[u8],
        overwrite: bool,
        expected_hash: Option<&[u8]>,
    ) -> Result<(), StorageError>;

    /// Fetch a sector payload by program and sector id.
    fn get(&self, program_id: &ProgramId, sector_id: &SectorId) -> Result<Option<Vec<u8>>, StorageError>;

    /// Store multiple sectors in a batch. Returns one result per entry.
    fn batch_put(&self, program_id: &ProgramId, entries: &[SectorBatchEntry]) -> Result<Vec<SectorPutResult>, StorageError>;

    /// Fetch multiple sectors in a batch.
    fn batch_get(&self, program_id: &ProgramId, sector_ids: &[SectorId]) -> Result<Vec<Option<Vec<u8>>>, StorageError>;

    /// Sector storage statistics.
    fn sector_stats(&self) -> Result<SectorStorageStats, StorageError>;

    /// All distinct program ids that have at least one stored sector.
    fn list_programs(&self) -> Result<Vec<ProgramId>, StorageError>;

    /// All sector ids stored for a given program.
    fn list_sectors(&self, program_id: &ProgramId) -> Result<Vec<SectorId>, StorageError>;
}

/// Whether a storage batch entry carries exactly the sector id, payload,
/// overwrite flag and expected hash of a request entry.
pub open spec fn entry_matches(e: SectorBatchEntry, q: SectorBatchStoreEntry) -> bool {
    &&& e.0.0@ == q.sector_id.0@
    &&& e.1@ == q.payload@
    &&& e.2 == q.overwrite
    &&& (e.3 is Some <==> q.expected_hash is Some)
    &&& (e.3 matches Some(x) ==> x@ == q.expected_hash->0@)
}

/// Storage key of a sector: `program_id || sector_id`.
pub fn build_sector_key(program_id: &ProgramId, sector_id: &SectorId) -> (r: Vec<u8>)
    ensures
        r@ == program_id.0@ + sector_id.0@,
{
    let mut key: Vec<u8> = Vec::new();
    push_bytes(&mut key, program_id.as_bytes().as_slice());
    push_bytes(&mut key, sector_id.as_bytes());
    assert(key@ =~= program_id.0@ + sector_id.0@);
    key
}

/// The write policy of a sector slot holding `existing`: a write-once put
/// fails if the slot is occupied; an overwrite with an expected hash
/// succeeds only if the slot holds a value whose SHA-256 is that hash; an
/// overwrite without one always succeeds.
pub open spec fn spec_put_allowed(existing: Option<Seq<u8>>, overwrite: bool, expected_hash: Option<Seq<u8>>) -> Result<(), StorageError> {
    if !overwrite {
        if existing is Some { Err(StorageError::SlotOccupied) } else { Ok(()) }
    } else {
        match expected_hash {
            None => Ok(()),
            Some(h) => match existing {
                Some(cur) => if sha256_spec(cur) == h { Ok(()) } else { Err(StorageError::ConditionFailed) },
                None => Err(StorageError::ConditionFailed),
            },
        }
    }
}

/// The write rules of a slot: a write-once put never replaces a value and
/// always fills an empty slot; an overwrite without an expected hash always
/// goes through; an overwrite with one goes through exactly when the slot
/// holds a value whose SHA-256 is that hash.
pub proof fn law_put_rules(existing: Option<Seq<u8>>, overwrite: bool, expected_hash: Option<Seq<u8>>)
    ensures
        !overwrite && existing is Some ==> spec_put_allowed(existing, overwrite, expected_hash) == Err::<(), StorageError>(
            StorageError::SlotOccupied,
        ),
        !overwrite && existing is None ==> spec_put_allowed(existing, overwrite, expected_hash) is Ok,
        overwrite && expected_hash is None ==> spec_put_allowed(existing, overwrite, expected_hash) is Ok,
        overwrite && expected_hash is Some ==> (spec_put_allowed(existing, overwrite, expected_hash) is Ok <==> (
        existing is Some && sha256_spec(existing->0) == expected_hash->0)),
{
}

/// Decide whether a put may write the slot currently holding `existing`
/// (see [`spec_put_allowed`]). The caller writes the payload on `Ok`.
pub fn decide_put(existing: Option<&[u8]>, overwrite: bool, expected_hash: Option<&[u8]>) -> (r: Result<(), StorageError>)
    ensures
        r == spec_put_allowed(
            match existing { Some(e) => Some(e@), None => None },
            overwrite,
            match expected_hash { Some(h) => Some(h@), None => None },
        ),
{
    if !overwrite {
        return match existing {
            Some(_) => Err(StorageError::SlotOccupied),
            None => Ok(()),
        };
    }
    match expected_hash {
        None => Ok(()),
        Some(expected) => match existing {
            Some(current) => {
                let actual = sha256(current);
                if bytes_eq(actual.as_slice(), expected) {
                    Ok(())
                } else {
                    Err(StorageError::ConditionFailed)
                }
            },
            None => Err(StorageError::ConditionFailed),
        },
    }
}

/// Byte-wise equality of two byte strings.
pub fn bytes_eq(a: &[u8], b: &[u8]) -> (r: bool)
    ensures
        r == (a@ == b@),
{
    if a.len() != b.len() {
        return false;
    }
    let mut i: usize = 0;
    while i < a.len()
        invariant
            a@.len() == b@.len(),
            i <= a@.len(),
            forall|j: int| 0 <= j < i ==> a@[j] == b@[j],
        decreases a@.len() - i,
    {
        if a[i] != b[i] {
            return false;
        }
        i += 1;
    }
    assert(a@ =~= b@);
    true
}

/// Size limits for sector slots.
#[derive(Debug, Clone, Copy)]
pub struct SectorLimitsConfig {
    pub max_slot_size_bytes: u64,
}

/// Whether `p` occurs in `topics`.
pub open spec fn has_program(topics: Seq<ProgramId>, p: ProgramId) -> bool {
    exists|i: int| 0 <= i < topics.len() && topics[i] == p
}

/// Total payload bytes of a batch.
pub open spec fn batch_bytes(entries: Seq<SectorBatchStoreEntry>) -> int
    decreases entries.len(),
{
    if entries.len() == 0 {
        0
    } else {
        batch_bytes(entries.drop_last()) + entries.last().payload@.len()
    }
}

/// A store response for a single error code.
pub open spec fn refused(code: ErrorCode) -> SectorStoreResponse {
    SectorStoreResponse { ok: false, error_code: Some(code) }
}

/// The store response for the result of a put.
pub open spec fn spec_store_response(put: Result<(), StorageError>) -> SectorStoreResponse {
    match put {
        Ok(()) => SectorStoreResponse { ok: true, error_code: None },
        Err(e) => refused(spec_err_code(e)),
    }
}

/// The fetch response for the result of a get: the payload found (or
/// none), or the error's code.
pub open spec fn spec_fetch_response(get: Result<Option<Vec<u8>>, StorageError>) -> SectorFetchResponse {
    match get {
        Ok(payload) => SectorFetchResponse { payload, error_code: None },
        Err(e) => SectorFetchResponse { payload: None, error_code: Some(spec_err_code(e)) },
    }
}

/// Whether `r` is the batch fetch response for the result of a batch get:
/// the payloads found, or none and the error's code.
pub open spec fn is_batch_fetch_response(r: SectorBatchFetchResponse, get: Result<Vec<Option<Vec<u8>>>, StorageError>) -> bool {
    match get {
        Ok(payloads) => r.payloads@ == payloads@ && r.error_code is None,
        Err(e) => r.payloads@.len() == 0 && r.error_code == Some(spec_err_code(e)),
    }
}

/// Whether `r` is the batch store response for the outcome `put` of a
/// batch put of `n` entries: one result per put result, or `n` copies of
/// the error's code.
pub open spec fn is_batch_store_response(r: SectorBatchStoreResponse, n: nat, put: Result<Vec<SectorPutResult>, StorageError>) -> bool {
    match put {
        Ok(rs) => r.results@.len() == rs@.len() && forall|i: int| 0 <= i < rs@.len() ==> (#[trigger] r.results@[i]) == (SectorStoreResult {
            ok: rs@[i].ok,
            error_code: match rs@[i].error { Some(e) => Some(spec_err_code(e)), None => None },
        }),
        Err(e) => r.results@.len() == n && forall|i: int| 0 <= i < n ==> (#[trigger] r.results@[i]) == (SectorStoreResult { ok: false, error_code: Some(spec_err_code(e)) }),
    }
}

/// The store response for the result of a put.
pub fn store_response(put: Result<(), StorageError>) -> (r: SectorStoreResponse)
    ensures
        r == spec_store_response(put),
{
    match put {
        Ok(()) => SectorStoreResponse { ok: true, error_code: None },
        Err(e) => SectorStoreResponse { ok: false, error_code: Some(storage_err_to_code(&e)) },
    }
}

/// The batch store results for the outcome of a batch put of `n` entries:
/// one result per put result, or `n` copies of the error's code.
pub fn batch_store_response(n: usize, put: Result<Vec<SectorPutResult>, StorageError>) -> (r: SectorBatchStoreResponse)
    ensures
        is_batch_store_response(r, n as nat, put),
{
    match put {
        Ok(rs) => {
            let mut results: Vec<SectorStoreResult> = Vec::new();
            let mut i: usize = 0;
            while i < rs.len()
                invariant
                    i <= rs@.len(),
                    results@.len() == i,
                    forall|j: int| 0 <= j < i ==> (#[trigger] results@[j]) == (SectorStoreResult {
                        ok: rs@[j].ok,
                        error_code: match rs@[j].error { Some(e) => Some(spec_err_code(e)), None => None },
                    }),
                decreases rs@.len() - i,
            {
                let code = match &rs[i].error {
                    Some(e) => Some(storage_err_to_code(e)),
                    None => None,
                };
                results.push(SectorStoreResult { ok: rs[i].ok, error_code: code });
                i += 1;
            }
            SectorBatchStoreResponse { results }
        },
        Err(e) => SectorBatchStoreResponse { results: all_failed(n, storage_err_to_code(&e)) },
    }
}

/// `n` failed results with `code`.
fn all_failed(n: usize, code: ErrorCode) -> (r: Vec<SectorStoreResult>)
    ensures
        r@.len() == n,
        forall|i: int| 0 <= i < n ==> (#[trigger] r@[i]) == (SectorStoreResult { ok: false, error_code: Some(code) }),
{
    let mut results: Vec<SectorStoreResult> = Vec::new();
    let mut i: usize = 0;
    while i < n
        invariant
            i <= n,
            results@.len() == i,
            forall|j: int| 0 <= j < i ==> (#[trigger] results@[j]) == (SectorStoreResult { ok: false, error_code: Some(code) }),
        decreases n - i,
    {
        results.push(SectorStoreResult { ok: false, error_code: Some(code) });
        i += 1;
    }
    results
}

/// Handles incoming sector protocol requests, enforcing policy and limits
/// before delegating to a [`SectorStore`].
pub struct SectorRequestHandler<S: SectorStore> {
    storage: Arc<S>,
    topics: Vec<ProgramId>,
    limits: SectorLimitsConfig,
}

impl<S: SectorStore> SectorRequestHandler<S> {
    /// The programs this handler serves.
    pub closed spec fn spec_topics(&self) -> Seq<ProgramId> {
        self.topics@
    }

    /// The store requests are delegated to.
    pub closed spec fn spec_store(&self) -> S {
        *self.storage
    }

    /// The slot size limit.
    pub closed spec fn spec_max_slot(&self) -> u64 {
        self.limits.max_slot_size_bytes
    }

    pub fn new(storage: Arc<S>, topics: Vec<ProgramId>, limits: SectorLimitsConfig) -> (r: Self)
        ensures
            r.spec_topics() == topics@,
            r.spec_max_slot() == limits.max_slot_size_bytes,
            r.spec_store() == *storage,
    {
        SectorRequestHandler { storage, topics, limits }
    }

    /// Accept only programs this node serves.
    pub fn check_program(&self, program_id: &ProgramId) -> (r: Result<(), ErrorCode>)
        ensures
            r == if has_program(self.spec_topics(), *program_id) { Ok(()) } else { Err(ErrorCode::PolicyReject) },
    {
        let mut i: usize = 0;
        while i < self.topics.len()
            invariant
                i <= self.topics@.len(),
                forall|j: int| 0 <= j < i ==> self.topics@[j] != *program_id,
            decreases self.topics@.len() - i,
        {
            if bytes32_eq(&self.topics[i].0, &program_id.0) {
                assert(self.topics@[i as int] == *program_id);
                return Ok(());
            }
            i += 1;
        }
        Err(ErrorCode::PolicyReject)
    }

    /// Accept only payloads within the slot size limit.
    pub fn check_slot_size(&self, size: usize) -> (r: Result<(), ErrorCode>)
        ensures
            r == if size > self.spec_max_slot() { Err(ErrorCode::InvalidPayload) } else { Ok(()) },
    {
        if size as u64 > self.limits.max_slot_size_bytes {
            Err(ErrorCode::InvalidPayload)
        } else {
            Ok(())
        }
    }

    /// Accept only batches within the entry and byte limits.
    pub fn check_batch_limits(&self, entries: &[SectorBatchStoreEntry]) -> (r: Result<(), ErrorCode>)
        ensures
            r == if entries@.len() > MAX_BATCH_ENTRIES || batch_bytes(entries@) > MAX_BATCH_PAYLOAD_BYTES {
                Err(ErrorCode::BatchTooLarge)
            } else {
                Ok(())
            },
    {
        if entries.len() > MAX_BATCH_ENTRIES {
            return Err(ErrorCode::BatchTooLarge);
        }
        let mut total: usize = 0;
        let mut i: usize = 0;
        while i < entries.len()
            invariant
                i <= entries@.len(),
                entries@.len() <= MAX_BATCH_ENTRIES,
                total == batch_bytes(entries@.subrange(0, i as int)),
                total <= MAX_BATCH_PAYLOAD_BYTES,
            decreases entries@.len() - i,
        {
            proof {
                assert(entries@.subrange(0, i + 1).drop_last() =~= entries@.subrange(0, i as int));
            }
            let len = entries[i].payload.len();
            if len > MAX_BATCH_PAYLOAD_BYTES - total {
                proof { lemma_batch_bytes_prefix(entries@, i + 1); }
                return Err(ErrorCode::BatchTooLarge);
            }
            total = total + len;
            i += 1;
        }
        assert(entries@.subrange(0, entries@.len() as int) =~= entries@);
        Ok(())
    }

    /// Handle a single store: program and size checks, then the put.
    pub fn handle_store(&self, req: &SectorStoreRequest) -> (r: SectorStoreResponse)
        ensures
            !has_program(self.spec_topics(), req.program_id) ==> r == refused(ErrorCode::PolicyReject),
            has_program(self.spec_topics(), req.program_id) && req.payload@.len() > self.spec_max_slot()
                ==> r == refused(ErrorCode::InvalidPayload),
            has_program(self.spec_topics(), req.program_id) && req.payload@.len() <= self.spec_max_slot()
                ==> exists|put: Result<(), StorageError>| r == #[trigger] spec_store_response(put),
            has_program(self.spec_topics(), req.program_id) && req.payload@.len() <= self.spec_max_slot()
                ==> exists|payload: &[u8], expected: Option<&[u8]>, put: Result<(), StorageError>|
                #![trigger call_ensures(S::put, (&self.spec_store(), &req.program_id, &req.sector_id, payload, req.overwrite, expected), put)]
            {
                &&& payload@ == req.payload@
                &&& (expected is Some <==> req.expected_hash is Some)
                &&& (expected matches Some(e) ==> e@ == req.expected_hash->0@)
                &&& call_ensures(
                    S::put,
                    (&self.spec_store(), &req.program_id, &req.sector_id, payload, req.overwrite, expected),
                    put,
                )
                &&& r == spec_store_response(put)
            },
            r == refused(ErrorCode::PolicyReject) <==> !has_program(self.spec_topics(), req.program_id),
            r.ok == (r.error_code is None),
    {
        match self.check_program(&req.program_id) {
            Err(code) => { return SectorStoreResponse { ok: false, error_code: Some(code) }; },
            Ok(()) => {},
        }
        match self.check_slot_size(req.payload.len()) {
            Err(code) => { return SectorStoreResponse { ok: false, error_code: Some(code) }; },
            Ok(()) => {},
        }
        let expected = match &req.expected_hash {
            Some(h) => Some(h.as_slice()),
            None => None,
        };
        let store: &S = &*self.storage;
        let payload = req.payload.as_slice();
        let put_fn = S::put;
        let put = put_fn(store, &req.program_id, &req.sector_id, payload, req.overwrite, expected);
        assert(*store == self.spec_store());
        let r = store_response(put);
        assert(r == spec_store_response(put));
        r
    }

    /// Handle a single fetch: program check, then the get.
    pub fn handle_fetch(&self, req: &SectorFetchRequest) -> (r: SectorFetchResponse)
        ensures
            !has_program(self.spec_topics(), req.program_id) ==> r.payload is None && r.error_code == Some(ErrorCode::PolicyReject),
            has_program(self.spec_topics(), req.program_id) ==> exists|get: Result<Option<Vec<u8>>, StorageError>|
                r == #[trigger] spec_fetch_response(get),
            has_program(self.spec_topics(), req.program_id) ==> exists|get: Result<Option<Vec<u8>>, StorageError>|
                #[trigger] call_ensures(S::get, (&self.spec_store(), &req.program_id, &req.sector_id), get)
                    && r == spec_fetch_response(get),
            r.error_code == Some(ErrorCode::PolicyReject) <==> !has_program(self.spec_topics(), req.program_id),
            r.error_code is Some ==> r.payload is None,
    {
        match self.check_program(&req.program_id) {
            Err(code) => { return SectorFetchResponse { payload: None, error_code: Some(code) }; },
            Ok(()) => {},
        }
        let store: &S = &*self.storage;
        let get_fn = S::get;
        let get = get_fn(store, &req.program_id, &req.sector_id);
        assert(*store == self.spec_store());
        let ghost g = get;
        let r = match get {
            Ok(payload) => SectorFetchResponse { payload, error_code: None },
            Err(e) => SectorFetchResponse { payload: None, error_code: Some(storage_err_to_code(&e)) },
        };
        assert(r == spec_fetch_response(g));
        r
    }

    /// Handle a batch store: program and batch limits, then the batch put.
    /// A refused batch gets one failed result per entry.
    pub fn handle_batch_store(&self, req: &SectorBatchStoreRequest) -> (r: SectorBatchStoreResponse)
        ensures
            !has_program(self.spec_topics(), req.program_id) ==> r.results@.len() == req.entries@.len()
                && forall|i: int| 0 <= i < r.results@.len() ==> #[trigger] r.results@[i] == (SectorStoreResult { ok: false, error_code: Some(ErrorCode::PolicyReject) }),
            has_program(self.spec_topics(), req.program_id) && (req.entries@.len() > MAX_BATCH_ENTRIES || batch_bytes(req.entries@) > MAX_BATCH_PAYLOAD_BYTES)
                ==> r.results@.len() == req.entries@.len()
                && forall|i: int| 0 <= i < r.results@.len() ==> #[trigger] r.results@[i] == (SectorStoreResult { ok: false, error_code: Some(ErrorCode::BatchTooLarge) }),
            has_program(self.spec_topics(), req.program_id) && req.entries@.len() <= MAX_BATCH_ENTRIES
                && batch_bytes(req.entries@) <= MAX_BATCH_PAYLOAD_BYTES ==> exists|put: Result<Vec<SectorPutResult>, StorageError>|
                #[trigger] is_batch_store_response(r, req.entries@.len(), put),
            has_program(self.spec_topics(), req.program_id) && req.entries@.len() <= MAX_BATCH_ENTRIES
                && batch_bytes(req.entries@) <= MAX_BATCH_PAYLOAD_BYTES ==> exists|
                ents: &[SectorBatchEntry],
                put: Result<Vec<SectorPutResult>, StorageError>,
            | #![trigger call_ensures(S::batch_put, (&self.spec_store(), &req.program_id, ents), put)]
            {
                &&& ents@.len() == req.entries@.len()
                &&& forall|i: int| 0 <= i < ents@.len() ==> entry_matches(#[trigger] ents@[i], req.entries@[i])
                &&& call_ensures(S::batch_put, (&self.spec_store(), &req.program_id, ents), put)
                &&& is_batch_store_response(r, req.entries@.len(), put)
            },
    {
        match self.check_program(&req.program_id) {
            Err(code) => { return SectorBatchStoreResponse { results: all_failed(req.entries.len(), code) }; },
            Ok(()) => {},
        }
        match self.check_batch_limits(req.entries.as_slice()) {
            Err(code) => { return SectorBatchStoreResponse { results: all_failed(req.entries.len(), code) }; },
            Ok(()) => {},
        }
        let mut entries: Vec<SectorBatchEntry> = Vec::new();
        let mut i: usize = 0;
        while i < req.entries.len()
            invariant
                i <= req.entries@.len(),
                entries@.len() == i,
                forall|k: int| 0 <= k < i ==> entry_matches(#[trigger] entries@[k], req.entries@[k]),
            decreases req.entries@.len() - i,
        {
            let e = &req.entries[i];
            let expected = match &e.expected_hash {
                Some(h) => Some(crate::types::copy_bytes(h)),
                None => None,
            };
            entries.push((e.sector_id.clone(), crate::types::copy_bytes(&e.payload), e.overwrite, expected));
            i += 1;
        }
        let store: &S = &*self.storage;
        let ents = entries.as_slice();
        let put_fn = S::batch_put;
        let put = put_fn(store, &req.program_id, ents);
        assert(*store == self.spec_store());
        let ghost p = put;
        let r = batch_store_response(req.entries.len(), put);
        assert(is_batch_store_response(r, req.entries@.len(), p));
        r
    }

    /// Handle a batch fetch: program check and entry limit, then the batch
    /// get.
    pub fn handle_batch_fetch(&self, req: &SectorBatchFetchRequest) -> (r: SectorBatchFetchResponse)
        ensures
            !has_program(self.spec_topics(), req.program_id) ==> r.payloads@.len() == 0 && r.error_code == Some(ErrorCode::PolicyReject),
            has_program(self.spec_topics(), req.program_id) && req.sector_ids@.len() > MAX_BATCH_ENTRIES
                ==> r.payloads@.len() == 0 && r.error_code == Some(ErrorCode::BatchTooLarge),
            has_program(self.spec_topics(), req.program_id) && req.sector_ids@.len() <= MAX_BATCH_ENTRIES
                ==> exists|get: Result<Vec<Option<Vec<u8>>>, StorageError>| #[trigger] is_batch_fetch_response(r, get),
            has_program(self.spec_topics(), req.program_id) && req.sector_ids@.len() <= MAX_BATCH_ENTRIES
                ==> exists|ids: &[SectorId], get: Result<Vec<Option<Vec<u8>>>, StorageError>|
                #![trigger call_ensures(S::batch_get, (&self.spec_store(), &req.program_id, ids), get)]
            {
                &&& ids@ == req.sector_ids@
                &&& call_ensures(S::batch_get, (&self.spec_store(), &req.program_id, ids), get)
                &&& is_batch_fetch_response(r, get)
            },
            r.error_code == Some(ErrorCode::PolicyReject) <==> !has_program(self.spec_topics(), req.program_id),
            r.error_code is Some ==> r.payloads@.len() == 0,
    {
        match self.check_program(&req.program_id) {
            Err(code) => { return SectorBatchFetchResponse { payloads: Vec::new(), error_code: Some(code) }; },
            Ok(()) => {},
        }
        if req.sector_ids.len() > MAX_BATCH_ENTRIES {
            return SectorBatchFetchResponse { payloads: Vec::new(), error_code: Some(ErrorCode::BatchTooLarge) };
        }
        let store: &S = &*self.storage;
        let ids = req.sector_ids.as_slice();
        let get_fn = S::batch_get;
        let get = get_fn(store, &req.program_id, ids);
        assert(*store == self.spec_store());
        let ghost g = get;
        let r = match get {
            Ok(payloads) => SectorBatchFetchResponse { payloads, error_code: None },
            Err(e) => SectorBatchFetchResponse { payloads: Vec::new(), error_code: Some(storage_err_to_code(&e)) },
        };
        assert(is_batch_fetch_response(r, g));
        r
    }

    /// Dispatch a sector request to the matching handler.
    pub fn handle_sector_request(&self, req: &SectorRequest) -> (r: SectorResponse)
        ensures
            (req is Store) == (r is Store),
            (req is Fetch) == (r is Fetch),
            (req is BatchStore) == (r is BatchStore),
            (req is BatchFetch) == (r is BatchFetch),
    {
        match req {
            SectorRequest::Store(r) => SectorResponse::Store(self.handle_store(r)),
            SectorRequest::Fetch(r) => SectorResponse::Fetch(self.handle_fetch(r)),
            SectorRequest::BatchStore(r) => SectorResponse::BatchStore(self.handle_batch_store(r)),
            SectorRequest::BatchFetch(r) => SectorResponse::BatchFetch(self.handle_batch_fetch(r)),
        }
    }

    /// Handle a gossip sector announcement. Returns `true` if stored (or
    /// already present in a write-once slot).
    pub fn handle_gossip_sector(&self, msg: &GossipSector) -> (r: bool)
        ensures
            !has_program(self.spec_topics(), msg.program_id) ==> !r,
            msg.payload@.len() > self.spec_max_slot() ==> !r,
            has_program(self.spec_topics(), msg.program_id) && msg.payload@.len() <= self.spec_max_slot()
                ==> exists|put: Result<(), StorageError>| r == #[trigger] spec_gossip_stored(put, msg.overwrite),
            has_program(self.spec_topics(), msg.program_id) && msg.payload@.len() <= self.spec_max_slot()
                ==> exists|payload: &[u8], put: Result<(), StorageError>|
                #![trigger call_ensures(S::put, (&self.spec_store(), &msg.program_id, &msg.sector_id, payload, msg.overwrite, None::<&[u8]>), put)]
            {
                &&& payload@ == msg.payload@
                &&& call_ensures(
                    S::put,
                    (&self.spec_store(), &msg.program_id, &msg.sector_id, payload, msg.overwrite, None::<&[u8]>),
                    put,
                )
                &&& r == spec_gossip_stored(put, msg.overwrite)
            },
    {
        if self.check_program(&msg.program_id).is_err() {
            return false;
        }
        if self.check_slot_size(msg.payload.len()).is_err() {
            return false;
        }
        let overwrite = msg.overwrite;
        let store: &S = &*self.storage;
        let payload = msg.payload.as_slice();
        let put_fn = S::put;
        let put = put_fn(store, &msg.program_id, &msg.sector_id, payload, overwrite, None);
        let ghost p = put;
        assert(*store == self.spec_store());
        let r = gossip_stored(put, overwrite);
        assert(r == spec_gossip_stored(p, overwrite));
        r
    }
}

/// A gossip sector is reported stored only when the store was handed
/// exactly its program id, sector id, payload and overwrite flag (and no
/// expected hash), and that put succeeded or found a write-once slot
/// already taken.
pub proof fn law_gossip_stored_only_after_put<S: SectorStore>(
    h: &SectorRequestHandler<S>,
    msg: &GossipSector,
    r: bool,
)
    requires
        call_ensures(SectorRequestHandler::<S>::handle_gossip_sector, (h, msg), r),
        r,
    ensures
        exists|payload: &[u8], put: Result<(), StorageError>|
            #![trigger call_ensures(S::put, (&h.spec_store(), &msg.program_id, &msg.sector_id, payload, msg.overwrite, None::<&[u8]>), put)]
        {
            &&& payload@ == msg.payload@
            &&& call_ensures(
                S::put,
                (&h.spec_store(), &msg.program_id, &msg.sector_id, payload, msg.overwrite, None::<&[u8]>),
                put,
            )
            &&& (put is Ok || (put matches Err(StorageError::SlotOccupied) && !msg.overwrite))
        },
{
}

/// Whether a gossip put counts as stored: it succeeded, or a write-once
/// slot already held a value.
pub open spec fn spec_gossip_stored(put: Result<(), StorageError>, overwrite: bool) -> bool {
    match put {
        Ok(()) => true,
        Err(StorageError::SlotOccupied) => !overwrite,
        Err(_) => false,
    }
}

/// Whether a gossip put counts as stored (see [`spec_gossip_stored`]).
pub fn gossip_stored(put: Result<(), StorageError>, overwrite: bool) -> (r: bool)
    ensures
        r == spec_gossip_stored(put, overwrite),
{
    match put {
        Ok(()) => true,
        Err(StorageError::SlotOccupied) => !overwrite,
        Err(_) => false,
    }
}

/// Byte counts only grow along a batch.
proof fn lemma_batch_bytes_prefix(s: Seq<SectorBatchStoreEntry>, k: int)
    requires
        0 <= k <= s.len(),
    ensures
        batch_bytes(s.subrange(0, k)) <= batch_bytes(s),
    decreases s.len() - k,
{
    if k < s.len() {
        lemma_batch_bytes_prefix(s, k + 1);
        assert(s.subrange(0, k + 1).drop_last() =~= s.subrange(0, k));
    } else {
        assert(s.subrange(0, k) =~= s);
    }
}

} // verus!
