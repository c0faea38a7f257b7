use sha2::{Digest, Sha256};
use std::cell::RefCell;
use std::collections::BTreeMap;
use std::sync::Arc;
use zephyr_grid::sector::{
    build_sector_key, decide_put, program_topic, ErrorCode, GossipSector, ProgramId,
    SectorBatchEntry, SectorBatchFetchRequest, SectorBatchStoreEntry, SectorBatchStoreRequest,
    SectorFetchRequest, SectorId, SectorLimitsConfig, SectorPutResult, SectorRequest,
    SectorRequestHandler, SectorResponse, SectorStorageStats, SectorStore, SectorStoreRequest,
    StorageError,
};

#[derive(Default)]
struct MemStore {
    data: RefCell<BTreeMap<Vec<u8>, Vec<u8>>>,
}

impl SectorStore for MemStore {
    fn put(
        &self,
        program_id: &ProgramId,
        sector_id: &SectorId,
        payload: &[u8],
        overwrite: bool,
        expected_hash: Option<&[u8]>,
    ) -> Result<(), StorageError> {
        let key = build_sector_key(program_id, sector_id);
        let existing = self.data.borrow().get(&key).cloned();
        decide_put(existing.as_deref(), overwrite, expected_hash)?;
        self.data.borrow_mut().insert(key, payload.to_vec());
        Ok(())
    }

    fn get(&self, program_id: &ProgramId, sector_id: &SectorId) -> Result<Option<Vec<u8>>, StorageError> {
        Ok(self.data.borrow().get(&build_sector_key(program_id, sector_id)).cloned())
    }

    fn batch_put(&self, program_id: &ProgramId, entries: &[SectorBatchEntry]) -> Result<Vec<SectorPutResult>, StorageError> {
        Ok(entries
            .iter()
            .map(|(sid, payload, overwrite, hash)| match self.put(program_id, sid, payload, *overwrite, hash.as_deref()) {
                Ok(()) => SectorPutResult { ok: true, error: None },
                Err(e) => SectorPutResult { ok: false, error: Some(e) },
            })
            .collect())
    }

    fn batch_get(&self, program_id: &ProgramId, sector_ids: &[SectorId]) -> Result<Vec<Option<Vec<u8>>>, StorageError> {
        sector_ids.iter().map(|s| self.get(program_id, s)).collect()
    }

    fn sector_stats(&self) -> Result<SectorStorageStats, StorageError> {
        let d = self.data.borrow();
        Ok(SectorStorageStats {
            sector_count: d.len() as u64,
            sector_size_bytes: d.values().map(|v| v.len() as u64).sum(),
        })
    }

    fn list_programs(&self) -> Result<Vec<ProgramId>, StorageError> {
        Ok(vec![])
    }

    fn list_sectors(&self, _program_id: &ProgramId) -> Result<Vec<SectorId>, StorageError> {
        Ok(vec![])
    }
}

fn handler(pids: Vec<ProgramId>, max_slot: u64) -> SectorRequestHandler<MemStore> {
    SectorRequestHandler::new(Arc::new(MemStore::default()), pids, SectorLimitsConfig { max_slot_size_bytes: max_slot })
}

fn store(pid: ProgramId, sid: &[u8], payload: &[u8], overwrite: bool, expected_hash: Option<Vec<u8>>) -> SectorStoreRequest {
    SectorStoreRequest {
        program_id: pid,
        sector_id: SectorId::from_bytes(sid.to_vec()),
        payload: payload.to_vec(),
        overwrite,
        expected_hash,
    }
}

#[test]
fn write_once_slot_refuses_second_write() {
    let pid = ProgramId([0x22; 32]);
    let h = handler(vec![pid], 1024);
    assert!(h.handle_store(&store(pid, b"once", b"v1", false, None)).ok);
    let r = h.handle_store(&store(pid, b"once", b"v2", false, None));
    assert!(!r.ok);
    assert_eq!(r.error_code, Some(ErrorCode::SlotOccupied));
}

#[test]
fn overwrite_and_compare_and_swap() {
    let pid = ProgramId([0x33; 32]);
    let h = handler(vec![pid], 1024);
    assert!(h.handle_store(&store(pid, b"m", b"v1", false, None)).ok);
    assert!(h.handle_store(&store(pid, b"m", b"v2", true, None)).ok);
    let wrong = h.handle_store(&store(pid, b"m", b"v3", true, Some(vec![0; 32])));
    assert_eq!(wrong.error_code, Some(ErrorCode::ConditionFailed));
    let good_hash = Sha256::digest(b"v2").to_vec();
    assert!(h.handle_store(&store(pid, b"m", b"v3", true, Some(good_hash))).ok);
    let f = h.handle_fetch(&SectorFetchRequest { program_id: pid, sector_id: SectorId::from_bytes(b"m".to_vec()) });
    assert_eq!(f.payload, Some(b"v3".to_vec()));
    assert_eq!(f.error_code, None);
}

#[test]
fn unknown_program_is_policy_rejected() {
    let h = handler(vec![ProgramId([1; 32])], 1024);
    let r = h.handle_store(&store(ProgramId([2; 32]), b"s", b"x", false, None));
    assert_eq!(r.error_code, Some(ErrorCode::PolicyReject));
    assert!(!h.handle_gossip_sector(&GossipSector {
        program_id: ProgramId([2; 32]),
        sector_id: SectorId::from_bytes(b"s".to_vec()),
        payload: b"x".to_vec(),
        overwrite: false,
    }));
}

#[test]
fn oversized_slot_is_rejected() {
    let pid = ProgramId([4; 32]);
    let h = handler(vec![pid], 4);
    let r = h.handle_store(&store(pid, b"s", b"12345", false, None));
    assert!(!r.ok);
    assert_eq!(r.error_code, Some(ErrorCode::InvalidPayload));
}

#[test]
fn batch_store_and_fetch() {
    let pid = ProgramId([0x55; 32]);
    let h = handler(vec![pid], 1024);
    let req = SectorBatchStoreRequest {
        program_id: pid,
        entries: vec![
            SectorBatchStoreEntry { sector_id: SectorId::from_bytes(b"b1".to_vec()), payload: b"data1".to_vec(), overwrite: false, expected_hash: None },
            SectorBatchStoreEntry { sector_id: SectorId::from_bytes(b"b2".to_vec()), payload: b"data2".to_vec(), overwrite: false, expected_hash: None },
        ],
    };
    let resp = h.handle_batch_store(&req);
    assert_eq!(resp.results.len(), 2);
    assert!(resp.results.iter().all(|r| r.ok));
    let fetched = h.handle_sector_request(&SectorRequest::BatchFetch(SectorBatchFetchRequest {
        program_id: pid,
        sector_ids: vec![SectorId::from_bytes(b"b1".to_vec()), SectorId::from_bytes(b"zz".to_vec())],
    }));
    match fetched {
        SectorResponse::BatchFetch(r) => {
            assert_eq!(r.payloads, vec![Some(b"data1".to_vec()), None]);
        }
        _ => panic!("expected batch fetch response"),
    }
}

#[test]
fn batch_with_too_many_entries_is_refused() {
    let pid = ProgramId([6; 32]);
    let h = handler(vec![pid], 1024);
    let entries = (0..65u32)
        .map(|i| SectorBatchStoreEntry {
            sector_id: SectorId::from_bytes(i.to_be_bytes().to_vec()),
            payload: vec![1],
            overwrite: false,
            expected_hash: None,
        })
        .collect();
    let resp = h.handle_batch_store(&SectorBatchStoreRequest { program_id: pid, entries });
    assert_eq!(resp.results.len(), 65);
    assert!(resp.results.iter().all(|r| !r.ok && r.error_code == Some(ErrorCode::BatchTooLarge)));
}

#[test]
fn decide_put_policy() {
    assert_eq!(decide_put(None, false, None), Ok(()));
    assert_eq!(decide_put(Some(b"x"), false, None), Err(StorageError::SlotOccupied));
    assert_eq!(decide_put(Some(b"x"), true, None), Ok(()));
    assert_eq!(decide_put(None, true, Some(&[0u8; 32])), Err(StorageError::ConditionFailed));
}

#[test]
fn sector_key_and_topic() {
    let pid = ProgramId([0xAB; 32]);
    let key = build_sector_key(&pid, &SectorId::from_bytes(vec![1, 2]));
    assert_eq!(key.len(), 34);
    assert_eq!(&key[32..], &[1, 2]);
    let topic = program_topic(&pid);
    assert_eq!(topic, format!("prog/{}", "ab".repeat(32)));
}

#[test]
fn program_id_from_descriptor_bytes_hashes() {
    let pid = ProgramId::from_descriptor_bytes(b"abc");
    assert_eq!(pid.0.to_vec(), Sha256::digest(b"abc").to_vec());
}
