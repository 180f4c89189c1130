//! Checks of secondary locks against a storage in memory.
use std::collections::BTreeMap;

use secondary_locks::check_secondary_locks::{CheckSecondaryLocks, SecondaryLocksCheck, Step};
use secondary_locks::protocol::{Call, Reply};
use secondary_locks::secondary_lock::{
    check_determined_txn_status, check_status_from_lock, SecondaryLockStatus,
};
use secondary_locks::types::{
    LoadedLock, Lock, StorageTypes, TimeStamp, TxnCommitRecord, WriteType,
};
use secondary_locks::write_result::{ResponsePolicy, SecondaryLocksStatus, WriteResult};

#[derive(Debug, Clone, PartialEq)]
struct LockBody {
    primary: Vec<u8>,
    min_commit_ts: u64,
    use_async_commit: bool,
    rollback_ts: Vec<u64>,
}

#[derive(Debug, Clone, PartialEq)]
struct Write {
    write_type: WriteType,
    start_ts: u64,
    protected: bool,
    has_overlapped_rollback: bool,
    gc_fence: Option<u64>,
}

#[derive(Debug, Clone, PartialEq)]
struct OverlappedWrite {
    write: Write,
    gc_fence: u64,
}

#[derive(Debug, Clone, PartialEq)]
struct ReleasedLock {
    start_ts: u64,
    commit_ts: u64,
    key: Vec<u8>,
    pessimistic: bool,
}

#[derive(Debug, Clone, PartialEq)]
struct LockInfo {
    key: Vec<u8>,
    primary_lock: Vec<u8>,
    lock_version: u64,
}

impl LockInfo {
    fn compute_size(&self) -> u32 {
        (self.key.len() + self.primary_lock.len() + 8) as u32
    }
}

#[derive(Debug, Clone, PartialEq)]
enum Modify {
    DeleteLock(Vec<u8>),
    PutLock(Vec<u8>, StoredLock),
    PutWrite(Vec<u8>, u64, Write),
    DeleteWrite(Vec<u8>, u64),
}

#[derive(Debug, Clone, PartialEq)]
struct StoredLock {
    ts: u64,
    pessimistic: bool,
    with_conflict: bool,
    body: LockBody,
}

struct Mem;

impl StorageTypes for Mem {
    type Context = u64;
    type Key = Vec<u8>;
    type LockBody = LockBody;
    type OverlappedWrite = OverlappedWrite;
    type Write = Write;
    type ReleasedLock = ReleasedLock;
    type LockInfo = LockInfo;
    type ConflictingLock = ();
    type LockGuard = ();
    type NewLocks = Vec<u64>;
    type Modifies = Vec<Modify>;
    type Error = String;
}

#[derive(Default, Clone)]
struct Store {
    max_ts: u64,
    /// The timestamp that the transaction and the reader are open at.
    open_at: Option<u64>,
    locks: BTreeMap<Vec<u8>, StoredLock>,
    shared: Vec<Vec<u8>>,
    writes: BTreeMap<Vec<u8>, BTreeMap<u64, Write>>,
    /// The names of the calls, in order.
    calls: Vec<String>,
    /// The name of the call that fails.
    failing: Option<&'static str>,
    network_out_bytes: Option<u64>,
}

impl Store {
    fn body() -> LockBody {
        LockBody {
            primary: b"key".to_vec(),
            min_commit_ts: 0,
            use_async_commit: false,
            rollback_ts: vec![],
        }
    }

    fn records(&self, key: &[u8]) -> BTreeMap<u64, Write> {
        self.writes.get(key).cloned().unwrap_or_default()
    }

    fn put_write(&mut self, key: &[u8], ts: u64, write: Write) {
        self.writes.entry(key.to_vec()).or_default().insert(ts, write);
    }

    fn must_prewrite_lock(&mut self, key: &[u8], primary: &[u8], ts: u64) {
        assert!(!self.locks.contains_key(key));
        let body = LockBody { primary: primary.to_vec(), ..Store::body() };
        let lock = StoredLock { ts, pessimistic: false, with_conflict: false, body };
        self.locks.insert(key.to_vec(), lock);
    }

    fn must_commit(&mut self, key: &[u8], start_ts: u64, commit_ts: u64) {
        let lock = self.locks.remove(key).unwrap();
        assert_eq!(lock.ts, start_ts);
        self.put_write(key, commit_ts, Store::write(WriteType::Lock, start_ts));
    }

    fn write(write_type: WriteType, start_ts: u64) -> Write {
        Write {
            write_type,
            start_ts,
            protected: false,
            has_overlapped_rollback: false,
            gc_fence: None,
        }
    }

    fn must_rollback(&mut self, key: &[u8], ts: u64, protected: bool) {
        let write = Write { protected, ..Store::write(WriteType::Rollback, ts) };
        self.put_write(key, ts, write);
    }

    fn must_acquire_pessimistic_lock(&mut self, key: &[u8], primary: &[u8], ts: u64, for_update_ts: u64) {
        assert!(!self.locks.contains_key(key));
        assert!(self.records(key).keys().all(|commit_ts| *commit_ts <= for_update_ts));
        let body = LockBody { primary: primary.to_vec(), ..Store::body() };
        let lock = StoredLock { ts, pessimistic: true, with_conflict: false, body };
        self.locks.insert(key.to_vec(), lock);
    }

    /// Returns the commit timestamp that the lock conflicts with.
    fn must_acquire_pessimistic_lock_allow_lock_with_conflict(
        &mut self,
        key: &[u8],
        primary: &[u8],
        ts: u64,
        for_update_ts: u64,
    ) -> u64 {
        assert!(!self.locks.contains_key(key));
        let newest = *self.records(key).keys().next_back().unwrap();
        assert!(newest > for_update_ts);
        let body = LockBody { primary: primary.to_vec(), ..Store::body() };
        let lock = StoredLock { ts, pessimistic: true, with_conflict: true, body };
        self.locks.insert(key.to_vec(), lock);
        newest
    }

    fn must_get_commit_ts(&self, key: &[u8], start_ts: u64, commit_ts: u64) {
        let write = &self.records(key)[&commit_ts];
        assert_eq!(write.start_ts, start_ts);
        assert_ne!(write.write_type, WriteType::Rollback);
    }

    fn must_get_rollback_ts(&self, key: &[u8], start_ts: u64) {
        let write = &self.records(key)[&start_ts];
        assert_eq!(write.start_ts, start_ts);
        assert_eq!(write.write_type, WriteType::Rollback);
    }

    fn must_get_rollback_protected(&self, key: &[u8], start_ts: u64, protected: bool) {
        self.must_get_rollback_ts(key, start_ts);
        assert_eq!(self.records(key)[&start_ts].protected, protected);
    }

    fn must_get_overlapped_rollback(
        &self,
        key: &[u8],
        start_ts: u64,
        overlapped_start_ts: u64,
        overlapped_write_type: WriteType,
        gc_fence: Option<u64>,
    ) {
        let write = &self.records(key)[&start_ts];
        assert!(write.has_overlapped_rollback);
        assert_eq!(write.start_ts, overlapped_start_ts);
        assert_eq!(write.write_type, overlapped_write_type);
        assert_eq!(write.gc_fence, gc_fence);
    }

    fn must_locked(&self, key: &[u8], ts: u64) {
        assert_eq!(self.locks[key].ts, ts);
    }

    fn must_unlocked(&self, key: &[u8]) {
        assert!(!self.locks.contains_key(key));
    }

    fn load_lock(&self, key: &[u8]) -> Option<LoadedLock<Mem>> {
        if self.shared.iter().any(|shared| shared == key) {
            return Some(LoadedLock::Shared);
        }
        self.locks.get(key).map(|lock| {
            LoadedLock::Exclusive(Lock {
                ts: TimeStamp::new(lock.ts),
                pessimistic: lock.pessimistic,
                pessimistic_with_conflict: lock.with_conflict,
                body: lock.body.clone(),
            })
        })
    }

    fn get_txn_commit_record(&self, key: &[u8], start_ts: u64) -> TxnCommitRecord<Mem> {
        let records = self.records(key);
        let mut newer = 0;
        for (commit_ts, write) in records.iter().rev() {
            if *commit_ts < start_ts {
                break;
            }
            if write.start_ts == start_ts {
                return TxnCommitRecord::SingleRecord {
                    commit_ts: TimeStamp::new(*commit_ts),
                    write_type: write.write_type,
                };
            }
            if *commit_ts == start_ts {
                if write.has_overlapped_rollback {
                    return TxnCommitRecord::OverlappedRollback;
                }
                let overlapped = OverlappedWrite { write: write.clone(), gc_fence: newer };
                return TxnCommitRecord::NotFound { overlapped_write: Some(overlapped) };
            }
            if write.write_type == WriteType::Put || write.write_type == WriteType::Delete {
                newer = *commit_ts;
            }
        }
        TxnCommitRecord::NotFound { overlapped_write: None }
    }

    fn fails(&mut self, call: &'static str) -> bool {
        self.calls.push(call.to_string());
        self.failing == Some(call)
    }

    /// The start timestamp of the open transaction.
    fn start_ts(&self) -> u64 {
        self.open_at.unwrap()
    }

    /// Makes the call and gathers what the transaction modifies.
    fn reply(
        &mut self,
        check: &SecondaryLocksCheck<Mem>,
        call: Call<Mem>,
        modifies: &mut Vec<Modify>,
    ) -> Reply<Mem> {
        match call {
            Call::UpdateMaxTs { start_ts: ts } => {
                if self.fails("update_max_ts") {
                    return Reply::Failed("update_max_ts".to_string());
                }
                self.max_ts = self.max_ts.max(ts.0);
                Reply::Done
            }
            Call::OpenTxn { start_ts: ts } => {
                self.fails("open_txn");
                assert!(ts.0 <= self.max_ts);
                assert_eq!(self.open_at, None);
                self.open_at = Some(ts.0);
                Reply::Done
            }
            Call::LoadLock => {
                if self.fails("load_lock") {
                    return Reply::Failed("load_lock".to_string());
                }
                Reply::LockLoaded(self.load_lock(check.key()))
            }
            Call::GetTxnCommitRecord => {
                if self.fails("get_txn_commit_record") {
                    return Reply::Failed("get_txn_commit_record".to_string());
                }
                Reply::Record(self.get_txn_commit_record(check.key(), self.start_ts()))
            }
            Call::UnlockKey { pessimistic, commit_ts } => {
                self.fails("unlock_key");
                modifies.push(Modify::DeleteLock(check.key().clone()));
                Reply::Released(Some(ReleasedLock {
                    start_ts: self.start_ts(),
                    commit_ts: commit_ts.0,
                    key: check.key().clone(),
                    pessimistic,
                }))
            }
            Call::MarkRollbackOnMismatchingLock { lock, is_protected } => {
                self.fails("mark_rollback_on_mismatching_lock");
                let start_ts = self.start_ts();
                assert_ne!(lock.ts.0, start_ts);
                if is_protected && start_ts >= lock.body.min_commit_ts && lock.body.use_async_commit {
                    let mut body = lock.body;
                    body.rollback_ts.push(start_ts);
                    let stored = StoredLock {
                        ts: lock.ts.0,
                        pessimistic: lock.pessimistic,
                        with_conflict: lock.pessimistic_with_conflict,
                        body,
                    };
                    modifies.push(Modify::PutLock(check.key().clone(), stored));
                }
                Reply::Done
            }
            Call::MakeRollback { start_ts: ts, protected, overlapped_write } => {
                self.fails("make_rollback");
                assert_eq!(ts.0, self.start_ts());
                Reply::RollbackMade(match overlapped_write {
                    Some(overlapped) => {
                        assert!(ts.0 > overlapped.write.start_ts);
                        protected.then_some(Write {
                            has_overlapped_rollback: true,
                            gc_fence: Some(overlapped.gc_fence),
                            ..overlapped.write
                        })
                    }
                    None => Some(Write {
                        protected,
                        ..Store::write(WriteType::Rollback, ts.0)
                    }),
                })
            }
            Call::PutWrite { ts, write } => {
                self.fails("put_write");
                modifies.push(Modify::PutWrite(check.key().clone(), ts.0, write));
                Reply::Done
            }
            Call::CollapsePrevRollback => {
                if self.fails("collapse_prev_rollback") {
                    return Reply::Failed("collapse_prev_rollback".to_string());
                }
                let records = self.records(check.key());
                if let Some((commit_ts, write)) = records.range(..=self.start_ts()).next_back() {
                    if write.write_type == WriteType::Rollback && !write.protected {
                        modifies.push(Modify::DeleteWrite(check.key().clone(), *commit_ts));
                    }
                }
                Reply::Done
            }
            Call::IntoLockInfo { lock } => {
                if self.fails("into_lock_info") {
                    return Reply::Failed("into_lock_info".to_string());
                }
                let info = LockInfo {
                    key: check.key().clone(),
                    primary_lock: lock.body.primary,
                    lock_version: lock.ts.0,
                };
                let size = info.compute_size();
                Reply::LockInfo { info, size }
            }
            Call::RecordNetworkOutBytes { bytes } => {
                self.fails("record_network_out_bytes");
                self.network_out_bytes = Some(bytes);
                Reply::Done
            }
            Call::CloseTxn => {
                self.fails("close_txn");
                self.open_at = None;
                Reply::TxnClosed {
                    new_acquired_locks: vec![],
                    modifies: std::mem::take(modifies),
                }
            }
        }
    }

    fn process_write(&mut self, keys: &[&[u8]], start_ts: u64) -> Result<WriteResult<Mem>, String> {
        let command = CheckSecondaryLocks::<Mem> {
            ctx: 42,
            keys: keys.iter().map(|key| key.to_vec()).collect(),
            start_ts: TimeStamp::new(start_ts),
        };
        let mut modifies = vec![];
        let mut step = command.process_write();
        loop {
            match step {
                Step::Call(check, call) => {
                    assert_eq!(*check.ctx(), 42);
                    let reply = self.reply(&check, call, &mut modifies);
                    assert!(check.accepts(&reply));
                    step = check.resume(reply);
                }
                Step::Return(result) => return result,
            }
        }
    }

    fn apply(&mut self, modifies: Vec<Modify>) {
        for modify in modifies {
            match modify {
                Modify::DeleteLock(key) => {
                    self.locks.remove(&key);
                }
                Modify::PutLock(key, lock) => {
                    self.locks.insert(key, lock);
                }
                Modify::PutWrite(key, ts, write) => self.put_write(&key, ts, write),
                Modify::DeleteWrite(key, ts) => {
                    self.writes.get_mut(&key).unwrap().remove(&ts);
                }
            }
        }
    }

    fn check_secondary(&mut self, key: &[u8], ts: u64) -> SecondaryLocksStatus<LockInfo> {
        let result = self.process_write(&[key], ts).unwrap();
        self.apply(result.to_be_write.modifies);
        result.status
    }
}

#[test]
fn test_check_async_commit_secondary_locks() {
    let mut store = Store::default();

    store.must_prewrite_lock(b"k1", b"key", 1);
    store.must_commit(b"k1", 1, 3);
    store.must_rollback(b"k1", 5, false);
    store.must_prewrite_lock(b"k1", b"key", 7);
    store.must_commit(b"k1", 7, 9);

    // Lock CF has no lock
    //
    // LOCK CF       | WRITE CF
    // --------------+---------------------
    //               | 9: start_ts = 7
    //               | 5: rollback
    //               | 3: start_ts = 1

    assert_eq!(
        store.check_secondary(b"k1", 7),
        SecondaryLocksStatus::Committed(TimeStamp::new(9))
    );
    store.must_get_commit_ts(b"k1", 7, 9);
    assert_eq!(store.check_secondary(b"k1", 5), SecondaryLocksStatus::RolledBack);
    store.must_get_rollback_ts(b"k1", 5);
    assert_eq!(
        store.check_secondary(b"k1", 1),
        SecondaryLocksStatus::Committed(TimeStamp::new(3))
    );
    store.must_get_commit_ts(b"k1", 1, 3);
    assert_eq!(store.check_secondary(b"k1", 6), SecondaryLocksStatus::RolledBack);
    store.must_get_rollback_protected(b"k1", 6, true);

    // ----------------------------

    store.must_acquire_pessimistic_lock(b"k1", b"key", 11, 11);

    // Lock CF has a pessimistic lock
    //
    // LOCK CF       | WRITE CF
    // ------------------------------------
    // ts = 11 (pes) | 9: start_ts = 7
    //               | 5: rollback
    //               | 3: start_ts = 1

    let status = store.check_secondary(b"k1", 11);
    assert_eq!(status, SecondaryLocksStatus::RolledBack);
    store.must_get_rollback_protected(b"k1", 11, true);

    // ----------------------------

    store.must_prewrite_lock(b"k1", b"key", 13);

    // Lock CF has an optimistic lock
    //
    // LOCK CF       | WRITE CF
    // ------------------------------------
    // ts = 13 (opt) | 11: rollback
    //               |  9: start_ts = 7
    //               |  5: rollback
    //               |  3: start_ts = 1

    match store.check_secondary(b"k1", 13) {
        SecondaryLocksStatus::Locked(_) => {}
        res => panic!("unexpected lock status: {:?}", res),
    }
    store.must_locked(b"k1", 13);

    // ----------------------------

    store.must_commit(b"k1", 13, 15);

    // Lock CF has an optimistic lock
    //
    // LOCK CF       | WRITE CF
    // ------------------------------------
    //               | 15: start_ts = 13
    //               | 11: rollback
    //               |  9: start_ts = 7
    //               |  5: rollback
    //               |  3: start_ts = 1

    match store.check_secondary(b"k1", 14) {
        SecondaryLocksStatus::RolledBack => {}
        res => panic!("unexpected lock status: {:?}", res),
    }
    store.must_get_rollback_protected(b"k1", 14, true);

    match store.check_secondary(b"k1", 15) {
        SecondaryLocksStatus::RolledBack => {}
        res => panic!("unexpected lock status: {:?}", res),
    }
    store.must_get_overlapped_rollback(b"k1", 15, 13, WriteType::Lock, Some(0));

    // Lock CF has an stale pessimistic lock, the transaction is already committed
    // or rolled back.
    //
    // LOCK CF       | WRITE CF
    // ------------------------------------
    //               | 15: start_ts = 13 with overlapped rollback
    //               | 14: rollback
    //               | 11: rollback
    //               |  9: start_ts = 7
    //               |  5: rollback
    //               |  3: start_ts = 1
    assert_eq!(
        store.must_acquire_pessimistic_lock_allow_lock_with_conflict(b"k1", b"key", 7, 7),
        15
    );
    match store.check_secondary(b"k1", 7) {
        SecondaryLocksStatus::Committed(ts) => {
            assert!(ts.eq(&TimeStamp::new(9)));
        }
        res => panic!("unexpected lock status: {:?}", res),
    }
    store.must_unlocked(b"k1");

    // Lock CF has an pessimistic lock, the transaction status is not found
    // in storage.
    assert_eq!(
        store.must_acquire_pessimistic_lock_allow_lock_with_conflict(b"k1", b"key", 8, 8),
        15
    );
    match store.check_secondary(b"k1", 8) {
        SecondaryLocksStatus::RolledBack => {}
        res => panic!("unexpected lock status: {:?}", res),
    }
    store.must_unlocked(b"k1");
}

fn lock_info(key: &[u8], ts: u64) -> LockInfo {
    LockInfo { key: key.to_vec(), primary_lock: b"key".to_vec(), lock_version: ts }
}

#[test]
fn all_locks_are_described_and_nothing_changes() {
    let mut store = Store::default();
    store.must_prewrite_lock(b"k1", b"key", 10);
    store.must_prewrite_lock(b"key2", b"key", 10);
    let result = store.process_write(&[b"k1", b"key2"], 10).unwrap();
    assert_eq!(
        result.status,
        SecondaryLocksStatus::Locked(vec![lock_info(b"k1", 10), lock_info(b"key2", 10)])
    );
    assert_eq!(result.ctx, 42);
    assert_eq!(result.rows, 0);
    assert!(result.known_txn_status.is_empty());
    assert!(result.released_locks.is_empty());
    assert!(result.lock_info.is_empty());
    assert!(result.lock_guards.is_empty());
    assert!(result.new_acquired_locks.is_empty());
    assert!(result.to_be_write.modifies.is_empty());
    assert!(result.to_be_write.allowed_on_disk_almost_full);
    assert_eq!(result.response_policy, ResponsePolicy::OnApplied);
    assert_eq!(store.network_out_bytes, Some(13 + 15));
    assert_eq!(
        store.calls,
        [
            "update_max_ts",
            "open_txn",
            "load_lock",
            "into_lock_info",
            "load_lock",
            "into_lock_info",
            "record_network_out_bytes",
            "close_txn",
        ]
    );
}

#[test]
fn no_keys_are_all_locked() {
    let mut store = Store::default();
    let result = store.process_write(&[], 10).unwrap();
    assert_eq!(result.status, SecondaryLocksStatus::Locked(vec![]));
    assert_eq!(store.network_out_bytes, Some(0));
    assert_eq!(store.calls, ["update_max_ts", "open_txn", "record_network_out_bytes", "close_txn"]);
}

#[test]
fn max_ts_is_raised_first() {
    let mut store = Store::default();
    store.max_ts = 4;
    store.process_write(&[b"k1"], 10).unwrap();
    assert_eq!(store.max_ts, 10);
    assert_eq!(store.calls[0], "update_max_ts");
    store.process_write(&[b"k1"], 3).unwrap();
    assert_eq!(store.max_ts, 10);
}

#[test]
fn txn_is_opened_once_at_its_start_ts() {
    let mut store = Store::default();
    store.must_prewrite_lock(b"k1", b"key", 10);
    store.process_write(&[b"k1", b"k2"], 10).unwrap();
    assert_eq!(store.calls[1], "open_txn");
    assert_eq!(store.calls.iter().filter(|call| *call == "open_txn").count(), 1);

    for keys in [&[][..], &[&b"k1"[..]]] {
        let (check, call) = step_of(keys, 10);
        assert!(matches!(call, Call::UpdateMaxTs { start_ts: TimeStamp(10) }));
        let (check, call) = call_of(check.resume(Reply::Done));
        assert!(matches!(call, Call::OpenTxn { start_ts: TimeStamp(10) }));
        let (_, call) = call_of(check.resume(Reply::Done));
        if keys.is_empty() {
            assert!(matches!(call, Call::RecordNetworkOutBytes { bytes: 0 }));
        } else {
            assert!(matches!(call, Call::LoadLock));
        }
    }

    // Without the larger timestamp nothing is opened.
    store.calls.clear();
    store.failing = Some("update_max_ts");
    assert!(store.process_write(&[b"k1"], 10).is_err());
    assert_eq!(store.calls, ["update_max_ts"]);
}

#[test]
fn first_key_without_lock_decides() {
    let mut store = Store::default();
    store.must_prewrite_lock(b"k1", b"key", 10);
    store.must_prewrite_lock(b"k2", b"key", 10);
    store.must_commit(b"k2", 10, 12);
    // There is nothing about k3, which would mean a rollback.
    let result = store.process_write(&[b"k1", b"k2", b"k3"], 10).unwrap();
    assert_eq!(result.status, SecondaryLocksStatus::Committed(TimeStamp::new(12)));
    assert_eq!(result.known_txn_status, [(TimeStamp::new(10), TimeStamp::new(12))]);
    assert_eq!(result.rows, 0);
    assert!(result.to_be_write.modifies.is_empty());
    // The description of the lock on k1 counts though it is not sent.
    assert_eq!(store.network_out_bytes, Some(13));
    assert_eq!(
        store.calls,
        [
            "update_max_ts",
            "open_txn",
            "load_lock",
            "into_lock_info",
            "load_lock",
            "get_txn_commit_record",
            "record_network_out_bytes",
            "close_txn",
        ]
    );
}

#[test]
fn missing_lock_is_rolled_back() {
    let mut store = Store::default();
    let result = store.process_write(&[b"k1"], 10).unwrap();
    assert_eq!(result.status, SecondaryLocksStatus::RolledBack);
    assert_eq!(result.rows, 1);
    assert!(result.known_txn_status.is_empty());
    let rollback = Write { protected: true, ..Store::write(WriteType::Rollback, 10) };
    assert_eq!(result.to_be_write.modifies, [Modify::PutWrite(b"k1".to_vec(), 10, rollback)]);
    assert_eq!(
        store.calls,
        [
            "update_max_ts",
            "open_txn",
            "load_lock",
            "get_txn_commit_record",
            "make_rollback",
            "put_write",
            "collapse_prev_rollback",
            "record_network_out_bytes",
            "close_txn",
        ]
    );
}

#[test]
fn status_on_record_is_answered_again() {
    let mut store = Store::default();
    assert_eq!(store.check_secondary(b"k1", 10), SecondaryLocksStatus::RolledBack);
    for _ in 0..3 {
        let result = store.process_write(&[b"k1"], 10).unwrap();
        assert_eq!(result.status, SecondaryLocksStatus::RolledBack);
        assert_eq!(result.rows, 1);
        assert!(result.to_be_write.modifies.is_empty());
    }
    store.must_get_rollback_protected(b"k1", 10, true);
}

#[test]
fn overlapped_rollback_is_answered_again() {
    let mut store = Store::default();
    store.must_prewrite_lock(b"k1", b"key", 8);
    store.must_commit(b"k1", 8, 10);
    assert_eq!(store.check_secondary(b"k1", 10), SecondaryLocksStatus::RolledBack);
    store.must_get_overlapped_rollback(b"k1", 10, 8, WriteType::Lock, Some(0));
    let result = store.process_write(&[b"k1"], 10).unwrap();
    assert_eq!(result.status, SecondaryLocksStatus::RolledBack);
    assert!(result.to_be_write.modifies.is_empty());
    // The other transaction stays committed.
    assert_eq!(
        store.check_secondary(b"k1", 8),
        SecondaryLocksStatus::Committed(TimeStamp::new(10))
    );
}

#[test]
fn earlier_rollback_is_collapsed() {
    let mut store = Store::default();
    store.must_rollback(b"k1", 5, false);
    assert_eq!(store.check_secondary(b"k1", 10), SecondaryLocksStatus::RolledBack);
    assert_eq!(store.records(b"k1").keys().copied().collect::<Vec<u64>>(), [10]);
}

#[test]
fn rollback_is_noted_on_lock_of_other_transaction() {
    let mut store = Store::default();
    store.must_prewrite_lock(b"k1", b"key", 7);
    store.locks.get_mut(&b"k1"[..]).unwrap().body.use_async_commit = true;
    assert_eq!(store.check_secondary(b"k1", 10), SecondaryLocksStatus::RolledBack);
    store.must_locked(b"k1", 7);
    assert_eq!(store.locks[&b"k1"[..]].body.rollback_ts, [10]);
    store.must_get_rollback_protected(b"k1", 10, true);
    assert_eq!(
        store.calls,
        [
            "update_max_ts",
            "open_txn",
            "load_lock",
            "get_txn_commit_record",
            "mark_rollback_on_mismatching_lock",
            "make_rollback",
            "put_write",
            "collapse_prev_rollback",
            "record_network_out_bytes",
            "close_txn",
        ]
    );
    // With a record, the other transaction's lock is left alone.
    store.calls.clear();
    assert_eq!(store.check_secondary(b"k1", 10), SecondaryLocksStatus::RolledBack);
    assert_eq!(store.locks[&b"k1"[..]].body.rollback_ts, [10]);
    assert!(!store.calls.contains(&"mark_rollback_on_mismatching_lock".to_string()));
}

#[test]
fn shared_locks_leave_the_decision_to_the_record() {
    let mut store = Store::default();
    store.must_prewrite_lock(b"k1", b"key", 10);
    store.must_commit(b"k1", 10, 12);
    store.shared.push(b"k1".to_vec());
    assert_eq!(
        store.check_secondary(b"k1", 10),
        SecondaryLocksStatus::Committed(TimeStamp::new(12))
    );
    store.calls.clear();
    assert_eq!(store.check_secondary(b"k1", 11), SecondaryLocksStatus::RolledBack);
    assert!(!store.calls.contains(&"mark_rollback_on_mismatching_lock".to_string()));
}

#[test]
fn pessimistic_lock_is_released_before_the_record_is_read() {
    let mut store = Store::default();
    store.must_acquire_pessimistic_lock(b"k1", b"key", 10, 10);
    let result = store.process_write(&[b"k1"], 10).unwrap();
    assert_eq!(result.status, SecondaryLocksStatus::RolledBack);
    assert_eq!(
        result.released_locks,
        [ReleasedLock { start_ts: 10, commit_ts: 0, key: b"k1".to_vec(), pessimistic: true }]
    );
    assert_eq!(
        store.calls,
        [
            "update_max_ts",
            "open_txn",
            "load_lock",
            "unlock_key",
            "get_txn_commit_record",
            "make_rollback",
            "put_write",
            "collapse_prev_rollback",
            "record_network_out_bytes",
            "close_txn",
        ]
    );
}

#[test]
fn conflicting_pessimistic_lock_is_released_after_the_record_is_read() {
    let mut store = Store::default();
    store.must_rollback(b"k1", 12, true);
    store.must_acquire_pessimistic_lock_allow_lock_with_conflict(b"k1", b"key", 10, 10);
    let result = store.process_write(&[b"k1"], 10).unwrap();
    assert_eq!(result.status, SecondaryLocksStatus::RolledBack);
    assert_eq!(result.released_locks.len(), 1);
    assert_eq!(
        store.calls,
        [
            "update_max_ts",
            "open_txn",
            "load_lock",
            "get_txn_commit_record",
            "unlock_key",
            "make_rollback",
            "put_write",
            "collapse_prev_rollback",
            "record_network_out_bytes",
            "close_txn",
        ]
    );
}

#[test]
fn stale_conflicting_pessimistic_lock_is_only_released() {
    let mut store = Store::default();
    store.must_rollback(b"k1", 10, true);
    store.must_rollback(b"k1", 12, true);
    store.must_acquire_pessimistic_lock_allow_lock_with_conflict(b"k1", b"key", 10, 10);
    let result = store.process_write(&[b"k1"], 10).unwrap();
    assert_eq!(result.status, SecondaryLocksStatus::RolledBack);
    assert_eq!(result.rows, 1);
    assert_eq!(result.released_locks.len(), 1);
    assert_eq!(result.to_be_write.modifies, [Modify::DeleteLock(b"k1".to_vec())]);
    assert_eq!(
        store.calls,
        [
            "update_max_ts",
            "open_txn",
            "load_lock",
            "get_txn_commit_record",
            "unlock_key",
            "record_network_out_bytes",
            "close_txn",
        ]
    );
}

#[test]
fn hidden_lock_is_rolled_back() {
    let mut store = Store::default();
    // The snapshot that the check reads does not show the prewritten lock.
    let mut snapshot = store.clone();
    store.must_prewrite_lock(b"k0", b"primary-on-other-region", 10);
    store.must_prewrite_lock(b"k1", b"primary-on-other-region", 10);
    let result = snapshot.process_write(&[b"k1"], 10).unwrap();
    assert_eq!(result.status, SecondaryLocksStatus::RolledBack);
    assert!(result
        .to_be_write
        .modifies
        .iter()
        .any(|m| matches!(m, Modify::PutWrite(key, 10, _) if key == b"k1")));
    store.apply(result.to_be_write.modifies);
    store.must_get_rollback_protected(b"k1", 10, true);
}

#[test]
fn failing_call_ends_the_check() {
    for call in [
        "update_max_ts",
        "load_lock",
        "get_txn_commit_record",
        "collapse_prev_rollback",
        "into_lock_info",
    ] {
        let mut store = Store::default();
        store.must_prewrite_lock(b"k1", b"key", 10);
        store.failing = Some(call);
        let result = store.process_write(&[b"k1", b"k2"], 10);
        assert_eq!(result.err(), Some(call.to_string()));
        assert_eq!(store.calls.last().unwrap(), call);
    }
}

#[test]
fn failing_read_for_pessimistic_lock_ends_the_check() {
    let mut store = Store::default();
    store.must_acquire_pessimistic_lock(b"k1", b"key", 10, 10);
    store.failing = Some("get_txn_commit_record");
    let result = store.process_write(&[b"k1"], 10);
    assert_eq!(result.err(), Some("get_txn_commit_record".to_string()));
}

#[test]
fn check_makes_few_calls() {
    let mut store = Store::default();
    let keys: Vec<Vec<u8>> = (0..50u8).map(|i| vec![i]).collect();
    for key in &keys[..49] {
        store.must_prewrite_lock(key, b"key", 10);
    }
    let slices: Vec<&[u8]> = keys.iter().map(|key| key.as_slice()).collect();
    let result = store.process_write(&slices, 10).unwrap();
    assert_eq!(result.status, SecondaryLocksStatus::RolledBack);
    assert_eq!(store.calls.len(), 2 + 2 * 49 + 5 + 2);
    assert!(store.calls.len() <= 2 * keys.len() + 8);
}

fn step_of(keys: &[&[u8]], start_ts: u64) -> (SecondaryLocksCheck<Mem>, Call<Mem>) {
    let command = CheckSecondaryLocks::<Mem> {
        ctx: 0,
        keys: keys.iter().map(|key| key.to_vec()).collect(),
        start_ts: TimeStamp::new(start_ts),
    };
    call_of(command.process_write())
}

fn call_of(step: Step<Mem>) -> (SecondaryLocksCheck<Mem>, Call<Mem>) {
    match step {
        Step::Call(check, call) => (check, call),
        Step::Return(_) => panic!("the check is over"),
    }
}

fn own_lock(ts: u64, pessimistic: bool, pessimistic_with_conflict: bool) -> Lock<Mem> {
    Lock { ts: TimeStamp::new(ts), pessimistic, pessimistic_with_conflict, body: Store::body() }
}

#[test]
fn rollback_that_needs_no_record_is_not_put() {
    let (check, _) = step_of(&[b"k1"], 10);
    let (check, _) = call_of(check.resume(Reply::Done));
    let (check, _) = call_of(check.resume(Reply::Done));
    let (check, _) = call_of(check.resume(Reply::LockLoaded(None)));
    let overlapped = OverlappedWrite { write: Store::write(WriteType::Put, 8), gc_fence: 20 };
    let record = TxnCommitRecord::NotFound { overlapped_write: Some(overlapped.clone()) };
    let (check, call) = call_of(check.resume(Reply::Record(record)));
    match call {
        Call::MakeRollback { start_ts, protected, overlapped_write } => {
            assert_eq!(start_ts, TimeStamp::new(10));
            assert!(protected);
            assert_eq!(overlapped_write, Some(overlapped));
        }
        _ => panic!("unexpected call"),
    }
    let (check, call) = call_of(check.resume(Reply::RollbackMade(None)));
    assert!(matches!(call, Call::RecordNetworkOutBytes { bytes: 0 }));
    let (check, call) = call_of(check.resume(Reply::Done));
    assert!(matches!(call, Call::CloseTxn));
    let closed = Reply::TxnClosed { new_acquired_locks: vec![3], modifies: vec![] };
    match check.resume(closed) {
        Step::Return(Ok(result)) => {
            assert_eq!(result.status, SecondaryLocksStatus::RolledBack);
            assert_eq!(result.new_acquired_locks, [3]);
        }
        _ => panic!("unexpected step"),
    }
}

#[test]
fn unlocked_key_without_lock_releases_nothing() {
    let (check, _) = step_of(&[b"k1"], 10);
    let (check, _) = call_of(check.resume(Reply::Done));
    let (check, _) = call_of(check.resume(Reply::Done));
    let loaded = Some(LoadedLock::Exclusive(own_lock(10, true, false)));
    let (check, call) = call_of(check.resume(Reply::LockLoaded(loaded)));
    assert!(matches!(
        call,
        Call::UnlockKey { pessimistic: true, commit_ts: TimeStamp(0) }
    ));
    let (check, _) = call_of(check.resume(Reply::Released(None)));
    let record = TxnCommitRecord::NotFound { overlapped_write: None };
    let (check, _) = call_of(check.resume(Reply::Record(record)));
    let (check, _) = call_of(check.resume(Reply::RollbackMade(None)));
    let (check, _) = call_of(check.resume(Reply::Done));
    let closed = Reply::TxnClosed { new_acquired_locks: vec![], modifies: vec![] };
    match check.resume(closed) {
        Step::Return(Ok(result)) => assert!(result.released_locks.is_empty()),
        _ => panic!("unexpected step"),
    }
}

#[test]
fn impossible_replies_are_not_accepted() {
    let (check, _) = step_of(&[b"k1"], 10);
    assert!(check.accepts(&Reply::Done));
    assert!(check.accepts(&Reply::Failed(String::new())));
    assert!(!check.accepts(&Reply::LockLoaded(None)));
    let (check, _) = call_of(check.resume(Reply::Done));
    assert!(check.accepts(&Reply::Done));
    assert!(!check.accepts(&Reply::Failed(String::new())));
    let (check, _) = call_of(check.resume(Reply::Done));
    assert!(!check.accepts(&Reply::Done));
    // Only a pessimistic lock of the transaction can have been acquired with a conflict.
    let loaded = |lock| Reply::LockLoaded(Some(LoadedLock::Exclusive(lock)));
    assert!(!check.accepts(&loaded(own_lock(10, false, true))));
    assert!(check.accepts(&loaded(own_lock(11, false, true))));
    assert!(check.accepts(&loaded(own_lock(10, true, true))));
    assert!(check.accepts(&Reply::LockLoaded(Some(LoadedLock::Shared))));
    // A transaction with a pessimistic lock acquired without conflict has no commit record.
    let (check, _) = call_of(check.resume(loaded(own_lock(10, true, false))));
    assert!(!check.accepts(&Reply::Failed(String::new())));
    let (check, _) = call_of(check.resume(Reply::Released(None)));
    assert!(!check.accepts(&Reply::Record(TxnCommitRecord::OverlappedRollback)));
    assert!(check.accepts(&Reply::Failed(String::new())));
    assert!(check.accepts(&Reply::Record(TxnCommitRecord::NotFound { overlapped_write: None })));
}

#[test]
fn commit_record_determines_status() {
    for write_type in [WriteType::Put, WriteType::Delete, WriteType::Lock] {
        let commit_ts = TimeStamp::new(12);
        let (status, need_rollback, overlapped_write) =
            check_determined_txn_status::<Mem>(TxnCommitRecord::SingleRecord { commit_ts, write_type });
        assert!(matches!(status, SecondaryLockStatus::Committed(TimeStamp(12))));
        assert!(!need_rollback);
        assert_eq!(overlapped_write, None);
    }
    let rollback =
        TxnCommitRecord::SingleRecord { commit_ts: TimeStamp::new(10), write_type: WriteType::Rollback };
    for record in [rollback, TxnCommitRecord::OverlappedRollback] {
        let (status, need_rollback, overlapped_write) = check_determined_txn_status::<Mem>(record);
        assert!(matches!(status, SecondaryLockStatus::RolledBack));
        assert!(!need_rollback);
        assert_eq!(overlapped_write, None);
    }
    let overlapped = OverlappedWrite { write: Store::write(WriteType::Put, 8), gc_fence: 20 };
    let record = TxnCommitRecord::NotFound { overlapped_write: Some(overlapped.clone()) };
    let (status, need_rollback, overlapped_write) = check_determined_txn_status::<Mem>(record);
    assert!(matches!(status, SecondaryLockStatus::RolledBack));
    assert!(need_rollback);
    assert_eq!(overlapped_write, Some(overlapped));
}

#[test]
fn own_lock_determines_status() {
    let (status, need_rollback, overlapped_write) =
        check_status_from_lock::<Mem>(own_lock(10, false, false), None);
    assert!(matches!(status, SecondaryLockStatus::Locked(lock) if lock.ts == TimeStamp(10)));
    assert!(!need_rollback);
    assert_eq!(overlapped_write, None);

    let record = TxnCommitRecord::NotFound { overlapped_write: None };
    let (status, need_rollback, _) =
        check_status_from_lock::<Mem>(own_lock(10, true, false), Some(record));
    assert!(matches!(status, SecondaryLockStatus::RolledBack));
    assert!(need_rollback);

    let record =
        TxnCommitRecord::SingleRecord { commit_ts: TimeStamp::new(12), write_type: WriteType::Put };
    let (status, need_rollback, _) =
        check_status_from_lock::<Mem>(own_lock(10, true, true), Some(record));
    assert!(matches!(status, SecondaryLockStatus::Committed(TimeStamp(12))));
    assert!(!need_rollback);
}

#[test]
fn timestamps_hold_their_number() {
    assert_eq!(TimeStamp::new(7), TimeStamp(7));
    assert_eq!(TimeStamp::zero(), TimeStamp(0));
}

#[test]
fn decided_status_is_stable() {
    let mut store = Store::default();
    // All locked.
    store.must_prewrite_lock(b"a1", b"key", 10);
    store.must_prewrite_lock(b"a2", b"key", 10);
    // Locked, then committed.
    store.must_prewrite_lock(b"b1", b"key", 10);
    store.must_prewrite_lock(b"b2", b"key", 10);
    store.must_commit(b"b2", 10, 12);
    // Locked, then a lock of another transaction.
    store.must_prewrite_lock(b"c1", b"key", 10);
    store.must_prewrite_lock(b"c2", b"key", 7);
    store.locks.get_mut(&b"c2"[..]).unwrap().body.use_async_commit = true;
    // A pessimistic lock.
    store.must_acquire_pessimistic_lock(b"d1", b"key", 10, 10);
    // A pessimistic lock with a conflict, of a transaction without a record.
    store.must_rollback(b"e1", 12, true);
    store.must_acquire_pessimistic_lock_allow_lock_with_conflict(b"e1", b"key", 10, 10);
    // A stale pessimistic lock with a conflict, of a committed transaction.
    store.must_prewrite_lock(b"f1", b"key", 10);
    store.must_commit(b"f1", 10, 12);
    store.must_acquire_pessimistic_lock_allow_lock_with_conflict(b"f1", b"key", 10, 10);
    // A write that the rollback overlaps with.
    store.must_prewrite_lock(b"g1", b"key", 8);
    store.must_commit(b"g1", 8, 10);

    let committed = SecondaryLocksStatus::Committed(TimeStamp::new(12));
    let locked = SecondaryLocksStatus::Locked(vec![lock_info(b"a1", 10), lock_info(b"a2", 10)]);
    let cases: Vec<(Vec<&[u8]>, SecondaryLocksStatus<LockInfo>)> = vec![
        (vec![b"a1", b"a2"], locked),
        (vec![b"b1", b"b2"], SecondaryLocksStatus::Committed(TimeStamp::new(12))),
        (vec![b"c1", b"c2"], SecondaryLocksStatus::RolledBack),
        (vec![b"d1"], SecondaryLocksStatus::RolledBack),
        (vec![b"e1"], SecondaryLocksStatus::RolledBack),
        (vec![b"f1"], committed),
        (vec![b"g1"], SecondaryLocksStatus::RolledBack),
    ];
    for (keys, status) in cases {
        let first = store.process_write(&keys, 10).unwrap();
        assert_eq!(first.status, status);
        store.apply(first.to_be_write.modifies);
        let second = store.process_write(&keys, 10).unwrap();
        assert_eq!(second.status, status);
        assert_eq!(second.to_be_write.modifies, []);
        assert!(second.released_locks.is_empty());
    }
}
