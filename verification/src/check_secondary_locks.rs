//! Checking the secondary locks of an async commit transaction.
//!
//! The check alternates between calls into the storage and decisions. It is therefore a machine:
//! [`CheckSecondaryLocks::process_write`] starts it, every [`Step::Call`] names the next call to
//! make, and [`SecondaryLocksCheck::resume`] takes what the call replied.
use vstd::prelude::*;

use crate::laws::first_step;
use crate::protocol::{Call, CheckView, Phase, Reply, StepView, Verdict};
use crate::secondary_lock::{
    check_determined_txn_status, check_status_from_lock, own_lock, SecondaryLockStatus,
};
use crate::types::{LoadedLock, Lock, StorageTypes, TimeStamp, TxnCommitRecord};
use crate::write_result::{ResponsePolicy, SecondaryLocksStatus, WriteData, WriteResult};

verus! {

/// Check secondary locks of an async commit transaction.
///
/// If all prewritten locks exist, the lock information is returned.
/// Otherwise, it returns the commit timestamp of the transaction.
///
/// If the lock does not exist or is a pessimistic lock, to prevent the status being changed, a
/// rollback may be written.
pub struct CheckSecondaryLocks<T: StorageTypes> {
    /// The context of the request.
    pub ctx: T::Context,
    /// The keys of secondary locks.
    pub keys: Vec<T::Key>,
    /// The start timestamp of the transaction.
    pub start_ts: TimeStamp,
}

/// A check under way.
pub struct SecondaryLocksCheck<T: StorageTypes> {
    ctx: T::Context,
    keys: Vec<T::Key>,
    start_ts: TimeStamp,
    /// The position of the key that is looked at.
    position: usize,
    lock_infos: Vec<T::LockInfo>,
    released_locks: Vec<T::ReleasedLock>,
    result_size: u64,
    phase: Phase<T>,
}

impl<T: StorageTypes> View for SecondaryLocksCheck<T> {
    type V = CheckView<T>;

    closed spec fn view(&self) -> CheckView<T> {
        CheckView {
            ctx: self.ctx,
            keys: self.keys@,
            start_ts: self.start_ts,
            position: self.position as int,
            lock_infos: self.lock_infos@,
            released_locks: self.released_locks@,
            result_size: self.result_size as int,
            phase: self.phase,
        }
    }
}

/// What is to be done next.
pub enum Step<T: StorageTypes> {
    /// Make the call and resume the check with what it replied.
    Call(SecondaryLocksCheck<T>, Call<T>),
    /// The check is over.
    Return(Result<WriteResult<T>, T::Error>),
}

impl<T: StorageTypes> View for Step<T> {
    type V = StepView<T>;

    open spec fn view(&self) -> StepView<T> {
        match self {
            Step::Call(check, call) => StepView::Call(check@, *call),
            Step::Return(Ok(result)) => StepView::Return(Ok(result@)),
            Step::Return(Err(error)) => StepView::Return(Err(*error)),
        }
    }
}

impl<T: StorageTypes> CheckSecondaryLocks<T> {
    /// Starts the check.
    ///
    /// It is not allowed for commit to overwrite a protected rollback. So the check first raises
    /// the largest timestamp seen, to prevent this case from happening.
    pub fn process_write(self) -> (step: Step<T>)
        ensures
            step@ == StepView::Call(
                CheckView::<T>::initial(self.ctx, self.keys@, self.start_ts),
                Call::UpdateMaxTs { start_ts: self.start_ts },
            ),
            step@ == first_step::<T>(self.ctx, self.keys@, self.start_ts),
            step.wf(),
    {
        let start_ts = self.start_ts;
        let check = SecondaryLocksCheck {
            ctx: self.ctx,
            keys: self.keys,
            start_ts,
            position: 0,
            lock_infos: Vec::new(),
            released_locks: Vec::new(),
            result_size: 0,
            phase: Phase::UpdateMaxTs,
        };
        assert(check.keys@.len() == check.keys.len());
        Step::Call(check, Call::UpdateMaxTs { start_ts })
    }
}

impl<T: StorageTypes> Step<T> {
    /// A check that goes on is in one of the states that a check can be in, and waits for the
    /// call. If the call is about a key, the check knows this key.
    pub open spec fn wf(self) -> bool {
        self matches Step::Call(check, call) ==> {
            &&& check.wf()
            &&& check@.phase.waits_for(call)
            &&& call.is_about_key() ==> check@.has_key()
        }
    }
}

impl<T: StorageTypes> SecondaryLocksCheck<T> {
    /// The states that a check can be in.
    pub open spec fn wf(self) -> bool {
        self@.wf()
    }

    /// The context of the request.
    pub fn ctx(&self) -> (result: &T::Context)
        ensures
            *result == self@.ctx,
    {
        &self.ctx
    }

    /// The key that the pending call is about.
    pub fn key(&self) -> (result: &T::Key)
        requires
            self.wf(),
            self@.has_key(),
        ensures
            *result == self@.keys[self@.position],
    {
        &self.keys[self.position]
    }

    fn call(self, phase: Phase<T>, call: Call<T>) -> (step: Step<T>)
        ensures
            step@ == self@.call(phase, call),
            step is Call,
    {
        Step::Call(SecondaryLocksCheck { phase, ..self }, call)
    }

    fn load_lock(self) -> (step: Step<T>)
        requires
            self@.position <= self@.keys.len(),
        ensures
            step@ == self@.load_lock(),
    {
        if self.position < self.keys.len() {
            self.call(Phase::LoadLock, Call::LoadLock)
        } else {
            self.conclude(Verdict::Locked)
        }
    }

    fn unlock(self, phase: Phase<T>) -> (step: Step<T>)
        ensures
            step@ == self@.unlock(phase),
    {
        self.call(phase, Call::UnlockKey { pessimistic: true, commit_ts: TimeStamp::zero() })
    }

    fn released(self, released: Option<T::ReleasedLock>) -> (check: Self)
        ensures
            check@ == self@.released(released),
    {
        let mut released_locks = self.released_locks;
        if let Some(lock) = released {
            released_locks.push(lock);
        }
        SecondaryLocksCheck { released_locks, ..self }
    }

    fn make_rollback(self, overlapped_write: Option<T::OverlappedWrite>) -> (step: Step<T>)
        ensures
            step@ == self@.make_rollback(overlapped_write),
    {
        // We must protect this rollback in case this rollback is collapsed and a stale
        // acquire_pessimistic_lock and prewrite succeed again.
        let start_ts = self.start_ts;
        self.call(
            Phase::MakeRollback,
            Call::MakeRollback { start_ts, protected: true, overlapped_write },
        )
    }

    fn conclude(self, verdict: Verdict) -> (step: Step<T>)
        ensures
            step@ == self@.conclude(verdict),
    {
        let bytes = self.result_size;
        self.call(
            Phase::RecordNetworkOutBytes { verdict },
            Call::RecordNetworkOutBytes { bytes },
        )
    }

    fn lock_loaded(self, loaded: Option<LoadedLock<T>>) -> (step: Step<T>)
        requires
            own_lock(loaded, self@.start_ts) matches Some(lock) ==> lock.wf(),
        ensures
            step@ == self@.lock_loaded(loaded),
    {
        match loaded {
            Some(LoadedLock::Exclusive(lock)) => {
                if lock.ts != self.start_ts {
                    self.call(
                        Phase::ReadRecordOfUnlocked { mismatch_lock: Some(lock) },
                        Call::GetTxnCommitRecord,
                    )
                } else if lock.is_pessimistic_lock_with_conflict() {
                    self.call(Phase::ReadRecordOfLocked { lock }, Call::GetTxnCommitRecord)
                } else if lock.is_pessimistic_lock() {
                    self.unlock(Phase::UnlockBeforeRecord { lock })
                } else {
                    let (status, _, _) = check_status_from_lock(lock, None);
                    match status {
                        // The lock exists, the lock information is returned.
                        SecondaryLockStatus::Locked(lock) => {
                            self.call(Phase::IntoLockInfo, Call::IntoLockInfo { lock })
                        },
                        _ => vstd::pervasive::unreached(),
                    }
                }
            },
            // Async commit transactions don't write shared locks, so if there are any, the commit
            // record decides, as it does without a lock.
            _ => self.call(
                Phase::ReadRecordOfUnlocked { mismatch_lock: None },
                Call::GetTxnCommitRecord,
            ),
        }
    }

    fn record_of_unlocked(
        self,
        mismatch_lock: Option<Lock<T>>,
        record: TxnCommitRecord<T>,
    ) -> (step: Step<T>)
        ensures
            step@ == self@.record_of_unlocked(mismatch_lock, record),
    {
        let (status, need_rollback, overlapped_write) = check_determined_txn_status(record);
        if need_rollback {
            match mismatch_lock {
                Some(lock) => self.call(
                    Phase::MarkRollback { overlapped_write },
                    Call::MarkRollbackOnMismatchingLock { lock, is_protected: true },
                ),
                None => self.make_rollback(overlapped_write),
            }
        } else {
            self.conclude(verdict_of(status))
        }
    }

    fn record_of_locked(self, lock: Lock<T>, record: TxnCommitRecord<T>) -> (step: Step<T>)
        requires
            lock.wf(),
            lock.pessimistic,
            lock.pessimistic_with_conflict || record is NotFound,
        ensures
            step@ == self@.record_of_locked(lock, record),
    {
        let is_released = !lock.is_pessimistic_lock_with_conflict();
        let (status, need_rollback, overlapped_write) = check_status_from_lock(lock, Some(record));
        if is_released {
            self.make_rollback(overlapped_write)
        } else if need_rollback {
            self.unlock(Phase::UnlockBeforeRollback { overlapped_write })
        } else {
            self.unlock(Phase::UnlockBeforeVerdict { verdict: verdict_of(status) })
        }
    }

    fn lock_described(self, info: T::LockInfo, size: u32) -> (step: Step<T>)
        requires
            self@.position < self@.keys.len(),
            self@.result_size + size <= u64::MAX,
        ensures
            step@ == (CheckView {
                position: self@.position + 1,
                lock_infos: self@.lock_infos.push(info),
                result_size: self@.result_size + size,
                ..self@
            }).load_lock(),
    {
        assert(self.position < self.keys.len());
        let mut lock_infos = self.lock_infos;
        lock_infos.push(info);
        let check = SecondaryLocksCheck {
            position: self.position + 1,
            lock_infos,
            result_size: self.result_size + size as u64,
            ..self
        };
        check.load_lock()
    }

    fn result(
        self,
        verdict: Verdict,
        new_acquired_locks: T::NewLocks,
        modifies: T::Modifies,
    ) -> (result: WriteResult<T>)
        ensures
            result@ == self@.result(verdict, new_acquired_locks, modifies),
    {
        let mut known_txn_status: Vec<(TimeStamp, TimeStamp)> = Vec::new();
        let mut rows: usize = 0;
        let status = match verdict {
            Verdict::Locked => SecondaryLocksStatus::Locked(self.lock_infos),
            Verdict::Committed(commit_ts) => {
                known_txn_status.push((self.start_ts, commit_ts));
                SecondaryLocksStatus::Committed(commit_ts)
            },
            Verdict::RolledBack => {
                // One row is mutated only when a secondary lock is rolled back.
                rows = 1;
                SecondaryLocksStatus::RolledBack
            },
        };
        WriteResult {
            ctx: self.ctx,
            to_be_write: WriteData { modifies, allowed_on_disk_almost_full: true },
            rows,
            status,
            lock_info: Vec::new(),
            released_locks: self.released_locks,
            new_acquired_locks,
            lock_guards: Vec::new(),
            response_policy: ResponsePolicy::OnApplied,
            known_txn_status,
        }
    }

    /// Whether the check can go on with this reply to its pending call.
    pub fn accepts(&self, reply: &Reply<T>) -> (result: bool)
        ensures
            result == self@.expects(*reply),
    {
        match (&self.phase, reply) {
            (Phase::UpdateMaxTs, Reply::Done | Reply::Failed(_)) => true,
            (Phase::OpenTxn, Reply::Done) => true,
            (Phase::LoadLock, Reply::LockLoaded(Some(LoadedLock::Exclusive(lock)))) => {
                lock.ts != self.start_ts || !lock.is_pessimistic_lock_with_conflict()
                    || lock.is_pessimistic_lock()
            },
            (Phase::LoadLock, Reply::LockLoaded(_) | Reply::Failed(_)) => true,
            (Phase::ReadRecordOfUnlocked { .. }, Reply::Record(_) | Reply::Failed(_)) => true,
            (Phase::ReadRecordOfLocked { lock }, Reply::Record(record)) => {
                lock.is_pessimistic_lock_with_conflict() || match record {
                    TxnCommitRecord::NotFound { .. } => true,
                    _ => false,
                }
            },
            (Phase::ReadRecordOfLocked { .. }, Reply::Failed(_)) => true,
            (Phase::UnlockBeforeRecord { .. }, Reply::Released(_)) => true,
            (Phase::UnlockBeforeRollback { .. }, Reply::Released(_)) => true,
            (Phase::UnlockBeforeVerdict { .. }, Reply::Released(_)) => true,
            (Phase::MarkRollback { .. }, Reply::Done) => true,
            (Phase::MakeRollback, Reply::RollbackMade(_)) => true,
            (Phase::PutWrite, Reply::Done) => true,
            (Phase::CollapsePrevRollback, Reply::Done | Reply::Failed(_)) => true,
            (Phase::IntoLockInfo, Reply::LockInfo { size, .. }) => {
                self.result_size <= u64::MAX - *size as u64
            },
            (Phase::IntoLockInfo, Reply::Failed(_)) => true,
            (Phase::RecordNetworkOutBytes { .. }, Reply::Done) => true,
            (Phase::CloseTxn { .. }, Reply::TxnClosed { .. }) => true,
            _ => false,
        }
    }

    /// Goes on after the pending call has replied.
    pub fn resume(self, reply: Reply<T>) -> (step: Step<T>)
        requires
            self.wf(),
            self@.expects(reply),
        ensures
            step@ == self@.resume(reply),
            step.wf(),
    {
        let phase = self.phase;
        // The helpers below set the phase that comes next.
        let check = SecondaryLocksCheck { phase: Phase::LoadLock, ..self };
        match (phase, reply) {
            (_, Reply::Failed(error)) => Step::Return(Err(error)),
            (Phase::UpdateMaxTs, _) => {
                let start_ts = check.start_ts;
                check.call(Phase::OpenTxn, Call::OpenTxn { start_ts })
            },
            (Phase::OpenTxn, _) => check.load_lock(),
            (Phase::LoadLock, Reply::LockLoaded(loaded)) => check.lock_loaded(loaded),
            (Phase::ReadRecordOfUnlocked { mismatch_lock }, Reply::Record(record)) => {
                check.record_of_unlocked(mismatch_lock, record)
            },
            (Phase::ReadRecordOfLocked { lock }, Reply::Record(record)) => {
                check.record_of_locked(lock, record)
            },
            (Phase::UnlockBeforeRecord { lock }, Reply::Released(released)) => {
                check.released(released).call(
                    Phase::ReadRecordOfLocked { lock },
                    Call::GetTxnCommitRecord,
                )
            },
            (Phase::UnlockBeforeRollback { overlapped_write }, Reply::Released(released)) => {
                check.released(released).make_rollback(overlapped_write)
            },
            (Phase::UnlockBeforeVerdict { verdict }, Reply::Released(released)) => {
                check.released(released).conclude(verdict)
            },
            (Phase::MarkRollback { overlapped_write }, _) => check.make_rollback(overlapped_write),
            (Phase::MakeRollback, Reply::RollbackMade(Some(write))) => {
                let ts = check.start_ts;
                check.call(Phase::PutWrite, Call::PutWrite { ts, write })
            },
            (Phase::MakeRollback, _) => check.conclude(Verdict::RolledBack),
            (Phase::PutWrite, _) => {
                check.call(Phase::CollapsePrevRollback, Call::CollapsePrevRollback)
            },
            (Phase::CollapsePrevRollback, _) => check.conclude(Verdict::RolledBack),
            (Phase::IntoLockInfo, Reply::LockInfo { info, size }) => {
                check.lock_described(info, size)
            },
            (Phase::RecordNetworkOutBytes { verdict }, _) => {
                check.call(Phase::CloseTxn { verdict }, Call::CloseTxn)
            },
            (Phase::CloseTxn { verdict }, Reply::TxnClosed { new_acquired_locks, modifies }) => {
                Step::Return(Ok(check.result(verdict, new_acquired_locks, modifies)))
            },
            _ => vstd::pervasive::unreached(),
        }
    }
}

/// The verdict that the status on one key without a prewritten lock gives.
fn verdict_of<T: StorageTypes>(status: SecondaryLockStatus<T>) -> (verdict: Verdict)
    requires
        !(status is Locked),
    ensures
        verdict == (match status {
            SecondaryLockStatus::Committed(ts) => Verdict::Committed(ts),
            _ => Verdict::RolledBack,
        }),
{
    match status {
        SecondaryLockStatus::Committed(ts) => Verdict::Committed(ts),
        _ => Verdict::RolledBack,
    }
}

} // verus!
