//! The calls that a check makes, the replies that it takes, and how one leads to the next.
use vstd::prelude::*;

use crate::secondary_lock::{
    determined_status, mismatch_lock, overlapped_write, own_lock, SecondaryLockStatus,
};
use crate::types::{LoadedLock, Lock, StorageTypes, TimeStamp, TxnCommitRecord};
use crate::write_result::{
    ResponsePolicy, SecondaryLocksStatusView, WriteData, WriteResultView,
};

verus! {

/// What a check has found out about the transaction once no key is left to look at.
#[derive(Debug, Clone, Copy, PartialEq, Eq, Structural)]
pub enum Verdict {
    /// All prewritten locks are there.
    Locked,
    /// The transaction was committed at this timestamp.
    Committed(TimeStamp),
    /// The transaction was rolled back.
    RolledBack,
}

/// What a check waits for.
pub enum Phase<T: StorageTypes> {
    /// The largest timestamp seen by the storage is being raised.
    UpdateMaxTs,
    /// The transaction and the reader are being opened.
    OpenTxn,
    /// The lock on the key is being loaded.
    LoadLock,
    /// The commit record is being read for a key that the transaction has not locked.
    /// `mismatch_lock` is the lock of another transaction on it.
    ReadRecordOfUnlocked { mismatch_lock: Option<Lock<T>> },
    /// The commit record is being read for a key with this pessimistic lock. If the lock was
    /// acquired without a conflict, it is released by now.
    ReadRecordOfLocked { lock: Lock<T> },
    /// This pessimistic lock is being released; then the commit record is read.
    UnlockBeforeRecord { lock: Lock<T> },
    /// A pessimistic lock is being released; then a rollback is made.
    UnlockBeforeRollback { overlapped_write: Option<T::OverlappedWrite> },
    /// A stale pessimistic lock is being released; then the check ends with this verdict.
    UnlockBeforeVerdict { verdict: Verdict },
    /// The rollback is being noted on the lock of another transaction.
    MarkRollback { overlapped_write: Option<T::OverlappedWrite> },
    /// The rollback record is being made.
    MakeRollback,
    /// The rollback record is being put.
    PutWrite,
    /// An earlier rollback on the key is being collapsed.
    CollapsePrevRollback,
    /// The lock on the key is being turned into its description.
    IntoLockInfo,
    /// The size of the lock descriptions is being recorded.
    RecordNetworkOutBytes { verdict: Verdict },
    /// The transaction is being closed.
    CloseTxn { verdict: Verdict },
}

/// A call into the storage. Where it is about a key, that is [`SecondaryLocksCheck::key`].
pub enum Call<T: StorageTypes> {
    /// Raise the largest timestamp seen to at least `start_ts`. Replied by `Done` or `Failed`.
    UpdateMaxTs { start_ts: TimeStamp },
    /// Open the transaction, and a reader of the snapshot, at `start_ts`. The calls about keys are
    /// made to these two. Replied by `Done`.
    OpenTxn { start_ts: TimeStamp },
    /// Load the lock on the key. Replied by `LockLoaded` or `Failed`.
    LoadLock,
    /// Read the commit record of the transaction on the key. Replied by `Record` or `Failed`.
    GetTxnCommitRecord,
    /// Delete the lock on the key. Replied by `Released`.
    UnlockKey { pessimistic: bool, commit_ts: TimeStamp },
    /// Note the rollback on another transaction's lock on the key. Replied by `Done`.
    MarkRollbackOnMismatchingLock { lock: Lock<T>, is_protected: bool },
    /// Make a rollback record. Replied by `RollbackMade`.
    MakeRollback {
        start_ts: TimeStamp,
        protected: bool,
        overlapped_write: Option<T::OverlappedWrite>,
    },
    /// Put the record for the key at the timestamp. Replied by `Done`.
    PutWrite { ts: TimeStamp, write: T::Write },
    /// Collapse an earlier rollback on the key. Replied by `Done` or `Failed`.
    CollapsePrevRollback,
    /// Describe the lock on the key. Replied by `LockInfo` or `Failed`.
    IntoLockInfo { lock: Lock<T> },
    /// Record the size of what is sent to the client. Replied by `Done`.
    RecordNetworkOutBytes { bytes: u64 },
    /// Take what the transaction has gathered. Replied by `TxnClosed`.
    CloseTxn,
}

impl<T: StorageTypes> Call<T> {
    /// Whether the call is about a key.
    pub open spec fn is_about_key(self) -> bool {
        &&& !(self is UpdateMaxTs)
        &&& !(self is OpenTxn)
        &&& !(self is RecordNetworkOutBytes)
        &&& !(self is CloseTxn)
    }
}

impl<T: StorageTypes> Phase<T> {
    /// Whether a check in this phase waits for this call.
    pub open spec fn waits_for(self, call: Call<T>) -> bool {
        match self {
            Phase::UpdateMaxTs => call is UpdateMaxTs,
            Phase::OpenTxn => call is OpenTxn,
            Phase::LoadLock => call is LoadLock,
            Phase::IntoLockInfo => call is IntoLockInfo,
            Phase::ReadRecordOfUnlocked { .. } => call is GetTxnCommitRecord,
            Phase::ReadRecordOfLocked { .. } => call is GetTxnCommitRecord,
            Phase::UnlockBeforeRecord { .. } => call is UnlockKey,
            Phase::UnlockBeforeRollback { .. } => call is UnlockKey,
            Phase::UnlockBeforeVerdict { .. } => call is UnlockKey,
            Phase::MarkRollback { .. } => call is MarkRollbackOnMismatchingLock,
            Phase::MakeRollback => call is MakeRollback,
            Phase::PutWrite => call is PutWrite,
            Phase::CollapsePrevRollback => call is CollapsePrevRollback,
            Phase::RecordNetworkOutBytes { .. } => call is RecordNetworkOutBytes,
            Phase::CloseTxn { .. } => call is CloseTxn,
        }
    }
}

/// What a call into the storage replied.
pub enum Reply<T: StorageTypes> {
    /// The call was made.
    Done,
    /// The lock on the key, if there is one.
    LockLoaded(Option<LoadedLock<T>>),
    /// The commit record of the transaction on the key.
    Record(TxnCommitRecord<T>),
    /// The lock that was released.
    Released(Option<T::ReleasedLock>),
    /// The rollback record, if one is to be put.
    RollbackMade(Option<T::Write>),
    /// The description of the lock, and the size of its encoding in bytes.
    LockInfo { info: T::LockInfo, size: u32 },
    /// What the transaction has gathered.
    TxnClosed { new_acquired_locks: T::NewLocks, modifies: T::Modifies },
    /// The call failed.
    Failed(T::Error),
}

/// The state of a check.
#[verifier::ext_equal]
pub struct CheckView<T: StorageTypes> {
    pub ctx: T::Context,
    pub keys: Seq<T::Key>,
    pub start_ts: TimeStamp,
    /// The position of the key that is looked at. The keys before it are locked.
    pub position: int,
    /// The descriptions of the locks on the keys before `position`.
    pub lock_infos: Seq<T::LockInfo>,
    pub released_locks: Seq<T::ReleasedLock>,
    /// The size of the lock descriptions.
    pub result_size: int,
    pub phase: Phase<T>,
}

/// A [`Step`] over the state of the check.
pub enum StepView<T: StorageTypes> {
    Call(CheckView<T>, Call<T>),
    Return(Result<WriteResultView<T>, T::Error>),
}

/// The verdict that the status on one key without a prewritten lock gives.
pub open spec fn determined_verdict<T: StorageTypes>(record: TxnCommitRecord<T>) -> Verdict {
    match determined_status(record) {
        SecondaryLockStatus::Committed(ts) => Verdict::Committed(ts),
        _ => Verdict::RolledBack,
    }
}

/// The released locks with the one that an unlocked key had, if it had one.
pub open spec fn push_released<R>(released_locks: Seq<R>, released: Option<R>) -> Seq<R> {
    match released {
        Some(lock) => released_locks.push(lock),
        None => released_locks,
    }
}

impl<T: StorageTypes> CheckView<T> {
    /// A check that has just been started.
    pub open spec fn initial(ctx: T::Context, keys: Seq<T::Key>, start_ts: TimeStamp) -> Self {
        CheckView {
            ctx,
            keys,
            start_ts,
            position: 0,
            lock_infos: Seq::empty(),
            released_locks: Seq::empty(),
            result_size: 0,
            phase: Phase::UpdateMaxTs,
        }
    }

    /// Whether the pending call is about the key at `position`.
    pub open spec fn has_key(self) -> bool {
        &&& !(self.phase is UpdateMaxTs)
        &&& !(self.phase is OpenTxn)
        &&& !(self.phase is RecordNetworkOutBytes)
        &&& !(self.phase is CloseTxn)
    }

    /// Whether no pessimistic lock has been released yet.
    pub open spec fn holds_locks(self) -> bool {
        match self.phase {
            Phase::UpdateMaxTs => true,
            Phase::OpenTxn => true,
            Phase::LoadLock => true,
            Phase::ReadRecordOfUnlocked { .. } => true,
            Phase::ReadRecordOfLocked { lock } => lock.pessimistic_with_conflict,
            Phase::UnlockBeforeRecord { .. } => true,
            Phase::UnlockBeforeRollback { .. } => true,
            Phase::UnlockBeforeVerdict { .. } => true,
            Phase::MarkRollback { .. } => true,
            Phase::IntoLockInfo => true,
            Phase::RecordNetworkOutBytes { verdict } => verdict == Verdict::Locked,
            Phase::CloseTxn { verdict } => verdict == Verdict::Locked,
            _ => false,
        }
    }

    /// The states that a check can be in.
    pub open spec fn wf(self) -> bool {
        &&& 0 <= self.position <= self.keys.len() <= usize::MAX
        &&& self.has_key() ==> self.position < self.keys.len()
        &&& self.phase is UpdateMaxTs || self.phase is OpenTxn ==> self.position == 0
        &&& self.lock_infos.len() == self.position
        &&& self.released_locks.len() <= 1
        &&& self.holds_locks() ==> self.released_locks.len() == 0
        &&& 0 <= self.result_size <= u64::MAX
        &&& match self.phase {
            Phase::ReadRecordOfUnlocked { mismatch_lock: Some(lock) } => lock.ts != self.start_ts,
            Phase::ReadRecordOfLocked { lock } => {
                &&& lock.wf()
                &&& lock.pessimistic
                &&& lock.ts == self.start_ts
            },
            Phase::UnlockBeforeRecord { lock } => {
                &&& lock.pessimistic
                &&& !lock.pessimistic_with_conflict
                &&& lock.ts == self.start_ts
            },
            Phase::UnlockBeforeVerdict { verdict } => verdict != Verdict::Locked,
            Phase::RecordNetworkOutBytes { verdict } | Phase::CloseTxn { verdict } => {
                verdict == Verdict::Locked <==> self.position == self.keys.len()
            },
            _ => true,
        }
    }

    /// Whether the pending call can reply so.
    ///
    /// A lock of the transaction that was acquired in spite of a conflict is pessimistic. A
    /// transaction whose pessimistic lock was acquired without a conflict has no commit record.
    /// The total size of the lock descriptions fits its type.
    pub open spec fn expects(self, reply: Reply<T>) -> bool {
        match (self.phase, reply) {
            (Phase::UpdateMaxTs, Reply::Done) => true,
            (Phase::UpdateMaxTs, Reply::Failed(_)) => true,
            (Phase::OpenTxn, Reply::Done) => true,
            (Phase::LoadLock, Reply::LockLoaded(loaded)) => {
                own_lock(loaded, self.start_ts) matches Some(lock) ==> lock.wf()
            },
            (Phase::LoadLock, Reply::Failed(_)) => true,
            (Phase::ReadRecordOfUnlocked { .. }, Reply::Record(_)) => true,
            (Phase::ReadRecordOfUnlocked { .. }, Reply::Failed(_)) => true,
            (Phase::ReadRecordOfLocked { lock }, Reply::Record(record)) => {
                lock.pessimistic_with_conflict || record is NotFound
            },
            (Phase::ReadRecordOfLocked { .. }, Reply::Failed(_)) => true,
            (Phase::UnlockBeforeRecord { .. }, Reply::Released(_)) => true,
            (Phase::UnlockBeforeRollback { .. }, Reply::Released(_)) => true,
            (Phase::UnlockBeforeVerdict { .. }, Reply::Released(_)) => true,
            (Phase::MarkRollback { .. }, Reply::Done) => true,
            (Phase::MakeRollback, Reply::RollbackMade(_)) => true,
            (Phase::PutWrite, Reply::Done) => true,
            (Phase::CollapsePrevRollback, Reply::Done) => true,
            (Phase::CollapsePrevRollback, Reply::Failed(_)) => true,
            (Phase::IntoLockInfo, Reply::LockInfo { size, .. }) => {
                self.result_size + size <= u64::MAX
            },
            (Phase::IntoLockInfo, Reply::Failed(_)) => true,
            (Phase::RecordNetworkOutBytes { .. }, Reply::Done) => true,
            (Phase::CloseTxn { .. }, Reply::TxnClosed { .. }) => true,
            _ => false,
        }
    }

    /// Wait for the call.
    pub open spec fn call(self, phase: Phase<T>, call: Call<T>) -> StepView<T> {
        StepView::Call(CheckView { phase, ..self }, call)
    }

    /// Open the transaction and the reader.
    pub open spec fn open_txn(self) -> StepView<T> {
        self.call(Phase::OpenTxn, Call::OpenTxn { start_ts: self.start_ts })
    }

    /// Look at the key at `position`, if there is one.
    pub open spec fn load_lock(self) -> StepView<T> {
        if self.position < self.keys.len() {
            self.call(Phase::LoadLock, Call::LoadLock)
        } else {
            self.conclude(Verdict::Locked)
        }
    }

    /// Release the pessimistic lock on the key.
    pub open spec fn unlock(self, phase: Phase<T>) -> StepView<T> {
        self.call(phase, Call::UnlockKey { pessimistic: true, commit_ts: TimeStamp(0) })
    }

    /// The check with the lock that the unlocked key had.
    pub open spec fn released(self, released: Option<T::ReleasedLock>) -> Self {
        CheckView { released_locks: push_released(self.released_locks, released), ..self }
    }

    /// Make a protected rollback of the transaction.
    pub open spec fn make_rollback(self, overlapped_write: Option<T::OverlappedWrite>) -> StepView<
        T,
    > {
        self.call(
            Phase::MakeRollback,
            Call::MakeRollback { start_ts: self.start_ts, protected: true, overlapped_write },
        )
    }

    /// Look at no further key.
    pub open spec fn conclude(self, verdict: Verdict) -> StepView<T> {
        self.call(
            Phase::RecordNetworkOutBytes { verdict },
            Call::RecordNetworkOutBytes { bytes: self.result_size as u64 },
        )
    }

    /// What is decided once the lock on the key is known.
    pub open spec fn lock_loaded(self, loaded: Option<LoadedLock<T>>) -> StepView<T> {
        match own_lock(loaded, self.start_ts) {
            Some(lock) => if !lock.pessimistic {
                self.call(Phase::IntoLockInfo, Call::IntoLockInfo { lock })
            } else if lock.pessimistic_with_conflict {
                self.call(Phase::ReadRecordOfLocked { lock }, Call::GetTxnCommitRecord)
            } else {
                self.unlock(Phase::UnlockBeforeRecord { lock })
            },
            None => self.call(
                Phase::ReadRecordOfUnlocked { mismatch_lock: mismatch_lock(loaded, self.start_ts) },
                Call::GetTxnCommitRecord,
            ),
        }
    }

    /// What is decided once the commit record on a key without a lock of the transaction is known.
    pub open spec fn record_of_unlocked(
        self,
        mismatch_lock: Option<Lock<T>>,
        record: TxnCommitRecord<T>,
    ) -> StepView<T> {
        if !(record is NotFound) {
            self.conclude(determined_verdict(record))
        } else {
            match mismatch_lock {
                Some(lock) => self.call(
                    Phase::MarkRollback { overlapped_write: overlapped_write(record) },
                    Call::MarkRollbackOnMismatchingLock { lock, is_protected: true },
                ),
                None => self.make_rollback(overlapped_write(record)),
            }
        }
    }

    /// What is decided once the commit record on a key with a pessimistic lock is known.
    pub open spec fn record_of_locked(
        self,
        lock: Lock<T>,
        record: TxnCommitRecord<T>,
    ) -> StepView<T> {
        if !lock.pessimistic_with_conflict {
            self.make_rollback(overlapped_write(record))
        } else if record is NotFound {
            self.unlock(Phase::UnlockBeforeRollback { overlapped_write: overlapped_write(record) })
        } else {
            self.unlock(Phase::UnlockBeforeVerdict { verdict: determined_verdict(record) })
        }
    }

    /// What the client is answered.
    pub open spec fn status(self, verdict: Verdict) -> SecondaryLocksStatusView<T::LockInfo> {
        match verdict {
            Verdict::Locked => SecondaryLocksStatusView::Locked(self.lock_infos),
            Verdict::Committed(ts) => SecondaryLocksStatusView::Committed(ts),
            Verdict::RolledBack => SecondaryLocksStatusView::RolledBack,
        }
    }

    /// What a finished check hands out.
    pub open spec fn result(
        self,
        verdict: Verdict,
        new_acquired_locks: T::NewLocks,
        modifies: T::Modifies,
    ) -> WriteResultView<T> {
        WriteResultView {
            ctx: self.ctx,
            to_be_write: WriteData { modifies, allowed_on_disk_almost_full: true },
            rows: if verdict == Verdict::RolledBack { 1 } else { 0 },
            status: self.status(verdict),
            lock_info: Seq::empty(),
            released_locks: self.released_locks,
            new_acquired_locks,
            lock_guards: Seq::empty(),
            response_policy: ResponsePolicy::OnApplied,
            known_txn_status: match verdict {
                Verdict::Committed(commit_ts) => seq![(self.start_ts, commit_ts)],
                _ => seq![],
            },
        }
    }

    /// What is to be done after the pending call has replied.
    pub open spec fn resume(self, reply: Reply<T>) -> StepView<T>
        recommends
            self.expects(reply),
    {
        match (self.phase, reply) {
            (_, Reply::Failed(error)) => StepView::Return(Err(error)),
            (Phase::UpdateMaxTs, _) => self.open_txn(),
            (Phase::OpenTxn, _) => self.load_lock(),
            (Phase::LoadLock, Reply::LockLoaded(loaded)) => self.lock_loaded(loaded),
            (Phase::ReadRecordOfUnlocked { mismatch_lock }, Reply::Record(record)) => {
                self.record_of_unlocked(mismatch_lock, record)
            },
            (Phase::ReadRecordOfLocked { lock }, Reply::Record(record)) => {
                self.record_of_locked(lock, record)
            },
            (Phase::UnlockBeforeRecord { lock }, Reply::Released(released)) => {
                self.released(released).call(
                    Phase::ReadRecordOfLocked { lock },
                    Call::GetTxnCommitRecord,
                )
            },
            (Phase::UnlockBeforeRollback { overlapped_write }, Reply::Released(released)) => {
                self.released(released).make_rollback(overlapped_write)
            },
            (Phase::UnlockBeforeVerdict { verdict }, Reply::Released(released)) => {
                self.released(released).conclude(verdict)
            },
            (Phase::MarkRollback { overlapped_write }, _) => self.make_rollback(overlapped_write),
            (Phase::MakeRollback, Reply::RollbackMade(Some(write))) => {
                self.call(Phase::PutWrite, Call::PutWrite { ts: self.start_ts, write })
            },
            (Phase::MakeRollback, _) => self.conclude(Verdict::RolledBack),
            (Phase::PutWrite, _) => {
                self.call(Phase::CollapsePrevRollback, Call::CollapsePrevRollback)
            },
            (Phase::CollapsePrevRollback, _) => self.conclude(Verdict::RolledBack),
            (Phase::IntoLockInfo, Reply::LockInfo { info, size }) => {
                CheckView {
                    position: self.position + 1,
                    lock_infos: self.lock_infos.push(info),
                    result_size: self.result_size + size,
                    ..self
                }.load_lock()
            },
            (Phase::RecordNetworkOutBytes { verdict }, _) => {
                self.call(Phase::CloseTxn { verdict }, Call::CloseTxn)
            },
            (Phase::CloseTxn { verdict }, Reply::TxnClosed { new_acquired_locks, modifies }) => {
                StepView::Return(Ok(self.result(verdict, new_acquired_locks, modifies)))
            },
            _ => arbitrary(),
        }
    }
}

} // verus!
