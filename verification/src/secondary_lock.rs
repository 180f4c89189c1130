//! Judging a transaction on one key.
use vstd::prelude::*;

use crate::types::{LoadedLock, Lock, StorageTypes, TimeStamp, TxnCommitRecord, WriteType};

verus! {

/// The lock in `loaded`, if it belongs to the transaction that started at `start_ts`.
pub open spec fn own_lock<T: StorageTypes>(
    loaded: Option<LoadedLock<T>>,
    start_ts: TimeStamp,
) -> Option<Lock<T>> {
    match loaded {
        Some(LoadedLock::Exclusive(lock)) if lock.ts == start_ts => Some(lock),
        _ => None,
    }
}

/// The lock in `loaded`, if it belongs to one other transaction.
pub open spec fn mismatch_lock<T: StorageTypes>(
    loaded: Option<LoadedLock<T>>,
    start_ts: TimeStamp,
) -> Option<Lock<T>> {
    match loaded {
        Some(LoadedLock::Exclusive(lock)) if lock.ts != start_ts => Some(lock),
        _ => None,
    }
}

/// Every loaded lock is either the transaction's own or that of one other transaction, by its
/// timestamp alone, unless it is shared.
pub proof fn law_locks_are_told_apart_by_timestamp<T: StorageTypes>(
    lock: Lock<T>,
    start_ts: TimeStamp,
)
    ensures
        own_lock(Some(LoadedLock::Exclusive(lock)), start_ts) == if lock.ts == start_ts {
            Some(lock)
        } else {
            None
        },
        mismatch_lock(Some(LoadedLock::Exclusive(lock)), start_ts) == if lock.ts == start_ts {
            None
        } else {
            Some(lock)
        },
        own_lock::<T>(Some(LoadedLock::Shared), start_ts) is None,
        mismatch_lock::<T>(Some(LoadedLock::Shared), start_ts) is None,
        own_lock::<T>(None, start_ts) is None,
        mismatch_lock::<T>(None, start_ts) is None,
        lock.wf() <==> !lock.pessimistic_with_conflict || lock.pessimistic,
{
}

/// The status of the transaction on one key.
pub enum SecondaryLockStatus<T: StorageTypes> {
    /// The prewritten lock is there.
    Locked(Lock<T>),
    /// The transaction was committed at this timestamp.
    Committed(TimeStamp),
    /// The transaction was rolled back, or will never be committed from now on.
    RolledBack,
}

/// The status of the transaction on a key without a prewritten lock, by its commit record.
pub open spec fn determined_status<T: StorageTypes>(
    record: TxnCommitRecord<T>,
) -> SecondaryLockStatus<T> {
    match record {
        TxnCommitRecord::SingleRecord { commit_ts, write_type } if write_type
            != WriteType::Rollback => SecondaryLockStatus::Committed(commit_ts),
        _ => SecondaryLockStatus::RolledBack,
    }
}

/// The write that a rollback record would overlap with.
pub open spec fn overlapped_write<T: StorageTypes>(record: TxnCommitRecord<T>) -> Option<
    T::OverlappedWrite,
> {
    match record {
        TxnCommitRecord::NotFound { overlapped_write } => overlapped_write,
        _ => None,
    }
}

/// Judges a transaction on a key without a prewritten lock by its commit record.
///
/// The returned `bool` indicates whether the rollback record should be written: it is true if
/// and only if the commit record is not found. The last value is the write that this rollback
/// record overlaps with.
pub fn check_determined_txn_status<T: StorageTypes>(record: TxnCommitRecord<T>) -> (result: (
    SecondaryLockStatus<T>,
    bool,
    Option<T::OverlappedWrite>,
))
    ensures
        result.0 == determined_status(record),
        result.1 <==> record is NotFound,
        result.2 == overlapped_write(record),
        match record {
            TxnCommitRecord::SingleRecord { commit_ts, write_type } => {
                &&& write_type != WriteType::Rollback ==> result.0 == SecondaryLockStatus::<
                    T,
                >::Committed(commit_ts)
                &&& write_type == WriteType::Rollback ==> result.0 is RolledBack
                &&& result.2 is None
            },
            TxnCommitRecord::OverlappedRollback => result.0 is RolledBack && result.2 is None,
            TxnCommitRecord::NotFound { overlapped_write } => {
                &&& result.0 is RolledBack
                &&& result.2 == overlapped_write
            },
        },
{
    match record {
        TxnCommitRecord::SingleRecord { commit_ts, write_type } => {
            let status = if write_type != WriteType::Rollback {
                SecondaryLockStatus::Committed(commit_ts)
            } else {
                SecondaryLockStatus::RolledBack
            };
            // We needn't write a rollback once there is a write record for it:
            // If it's a committed record, it cannot be changed.
            // If it's a rollback record, it either comes from another check (thus protected) or
            // the client stops commit actively. So we don't need to make it protected again.
            (status, false, None)
        },
        TxnCommitRecord::OverlappedRollback => (SecondaryLockStatus::RolledBack, false, None),
        TxnCommitRecord::NotFound { overlapped_write } => {
            (SecondaryLockStatus::RolledBack, true, overlapped_write)
        },
    }
}

/// Judges a transaction on a key that it has locked itself.
///
/// `record` is the commit record of the transaction, which is read if and only if the lock is
/// pessimistic; such a lock is released in any case. If it was acquired without a conflict, the
/// transaction cannot have a commit record yet.
pub fn check_status_from_lock<T: StorageTypes>(
    lock: Lock<T>,
    record: Option<TxnCommitRecord<T>>,
) -> (result: (SecondaryLockStatus<T>, bool, Option<T::OverlappedWrite>))
    requires
        lock.wf(),
        record is Some <==> lock.pessimistic,
        lock.pessimistic && !lock.pessimistic_with_conflict ==> record->0 is NotFound,
    ensures
        !lock.pessimistic ==> result == (
            SecondaryLockStatus::Locked(lock),
            false,
            None::<T::OverlappedWrite>,
        ),
        lock.pessimistic ==> result == (
            determined_status(record->0),
            record->0 is NotFound,
            overlapped_write(record->0),
        ),
        lock.pessimistic ==> match record->0 {
            TxnCommitRecord::SingleRecord { commit_ts, write_type } => {
                &&& write_type != WriteType::Rollback ==> result.0 == SecondaryLockStatus::<
                    T,
                >::Committed(commit_ts)
                &&& write_type == WriteType::Rollback ==> result.0 is RolledBack
                &&& result.2 is None
            },
            TxnCommitRecord::OverlappedRollback => result.0 is RolledBack && result.2 is None,
            TxnCommitRecord::NotFound { overlapped_write } => {
                &&& result.0 is RolledBack
                &&& result.2 == overlapped_write
            },
        },
{
    match record {
        Some(record) => {
            if lock.is_pessimistic_lock_with_conflict() {
                // If there is a commit or rollback record, the pessimistic lock is stale. In this
                // case no rollback is needed.
                check_determined_txn_status(record)
            } else {
                (SecondaryLockStatus::RolledBack, true, unwrap_none(record))
            }
        },
        None => (SecondaryLockStatus::Locked(lock), false, None),
    }
}

/// The write that a rollback overlaps with, of a transaction known to have no commit record.
fn unwrap_none<T: StorageTypes>(record: TxnCommitRecord<T>) -> (result: Option<T::OverlappedWrite>)
    requires
        record is NotFound,
    ensures
        result == overlapped_write(record),
{
    match record {
        TxnCommitRecord::NotFound { overlapped_write } => overlapped_write,
        _ => None,
    }
}

} // verus!
