//! The values that a check of secondary locks reads, and the types that it only carries.
use vstd::prelude::*;

verus! {

/// A timestamp of the transaction model. Zero means that there is none.
#[derive(Debug, Clone, Copy, PartialEq, Eq, PartialOrd, Ord, Hash, Structural)]
pub struct TimeStamp(pub u64);

impl TimeStamp {
    /// The timestamp with the given number.
    pub fn new(ts: u64) -> (result: TimeStamp)
        ensures
            result == TimeStamp(ts),
    {
        TimeStamp(ts)
    }

    /// The timestamp that stands for "none".
    pub fn zero() -> (result: TimeStamp)
        ensures
            result == TimeStamp(0),
    {
        TimeStamp(0)
    }
}

/// What a record of the write column family did to its key.
#[derive(Debug, Clone, Copy, PartialEq, Eq, Structural)]
pub enum WriteType {
    Put,
    Delete,
    Lock,
    Rollback,
}

/// The types of a storage that a check takes from one call into the storage and hands to the
/// next, or to its caller, without looking inside.
pub trait StorageTypes {
    /// The context of the request.
    type Context;

    /// A key, encoded as the storage keeps it.
    type Key;

    /// The part of a lock that a check does not read.
    type LockBody;

    /// A committed write whose commit timestamp is the start timestamp under check.
    type OverlappedWrite;

    /// A record for the write column family.
    type Write;

    /// A lock that an unlocked key had.
    type ReleasedLock;

    /// The description of a lock that is sent to the client.
    type LockInfo;

    /// A lock that stopped a write.
    type ConflictingLock;

    /// A guard of an in-memory lock.
    type LockGuard;

    /// The locks that a transaction has newly acquired.
    type NewLocks;

    /// The modifications that a transaction has gathered.
    type Modifies;

    /// What a failing call into the storage reports.
    type Error;
}

/// A lock on a key.
pub struct Lock<T: StorageTypes> {
    /// The start timestamp of the transaction that holds the lock.
    pub ts: TimeStamp,
    /// Whether the lock is pessimistic: acquired, but not yet prewritten.
    pub pessimistic: bool,
    /// Whether the lock is pessimistic and was acquired in spite of a write conflict.
    pub pessimistic_with_conflict: bool,
    /// The rest of the lock.
    pub body: T::LockBody,
}

impl<T: StorageTypes> Lock<T> {
    /// A lock acquired in spite of a conflict is a pessimistic lock.
    pub open spec fn wf(self) -> bool {
        self.pessimistic_with_conflict ==> self.pessimistic
    }

    /// Whether the lock is pessimistic.
    pub fn is_pessimistic_lock(&self) -> (result: bool)
        ensures
            result == self.pessimistic,
    {
        self.pessimistic
    }

    /// Whether the lock is pessimistic and was acquired in spite of a write conflict.
    pub fn is_pessimistic_lock_with_conflict(&self) -> (result: bool)
        ensures
            result == self.pessimistic_with_conflict,
    {
        self.pessimistic_with_conflict
    }
}

/// What the lock column family holds for a key that is locked.
pub enum LoadedLock<T: StorageTypes> {
    /// One lock of one transaction.
    Exclusive(Lock<T>),
    /// Locks that several transactions share. Async commit transactions write none of these.
    Shared,
}

/// What the write column family says of one transaction on one key.
pub enum TxnCommitRecord<T: StorageTypes> {
    /// The transaction has a record of its own, either a commit or a rollback.
    SingleRecord { commit_ts: TimeStamp, write_type: WriteType },
    /// The transaction was rolled back, which is noted on the record of another transaction.
    OverlappedRollback,
    /// There is no record of the transaction. `overlapped_write` is the record, if any, that is
    /// in the place where a rollback would be written.
    NotFound { overlapped_write: Option<T::OverlappedWrite> },
}

} // verus!
