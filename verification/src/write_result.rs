//! What a finished check hands out.
use vstd::prelude::*;

use crate::types::{StorageTypes, TimeStamp};

verus! {

/// The status of the transaction on all keys.
#[derive(Debug, PartialEq)]
pub enum SecondaryLocksStatus<I> {
    /// All prewritten locks are there; these are their descriptions.
    Locked(Vec<I>),
    /// The transaction was committed at this timestamp.
    Committed(TimeStamp),
    /// The transaction was rolled back.
    RolledBack,
}

/// A [`SecondaryLocksStatus`] with the descriptions as a sequence.
pub enum SecondaryLocksStatusView<I> {
    Locked(Seq<I>),
    Committed(TimeStamp),
    RolledBack,
}

impl<I> View for SecondaryLocksStatus<I> {
    type V = SecondaryLocksStatusView<I>;

    open spec fn view(&self) -> SecondaryLocksStatusView<I> {
        match self {
            SecondaryLocksStatus::Locked(infos) => SecondaryLocksStatusView::Locked(infos@),
            SecondaryLocksStatus::Committed(ts) => SecondaryLocksStatusView::Committed(*ts),
            SecondaryLocksStatus::RolledBack => SecondaryLocksStatusView::RolledBack,
        }
    }
}

/// When the client is answered.
#[derive(Debug, Clone, Copy, PartialEq, Eq, Structural)]
pub enum ResponsePolicy {
    /// When the write has been applied.
    OnApplied,
    /// When the write has been committed to the log.
    OnCommitted,
    /// When the write has been proposed.
    OnProposed,
}

/// What is to be written to the storage.
pub struct WriteData<M> {
    pub modifies: M,
    /// Whether the write goes through although the disk is almost full.
    pub allowed_on_disk_almost_full: bool,
}

/// What a finished check hands to the scheduler.
pub struct WriteResult<T: StorageTypes> {
    pub ctx: T::Context,
    pub to_be_write: WriteData<T::Modifies>,
    /// How many rows the write changes.
    pub rows: usize,
    /// What the client is answered.
    pub status: SecondaryLocksStatus<T::LockInfo>,
    /// The locks that stopped the write.
    pub lock_info: Vec<T::ConflictingLock>,
    pub released_locks: Vec<T::ReleasedLock>,
    pub new_acquired_locks: T::NewLocks,
    pub lock_guards: Vec<T::LockGuard>,
    pub response_policy: ResponsePolicy,
    /// The transactions known to be committed, by start and commit timestamp.
    pub known_txn_status: Vec<(TimeStamp, TimeStamp)>,
}

/// A [`WriteResult`] with its lists as sequences.
#[verifier::ext_equal]
pub struct WriteResultView<T: StorageTypes> {
    pub ctx: T::Context,
    pub to_be_write: WriteData<T::Modifies>,
    pub rows: usize,
    pub status: SecondaryLocksStatusView<T::LockInfo>,
    pub lock_info: Seq<T::ConflictingLock>,
    pub released_locks: Seq<T::ReleasedLock>,
    pub new_acquired_locks: T::NewLocks,
    pub lock_guards: Seq<T::LockGuard>,
    pub response_policy: ResponsePolicy,
    pub known_txn_status: Seq<(TimeStamp, TimeStamp)>,
}

impl<T: StorageTypes> View for WriteResult<T> {
    type V = WriteResultView<T>;

    open spec fn view(&self) -> WriteResultView<T> {
        WriteResultView {
            ctx: self.ctx,
            to_be_write: self.to_be_write,
            rows: self.rows,
            status: self.status@,
            lock_info: self.lock_info@,
            released_locks: self.released_locks@,
            new_acquired_locks: self.new_acquired_locks,
            lock_guards: self.lock_guards@,
            response_policy: self.response_policy,
            known_txn_status: self.known_txn_status@,
        }
    }
}

} // verus!
