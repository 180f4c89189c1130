//! How the state of a check follows from the exchanges behind it.
use vstd::prelude::*;

use crate::dialogue::{leads_to, lemma_leads_to_concat, Exchange};
use crate::laws::first_step;
use crate::protocol::{Call, CheckView, Phase, Reply, StepView, Verdict};
use crate::types::{LoadedLock, Lock, StorageTypes, TimeStamp, TxnCommitRecord, WriteType};
use crate::write_result::{ResponsePolicy, SecondaryLocksStatusView, WriteData, WriteResultView};

verus! {

/// The total size of the descriptions in the replies.
pub(crate) open spec fn described_size<T: StorageTypes>(dialogue: Seq<Exchange<T>>) -> int
    decreases dialogue.len(),
{
    if dialogue.len() == 0 {
        0
    } else {
        described_size(dialogue.drop_last()) + match dialogue.last().reply {
            Reply::LockInfo { size, .. } => size as int,
            _ => 0,
        }
    }
}

/// The index of the loading of the lock on the key at `p`.
pub(crate) open spec fn load_at(p: int) -> int {
    2 + 2 * p
}

/// The lock that is loaded at `p`.
pub(crate) open spec fn loaded_at<T: StorageTypes>(
    dialogue: Seq<Exchange<T>>,
    p: int,
) -> Option<LoadedLock<T>> {
    dialogue[load_at(p)].reply->LockLoaded_0
}

/// Whether the lock on the key at `p` is loaded where it should be.
pub(crate) open spec fn loads<T: StorageTypes>(dialogue: Seq<Exchange<T>>, p: int) -> bool {
    &&& load_at(p) < dialogue.len()
    &&& dialogue[load_at(p)].position == p
    &&& dialogue[load_at(p)].call is LoadLock
    &&& dialogue[load_at(p)].reply is LockLoaded
}

/// Whether this is one lock of the transaction.
pub(crate) open spec fn is_own<T: StorageTypes>(
    loaded: Option<LoadedLock<T>>,
    start_ts: TimeStamp,
) -> bool {
    loaded matches Some(LoadedLock::Exclusive(lock)) && lock.ts == start_ts
}

/// Whether this is one lock of another transaction.
pub(crate) open spec fn is_other<T: StorageTypes>(
    loaded: Option<LoadedLock<T>>,
    start_ts: TimeStamp,
) -> bool {
    loaded matches Some(LoadedLock::Exclusive(lock)) && lock.ts != start_ts
}

/// The only lock.
pub(crate) open spec fn the_lock<T: StorageTypes>(loaded: Option<LoadedLock<T>>) -> Lock<T> {
    loaded->0->Exclusive_0
}

/// Whether the key at `q` is locked and described where it should be.
pub(crate) open spec fn describes<T: StorageTypes>(
    dialogue: Seq<Exchange<T>>,
    q: int,
    start_ts: TimeStamp,
    lock_infos: Seq<T::LockInfo>,
) -> bool {
    let described = dialogue[load_at(q) + 1];
    &&& loads(dialogue, q)
    &&& is_own(loaded_at(dialogue, q), start_ts)
    &&& !the_lock(loaded_at(dialogue, q)).pessimistic
    &&& described.position == q
    &&& described.call == (Call::<T>::IntoLockInfo { lock: the_lock(loaded_at(dialogue, q)) })
    &&& described.reply is LockInfo
    &&& described.reply->info == lock_infos[q]
}

/// Whether the dialogue opens the transaction and then describes the locks on the first keys.
pub(crate) open spec fn describes_all<T: StorageTypes>(
    dialogue: Seq<Exchange<T>>,
    p: int,
    start_ts: TimeStamp,
    lock_infos: Seq<T::LockInfo>,
) -> bool {
    &&& 0 <= p == lock_infos.len()
    &&& load_at(p) <= dialogue.len()
    &&& dialogue[0] == (Exchange::<T> {
        position: 0,
        call: Call::UpdateMaxTs { start_ts },
        reply: Reply::Done,
    })
    &&& dialogue[1] == (Exchange::<T> {
        position: 0,
        call: Call::OpenTxn { start_ts },
        reply: Reply::Done,
    })
    &&& forall|q: int| 0 <= q < p ==> #[trigger] describes(dialogue, q, start_ts, lock_infos)
}

/// Whether the exchange releases the lock on the key at `p`.
pub(crate) open spec fn unlocks<T: StorageTypes>(
    exchange: Exchange<T>,
    p: int,
    released_locks: Seq<T::ReleasedLock>,
) -> bool {
    &&& exchange.position == p
    &&& exchange.call == (Call::<T>::UnlockKey { pessimistic: true, commit_ts: TimeStamp(0) })
    &&& exchange.reply is Released
    &&& match exchange.reply->Released_0 {
        Some(lock) => released_locks == seq![lock],
        None => released_locks.len() == 0,
    }
}

/// Whether the exchange reads the commit record on the key at `p`.
pub(crate) open spec fn reads<T: StorageTypes>(exchange: Exchange<T>, p: int) -> bool {
    &&& exchange.position == p
    &&& exchange.call is GetTxnCommitRecord
    &&& exchange.reply is Record
}

/// The index of the reading of the commit record on the key at `p`.
pub(crate) open spec fn record_at<T: StorageTypes>(
    dialogue: Seq<Exchange<T>>,
    p: int,
    start_ts: TimeStamp,
) -> int {
    let loaded = loaded_at(dialogue, p);
    if is_own(loaded, start_ts) && !the_lock(loaded).pessimistic_with_conflict {
        load_at(p) + 2
    } else {
        load_at(p) + 1
    }
}

/// The commit record on the key at `p`.
pub(crate) open spec fn record_of<T: StorageTypes>(
    dialogue: Seq<Exchange<T>>,
    p: int,
    start_ts: TimeStamp,
) -> TxnCommitRecord<T> {
    dialogue[record_at(dialogue, p, start_ts)].reply->Record_0
}

/// The index behind the exchanges that tell the status on the key at `p`.
pub(crate) open spec fn status_end<T: StorageTypes>(
    dialogue: Seq<Exchange<T>>,
    p: int,
    start_ts: TimeStamp,
) -> int {
    if is_own(loaded_at(dialogue, p), start_ts) {
        load_at(p) + 3
    } else {
        load_at(p) + 2
    }
}

/// Whether the dialogue holds the exchanges that tell the status on the key at `p`.
pub(crate) open spec fn tells_status<T: StorageTypes>(
    dialogue: Seq<Exchange<T>>,
    p: int,
    start_ts: TimeStamp,
    released_locks: Seq<T::ReleasedLock>,
) -> bool {
    let loaded = loaded_at(dialogue, p);
    &&& loads(dialogue, p)
    &&& status_end(dialogue, p, start_ts) <= dialogue.len()
    &&& reads(dialogue[record_at(dialogue, p, start_ts)], p)
    &&& if is_own(loaded, start_ts) {
        &&& the_lock(loaded).pessimistic
        &&& if the_lock(loaded).pessimistic_with_conflict {
            unlocks(dialogue[load_at(p) + 2], p, released_locks)
        } else {
            &&& unlocks(dialogue[load_at(p) + 1], p, released_locks)
            &&& record_of(dialogue, p, start_ts) is NotFound
        }
    } else {
        released_locks.len() == 0
    }
}

/// The index of the making of the rollback on the key at `p`.
pub(crate) open spec fn make_at<T: StorageTypes>(
    dialogue: Seq<Exchange<T>>,
    p: int,
    start_ts: TimeStamp,
) -> int {
    status_end(dialogue, p, start_ts) + if is_other(loaded_at(dialogue, p), start_ts) {
        1int
    } else {
        0
    }
}

/// Whether the dialogue goes on to where the rollback on the key at `p` is made.
pub(crate) open spec fn marks<T: StorageTypes>(
    dialogue: Seq<Exchange<T>>,
    p: int,
    start_ts: TimeStamp,
    released_locks: Seq<T::ReleasedLock>,
) -> bool {
    let loaded = loaded_at(dialogue, p);
    &&& tells_status(dialogue, p, start_ts, released_locks)
    &&& record_of(dialogue, p, start_ts) is NotFound
    &&& make_at(dialogue, p, start_ts) <= dialogue.len()
    &&& is_other(loaded, start_ts) ==> dialogue[status_end(dialogue, p, start_ts)] == (Exchange::<
        T,
    > {
        position: p,
        call: Call::MarkRollbackOnMismatchingLock { lock: the_lock(loaded), is_protected: true },
        reply: Reply::Done,
    })
}

/// The call that makes the rollback on the key at `p`.
pub(crate) open spec fn make_call<T: StorageTypes>(
    dialogue: Seq<Exchange<T>>,
    p: int,
    start_ts: TimeStamp,
) -> Call<T> {
    Call::MakeRollback {
        start_ts,
        protected: true,
        overlapped_write: record_of(dialogue, p, start_ts)->overlapped_write,
    }
}

/// Whether the dialogue makes the rollback on the key at `p`.
pub(crate) open spec fn makes<T: StorageTypes>(
    dialogue: Seq<Exchange<T>>,
    p: int,
    start_ts: TimeStamp,
    released_locks: Seq<T::ReleasedLock>,
) -> bool {
    let make = dialogue[make_at(dialogue, p, start_ts)];
    &&& marks(dialogue, p, start_ts, released_locks)
    &&& make_at(dialogue, p, start_ts) < dialogue.len()
    &&& make.position == p
    &&& make.call == make_call(dialogue, p, start_ts)
    &&& make.reply is RollbackMade
}

/// The rollback record that was made for the key at `p`.
pub(crate) open spec fn made_at<T: StorageTypes>(
    dialogue: Seq<Exchange<T>>,
    p: int,
    start_ts: TimeStamp,
) -> Option<T::Write> {
    dialogue[make_at(dialogue, p, start_ts)].reply->RollbackMade_0
}

/// Whether the dialogue puts the rollback on the key at `p`.
pub(crate) open spec fn puts<T: StorageTypes>(
    dialogue: Seq<Exchange<T>>,
    p: int,
    start_ts: TimeStamp,
    released_locks: Seq<T::ReleasedLock>,
) -> bool {
    let next = make_at(dialogue, p, start_ts) + 1;
    &&& makes(dialogue, p, start_ts, released_locks)
    &&& made_at(dialogue, p, start_ts) is Some
    &&& next < dialogue.len()
    &&& dialogue[next] == (Exchange::<T> {
        position: p,
        call: Call::PutWrite { ts: start_ts, write: made_at(dialogue, p, start_ts)->0 },
        reply: Reply::Done,
    })
}

/// The verdict by the commit record.
pub(crate) open spec fn verdict_by<T: StorageTypes>(record: TxnCommitRecord<T>) -> Verdict {
    match record {
        TxnCommitRecord::SingleRecord { commit_ts, write_type } => if write_type
            == WriteType::Rollback {
            Verdict::RolledBack
        } else {
            Verdict::Committed(commit_ts)
        },
        _ => Verdict::RolledBack,
    }
}

/// Whether the first `m` exchanges are all those before the closing ones.
pub(crate) open spec fn decides<T: StorageTypes>(
    dialogue: Seq<Exchange<T>>,
    m: int,
    n: nat,
    p: int,
    start_ts: TimeStamp,
    released_locks: Seq<T::ReleasedLock>,
    verdict: Verdict,
) -> bool {
    if verdict == Verdict::Locked {
        &&& p == n
        &&& m == load_at(p)
        &&& released_locks.len() == 0
    } else {
        &&& p < n
        &&& tells_status(dialogue, p, start_ts, released_locks)
        &&& verdict == verdict_by(record_of(dialogue, p, start_ts))
        &&& if record_of(dialogue, p, start_ts) is NotFound {
            &&& makes(dialogue, p, start_ts, released_locks)
            &&& if made_at(dialogue, p, start_ts) is Some {
                &&& puts(dialogue, p, start_ts, released_locks)
                &&& m == make_at(dialogue, p, start_ts) + 3
                &&& m <= dialogue.len()
                &&& dialogue[m - 1] == (Exchange::<T> {
                    position: p,
                    call: Call::CollapsePrevRollback,
                    reply: Reply::Done,
                })
            } else {
                m == make_at(dialogue, p, start_ts) + 1
            }
        } else {
            m == status_end(dialogue, p, start_ts)
        }
    }
}

/// Whether the check, which waits for the call, is in the state in which the exchanges behind it
/// leave it.
pub(crate) open spec fn history<T: StorageTypes>(
    n: nat,
    start_ts: TimeStamp,
    dialogue: Seq<Exchange<T>>,
    check: CheckView<T>,
    call: Call<T>,
) -> bool {
    let p = check.position;
    let released_locks = check.released_locks;
    let loaded = loaded_at(dialogue, p);
    let record = record_of(dialogue, p, start_ts);
    &&& check.start_ts == start_ts
    &&& check.result_size == described_size(dialogue)
    &&& 0 <= check.result_size <= u64::MAX
    &&& match check.phase {
        Phase::UpdateMaxTs => {
            &&& dialogue.len() == 0
            &&& p == 0
            &&& check.lock_infos.len() == 0
            &&& released_locks.len() == 0
            &&& call == (Call::<T>::UpdateMaxTs { start_ts })
        },
        Phase::OpenTxn => {
            &&& dialogue.len() == 1
            &&& dialogue[0] == (Exchange::<T> {
                position: 0,
                call: Call::UpdateMaxTs { start_ts },
                reply: Reply::Done,
            })
            &&& p == 0
            &&& check.lock_infos.len() == 0
            &&& released_locks.len() == 0
            &&& call == (Call::<T>::OpenTxn { start_ts })
        },
        _ => {
            &&& describes_all(dialogue, p, start_ts, check.lock_infos)
            &&& match check.phase {
                Phase::RecordNetworkOutBytes { verdict } => {
                    &&& decides(
                        dialogue,
                        dialogue.len() as int,
                        n,
                        p,
                        start_ts,
                        released_locks,
                        verdict,
                    )
                    &&& call == (Call::<T>::RecordNetworkOutBytes {
                        bytes: described_size(dialogue) as u64,
                    })
                },
                Phase::CloseTxn { verdict } => {
                    &&& dialogue.len() > 0
                    &&& decides(
                        dialogue,
                        dialogue.len() - 1,
                        n,
                        p,
                        start_ts,
                        released_locks,
                        verdict,
                    )
                    &&& dialogue.last() == (Exchange::<T> {
                        position: p,
                        call: Call::RecordNetworkOutBytes {
                            bytes: described_size(dialogue) as u64,
                        },
                        reply: Reply::Done,
                    })
                    &&& call is CloseTxn
                },
                Phase::LoadLock => {
                    &&& p < n
                    &&& dialogue.len() == load_at(p)
                    &&& released_locks.len() == 0
                    &&& call is LoadLock
                },
                _ => {
                    &&& p < n
                    &&& loads(dialogue, p)
                    &&& match check.phase {
                        Phase::IntoLockInfo => {
                            &&& dialogue.len() == load_at(p) + 1
                            &&& is_own(loaded, start_ts)
                            &&& !the_lock(loaded).pessimistic
                            &&& released_locks.len() == 0
                            &&& call == (Call::<T>::IntoLockInfo { lock: the_lock(loaded) })
                        },
                        Phase::ReadRecordOfUnlocked { mismatch_lock } => {
                            &&& dialogue.len() == load_at(p) + 1
                            &&& !is_own(loaded, start_ts)
                            &&& mismatch_lock == if is_other(loaded, start_ts) {
                                Some(the_lock(loaded))
                            } else {
                                None
                            }
                            &&& released_locks.len() == 0
                            &&& call is GetTxnCommitRecord
                        },
                        Phase::UnlockBeforeRecord { lock } => {
                            &&& dialogue.len() == load_at(p) + 1
                            &&& is_own(loaded, start_ts)
                            &&& lock == the_lock(loaded)
                            &&& lock.pessimistic
                            &&& !lock.pessimistic_with_conflict
                            &&& released_locks.len() == 0
                            &&& call == (Call::<T>::UnlockKey {
                                pessimistic: true,
                                commit_ts: TimeStamp(0),
                            })
                        },
                        Phase::ReadRecordOfLocked { lock } => {
                            &&& is_own(loaded, start_ts)
                            &&& lock == the_lock(loaded)
                            &&& lock.pessimistic
                            &&& if lock.pessimistic_with_conflict {
                                &&& dialogue.len() == load_at(p) + 1
                                &&& released_locks.len() == 0
                            } else {
                                &&& dialogue.len() == load_at(p) + 2
                                &&& unlocks(dialogue[load_at(p) + 1], p, released_locks)
                            }
                            &&& call is GetTxnCommitRecord
                        },
                        Phase::UnlockBeforeRollback { overlapped_write } => {
                            &&& dialogue.len() == load_at(p) + 2
                            &&& is_own(loaded, start_ts)
                            &&& the_lock(loaded).pessimistic
                            &&& the_lock(loaded).pessimistic_with_conflict
                            &&& reads(dialogue[load_at(p) + 1], p)
                            &&& record is NotFound
                            &&& overlapped_write == record->overlapped_write
                            &&& released_locks.len() == 0
                            &&& call == (Call::<T>::UnlockKey {
                                pessimistic: true,
                                commit_ts: TimeStamp(0),
                            })
                        },
                        Phase::UnlockBeforeVerdict { verdict } => {
                            &&& dialogue.len() == load_at(p) + 2
                            &&& is_own(loaded, start_ts)
                            &&& the_lock(loaded).pessimistic
                            &&& the_lock(loaded).pessimistic_with_conflict
                            &&& reads(dialogue[load_at(p) + 1], p)
                            &&& !(record is NotFound)
                            &&& verdict == verdict_by(record)
                            &&& released_locks.len() == 0
                            &&& call == (Call::<T>::UnlockKey {
                                pessimistic: true,
                                commit_ts: TimeStamp(0),
                            })
                        },
                        Phase::MarkRollback { overlapped_write } => {
                            &&& dialogue.len() == load_at(p) + 2
                            &&& is_other(loaded, start_ts)
                            &&& reads(dialogue[load_at(p) + 1], p)
                            &&& record is NotFound
                            &&& overlapped_write == record->overlapped_write
                            &&& released_locks.len() == 0
                            &&& call == (Call::<T>::MarkRollbackOnMismatchingLock {
                                lock: the_lock(loaded),
                                is_protected: true,
                            })
                        },
                        Phase::MakeRollback => {
                            &&& marks(dialogue, p, start_ts, released_locks)
                            &&& dialogue.len() == make_at(dialogue, p, start_ts)
                            &&& call == make_call(dialogue, p, start_ts)
                        },
                        Phase::PutWrite => {
                            &&& makes(dialogue, p, start_ts, released_locks)
                            &&& made_at(dialogue, p, start_ts) is Some
                            &&& dialogue.len() == make_at(dialogue, p, start_ts) + 1
                            &&& call == (Call::<T>::PutWrite {
                                ts: start_ts,
                                write: made_at(dialogue, p, start_ts)->0,
                            })
                        },
                        Phase::CollapsePrevRollback => {
                            &&& puts(dialogue, p, start_ts, released_locks)
                            &&& dialogue.len() == make_at(dialogue, p, start_ts) + 2
                            &&& call is CollapsePrevRollback
                        },
                        _ => false,
                    }
                },
            }
        },
    }
}

/// Whether these are the exchanges of a check that came to a result, and this is the result.
pub(crate) open spec fn finishes<T: StorageTypes>(
    n: nat,
    ctx: T::Context,
    start_ts: TimeStamp,
    dialogue: Seq<Exchange<T>>,
    p: int,
    lock_infos: Seq<T::LockInfo>,
    verdict: Verdict,
    result: WriteResultView<T>,
) -> bool {
    let m = dialogue.len() - 2;
    let closed = dialogue.last();
    &&& dialogue.len() >= 2
    &&& describes_all(dialogue, p, start_ts, lock_infos)
    &&& decides(dialogue, m, n, p, start_ts, result.released_locks, verdict)
    &&& load_at(p) <= m
    &&& dialogue[m] == (Exchange::<T> {
        position: p,
        call: Call::RecordNetworkOutBytes { bytes: described_size(dialogue) as u64 },
        reply: Reply::Done,
    })
    &&& 0 <= described_size(dialogue) <= u64::MAX
    &&& closed.position == p
    &&& closed.call is CloseTxn
    &&& closed.reply is TxnClosed
    &&& result.ctx == ctx
    &&& result.to_be_write == (WriteData::<T::Modifies> {
        modifies: closed.reply->modifies,
        allowed_on_disk_almost_full: true,
    })
    &&& result.new_acquired_locks == closed.reply->new_acquired_locks
    &&& result.lock_info.len() == 0
    &&& result.lock_guards.len() == 0
    &&& result.response_policy == ResponsePolicy::OnApplied
    &&& match verdict {
        Verdict::Locked => {
            &&& result.status == SecondaryLocksStatusView::Locked(lock_infos)
            &&& result.rows == 0
            &&& result.known_txn_status.len() == 0
        },
        Verdict::Committed(ts) => {
            &&& result.status == SecondaryLocksStatusView::<T::LockInfo>::Committed(ts)
            &&& result.rows == 0
            &&& result.known_txn_status == seq![(start_ts, ts)]
        },
        Verdict::RolledBack => {
            &&& result.status == SecondaryLocksStatusView::<T::LockInfo>::RolledBack
            &&& result.rows == 1
            &&& result.known_txn_status.len() == 0
        },
    }
}

/// Whether the exchanges lead to the step.
pub(crate) open spec fn explains<T: StorageTypes>(
    ctx: T::Context,
    keys: Seq<T::Key>,
    start_ts: TimeStamp,
    dialogue: Seq<Exchange<T>>,
    end: StepView<T>,
) -> bool {
    match end {
        StepView::Call(check, call) => {
            &&& check.ctx == ctx
            &&& check.keys == keys
            &&& check.phase.waits_for(call)
            &&& history(keys.len(), start_ts, dialogue, check, call)
        },
        StepView::Return(Ok(result)) => exists|
            p: int,
            lock_infos: Seq<T::LockInfo>,
            verdict: Verdict,
        | #[trigger]
            finishes(keys.len(), ctx, start_ts, dialogue, p, lock_infos, verdict, result),
        StepView::Return(Err(error)) => {
            &&& dialogue.len() > 0
            &&& dialogue.last().reply == Reply::<T>::Failed(error)
        },
    }
}

/// The exchanges about the locked keys stay as they are.
proof fn lemma_describes_all<T: StorageTypes>(
    dialogue: Seq<Exchange<T>>,
    exchange: Exchange<T>,
    p: int,
    start_ts: TimeStamp,
    lock_infos: Seq<T::LockInfo>,
)
    requires
        describes_all(dialogue, p, start_ts, lock_infos),
    ensures
        describes_all(dialogue.push(exchange), p, start_ts, lock_infos),
        dialogue.push(exchange).drop_last() == dialogue,
        dialogue.push(exchange).last() == exchange,
{
    let longer = dialogue.push(exchange);
    assert(longer.drop_last() =~= dialogue);
    assert forall|q: int| 0 <= q < p implies #[trigger] describes(
        longer,
        q,
        start_ts,
        lock_infos,
    ) by {
        assert(describes(dialogue, q, start_ts, lock_infos));
    }
}

/// One exchange more, while the check is being opened or looks for locks.
proof fn lemma_explains_next_key<T: StorageTypes>(
    ctx: T::Context,
    keys: Seq<T::Key>,
    start_ts: TimeStamp,
    dialogue: Seq<Exchange<T>>,
    check: CheckView<T>,
    call: Call<T>,
    reply: Reply<T>,
)
    requires
        check.phase is UpdateMaxTs || check.phase is OpenTxn || check.phase is LoadLock
            || check.phase is IntoLockInfo,
        explains(ctx, keys, start_ts, dialogue, StepView::Call(check, call)),
        check.expects(reply),
    ensures
        explains(
            ctx,
            keys,
            start_ts,
            dialogue.push(Exchange { position: check.position, call, reply }),
            check.resume(reply),
        ),
{
    let exchange = Exchange { position: check.position, call, reply };
    let longer = dialogue.push(exchange);
    assert(longer.drop_last() =~= dialogue);
    assert(longer.last() == exchange);
    if check.phase is LoadLock {
        lemma_describes_all(dialogue, exchange, check.position, start_ts, check.lock_infos);
    } else if check.phase is IntoLockInfo && reply is LockInfo {
        let p = check.position;
        let infos = check.lock_infos.push(reply->info);
        assert forall|q: int| 0 <= q < p + 1 implies #[trigger] describes(
            longer,
            q,
            start_ts,
            infos,
        ) by {
            assert(q < p ==> describes(dialogue, q, start_ts, check.lock_infos));
        }
    }
}

/// One exchange more, while the check finds out the status on a key.
proof fn lemma_explains_next_status<T: StorageTypes>(
    ctx: T::Context,
    keys: Seq<T::Key>,
    start_ts: TimeStamp,
    dialogue: Seq<Exchange<T>>,
    check: CheckView<T>,
    call: Call<T>,
    reply: Reply<T>,
)
    requires
        check.phase is ReadRecordOfUnlocked || check.phase is ReadRecordOfLocked || check.phase
            is UnlockBeforeRecord || check.phase is UnlockBeforeRollback || check.phase
            is UnlockBeforeVerdict,
        explains(ctx, keys, start_ts, dialogue, StepView::Call(check, call)),
        check.expects(reply),
    ensures
        explains(
            ctx,
            keys,
            start_ts,
            dialogue.push(Exchange { position: check.position, call, reply }),
            check.resume(reply),
        ),
{
    let exchange = Exchange { position: check.position, call, reply };
    lemma_describes_all(dialogue, exchange, check.position, start_ts, check.lock_infos);
    if let Reply::Released(Some(lock)) = reply {
        assert(check.released_locks.push(lock) =~= seq![lock]);
    }
}

/// One exchange more, while the check makes a rollback.
proof fn lemma_explains_next_rollback<T: StorageTypes>(
    ctx: T::Context,
    keys: Seq<T::Key>,
    start_ts: TimeStamp,
    dialogue: Seq<Exchange<T>>,
    check: CheckView<T>,
    call: Call<T>,
    reply: Reply<T>,
)
    requires
        check.phase is MarkRollback || check.phase is MakeRollback || check.phase is PutWrite
            || check.phase is CollapsePrevRollback,
        explains(ctx, keys, start_ts, dialogue, StepView::Call(check, call)),
        check.expects(reply),
    ensures
        explains(
            ctx,
            keys,
            start_ts,
            dialogue.push(Exchange { position: check.position, call, reply }),
            check.resume(reply),
        ),
{
    let exchange = Exchange { position: check.position, call, reply };
    lemma_describes_all(dialogue, exchange, check.position, start_ts, check.lock_infos);
}

/// One exchange more, at the end.
proof fn lemma_explains_next_closing<T: StorageTypes>(
    ctx: T::Context,
    keys: Seq<T::Key>,
    start_ts: TimeStamp,
    dialogue: Seq<Exchange<T>>,
    check: CheckView<T>,
    call: Call<T>,
    reply: Reply<T>,
)
    requires
        check.phase is RecordNetworkOutBytes || check.phase is CloseTxn,
        explains(ctx, keys, start_ts, dialogue, StepView::Call(check, call)),
        check.expects(reply),
    ensures
        explains(
            ctx,
            keys,
            start_ts,
            dialogue.push(Exchange { position: check.position, call, reply }),
            check.resume(reply),
        ),
{
    let exchange = Exchange { position: check.position, call, reply };
    lemma_describes_all(dialogue, exchange, check.position, start_ts, check.lock_infos);
    if check.phase is CloseTxn {
        assert(finishes(
            keys.len(),
            ctx,
            start_ts,
            dialogue.push(exchange),
            check.position,
            check.lock_infos,
            check.phase->CloseTxn_verdict,
            check.resume(reply)->Return_0->Ok_0,
        ));
    }
}

/// One exchange more.
proof fn lemma_explains_next<T: StorageTypes>(
    ctx: T::Context,
    keys: Seq<T::Key>,
    start_ts: TimeStamp,
    dialogue: Seq<Exchange<T>>,
    check: CheckView<T>,
    call: Call<T>,
    reply: Reply<T>,
)
    requires
        explains(ctx, keys, start_ts, dialogue, StepView::Call(check, call)),
        check.expects(reply),
    ensures
        explains(
            ctx,
            keys,
            start_ts,
            dialogue.push(Exchange { position: check.position, call, reply }),
            check.resume(reply),
        ),
{
    match check.phase {
        Phase::UpdateMaxTs | Phase::OpenTxn | Phase::LoadLock | Phase::IntoLockInfo => {
            lemma_explains_next_key(ctx, keys, start_ts, dialogue, check, call, reply);
        },
        Phase::MarkRollback { .. }
        | Phase::MakeRollback
        | Phase::PutWrite
        | Phase::CollapsePrevRollback => {
            lemma_explains_next_rollback(ctx, keys, start_ts, dialogue, check, call, reply);
        },
        Phase::RecordNetworkOutBytes { .. } | Phase::CloseTxn { .. } => {
            lemma_explains_next_closing(ctx, keys, start_ts, dialogue, check, call, reply);
        },
        _ => {
            lemma_explains_next_status(ctx, keys, start_ts, dialogue, check, call, reply);
        },
    }
}

/// The last exchange, taken off.
pub(crate) proof fn lemma_last_exchange<T: StorageTypes>(
    step: StepView<T>,
    dialogue: Seq<Exchange<T>>,
    end: StepView<T>,
) -> (check: CheckView<T>)
    requires
        leads_to(step, dialogue, end),
        dialogue.len() > 0,
    ensures
        leads_to(step, dialogue.drop_last(), StepView::Call(check, dialogue.last().call)),
        check.position == dialogue.last().position,
        check.expects(dialogue.last().reply),
        end == check.resume(dialogue.last().reply),
    decreases dialogue.len(),
{
    reveal_with_fuel(leads_to, 2);
    let rest = dialogue.drop_first();
    let first = step->Call_0;
    if rest.len() == 0 {
        first
    } else {
        let check = lemma_last_exchange(first.resume(dialogue[0].reply), rest, end);
        assert(rest.last() == dialogue.last());
        assert(dialogue.drop_last().drop_first() =~= rest.drop_last());
        check
    }
}

/// One exchange more.
pub(crate) proof fn lemma_next_exchange<T: StorageTypes>(
    step: StepView<T>,
    dialogue: Seq<Exchange<T>>,
    check: CheckView<T>,
    call: Call<T>,
    reply: Reply<T>,
)
    requires
        leads_to(step, dialogue, StepView::Call(check, call)),
        check.expects(reply),
    ensures
        leads_to(
            step,
            dialogue.push(Exchange { position: check.position, call, reply }),
            check.resume(reply),
        ),
{
    reveal_with_fuel(leads_to, 2);
    let exchange = Exchange { position: check.position, call, reply };
    assert(leads_to(StepView::Call(check, call), seq![exchange], check.resume(reply)));
    lemma_leads_to_concat(
        step,
        dialogue,
        StepView::Call(check, call),
        seq![exchange],
        check.resume(reply),
    );
    assert(dialogue + seq![exchange] =~= dialogue.push(exchange));
}

/// Every dialogue explains where it leads to.
pub(crate) proof fn lemma_explains<T: StorageTypes>(
    ctx: T::Context,
    keys: Seq<T::Key>,
    start_ts: TimeStamp,
    dialogue: Seq<Exchange<T>>,
    end: StepView<T>,
)
    requires
        leads_to(first_step(ctx, keys, start_ts), dialogue, end),
    ensures
        explains(ctx, keys, start_ts, dialogue, end),
    decreases dialogue.len(),
{
    if dialogue.len() > 0 {
        let check = lemma_last_exchange(first_step(ctx, keys, start_ts), dialogue, end);
        let last = dialogue.last();
        lemma_explains(
            ctx,
            keys,
            start_ts,
            dialogue.drop_last(),
            StepView::Call(check, last.call),
        );
        lemma_explains_next(
            ctx,
            keys,
            start_ts,
            dialogue.drop_last(),
            check,
            last.call,
            last.reply,
        );
        assert(dialogue.drop_last().push(last) =~= dialogue);
        assert(last == (Exchange { position: check.position, call: last.call, reply: last.reply }));
    }
}

/// What stands before the exchange at `i`.
pub(crate) proof fn lemma_before<T: StorageTypes>(
    ctx: T::Context,
    keys: Seq<T::Key>,
    start_ts: TimeStamp,
    dialogue: Seq<Exchange<T>>,
    end: StepView<T>,
    i: int,
) -> (check: CheckView<T>)
    requires
        leads_to(first_step(ctx, keys, start_ts), dialogue, end),
        0 <= i < dialogue.len(),
    ensures
        leads_to(
            first_step(ctx, keys, start_ts),
            dialogue.take(i),
            StepView::Call(check, dialogue[i].call),
        ),
        explains(
            ctx,
            keys,
            start_ts,
            dialogue.take(i),
            StepView::Call(check, dialogue[i].call),
        ),
        check.position == dialogue[i].position,
        check.expects(dialogue[i].reply),
        i == dialogue.len() - 1 ==> end == check.resume(dialogue[i].reply),
    decreases dialogue.len(),
{
    let check = lemma_last_exchange(first_step(ctx, keys, start_ts), dialogue, end);
    let shorter = dialogue.drop_last();
    let before = StepView::Call(check, dialogue.last().call);
    if i == dialogue.len() - 1 {
        lemma_explains(ctx, keys, start_ts, shorter, before);
        assert(dialogue.take(i) =~= shorter);
        check
    } else {
        let found = lemma_before(ctx, keys, start_ts, shorter, before, i);
        assert(shorter.take(i) =~= dialogue.take(i));
        assert(shorter[i] == dialogue[i]);
        found
    }
}

} // verus!
