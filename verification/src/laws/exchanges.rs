//! What every reply leads to, and what a check comes to, in terms of the exchanges alone.
use vstd::prelude::*;

use crate::check_secondary_locks::Step;
use crate::dialogue::{leads_to, Exchange};
use crate::laws::history::{
    described_size, describes, finishes, is_own, lemma_before, lemma_explains, lemma_last_exchange,
    lemma_next_exchange, load_at, loaded_at, make_at, record_at, record_of,
};
use crate::laws::{first_step, lemma_resume_makes_progress};
use crate::protocol::{Call, CheckView, Reply, StepView, Verdict};
use crate::types::{LoadedLock, Lock, StorageTypes, TimeStamp, TxnCommitRecord, WriteType};
use crate::write_result::{
    ResponsePolicy, SecondaryLocksStatus, SecondaryLocksStatusView, WriteResultView,
};

verus! {

/// Before any exchange a check stands before its first step, with what it was asked for. It first
/// raises the largest timestamp seen to the start timestamp of the transaction.
pub proof fn law_dialogue_begins<T: StorageTypes>(
    ctx: T::Context,
    keys: Seq<T::Key>,
    start_ts: TimeStamp,
)
    ensures
        leads_to(first_step(ctx, keys, start_ts), seq![], first_step::<T>(ctx, keys, start_ts)),
        first_step::<T>(ctx, keys, start_ts) matches StepView::Call(check, call) && {
            &&& check.ctx == ctx
            &&& check.keys == keys
            &&& check.start_ts == start_ts
            &&& check.position == 0
            &&& call == (Call::<T>::UpdateMaxTs { start_ts })
        },
{
}

/// Every reply that a check expects is an exchange more, after which the check is where
/// [`SecondaryLocksCheck::resume`] takes it.
///
/// [`SecondaryLocksCheck::resume`]: crate::check_secondary_locks::SecondaryLocksCheck::resume
pub proof fn law_dialogue_goes_on<T: StorageTypes>(
    ctx: T::Context,
    keys: Seq<T::Key>,
    start_ts: TimeStamp,
    dialogue: Seq<Exchange<T>>,
    check: CheckView<T>,
    call: Call<T>,
    reply: Reply<T>,
)
    requires
        leads_to(first_step(ctx, keys, start_ts), dialogue, StepView::Call(check, call)),
        check.expects(reply),
    ensures
        leads_to(
            first_step(ctx, keys, start_ts),
            dialogue.push(Exchange { position: check.position, call, reply }),
            check.resume(reply),
        ),
{
    lemma_next_exchange(first_step(ctx, keys, start_ts), dialogue, check, call, reply);
}

/// The first exchanges of a dialogue are a dialogue, which leads to the call of the next exchange.
pub proof fn law_beginnings_are_dialogues<T: StorageTypes>(
    ctx: T::Context,
    keys: Seq<T::Key>,
    start_ts: TimeStamp,
    dialogue: Seq<Exchange<T>>,
    end: StepView<T>,
    i: int,
)
    requires
        leads_to(first_step(ctx, keys, start_ts), dialogue, end),
        0 <= i < dialogue.len(),
    ensures
        exists|check: CheckView<T>|
            {
                &&& check.position == dialogue[i].position
                &&& #[trigger] leads_to(
                    first_step(ctx, keys, start_ts),
                    dialogue.take(i),
                    StepView::Call(check, dialogue[i].call),
                )
            },
{
    let check = lemma_before(ctx, keys, start_ts, dialogue, end, i);
}

/// A check keeps what it was asked for, and can always go on. Where its pending call is about a
/// key, it is at the position of one of the keys.
pub proof fn law_check_keeps_its_request<T: StorageTypes>(
    ctx: T::Context,
    keys: Seq<T::Key>,
    start_ts: TimeStamp,
    dialogue: Seq<Exchange<T>>,
    check: CheckView<T>,
    call: Call<T>,
)
    requires
        keys.len() <= usize::MAX,
        leads_to(first_step(ctx, keys, start_ts), dialogue, StepView::Call(check, call)),
    ensures
        check.ctx == ctx,
        check.keys == keys,
        check.start_ts == start_ts,
        check.wf(),
        check.phase.waits_for(call),
        0 <= check.position <= keys.len(),
        !(call is UpdateMaxTs) && !(call is OpenTxn) && !(call is RecordNetworkOutBytes) && !(call
            is CloseTxn) ==> check.position < keys.len() && check.has_key(),
{
    lemma_explains(ctx, keys, start_ts, dialogue, StepView::Call(check, call));
    lemma_check_stays_wf(ctx, keys, start_ts, dialogue, check, call);
}

proof fn lemma_check_stays_wf<T: StorageTypes>(
    ctx: T::Context,
    keys: Seq<T::Key>,
    start_ts: TimeStamp,
    dialogue: Seq<Exchange<T>>,
    check: CheckView<T>,
    call: Call<T>,
)
    requires
        keys.len() <= usize::MAX,
        leads_to(first_step(ctx, keys, start_ts), dialogue, StepView::Call(check, call)),
    ensures
        check.wf(),
    decreases dialogue.len(),
{
    if dialogue.len() > 0 {
        let end = StepView::Call(check, call);
        let before = lemma_last_exchange(first_step(ctx, keys, start_ts), dialogue, end);
        let last = dialogue.last();
        lemma_check_stays_wf(ctx, keys, start_ts, dialogue.drop_last(), before, last.call);
        lemma_resume_makes_progress(before, last.call, last.reply);
    }
}

proof fn lemma_totals<T: StorageTypes>(dialogue: Seq<Exchange<T>>, totals: Seq<int>)
    requires
        totals.len() == dialogue.len() + 1,
        totals[0] == 0,
        forall|i: int|
            0 <= i < dialogue.len() ==> #[trigger] totals[i + 1] == totals[i] + (
            match dialogue[i].reply {
                Reply::LockInfo { size, .. } => size as int,
                _ => 0,
            }),
    ensures
        totals.last() == described_size(dialogue),
    decreases dialogue.len(),
{
    if dialogue.len() > 0 {
        let shorter = dialogue.drop_last();
        let n = dialogue.len() - 1;
        assert forall|i: int| 0 <= i < shorter.len() implies #[trigger] totals.drop_last()[i + 1]
            == totals.drop_last()[i] + (match shorter[i].reply {
            Reply::LockInfo { size, .. } => size as int,
            _ => 0,
        }) by {
            assert(shorter[i] == dialogue[i]);
            assert(totals[i + 1] == totals.drop_last()[i + 1]);
        }
        lemma_totals(shorter, totals.drop_last());
        assert(totals[n + 1] == totals.last());
        assert(totals.drop_last().last() == totals[n]);
    }
}

/// What a call can reply, and nothing else, is expected. Reading and raising the largest timestamp
/// can fail. A lock of the transaction that was acquired in spite of a conflict is pessimistic. A
/// commit record is missing if a pessimistic lock was released before it was read. The total size
/// of the lock descriptions fits its type; `totals` are the sizes up to each exchange.
pub proof fn law_replies_are_expected<T: StorageTypes>(
    ctx: T::Context,
    keys: Seq<T::Key>,
    start_ts: TimeStamp,
    dialogue: Seq<Exchange<T>>,
    totals: Seq<int>,
    check: CheckView<T>,
    call: Call<T>,
    reply: Reply<T>,
)
    requires
        leads_to(first_step(ctx, keys, start_ts), dialogue, StepView::Call(check, call)),
        totals.len() == dialogue.len() + 1,
        totals[0] == 0,
        forall|i: int|
            0 <= i < dialogue.len() ==> #[trigger] totals[i + 1] == totals[i] + (
            match dialogue[i].reply {
                Reply::LockInfo { size, .. } => size as int,
                _ => 0,
            }),
    ensures
        check.expects(reply) <==> match call {
            Call::UpdateMaxTs { .. } => reply is Done || reply is Failed,
            Call::OpenTxn { .. } => reply is Done,
            Call::LoadLock => match reply {
                Reply::LockLoaded(Some(LoadedLock::Exclusive(lock))) => lock.ts != start_ts
                    || lock.pessimistic || !lock.pessimistic_with_conflict,
                Reply::LockLoaded(_) => true,
                Reply::Failed(_) => true,
                _ => false,
            },
            Call::GetTxnCommitRecord => match reply {
                Reply::Record(record) => dialogue.last().call is UnlockKey ==> record is NotFound,
                Reply::Failed(_) => true,
                _ => false,
            },
            Call::UnlockKey { .. } => reply is Released,
            Call::MarkRollbackOnMismatchingLock { .. } => reply is Done,
            Call::MakeRollback { .. } => reply is RollbackMade,
            Call::PutWrite { .. } => reply is Done,
            Call::CollapsePrevRollback => reply is Done || reply is Failed,
            Call::IntoLockInfo { .. } => match reply {
                Reply::LockInfo { size, .. } => totals.last() + size <= u64::MAX,
                Reply::Failed(_) => true,
                _ => false,
            },
            Call::RecordNetworkOutBytes { .. } => reply is Done,
            Call::CloseTxn => reply is TxnClosed,
        },
{
    lemma_totals(dialogue, totals);
    lemma_explains(ctx, keys, start_ts, dialogue, StepView::Call(check, call));
}

/// A call that fails is the last one, and the check reports what it reported. Otherwise the check
/// does not fail.
pub proof fn law_failure_is_reported<T: StorageTypes>(
    ctx: T::Context,
    keys: Seq<T::Key>,
    start_ts: TimeStamp,
    dialogue: Seq<Exchange<T>>,
    end: StepView<T>,
)
    requires
        leads_to(first_step(ctx, keys, start_ts), dialogue, end),
    ensures
        forall|i: int|
            #![trigger dialogue[i]]
            0 <= i < dialogue.len() ==> (dialogue[i].reply matches Reply::Failed(error) ==> {
                &&& i == dialogue.len() - 1
                &&& end == StepView::<T>::Return(Err(error))
            }),
        end matches StepView::Return(Err(error)) ==> {
            &&& dialogue.len() > 0
            &&& dialogue.last().reply == Reply::<T>::Failed(error)
        },
{
    lemma_explains(ctx, keys, start_ts, dialogue, end);
    assert forall|i: int|
        #![trigger dialogue[i]]
        0 <= i < dialogue.len() && dialogue[i].reply is Failed implies {
        &&& i == dialogue.len() - 1
        &&& end == StepView::<T>::Return(Err(dialogue[i].reply->Failed_0))
    } by {
        let check = lemma_before(ctx, keys, start_ts, dialogue, end, i);
        if i < dialogue.len() - 1 {
            let next = lemma_before(ctx, keys, start_ts, dialogue, end, i + 1);
            let beginning = dialogue.take(i + 1);
            let last = lemma_last_exchange(
                first_step(ctx, keys, start_ts),
                beginning,
                StepView::Call(next, dialogue[i + 1].call),
            );
            assert(beginning.last() == dialogue[i]);
        }
    }
}

/// How a check begins: it raises the largest timestamp seen, opens the transaction and the reader,
/// both for the start timestamp of the transaction, and turns to the first key. Without keys it
/// turns to its end.
pub proof fn law_opening_calls<T: StorageTypes>(
    ctx: T::Context,
    keys: Seq<T::Key>,
    start_ts: TimeStamp,
    dialogue: Seq<Exchange<T>>,
    end: StepView<T>,
)
    requires
        leads_to(first_step(ctx, keys, start_ts), dialogue, end),
        dialogue.len() == 0 || !(dialogue.last().reply is Failed),
        dialogue.len() == 0 || dialogue.last().call is UpdateMaxTs || dialogue.last().call
            is OpenTxn,
    ensures
        end matches StepView::Call(check, call) && {
            &&& check.position == 0
            &&& if dialogue.len() == 0 {
                call == (Call::<T>::UpdateMaxTs { start_ts })
            } else if dialogue.len() == 1 {
                &&& dialogue[0].call is UpdateMaxTs
                &&& call == (Call::<T>::OpenTxn { start_ts })
            } else {
                &&& dialogue.len() == 2
                &&& dialogue[0].call is UpdateMaxTs
                &&& dialogue[1].call is OpenTxn
                &&& if keys.len() > 0 {
                    call is LoadLock
                } else {
                    call is RecordNetworkOutBytes
                }
            }
        },
{
    lemma_explains(ctx, keys, start_ts, dialogue, end);
    if dialogue.len() > 0 {
        let check = lemma_before(ctx, keys, start_ts, dialogue, end, dialogue.len() - 1);
    }
}

/// What follows the loading of the lock on a key. A prewritten lock of the transaction is
/// described. A pessimistic lock of the transaction is released at once, or, if it was acquired in
/// spite of a conflict, once the commit record is read. Without a lock of the transaction the
/// commit record is read.
pub proof fn law_lock_decides_next_call<T: StorageTypes>(
    ctx: T::Context,
    keys: Seq<T::Key>,
    start_ts: TimeStamp,
    dialogue: Seq<Exchange<T>>,
    loaded: Option<LoadedLock<T>>,
    end: StepView<T>,
)
    requires
        leads_to(first_step(ctx, keys, start_ts), dialogue, end),
        dialogue.len() > 0,
        dialogue.last().call is LoadLock,
        dialogue.last().reply == Reply::<T>::LockLoaded(loaded),
    ensures
        end matches StepView::Call(check, call) && {
            &&& check.position == dialogue.last().position
            &&& match loaded {
                Some(LoadedLock::Exclusive(lock)) => if lock.ts != start_ts {
                    call is GetTxnCommitRecord
                } else if !lock.pessimistic {
                    call == (Call::<T>::IntoLockInfo { lock })
                } else if lock.pessimistic_with_conflict {
                    call is GetTxnCommitRecord
                } else {
                    call == (Call::<T>::UnlockKey { pessimistic: true, commit_ts: TimeStamp(0) })
                },
                Some(LoadedLock::Shared) => call is GetTxnCommitRecord,
                None => call is GetTxnCommitRecord,
            }
        },
{
    let last = dialogue.len() - 1;
    let check = lemma_before(ctx, keys, start_ts, dialogue, end, last);
    lemma_explains(ctx, keys, start_ts, dialogue, end);
}

/// What follows the reading of the commit record on a key, on which `loaded` was loaded at `i`. A
/// pessimistic lock of the transaction that was acquired in spite of a conflict is released now. If
/// there is no record, the rollback is noted on a lock of another transaction, or is made at once,
/// protected and for the write that it overlaps with. If there is one, no further key is looked at.
pub proof fn law_record_decides_next_call<T: StorageTypes>(
    ctx: T::Context,
    keys: Seq<T::Key>,
    start_ts: TimeStamp,
    dialogue: Seq<Exchange<T>>,
    loaded: Option<LoadedLock<T>>,
    i: int,
    record: TxnCommitRecord<T>,
    end: StepView<T>,
)
    requires
        leads_to(first_step(ctx, keys, start_ts), dialogue, end),
        0 <= i < dialogue.len(),
        dialogue[i].call is LoadLock,
        dialogue[i].position == dialogue.last().position,
        dialogue[i].reply == Reply::<T>::LockLoaded(loaded),
        dialogue.last().call is GetTxnCommitRecord,
        dialogue.last().reply == Reply::<T>::Record(record),
    ensures
        end matches StepView::Call(check, call) && {
            &&& check.position == dialogue.last().position
            &&& match (loaded, record) {
                (Some(LoadedLock::Exclusive(lock)), _) if lock.ts == start_ts
                    && lock.pessimistic_with_conflict => {
                    &&& i == dialogue.len() - 2
                    &&& call == (Call::<T>::UnlockKey {
                        pessimistic: true,
                        commit_ts: TimeStamp(0),
                    })
                },
                (
                    Some(LoadedLock::Exclusive(lock)),
                    TxnCommitRecord::NotFound { overlapped_write },
                ) if lock.ts == start_ts => {
                    &&& i == dialogue.len() - 3
                    &&& dialogue[i + 1].call is UnlockKey
                    &&& call == (Call::<T>::MakeRollback {
                        start_ts,
                        protected: true,
                        overlapped_write,
                    })
                },
                (Some(LoadedLock::Exclusive(lock)), TxnCommitRecord::NotFound { .. }) => {
                    &&& i == dialogue.len() - 2
                    &&& call == (Call::<T>::MarkRollbackOnMismatchingLock {
                        lock,
                        is_protected: true,
                    })
                },
                (_, TxnCommitRecord::NotFound { overlapped_write }) => {
                    &&& i == dialogue.len() - 2
                    &&& call == (Call::<T>::MakeRollback {
                        start_ts,
                        protected: true,
                        overlapped_write,
                    })
                },
                _ => {
                    &&& i == dialogue.len() - 2
                    &&& call is RecordNetworkOutBytes
                },
            }
        },
{
    let loading = lemma_before(ctx, keys, start_ts, dialogue, end, i);
    let last = dialogue.len() - 1;
    let check = lemma_before(ctx, keys, start_ts, dialogue, end, last);
    lemma_explains(ctx, keys, start_ts, dialogue, end);
}

/// What follows the release of a pessimistic lock. If it was acquired without a conflict, the
/// commit record is read. Otherwise the commit record was read just before, and decides: without a
/// record a rollback is made, protected and for the write that it overlaps with, and with one no
/// further key is looked at.
pub proof fn law_release_is_followed<T: StorageTypes>(
    ctx: T::Context,
    keys: Seq<T::Key>,
    start_ts: TimeStamp,
    dialogue: Seq<Exchange<T>>,
    lock: Lock<T>,
    i: int,
    end: StepView<T>,
)
    requires
        leads_to(first_step(ctx, keys, start_ts), dialogue, end),
        0 <= i < dialogue.len(),
        dialogue[i].call is LoadLock,
        dialogue[i].position == dialogue.last().position,
        dialogue[i].reply == Reply::<T>::LockLoaded(Some(LoadedLock::Exclusive(lock))),
        dialogue.last().call is UnlockKey,
    ensures
        lock.ts == start_ts,
        lock.pessimistic,
        end matches StepView::Call(check, call) && {
            &&& check.position == dialogue.last().position
            &&& if !lock.pessimistic_with_conflict {
                &&& i == dialogue.len() - 2
                &&& call is GetTxnCommitRecord
            } else {
                &&& i == dialogue.len() - 3
                &&& dialogue[i + 1].call is GetTxnCommitRecord
                &&& dialogue[i + 1].reply matches Reply::Record(record) && match record {
                    TxnCommitRecord::NotFound { overlapped_write } => call == (Call::<
                        T,
                    >::MakeRollback { start_ts, protected: true, overlapped_write }),
                    _ => call is RecordNetworkOutBytes,
                }
            }
        },
{
    let loading = lemma_before(ctx, keys, start_ts, dialogue, end, i);
    let last = dialogue.len() - 1;
    let check = lemma_before(ctx, keys, start_ts, dialogue, end, last);
    lemma_explains(ctx, keys, start_ts, dialogue, end);
}

/// How a rollback goes on. Once it is noted on the lock of another transaction, it is made,
/// protected and for the write that it overlaps with by the commit record. A record that is made is
/// put at the start timestamp of the transaction, and an earlier rollback is collapsed. All this is
/// about one key, and no further key is looked at.
pub proof fn law_rollback_goes_on<T: StorageTypes>(
    ctx: T::Context,
    keys: Seq<T::Key>,
    start_ts: TimeStamp,
    dialogue: Seq<Exchange<T>>,
    end: StepView<T>,
)
    requires
        leads_to(first_step(ctx, keys, start_ts), dialogue, end),
        dialogue.len() > 0,
        !(dialogue.last().reply is Failed),
        dialogue.last().call is MarkRollbackOnMismatchingLock || dialogue.last().call
            is MakeRollback || dialogue.last().call is PutWrite || dialogue.last().call
            is CollapsePrevRollback,
    ensures
        end matches StepView::Call(check, call) && {
            &&& check.position == dialogue.last().position
            &&& match dialogue.last().call {
                Call::MarkRollbackOnMismatchingLock { .. } => {
                    &&& dialogue.len() > 1
                    &&& dialogue[dialogue.len() - 2].position == check.position
                    &&& dialogue[dialogue.len() - 2].reply matches Reply::Record(
                        TxnCommitRecord::NotFound { overlapped_write },
                    ) && call == (Call::<T>::MakeRollback {
                        start_ts,
                        protected: true,
                        overlapped_write,
                    })
                },
                Call::MakeRollback { .. } => dialogue.last().reply matches Reply::RollbackMade(made)
                    && match made {
                    Some(write) => call == (Call::<T>::PutWrite { ts: start_ts, write }),
                    None => call is RecordNetworkOutBytes,
                },
                Call::PutWrite { .. } => call is CollapsePrevRollback,
                _ => call is RecordNetworkOutBytes,
            }
        },
{
    let last = dialogue.len() - 1;
    let check = lemma_before(ctx, keys, start_ts, dialogue, end, last);
    lemma_explains(ctx, keys, start_ts, dialogue, end);
}

/// What follows the description of a lock: the next key, or, after the last one, the end.
pub proof fn law_next_key_follows<T: StorageTypes>(
    ctx: T::Context,
    keys: Seq<T::Key>,
    start_ts: TimeStamp,
    dialogue: Seq<Exchange<T>>,
    end: StepView<T>,
)
    requires
        leads_to(first_step(ctx, keys, start_ts), dialogue, end),
        dialogue.len() > 0,
        dialogue.last().call is IntoLockInfo,
        !(dialogue.last().reply is Failed),
    ensures
        end matches StepView::Call(check, call) && {
            &&& check.position == dialogue.last().position + 1
            &&& if check.position < keys.len() {
                call is LoadLock
            } else {
                &&& check.position == keys.len()
                &&& call is RecordNetworkOutBytes
            }
        },
{
    let last = dialogue.len() - 1;
    let check = lemma_before(ctx, keys, start_ts, dialogue, end, last);
    lemma_explains(ctx, keys, start_ts, dialogue, end);
}

/// How a check ends: the size of all lock descriptions is recorded, and what the transaction has
/// gathered is taken and handed out. `totals` are the sizes up to each exchange.
pub proof fn law_closing_calls<T: StorageTypes>(
    ctx: T::Context,
    keys: Seq<T::Key>,
    start_ts: TimeStamp,
    dialogue: Seq<Exchange<T>>,
    totals: Seq<int>,
    end: StepView<T>,
)
    requires
        leads_to(first_step(ctx, keys, start_ts), dialogue, end),
        totals.len() == dialogue.len() + 1,
        totals[0] == 0,
        forall|i: int|
            0 <= i < dialogue.len() ==> #[trigger] totals[i + 1] == totals[i] + (
            match dialogue[i].reply {
                Reply::LockInfo { size, .. } => size as int,
                _ => 0,
            }),
    ensures
        end matches StepView::Call(_, Call::RecordNetworkOutBytes { bytes }) ==> bytes
            == totals.last(),
        dialogue.len() > 0 && dialogue.last().call is RecordNetworkOutBytes ==> end
            matches StepView::Call(_, Call::CloseTxn),
        dialogue.len() > 0 && dialogue.last().call is CloseTxn ==> {
            &&& dialogue.last().reply matches Reply::TxnClosed { new_acquired_locks, modifies }
            &&& end matches StepView::Return(Ok(result))
            &&& result.new_acquired_locks == new_acquired_locks
            &&& result.to_be_write.modifies == modifies
        },
        end matches StepView::Return(Ok(_)) ==> dialogue.len() > 0 && dialogue.last().call
            is CloseTxn,
{
    lemma_totals(dialogue, totals);
    lemma_explains(ctx, keys, start_ts, dialogue, end);
    if dialogue.len() > 0 {
        let check = lemma_before(ctx, keys, start_ts, dialogue, end, dialogue.len() - 1);
    }
}

/// The keys are looked at in order, two exchanges for each before the last one that is looked at:
/// the lock is loaded, which is a prewritten one of the transaction, and described.
pub proof fn law_keys_are_looked_at_in_order<T: StorageTypes>(
    ctx: T::Context,
    keys: Seq<T::Key>,
    start_ts: TimeStamp,
    dialogue: Seq<Exchange<T>>,
    end: StepView<T>,
    i: int,
    q: int,
)
    requires
        leads_to(first_step(ctx, keys, start_ts), dialogue, end),
        2 <= i < dialogue.len(),
        0 <= q <= dialogue[i].position,
    ensures
        q < dialogue[i].position ==> {
            let load = dialogue[2 * q + 2];
            let description = dialogue[2 * q + 3];
            &&& 2 * q + 3 < i
            &&& load.position == q
            &&& load.call is LoadLock
            &&& load.reply matches Reply::LockLoaded(Some(LoadedLock::Exclusive(lock)))
            &&& lock.ts == start_ts
            &&& !lock.pessimistic
            &&& description.position == q
            &&& description.call == (Call::<T>::IntoLockInfo { lock })
            &&& description.reply is LockInfo
        },
        q == dialogue[i].position && q < keys.len() ==> {
            let load = dialogue[2 * q + 2];
            &&& 2 * q + 2 <= i
            &&& load.position == q
            &&& load.call is LoadLock
            &&& load.reply is LockLoaded || load.reply is Failed
        },
        dialogue[i].call is LoadLock ==> i == 2 * dialogue[i].position + 2,
        dialogue[i].position <= keys.len(),
{
    let check = lemma_before(ctx, keys, start_ts, dialogue, end, i);
    let p = dialogue[i].position;
    assert(q < p ==> describes(dialogue.take(i), q, start_ts, check.lock_infos));
}

/// A prewritten lock of the transaction is there to stay, whatever its timestamp is: the lock is
/// described next, and neither is the key unlocked, nor is a commit record read or a rollback made
/// on it.
pub proof fn law_prewritten_lock_is_described<T: StorageTypes>(
    ctx: T::Context,
    keys: Seq<T::Key>,
    start_ts: TimeStamp,
    dialogue: Seq<Exchange<T>>,
    end: StepView<T>,
    i: int,
    lock: Lock<T>,
)
    requires
        leads_to(first_step(ctx, keys, start_ts), dialogue, end),
        0 <= i < dialogue.len(),
        dialogue[i].call is LoadLock,
        dialogue[i].reply == Reply::<T>::LockLoaded(Some(LoadedLock::Exclusive(lock))),
        lock.ts == start_ts,
        !lock.pessimistic,
    ensures
        if i + 1 < dialogue.len() {
            &&& dialogue[i + 1].call == (Call::<T>::IntoLockInfo { lock })
            &&& dialogue[i + 1].position == dialogue[i].position
        } else {
            end matches StepView::Call(check, call) && {
                &&& call == (Call::<T>::IntoLockInfo { lock })
                &&& check.position == dialogue[i].position
            }
        },
        forall|j: int|
            0 <= j < dialogue.len() && (#[trigger] dialogue[j]).position == dialogue[i].position
                ==> {
                let call = dialogue[j].call;
                &&& !(call is GetTxnCommitRecord)
                &&& !(call is UnlockKey)
                &&& !(call is MarkRollbackOnMismatchingLock)
                &&& !(call is MakeRollback)
                &&& !(call is PutWrite)
                &&& !(call is CollapsePrevRollback)
            },
{
    let p = dialogue[i].position;
    let loading = lemma_before(ctx, keys, start_ts, dialogue, end, i);
    assert(i == load_at(p));
    if i + 1 < dialogue.len() {
        let next = lemma_before(ctx, keys, start_ts, dialogue, end, i + 1);
        let beginning = dialogue.take(i + 1);
        assert(beginning[i] == dialogue[i]);
        law_lock_decides_next_call(
            ctx,
            keys,
            start_ts,
            beginning,
            Some(LoadedLock::Exclusive(lock)),
            StepView::Call(next, dialogue[i + 1].call),
        );
    } else {
        law_lock_decides_next_call(
            ctx,
            keys,
            start_ts,
            dialogue,
            Some(LoadedLock::Exclusive(lock)),
            end,
        );
    }
    assert forall|j: int|
        0 <= j < dialogue.len() && (#[trigger] dialogue[j]).position == p implies {
        let call = dialogue[j].call;
        &&& !(call is GetTxnCommitRecord)
        &&& !(call is UnlockKey)
        &&& !(call is MarkRollbackOnMismatchingLock)
        &&& !(call is MakeRollback)
        &&& !(call is PutWrite)
        &&& !(call is CollapsePrevRollback)
    } by {
        let check = lemma_before(ctx, keys, start_ts, dialogue, end, j);
        assert(i < j ==> dialogue.take(j)[i] == dialogue[i]);
    }
}

/// The parts of a dialogue that comes to a result.
proof fn lemma_finishes<T: StorageTypes>(
    ctx: T::Context,
    keys: Seq<T::Key>,
    start_ts: TimeStamp,
    dialogue: Seq<Exchange<T>>,
    result: WriteResultView<T>,
) -> (found: (int, Seq<T::LockInfo>, Verdict))
    requires
        leads_to(first_step(ctx, keys, start_ts), dialogue, StepView::Return(Ok(result))),
    ensures
        finishes(keys.len(), ctx, start_ts, dialogue, found.0, found.1, found.2, result),
{
    lemma_explains(ctx, keys, start_ts, dialogue, StepView::Return(Ok(result)));
    choose|p: int, infos: Seq<T::LockInfo>, verdict: Verdict| #[trigger]
        finishes(keys.len(), ctx, start_ts, dialogue, p, infos, verdict, result)
}

/// The client is answered that all locks are there if and only if they are: if and only if `held`,
/// what the storage holds for the keys, is a prewritten lock of the transaction for each. There is
/// one description for each key then, in the order of the keys, made from the lock on this key.
pub proof fn law_locked_iff_all_prewritten<T: StorageTypes>(
    ctx: T::Context,
    keys: Seq<T::Key>,
    start_ts: TimeStamp,
    dialogue: Seq<Exchange<T>>,
    result: WriteResultView<T>,
    held: Seq<Option<LoadedLock<T>>>,
    position: int,
)
    requires
        leads_to(first_step(ctx, keys, start_ts), dialogue, StepView::Return(Ok(result))),
        held.len() == keys.len(),
        forall|i: int|
            0 <= i < dialogue.len() && (#[trigger] dialogue[i]).call is LoadLock
                ==> dialogue[i].reply == Reply::<T>::LockLoaded(held[dialogue[i].position]),
    ensures
        result.status is Locked <==> forall|p: int|
            #![trigger held[p]]
            0 <= p < keys.len() ==> (held[p] matches Some(LoadedLock::Exclusive(lock)) && lock.ts
                == start_ts && !lock.pessimistic),
        result.status matches SecondaryLocksStatusView::Locked(infos) ==> {
            &&& infos.len() == keys.len()
            &&& 0 <= position < keys.len() ==> {
                let description = dialogue[2 * position + 3];
                &&& 2 * position + 3 < dialogue.len()
                &&& description.position == position
                &&& held[position] matches Some(LoadedLock::Exclusive(lock))
                &&& description.call == (Call::<T>::IntoLockInfo { lock })
                &&& description.reply matches Reply::LockInfo { info, .. }
                &&& info == infos[position]
            }
        },
{
    let (p, infos, verdict) = lemma_finishes(ctx, keys, start_ts, dialogue, result);
    assert forall|q: int| 0 <= q < p implies {
        &&& #[trigger] describes(dialogue, q, start_ts, infos)
        &&& held[q] == loaded_at(dialogue, q)
    } by {
        assert(describes(dialogue, q, start_ts, infos));
        assert(dialogue[load_at(q)].call is LoadLock);
    }
    if verdict == Verdict::Locked {
        assert forall|q: int| #![trigger held[q]] 0 <= q < keys.len() implies {
            held[q] matches Some(LoadedLock::Exclusive(lock)) && lock.ts == start_ts
                && !lock.pessimistic
        } by {
            assert(describes(dialogue, q, start_ts, infos));
        }
        if 0 <= position < keys.len() {
            assert(describes(dialogue, position, start_ts, infos));
            assert(load_at(position) + 1 == 2 * position + 3);
        }
    } else {
        assert(dialogue[load_at(p)].call is LoadLock);
        assert(held[p] == loaded_at(dialogue, p));
    }
}

/// If not all locks are there, the first key without a prewritten lock of the transaction decides.
/// Its commit record is read, and no key behind it is looked at.
pub proof fn law_first_key_without_lock_decides<T: StorageTypes>(
    ctx: T::Context,
    keys: Seq<T::Key>,
    start_ts: TimeStamp,
    dialogue: Seq<Exchange<T>>,
    result: WriteResultView<T>,
    held: Seq<Option<LoadedLock<T>>>,
    p: int,
)
    requires
        leads_to(first_step(ctx, keys, start_ts), dialogue, StepView::Return(Ok(result))),
        held.len() == keys.len(),
        forall|i: int|
            0 <= i < dialogue.len() && (#[trigger] dialogue[i]).call is LoadLock
                ==> dialogue[i].reply == Reply::<T>::LockLoaded(held[dialogue[i].position]),
        0 <= p < keys.len(),
        forall|q: int|
            #![trigger held[q]]
            0 <= q < p ==> (held[q] matches Some(LoadedLock::Exclusive(lock)) && lock.ts == start_ts
                && !lock.pessimistic),
        !(held[p] matches Some(LoadedLock::Exclusive(lock)) && lock.ts == start_ts
            && !lock.pessimistic),
    ensures
        !(result.status is Locked),
        exists|i: int|
            0 <= i < dialogue.len() && (#[trigger] dialogue[i]).position == p && dialogue[i].call
                is GetTxnCommitRecord,
        forall|i: int| 0 <= i < dialogue.len() ==> (#[trigger] dialogue[i]).position <= p,
{
    let (d, infos, verdict) = lemma_finishes(ctx, keys, start_ts, dialogue, result);
    if p < d {
        assert(describes(dialogue, p, start_ts, infos));
        assert(dialogue[load_at(p)].call is LoadLock);
    }
    if d < keys.len() {
        assert(dialogue[load_at(d)].call is LoadLock);
        assert(held[d] == loaded_at(dialogue, d));
    }
    assert(d == p);
    assert(dialogue[record_at(dialogue, p, start_ts)].call is GetTxnCommitRecord);
    let end = StepView::Return(Ok(result));
    assert forall|i: int| 0 <= i < dialogue.len() implies (#[trigger] dialogue[i]).position
        <= p by {
        let check = lemma_before(ctx, keys, start_ts, dialogue, end, i);
        if dialogue[i].position > p {
            assert(describes(dialogue.take(i), p, start_ts, check.lock_infos));
        }
    }
}

/// The commit record is the answer: if it says that the transaction was committed, the client is
/// answered that it was, at the very commit timestamp on record, and the scheduler is told so. By
/// any other record, or none, the client is answered that the transaction was rolled back. A record
/// is read once, unless all locks are there.
pub proof fn law_record_is_answered<T: StorageTypes>(
    ctx: T::Context,
    keys: Seq<T::Key>,
    start_ts: TimeStamp,
    dialogue: Seq<Exchange<T>>,
    result: WriteResultView<T>,
)
    requires
        leads_to(first_step(ctx, keys, start_ts), dialogue, StepView::Return(Ok(result))),
    ensures
        forall|i: int|
            0 <= i < dialogue.len() && (#[trigger] dialogue[i]).call is GetTxnCommitRecord ==> {
                &&& dialogue[i].reply matches Reply::Record(record)
                &&& match record {
                    TxnCommitRecord::SingleRecord { commit_ts, write_type } if write_type
                        != WriteType::Rollback => {
                        &&& result.status matches SecondaryLocksStatusView::Committed(ts)
                        &&& ts == commit_ts
                        &&& result.known_txn_status == seq![(start_ts, commit_ts)]
                        &&& result.rows == 0
                    },
                    _ => {
                        &&& result.status is RolledBack
                        &&& result.known_txn_status.len() == 0
                        &&& result.rows == 1
                    },
                }
            },
        forall|i: int, j: int|
            0 <= i < dialogue.len() && 0 <= j < dialogue.len() && (#[trigger] dialogue[i]).call
                is GetTxnCommitRecord && (#[trigger] dialogue[j]).call is GetTxnCommitRecord ==> i
                == j,
        result.status is Locked <==> forall|i: int|
            0 <= i < dialogue.len() ==> !((#[trigger] dialogue[i]).call is GetTxnCommitRecord),
        result.status is Locked ==> result.known_txn_status.len() == 0 && result.rows == 0,
{
    let (p, infos, verdict) = lemma_finishes(ctx, keys, start_ts, dialogue, result);
    let end = StepView::Return(Ok(result));
    assert forall|i: int|
        0 <= i < dialogue.len() && (#[trigger] dialogue[i]).call is GetTxnCommitRecord implies i
        == record_at(dialogue, p, start_ts) && verdict != Verdict::Locked by {
        lemma_about_deciding_key(ctx, keys, start_ts, dialogue, result, p, infos, verdict, i);
    }
    if verdict != Verdict::Locked {
        assert(dialogue[record_at(dialogue, p, start_ts)].call is GetTxnCommitRecord);
    }
}

/// A call that is made for want of a prewritten lock is about the key that decides.
proof fn lemma_about_deciding_key<T: StorageTypes>(
    ctx: T::Context,
    keys: Seq<T::Key>,
    start_ts: TimeStamp,
    dialogue: Seq<Exchange<T>>,
    result: WriteResultView<T>,
    p: int,
    infos: Seq<T::LockInfo>,
    verdict: Verdict,
    i: int,
)
    requires
        leads_to(first_step(ctx, keys, start_ts), dialogue, StepView::Return(Ok(result))),
        finishes(keys.len(), ctx, start_ts, dialogue, p, infos, verdict, result),
        0 <= i < dialogue.len(),
        !(dialogue[i].call is UpdateMaxTs),
        !(dialogue[i].call is OpenTxn),
        !(dialogue[i].call is LoadLock),
        !(dialogue[i].call is IntoLockInfo),
        !(dialogue[i].call is RecordNetworkOutBytes),
        !(dialogue[i].call is CloseTxn),
    ensures
        verdict != Verdict::Locked,
        load_at(p) < i < dialogue.len() - 2,
        dialogue[i].position == p,
        dialogue[i].call is GetTxnCommitRecord ==> i == record_at(dialogue, p, start_ts),
        dialogue[i].call is MakeRollback ==> i == make_at(dialogue, p, start_ts),
        dialogue[i].call is UnlockKey ==> is_own(loaded_at(dialogue, p), start_ts)
            && i + record_at(dialogue, p, start_ts) == 2 * load_at(p) + 3,
{
    if i < load_at(p) {
        let q = (i - 2) / 2;
        assert(i >= 2 ==> describes(dialogue, q, start_ts, infos));
        assert(i >= 2 ==> i == load_at(q) || i == load_at(q) + 1);
    }
}

/// A pessimistic lock of the transaction is always released: where one is loaded, on whichever key,
/// the key is unlocked, and the lock that it had is handed out. No other lock ever is.
pub proof fn law_pessimistic_lock_is_released<T: StorageTypes>(
    ctx: T::Context,
    keys: Seq<T::Key>,
    start_ts: TimeStamp,
    dialogue: Seq<Exchange<T>>,
    result: WriteResultView<T>,
)
    requires
        leads_to(first_step(ctx, keys, start_ts), dialogue, StepView::Return(Ok(result))),
    ensures
        forall|i: int|
            #![trigger dialogue[i]]
            0 <= i < dialogue.len() && dialogue[i].call is LoadLock ==> (
            dialogue[i].reply matches Reply::LockLoaded(Some(LoadedLock::Exclusive(lock)))
                && lock.ts == start_ts && lock.pessimistic ==> exists|j: int|
                i < j < dialogue.len() && (#[trigger] dialogue[j]).call == (Call::<T>::UnlockKey {
                    pessimistic: true,
                    commit_ts: TimeStamp(0),
                }) && dialogue[j].position == dialogue[i].position),
        forall|j: int|
            #![trigger dialogue[j]]
            0 <= j < dialogue.len() && dialogue[j].call is UnlockKey ==> {
                &&& dialogue[j].reply matches Reply::Released(released)
                &&& result.released_locks == match released {
                    Some(lock) => seq![lock],
                    None => seq![],
                }
            },
        forall|j: int|
            #![trigger dialogue[j]]
            0 <= j < dialogue.len() && dialogue[j].call is UnlockKey ==> exists|i: int|
                0 <= i < j && (#[trigger] dialogue[i]).call is LoadLock && dialogue[i].position
                    == dialogue[j].position && (
                dialogue[i].reply matches Reply::LockLoaded(Some(LoadedLock::Exclusive(lock)))
                    && lock.ts == start_ts && lock.pessimistic),
        (forall|j: int| 0 <= j < dialogue.len() ==> !((#[trigger] dialogue[j]).call is UnlockKey))
            ==> result.released_locks.len() == 0,
{
    let (p, infos, verdict) = lemma_finishes(ctx, keys, start_ts, dialogue, result);
    let end = StepView::Return(Ok(result));
    let unlock = 2 * load_at(p) + 3 - record_at(dialogue, p, start_ts);
    if verdict != Verdict::Locked && is_own(loaded_at(dialogue, p), start_ts) {
        assert(dialogue[unlock].call is UnlockKey);
    }
    assert forall|i: int|
        #![trigger dialogue[i]]
        0 <= i < dialogue.len() && dialogue[i].call is LoadLock && (
        dialogue[i].reply matches Reply::LockLoaded(Some(LoadedLock::Exclusive(lock))) && lock.ts
            == start_ts && lock.pessimistic) implies exists|j: int|
        i < j < dialogue.len() && (#[trigger] dialogue[j]).call == (Call::<T>::UnlockKey {
            pessimistic: true,
            commit_ts: TimeStamp(0),
        }) && dialogue[j].position == dialogue[i].position by {
        lemma_load(ctx, keys, start_ts, dialogue, result, p, infos, verdict, i);
        assert(dialogue[unlock].position == dialogue[i].position);
    }
    assert forall|j: int|
        #![trigger dialogue[j]]
        0 <= j < dialogue.len() && dialogue[j].call is UnlockKey implies {
        &&& dialogue[j].reply matches Reply::Released(released)
        &&& result.released_locks == match released {
            Some(lock) => seq![lock],
            None => seq![],
        }
    } by {
        lemma_about_deciding_key(ctx, keys, start_ts, dialogue, result, p, infos, verdict, j);
        assert(j == unlock);
    }
    assert forall|j: int|
        #![trigger dialogue[j]]
        0 <= j < dialogue.len() && dialogue[j].call is UnlockKey implies exists|i: int|
        0 <= i < j && (#[trigger] dialogue[i]).call is LoadLock && dialogue[i].position
            == dialogue[j].position && (
        dialogue[i].reply matches Reply::LockLoaded(Some(LoadedLock::Exclusive(lock))) && lock.ts
            == start_ts && lock.pessimistic) by {
        lemma_about_deciding_key(ctx, keys, start_ts, dialogue, result, p, infos, verdict, j);
        assert(dialogue[load_at(p)].call is LoadLock);
    }
}

/// A lock that is not a prewritten one of the transaction is that on the key that decides.
proof fn lemma_load<T: StorageTypes>(
    ctx: T::Context,
    keys: Seq<T::Key>,
    start_ts: TimeStamp,
    dialogue: Seq<Exchange<T>>,
    result: WriteResultView<T>,
    p: int,
    infos: Seq<T::LockInfo>,
    verdict: Verdict,
    i: int,
)
    requires
        leads_to(first_step(ctx, keys, start_ts), dialogue, StepView::Return(Ok(result))),
        finishes(keys.len(), ctx, start_ts, dialogue, p, infos, verdict, result),
        0 <= i < dialogue.len(),
        dialogue[i].call is LoadLock,
        !(dialogue[i].reply matches Reply::LockLoaded(Some(LoadedLock::Exclusive(lock))) && lock.ts
            == start_ts && !lock.pessimistic),
    ensures
        verdict != Verdict::Locked,
        i == load_at(p),
        dialogue[i].position == p,
{
    if i < load_at(p) {
        let q = (i - 2) / 2;
        assert(i >= 2 ==> describes(dialogue, q, start_ts, infos));
        assert(i >= 2 ==> i == load_at(q) || i == load_at(q) + 1);
    }
}

/// A rollback is noted on the lock that is in its way: where one lock of another transaction was
/// loaded, whatever the two timestamps are, and there is no commit record, the call right after the
/// reading of the record notes the rollback, protected, on that very lock. Nothing is noted
/// otherwise.
pub proof fn law_other_lock_is_marked<T: StorageTypes>(
    ctx: T::Context,
    keys: Seq<T::Key>,
    start_ts: TimeStamp,
    dialogue: Seq<Exchange<T>>,
    end: StepView<T>,
    i: int,
    j: int,
    loaded: Option<LoadedLock<T>>,
)
    requires
        leads_to(first_step(ctx, keys, start_ts), dialogue, end),
        0 <= i < dialogue.len(),
        dialogue[i].call is LoadLock,
        dialogue[i].reply == Reply::<T>::LockLoaded(loaded),
        0 <= j < dialogue.len(),
        dialogue[j].position == dialogue[i].position,
        dialogue[j].call is GetTxnCommitRecord,
        !(dialogue[j].reply is Failed),
    ensures
        ({
            let next = if j + 1 < dialogue.len() {
                dialogue[j + 1].call
            } else {
                end->Call_1
            };
            let is_marked = (loaded matches Some(LoadedLock::Exclusive(lock)) && lock.ts
                != start_ts) && dialogue[j].reply->Record_0 is NotFound;
            &&& j + 1 == dialogue.len() ==> end is Call
            &&& j + 1 < dialogue.len() ==> dialogue[j + 1].position == dialogue[j].position
            &&& is_marked ==> next == (Call::<T>::MarkRollbackOnMismatchingLock {
                lock: loaded->0->Exclusive_0,
                is_protected: true,
            })
            &&& next is MarkRollbackOnMismatchingLock ==> is_marked
        }),
        forall|k: int|
            0 <= k < dialogue.len() && (#[trigger] dialogue[k]).call
                is MarkRollbackOnMismatchingLock ==> k == j + 1,
{
    let p = dialogue[i].position;
    let loading = lemma_before(ctx, keys, start_ts, dialogue, end, i);
    let reading = lemma_before(ctx, keys, start_ts, dialogue, end, j);
    let record = dialogue[j].reply->Record_0;
    assert(dialogue.take(j)[i] == dialogue[i]);
    if j + 1 < dialogue.len() {
        let next = lemma_before(ctx, keys, start_ts, dialogue, end, j + 1);
        let beginning = dialogue.take(j + 1);
        assert(beginning[i] == dialogue[i]);
        assert(beginning[j] == dialogue[j]);
        law_record_decides_next_call(
            ctx,
            keys,
            start_ts,
            beginning,
            loaded,
            i,
            record,
            StepView::Call(next, dialogue[j + 1].call),
        );
    } else {
        law_record_decides_next_call(ctx, keys, start_ts, dialogue, loaded, i, record, end);
    }
    assert forall|k: int|
        0 <= k < dialogue.len() && (#[trigger] dialogue[k]).call
            is MarkRollbackOnMismatchingLock implies k == j + 1 by {
        lemma_one_key_decides(ctx, keys, start_ts, dialogue, end, j, k);
        let marking = lemma_before(ctx, keys, start_ts, dialogue, end, k);
        assert(dialogue.take(k)[load_at(p)] == dialogue[load_at(p)]);
    }
}

/// Calls that are made for want of a prewritten lock are about the same key.
proof fn lemma_one_key_decides<T: StorageTypes>(
    ctx: T::Context,
    keys: Seq<T::Key>,
    start_ts: TimeStamp,
    dialogue: Seq<Exchange<T>>,
    end: StepView<T>,
    j: int,
    k: int,
)
    requires
        leads_to(first_step(ctx, keys, start_ts), dialogue, end),
        0 <= j < dialogue.len(),
        0 <= k < dialogue.len(),
        dialogue[j].call is GetTxnCommitRecord,
        dialogue[k].call is MarkRollbackOnMismatchingLock,
    ensures
        dialogue[j].position == dialogue[k].position,
{
    let reading = lemma_before(ctx, keys, start_ts, dialogue, end, j);
    let marking = lemma_before(ctx, keys, start_ts, dialogue, end, k);
    let p = dialogue[j].position;
    let q = dialogue[k].position;
    if p < q {
        assert(describes(dialogue.take(k), p, start_ts, marking.lock_infos));
        assert(dialogue.take(k)[load_at(p)] == dialogue[load_at(p)]);
        assert(dialogue.take(j)[load_at(p)] == dialogue[load_at(p)]);
        assert(dialogue.take(k)[load_at(p) + 1] == dialogue[load_at(p) + 1]);
    } else if q < p {
        assert(describes(dialogue.take(j), q, start_ts, reading.lock_infos));
        assert(dialogue.take(k)[load_at(q)] == dialogue[load_at(q)]);
        assert(dialogue.take(j)[load_at(q)] == dialogue[load_at(q)]);
    }
}

/// A transaction without a commit record on the key that decides is rolled back there, and no other
/// one is: a rollback is made, protected, at the start timestamp of the transaction and for the
/// write that it overlaps with. If a record is made, it is put there, and an earlier rollback is
/// collapsed.
pub proof fn law_missing_record_is_rolled_back<T: StorageTypes>(
    ctx: T::Context,
    keys: Seq<T::Key>,
    start_ts: TimeStamp,
    dialogue: Seq<Exchange<T>>,
    result: WriteResultView<T>,
)
    requires
        leads_to(first_step(ctx, keys, start_ts), dialogue, StepView::Return(Ok(result))),
    ensures
        forall|i: int|
            #![trigger dialogue[i]]
            0 <= i < dialogue.len() && dialogue[i].call is GetTxnCommitRecord ==> (
            dialogue[i].reply matches Reply::Record(TxnCommitRecord::NotFound { overlapped_write })
                ==> exists|j: int|
                i < j < dialogue.len() && (#[trigger] dialogue[j]).position == dialogue[i].position
                    && dialogue[j].call == (Call::<T>::MakeRollback {
                    start_ts,
                    protected: true,
                    overlapped_write,
                })),
        forall|j: int|
            #![trigger dialogue[j]]
            0 <= j < dialogue.len() && dialogue[j].call is MakeRollback ==> {
                &&& result.status is RolledBack
                &&& dialogue[j].reply matches Reply::RollbackMade(made)
                &&& match made {
                    Some(write) => {
                        &&& j + 2 < dialogue.len()
                        &&& dialogue[j + 1].position == dialogue[j].position
                        &&& dialogue[j + 1].call == (Call::<T>::PutWrite { ts: start_ts, write })
                        &&& dialogue[j + 2].position == dialogue[j].position
                        &&& dialogue[j + 2].call is CollapsePrevRollback
                        &&& j + 5 == dialogue.len()
                    },
                    None => j + 3 == dialogue.len(),
                }
                &&& exists|i: int|
                    0 <= i < j && (#[trigger] dialogue[i]).call is GetTxnCommitRecord
                        && dialogue[i].position == dialogue[j].position
                        && dialogue[i].reply->Record_0 is NotFound
            },
        forall|k: int|
            #![trigger dialogue[k]]
            0 <= k < dialogue.len() && (dialogue[k].call is PutWrite || dialogue[k].call
                is CollapsePrevRollback) ==> exists|j: int|
                0 <= j < k && (#[trigger] dialogue[j]).call is MakeRollback && (k == j + 1 || k == j
                    + 2) && dialogue[j].reply->RollbackMade_0 is Some,
{
    let (p, infos, verdict) = lemma_finishes(ctx, keys, start_ts, dialogue, result);
    let end = StepView::Return(Ok(result));
    let make = make_at(dialogue, p, start_ts);
    let read = record_at(dialogue, p, start_ts);
    if verdict != Verdict::Locked && record_of(dialogue, p, start_ts) is NotFound {
        assert(dialogue[make].call is MakeRollback);
    }
    assert forall|i: int|
        #![trigger dialogue[i]]
        0 <= i < dialogue.len() && dialogue[i].call is GetTxnCommitRecord
            && dialogue[i].reply->Record_0 is NotFound implies exists|j: int|
        i < j < dialogue.len() && (#[trigger] dialogue[j]).position == dialogue[i].position
            && dialogue[j].call == (Call::<T>::MakeRollback {
            start_ts,
            protected: true,
            overlapped_write: dialogue[i].reply->Record_0->overlapped_write,
        }) by {
        lemma_about_deciding_key(ctx, keys, start_ts, dialogue, result, p, infos, verdict, i);
        assert(dialogue[make].position == dialogue[i].position);
    }
    assert forall|j: int|
        #![trigger dialogue[j]]
        0 <= j < dialogue.len() && dialogue[j].call is MakeRollback implies j == make && verdict
        != Verdict::Locked && record_of(dialogue, p, start_ts) is NotFound by {
        lemma_about_deciding_key(ctx, keys, start_ts, dialogue, result, p, infos, verdict, j);
    }
    assert forall|j: int|
        #![trigger dialogue[j]]
        0 <= j < dialogue.len() && dialogue[j].call is MakeRollback implies exists|i: int|
        0 <= i < j && (#[trigger] dialogue[i]).call is GetTxnCommitRecord && dialogue[i].position
            == dialogue[j].position && dialogue[i].reply->Record_0 is NotFound by {
        assert(dialogue[read].call is GetTxnCommitRecord);
    }
    assert forall|k: int|
        #![trigger dialogue[k]]
        0 <= k < dialogue.len() && (dialogue[k].call is PutWrite || dialogue[k].call
            is CollapsePrevRollback) implies exists|j: int|
        0 <= j < k && (#[trigger] dialogue[j]).call is MakeRollback && (k == j + 1 || k == j + 2)
            && dialogue[j].reply->RollbackMade_0 is Some by {
        lemma_about_deciding_key(ctx, keys, start_ts, dialogue, result, p, infos, verdict, k);
        assert(dialogue[make].call is MakeRollback);
    }
}

/// What is handed out besides the status: the context of the request, what the transaction has
/// gathered, and nothing that could stop the write, which is answered when it is applied.
pub proof fn law_result_is_handed_out<T: StorageTypes>(
    ctx: T::Context,
    keys: Seq<T::Key>,
    start_ts: TimeStamp,
    dialogue: Seq<Exchange<T>>,
    result: WriteResultView<T>,
)
    requires
        leads_to(first_step(ctx, keys, start_ts), dialogue, StepView::Return(Ok(result))),
    ensures
        dialogue.len() > 0,
        dialogue.last().call is CloseTxn,
        dialogue.last().reply matches Reply::TxnClosed { new_acquired_locks, modifies } && {
            &&& result.new_acquired_locks == new_acquired_locks
            &&& result.to_be_write.modifies == modifies
        },
        result.ctx == ctx,
        result.to_be_write.allowed_on_disk_almost_full,
        result.lock_info.len() == 0,
        result.lock_guards.len() == 0,
        result.response_policy == ResponsePolicy::OnApplied,
{
    let (p, infos, verdict) = lemma_finishes(ctx, keys, start_ts, dialogue, result);
}

/// The view of a step shows all that the step holds.
pub proof fn law_steps_are_shown<T: StorageTypes>(step: Step<T>)
    ensures
        match step {
            Step::Call(check, call) => step@ == StepView::Call(check@, call),
            Step::Return(Err(error)) => step@ == StepView::<T>::Return(Err(error)),
            Step::Return(Ok(result)) => step@ matches StepView::Return(Ok(shown)) && {
                &&& shown.ctx == result.ctx
                &&& shown.to_be_write == result.to_be_write
                &&& shown.rows == result.rows
                &&& match result.status {
                    SecondaryLocksStatus::Locked(infos) => shown.status
                        == SecondaryLocksStatusView::Locked(infos@),
                    SecondaryLocksStatus::Committed(ts) => shown.status
                        == SecondaryLocksStatusView::<T::LockInfo>::Committed(ts),
                    SecondaryLocksStatus::RolledBack => shown.status is RolledBack,
                }
                &&& shown.lock_info == result.lock_info@
                &&& shown.released_locks == result.released_locks@
                &&& shown.new_acquired_locks == result.new_acquired_locks
                &&& shown.lock_guards == result.lock_guards@
                &&& shown.response_policy == result.response_policy
                &&& shown.known_txn_status == result.known_txn_status@
            },
        },
{
}

} // verus!
