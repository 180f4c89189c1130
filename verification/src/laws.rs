//! What holds of every check.
pub mod exchanges;
mod history;

use vstd::prelude::*;

use crate::dialogue::{
    law_findings_decide, law_results_have_findings, leads_to, lemma_deciding_key, Exchange,
    Findings,
};
use crate::protocol::{determined_verdict, Call, CheckView, Phase, Reply, StepView, Verdict};
use crate::secondary_lock::{determined_status, own_lock};
use crate::types::{StorageTypes, TimeStamp, TxnCommitRecord};
use crate::write_result::{ResponsePolicy, SecondaryLocksStatusView, WriteResultView};

verus! {

/// The first step of a check.
pub open spec fn first_step<T: StorageTypes>(
    ctx: T::Context,
    keys: Seq<T::Key>,
    start_ts: TimeStamp,
) -> StepView<T> {
    StepView::Call(
        CheckView::<T>::initial(ctx, keys, start_ts),
        Call::UpdateMaxTs { start_ts },
    )
}

/// Whether the call changes what the transaction is going to write.
pub open spec fn changes_txn<T: StorageTypes>(call: Call<T>) -> bool {
    ||| call is UnlockKey
    ||| is_about_rollback(call) && !(call is MakeRollback)
}

/// Whether the call serves to roll the transaction back.
pub open spec fn is_about_rollback<T: StorageTypes>(call: Call<T>) -> bool {
    ||| call is MarkRollbackOnMismatchingLock
    ||| call is MakeRollback
    ||| call is PutWrite
    ||| call is CollapsePrevRollback
}

/// The largest number of calls that a check still makes.
spec fn calls_left<T: StorageTypes>(step: StepView<T>) -> int {
    match step {
        StepView::Return(_) => 0,
        StepView::Call(check, _) => match check.phase {
            Phase::UpdateMaxTs => (2 * check.keys.len() + 8) as int,
            Phase::OpenTxn => (2 * check.keys.len() + 7) as int,
            Phase::LoadLock => 2 * (check.keys.len() - check.position) + 6,
            Phase::IntoLockInfo => 2 * (check.keys.len() - check.position) + 5,
            Phase::ReadRecordOfUnlocked { .. } => 7,
            Phase::UnlockBeforeRecord { .. } => 7,
            Phase::ReadRecordOfLocked { lock } => if lock.pessimistic_with_conflict {
                7
            } else {
                6
            },
            Phase::MarkRollback { .. } => 6,
            Phase::UnlockBeforeRollback { .. } => 6,
            Phase::MakeRollback => 5,
            Phase::PutWrite => 4,
            Phase::CollapsePrevRollback => 3,
            Phase::UnlockBeforeVerdict { .. } => 3,
            Phase::RecordNetworkOutBytes { .. } => 2,
            Phase::CloseTxn { .. } => 1,
        },
    }
}

/// Every reply brings a check nearer to its end, and leaves it in a state that it can be in.
proof fn lemma_resume_makes_progress<T: StorageTypes>(
    check: CheckView<T>,
    call: Call<T>,
    reply: Reply<T>,
)
    requires
        check.wf(),
        check.expects(reply),
    ensures
        check.resume(reply) matches StepView::Call(next, _) ==> {
            &&& next.wf()
            &&& next.keys == check.keys
            &&& next.start_ts == check.start_ts
        },
        0 <= calls_left(check.resume(reply)) < calls_left(StepView::Call(check, call)),
{
}

/// The number of calls in a dialogue is what they bring the check nearer to its end.
proof fn lemma_dialogue_length<T: StorageTypes>(
    step: StepView<T>,
    dialogue: Seq<Exchange<T>>,
    end: StepView<T>,
)
    requires
        leads_to(step, dialogue, end),
        step matches StepView::Call(check, _) ==> check.wf(),
    ensures
        dialogue.len() <= calls_left(step),
    decreases dialogue.len(),
{
    if dialogue.len() > 0 {
        let check = step->Call_0;
        lemma_resume_makes_progress(check, step->Call_1, dialogue[0].reply);
        lemma_dialogue_length(check.resume(dialogue[0].reply), dialogue.drop_first(), end);
    }
}

/// A check comes to an end: it makes two calls for each key, and eight more, at most.
pub proof fn law_checks_end<T: StorageTypes>(
    ctx: T::Context,
    keys: Seq<T::Key>,
    start_ts: TimeStamp,
    dialogue: Seq<Exchange<T>>,
    end: StepView<T>,
)
    requires
        keys.len() <= usize::MAX,
        leads_to(first_step(ctx, keys, start_ts), dialogue, end),
    ensures
        dialogue.len() <= 2 * keys.len() + 8,
{
    lemma_dialogue_length(first_step(ctx, keys, start_ts), dialogue, end);
}

/// A check raises the largest timestamp seen before it does anything else, and does so once.
pub proof fn law_max_ts_is_raised_first<T: StorageTypes>(
    ctx: T::Context,
    keys: Seq<T::Key>,
    start_ts: TimeStamp,
    dialogue: Seq<Exchange<T>>,
    end: StepView<T>,
)
    requires
        leads_to(first_step(ctx, keys, start_ts), dialogue, end),
    ensures
        forall|i: int|
            0 <= i < dialogue.len() ==> ((#[trigger] dialogue[i]).call is UpdateMaxTs <==> i == 0),
        dialogue.len() > 0 ==> dialogue[0].call == (Call::<T>::UpdateMaxTs { start_ts }),
{
    lemma_opening(ctx, keys, start_ts, dialogue, end);
}

/// A check opens the transaction and the reader right after it has raised the largest timestamp
/// seen, before it reads or changes anything. It opens them at the start timestamp of the
/// transaction, and does so once.
pub proof fn law_txn_is_opened_once<T: StorageTypes>(
    ctx: T::Context,
    keys: Seq<T::Key>,
    start_ts: TimeStamp,
    dialogue: Seq<Exchange<T>>,
    end: StepView<T>,
)
    requires
        leads_to(first_step(ctx, keys, start_ts), dialogue, end),
    ensures
        forall|i: int|
            0 <= i < dialogue.len() ==> ((#[trigger] dialogue[i]).call is OpenTxn <==> i == 1),
        dialogue.len() > 0 ==> dialogue[0].call is UpdateMaxTs,
        dialogue.len() > 1 ==> dialogue[1].call == (Call::<T>::OpenTxn { start_ts }),
        end matches StepView::Return(Ok(_)) ==> dialogue.len() > 1,
{
    lemma_opening(ctx, keys, start_ts, dialogue, end);
}

/// The first two calls of a check, and no later ones, are those that open it.
proof fn lemma_opening<T: StorageTypes>(
    ctx: T::Context,
    keys: Seq<T::Key>,
    start_ts: TimeStamp,
    dialogue: Seq<Exchange<T>>,
    end: StepView<T>,
)
    requires
        leads_to(first_step(ctx, keys, start_ts), dialogue, end),
    ensures
        dialogue.len() > 0 ==> dialogue[0].call == (Call::<T>::UpdateMaxTs { start_ts }),
        dialogue.len() > 1 ==> dialogue[1].call == (Call::<T>::OpenTxn { start_ts }),
        end matches StepView::Return(Ok(_)) ==> dialogue.len() > 1,
        forall|i: int|
            2 <= i < dialogue.len() ==> {
                let call = (#[trigger] dialogue[i]).call;
                !(call is UpdateMaxTs) && !(call is OpenTxn)
            },
{
    reveal_with_fuel(leads_to, 3);
    if dialogue.len() > 1 {
        let second = dialogue.drop_first();
        let rest = second.drop_first();
        let opening = CheckView {
            phase: Phase::OpenTxn,
            ..CheckView::<T>::initial(ctx, keys, start_ts)
        };
        assert(leads_to(opening.resume(second[0].reply), rest, end));
        lemma_not_opened_again(opening.resume(second[0].reply), rest, end);
        assert forall|i: int| 2 <= i < dialogue.len() implies {
            let call = (#[trigger] dialogue[i]).call;
            !(call is UpdateMaxTs) && !(call is OpenTxn)
        } by {
            assert(rest[i - 2] == dialogue[i]);
        }
    }
}

/// A check that has been opened makes none of the calls that open it.
proof fn lemma_not_opened_again<T: StorageTypes>(
    step: StepView<T>,
    dialogue: Seq<Exchange<T>>,
    end: StepView<T>,
)
    requires
        step matches StepView::Call(check, call) ==> {
            &&& !(call is UpdateMaxTs)
            &&& !(call is OpenTxn)
            &&& check.phase.waits_for(call)
        },
        leads_to(step, dialogue, end),
    ensures
        forall|i: int|
            0 <= i < dialogue.len() ==> {
                let call = (#[trigger] dialogue[i]).call;
                !(call is UpdateMaxTs) && !(call is OpenTxn)
            },
    decreases dialogue.len(),
{
    if dialogue.len() > 0 {
        let rest = dialogue.drop_first();
        lemma_not_opened_again(step->Call_0.resume(dialogue[0].reply), rest, end);
        assert forall|i: int| 0 <= i < dialogue.len() implies {
            let call = (#[trigger] dialogue[i]).call;
            !(call is UpdateMaxTs) && !(call is OpenTxn)
        } by {
            assert(i > 0 ==> rest[i - 1] == dialogue[i]);
        }
    }
}

/// Whether a failure at `i` is the failure of a call that can fail, and the end of the dialogue.
pub open spec fn failure_is_end<T: StorageTypes>(
    dialogue: Seq<Exchange<T>>,
    i: int,
    end: StepView<T>,
) -> bool {
    dialogue[i].reply matches Reply::Failed(error) ==> {
        &&& can_fail(dialogue[i].call)
        &&& i == dialogue.len() - 1
        &&& end == StepView::<T>::Return(Err(error))
    }
}

/// Whether the call can fail.
pub open spec fn can_fail<T: StorageTypes>(call: Call<T>) -> bool {
    ||| call is UpdateMaxTs
    ||| call is LoadLock
    ||| call is GetTxnCommitRecord
    ||| call is CollapsePrevRollback
    ||| call is IntoLockInfo
}

/// A check fails if and only if a call fails. It then makes no further call, and it reports what
/// that call reported.
pub proof fn law_failure_ends_check<T: StorageTypes>(
    ctx: T::Context,
    keys: Seq<T::Key>,
    start_ts: TimeStamp,
    dialogue: Seq<Exchange<T>>,
    end: StepView<T>,
)
    requires
        leads_to(first_step(ctx, keys, start_ts), dialogue, end),
    ensures
        forall|i: int| 0 <= i < dialogue.len() ==> failure_is_end(dialogue, i, end),
        end matches StepView::Return(Err(_)) ==> dialogue.len() > 0 && dialogue.last().reply
            is Failed,
{
    lemma_failure_ends_check(first_step(ctx, keys, start_ts), dialogue, end);
}

proof fn lemma_failure_ends_check<T: StorageTypes>(
    step: StepView<T>,
    dialogue: Seq<Exchange<T>>,
    end: StepView<T>,
)
    requires
        step matches StepView::Call(check, call) && check.phase.waits_for(call),
        leads_to(step, dialogue, end),
    ensures
        forall|i: int| 0 <= i < dialogue.len() ==> failure_is_end(dialogue, i, end),
        end matches StepView::Return(Err(_)) ==> dialogue.len() > 0 && dialogue.last().reply
            is Failed,
    decreases dialogue.len(),
{
    if dialogue.len() > 0 {
        reveal_with_fuel(leads_to, 2);
        let next = step->Call_0.resume(dialogue[0].reply);
        let rest = dialogue.drop_first();
        if next is Call {
            lemma_failure_ends_check(next, rest, end);
            assert forall|i: int| 0 <= i < dialogue.len() implies failure_is_end(
                dialogue,
                i,
                end,
            ) by {
                assert(i > 0 ==> failure_is_end(rest, i - 1, end));
            }
        } else {
            assert(rest.len() == 0);
        }
    }
}

/// What a call says about timestamps and protection, if it is a call for the transaction that
/// started at `start_ts`.
pub open spec fn concerns<T: StorageTypes>(call: Call<T>, start_ts: TimeStamp) -> bool {
    match call {
        Call::UpdateMaxTs { start_ts: ts } => ts == start_ts,
        Call::OpenTxn { start_ts: ts } => ts == start_ts,
        Call::UnlockKey { pessimistic, commit_ts } => pessimistic && commit_ts == TimeStamp(0),
        Call::MarkRollbackOnMismatchingLock { lock, is_protected } => {
            lock.ts != start_ts && is_protected
        },
        Call::MakeRollback { start_ts: ts, protected, .. } => ts == start_ts && protected,
        Call::PutWrite { ts, .. } => ts == start_ts,
        Call::IntoLockInfo { lock } => lock.ts == start_ts && !lock.pessimistic,
        _ => true,
    }
}

/// A check rolls back nothing but its own transaction, and all of its rollbacks are protected.
/// It marks locks of other transactions only, and describes prewritten locks of its own only.
pub proof fn law_calls_concern_the_transaction<T: StorageTypes>(
    ctx: T::Context,
    keys: Seq<T::Key>,
    start_ts: TimeStamp,
    dialogue: Seq<Exchange<T>>,
    end: StepView<T>,
)
    requires
        keys.len() <= usize::MAX,
        leads_to(first_step(ctx, keys, start_ts), dialogue, end),
    ensures
        forall|i: int|
            0 <= i < dialogue.len() ==> concerns((#[trigger] dialogue[i]).call, start_ts),
{
    lemma_calls_concern_the_transaction(first_step(ctx, keys, start_ts), dialogue, end);
}

proof fn lemma_calls_concern_the_transaction<T: StorageTypes>(
    step: StepView<T>,
    dialogue: Seq<Exchange<T>>,
    end: StepView<T>,
)
    requires
        step matches StepView::Call(check, call) ==> check.wf() && concerns(call, check.start_ts),
        leads_to(step, dialogue, end),
    ensures
        step matches StepView::Call(check, _) ==> forall|i: int|
            0 <= i < dialogue.len() ==> concerns((#[trigger] dialogue[i]).call, check.start_ts),
    decreases dialogue.len(),
{
    if dialogue.len() > 0 {
        reveal_with_fuel(leads_to, 2);
        let check = step->Call_0;
        let next = check.resume(dialogue[0].reply);
        let rest = dialogue.drop_first();
        lemma_resume_makes_progress(check, step->Call_1, dialogue[0].reply);
        lemma_calls_concern_the_transaction(next, rest, end);
        assert(next is Return ==> rest.len() == 0);
        assert forall|i: int| 0 <= i < dialogue.len() implies concerns(
            (#[trigger] dialogue[i]).call,
            check.start_ts,
        ) by {
            assert(i > 0 ==> rest[i - 1] == dialogue[i]);
        }
    }
}

/// A rollback record that is made is put at once, at the start timestamp of the transaction, and
/// an earlier rollback on the same key is collapsed then. No other record is ever put.
pub proof fn law_made_rollbacks_are_put<T: StorageTypes>(
    ctx: T::Context,
    keys: Seq<T::Key>,
    start_ts: TimeStamp,
    dialogue: Seq<Exchange<T>>,
    result: WriteResultView<T>,
)
    requires
        leads_to(first_step(ctx, keys, start_ts), dialogue, StepView::Return(Ok(result))),
    ensures
        forall|i: int| 0 <= i < dialogue.len() ==> rollback_is_put(dialogue, i, start_ts),
        forall|i: int|
            0 <= i < dialogue.len() && (#[trigger] dialogue[i]).call is PutWrite ==> {
                &&& i > 0
                &&& dialogue[i - 1].call is MakeRollback
                &&& dialogue[i - 1].reply == Reply::<T>::RollbackMade(
                    Some(dialogue[i].call->write),
                )
            },
{
    let step = first_step(ctx, keys, start_ts);
    assert(dialogue.len() > 0 && dialogue[0].call is UpdateMaxTs);
    lemma_made_rollbacks_are_put(step, dialogue, result);
}

/// Whether the exchange at `i` is followed by the put of the rollback that it made, if it made one.
pub open spec fn rollback_is_put<T: StorageTypes>(
    dialogue: Seq<Exchange<T>>,
    i: int,
    start_ts: TimeStamp,
) -> bool {
    (dialogue[i].call is MakeRollback && dialogue[i].reply matches Reply::RollbackMade(Some(write)))
        ==> {
        &&& i + 2 < dialogue.len()
        &&& dialogue[i + 1].call == (Call::<T>::PutWrite {
            ts: start_ts,
            write: dialogue[i].reply->RollbackMade_0->0,
        })
        &&& dialogue[i + 1].position == dialogue[i].position
        &&& dialogue[i + 2].call is CollapsePrevRollback
        &&& dialogue[i + 2].position == dialogue[i].position
    }
}

proof fn lemma_made_rollbacks_are_put<T: StorageTypes>(
    step: StepView<T>,
    dialogue: Seq<Exchange<T>>,
    result: WriteResultView<T>,
)
    requires
        step matches StepView::Call(check, call) && check.phase.waits_for(call),
        leads_to(step, dialogue, StepView::Return(Ok(result))),
    ensures
        forall|i: int|
            0 <= i < dialogue.len() ==> rollback_is_put(dialogue, i, step->Call_0.start_ts),
        forall|i: int|
            0 < i < dialogue.len() && (#[trigger] dialogue[i]).call is PutWrite ==> {
                &&& dialogue[i - 1].call is MakeRollback
                &&& dialogue[i - 1].reply == Reply::<T>::RollbackMade(
                    Some(dialogue[i].call->write),
                )
            },
    decreases dialogue.len(),
{
    reveal_with_fuel(leads_to, 4);
    let check = step->Call_0;
    let start_ts = check.start_ts;
    let next = check.resume(dialogue[0].reply);
    let rest = dialogue.drop_first();
    if next is Call {
        lemma_made_rollbacks_are_put(next, rest, result);
        assert forall|i: int| 0 <= i < dialogue.len() implies rollback_is_put(
            dialogue,
            i,
            start_ts,
        ) by {
            if i > 0 {
                assert(rollback_is_put(rest, i - 1, start_ts));
            }
        }
        assert forall|i: int|
            0 < i < dialogue.len() && (#[trigger] dialogue[i]).call is PutWrite implies {
            &&& dialogue[i - 1].call is MakeRollback
            &&& dialogue[i - 1].reply == Reply::<T>::RollbackMade(Some(dialogue[i].call->write))
        } by {
            assert(rest[i - 1] == dialogue[i]);
            assert(i > 1 ==> rest[i - 2] == dialogue[i - 1]);
        }
    } else {
        assert(rest.len() == 0);
    }
}

/// The calls about keys that are all locked.
proof fn lemma_locked_keys_calls<T: StorageTypes>(findings: Findings<T>)
    requires
        findings.all_locked(),
    ensures
        forall|i: int|
            0 <= i < findings.keys_dialogue().len() ==> {
                let call = (#[trigger] findings.keys_dialogue()[i]).call;
                call is LoadLock || call is IntoLockInfo
            },
    decreases findings.keys.len(),
{
    if findings.keys.len() > 0 {
        let before = findings.drop_last();
        let key = findings.keys.last();
        assert(key == findings.keys[findings.keys.len() - 1]);
        assert forall|i: int| 0 <= i < before.keys.len() implies (
        #[trigger] before.keys[i]).is_locked(before.start_ts) by {
            assert(before.keys[i] == findings.keys[i]);
        }
        lemma_locked_keys_calls(before);
    }
}

/// If the client is answered that all locks are there, the check has changed nothing: it has only
/// loaded the locks and described them.
pub proof fn law_locked_answer_changes_nothing<T: StorageTypes>(
    ctx: T::Context,
    keys: Seq<T::Key>,
    start_ts: TimeStamp,
    dialogue: Seq<Exchange<T>>,
    result: WriteResultView<T>,
)
    requires
        leads_to(first_step(ctx, keys, start_ts), dialogue, StepView::Return(Ok(result))),
        result.status is Locked,
    ensures
        forall|i: int|
            0 <= i < dialogue.len() ==> !changes_txn((#[trigger] dialogue[i]).call)
                && !is_about_rollback(dialogue[i].call),
        result.status->Locked_0.len() == keys.len(),
        result.rows == 0,
        result.released_locks.len() == 0,
        result.known_txn_status.len() == 0,
{
    law_results_have_findings(ctx, keys, start_ts, dialogue, result);
    let (findings, new_acquired_locks, modifies) = choose|
        findings: Findings<T>,
        new_acquired_locks: T::NewLocks,
        modifies: T::Modifies,
    |
        {
            &&& findings.start_ts == start_ts
            &&& findings.complete(keys.len())
            &&& dialogue == #[trigger] findings.dialogue(new_acquired_locks, modifies)
            &&& result == findings.result(ctx, new_acquired_locks, modifies)
        };
    assert(findings.all_locked());
    lemma_locked_dialogue(findings, new_acquired_locks, modifies);
    if findings.keys.len() > 0 {
        assert(findings.keys[findings.keys.len() - 1].is_locked(start_ts));
    }
}

/// A check rolls the transaction back if and only if there is neither a prewritten lock nor a
/// commit record on the key that decides. It does so on this key only, and answers so.
pub proof fn law_rollback_iff_no_record<T: StorageTypes>(
    findings: Findings<T>,
    n: nat,
    new_acquired_locks: T::NewLocks,
    modifies: T::Modifies,
)
    requires
        findings.complete(n),
    ensures
        (exists|i: int|
            0 <= i < findings.dialogue(new_acquired_locks, modifies).len() && is_about_rollback(
                (#[trigger] findings.dialogue(new_acquired_locks, modifies)[i]).call,
            )) <==> (findings.keys.len() > 0 && findings.keys.last().needs_rollback(
            findings.start_ts,
        )),
        forall|i: int|
            0 <= i < findings.dialogue(new_acquired_locks, modifies).len() && is_about_rollback(
                (#[trigger] findings.dialogue(new_acquired_locks, modifies)[i]).call,
            ) ==> {
                &&& findings.dialogue(new_acquired_locks, modifies)[i].position
                    == findings.keys.len() - 1
                &&& findings.verdict() == Verdict::RolledBack
            },
{
    let dialogue = findings.dialogue(new_acquired_locks, modifies);
    let closing = findings.closing_dialogue(new_acquired_locks, modifies);
    let about_keys = findings.keys_dialogue();
    assert forall|i: int| 0 <= i < dialogue.len() && is_about_rollback(
        (#[trigger] dialogue[i]).call,
    ) implies 2 <= i < 2 + about_keys.len() && dialogue[i] == about_keys[i - 2] by {
        assert(i >= 2 + about_keys.len() ==> dialogue[i] == closing[i - 2 - about_keys.len()]);
    }
    if findings.all_locked() {
        lemma_locked_keys_calls(findings);
        if findings.keys.len() > 0 {
            assert(findings.keys[findings.keys.len() - 1].is_locked(findings.start_ts));
        }
    } else {
        lemma_deciding_key(findings, n);
        let before = findings.drop_last();
        let key = findings.keys.last();
        let position = findings.keys.len() - 1;
        let about_key = key.dialogue(position, findings.start_ts);
        let status = key.status_dialogue(position, findings.start_ts);
        lemma_locked_keys_calls(before);
        assert(about_keys == before.keys_dialogue() + about_key);
        let skipped = before.keys_dialogue().len() as int;
        assert forall|i: int| 0 <= i < dialogue.len() && is_about_rollback(
            (#[trigger] dialogue[i]).call,
        ) implies key.needs_rollback(findings.start_ts) && dialogue[i].position == position by {
            assert(dialogue[i] == about_keys[i - 2]);
            assert(i - 2 < skipped ==> about_keys[i - 2] == before.keys_dialogue()[i - 2]);
            assert(dialogue[i] == about_key[i - 2 - skipped]);
        }
        if key.needs_rollback(findings.start_ts) {
            let rollback = key.rollback_dialogue(position, findings.start_ts);
            let first = status.len() as int;
            assert(about_key[first] == rollback[0]);
            assert(dialogue[2 + skipped + first] == about_key[first]);
            assert(is_about_rollback(dialogue[2 + skipped + first].call));
        }
    }
}

/// A status that is on record is only read: where the transaction has no lock on the key that
/// decides, and a commit record, a check answers by that record and changes nothing.
pub proof fn law_recorded_status_is_only_read<T: StorageTypes>(
    findings: Findings<T>,
    n: nat,
    new_acquired_locks: T::NewLocks,
    modifies: T::Modifies,
)
    requires
        findings.complete(n),
        findings.keys.len() > 0,
        own_lock(findings.keys.last().loaded, findings.start_ts) is None,
        !(findings.keys.last().record is NotFound),
    ensures
        findings.verdict() == determined_verdict(findings.keys.last().record),
        forall|i: int|
            0 <= i < findings.dialogue(new_acquired_locks, modifies).len() ==> !changes_txn(
                (#[trigger] findings.dialogue(new_acquired_locks, modifies)[i]).call,
            ),
{
    let dialogue = findings.dialogue(new_acquired_locks, modifies);
    let closing = findings.closing_dialogue(new_acquired_locks, modifies);
    let about_keys = findings.keys_dialogue();
    let key = findings.keys.last();
    let position = findings.keys.len() - 1;
    assert(!findings.keys[position].is_locked(findings.start_ts));
    lemma_deciding_key(findings, n);
    let before = findings.drop_last();
    lemma_locked_keys_calls(before);
    let skipped = before.keys_dialogue().len() as int;
    let about_key = key.dialogue(position, findings.start_ts);
    assert forall|i: int| 0 <= i < dialogue.len() implies !changes_txn(
        (#[trigger] dialogue[i]).call,
    ) by {
        if i >= 2 + about_keys.len() {
            assert(dialogue[i] == closing[i - 2 - about_keys.len()]);
        } else if i >= 2 + skipped {
            assert(dialogue[i] == about_key[i - 2 - skipped]);
        } else if i >= 2 {
            assert(dialogue[i] == before.keys_dialogue()[i - 2]);
        }
    }
}

/// Whether the record says that the transaction was rolled back.
pub open spec fn is_rollback<T: StorageTypes>(record: TxnCommitRecord<T>) -> bool {
    !(record is NotFound) && determined_status(record) is RolledBack
}

/// Whether `second` is what the storage holds once a check that found `first` is over, its writes
/// have been applied, and nothing else was written: the prewritten locks are still there, a lock
/// of the transaction on the key that decides is gone, and the transaction has the commit record
/// on this key that it had, or, if it had none, the rollback that was put.
pub open spec fn shows_writes_of<T: StorageTypes>(second: Findings<T>, first: Findings<T>) -> bool {
    &&& second.start_ts == first.start_ts
    &&& second.keys.len() == first.keys.len()
    &&& forall|i: int|
        #![trigger first.keys[i]]
        #![trigger second.keys[i]]
        0 <= i < first.keys.len() && first.keys[i].is_locked(first.start_ts) ==> {
            &&& second.keys[i].loaded == first.keys[i].loaded
            &&& second.keys[i].info == first.keys[i].info
            &&& second.keys[i].size == first.keys[i].size
        }
    &&& !first.all_locked() ==> {
        let before = first.keys.last().record;
        let after = second.keys.last().record;
        &&& own_lock(second.keys.last().loaded, second.start_ts) is None
        &&& if before is NotFound {
            is_rollback(after)
        } else {
            after == before
        }
    }
}

/// Findings on the same locks have the same size.
proof fn lemma_same_result_size<T: StorageTypes>(first: Findings<T>, second: Findings<T>)
    requires
        second.start_ts == first.start_ts,
        second.keys.len() == first.keys.len(),
        forall|i: int|
            #![trigger first.keys[i]]
            #![trigger second.keys[i]]
            0 <= i < first.keys.len() ==> {
                &&& second.keys[i].is_locked(first.start_ts) == first.keys[i].is_locked(
                    first.start_ts,
                )
                &&& first.keys[i].is_locked(first.start_ts) ==> second.keys[i].size
                    == first.keys[i].size
            },
    ensures
        second.result_size() == first.result_size(),
    decreases first.keys.len(),
{
    if first.keys.len() > 0 {
        let last = first.keys.len() - 1;
        assert(first.keys.last() == first.keys[last]);
        assert(second.keys.last() == second.keys[last]);
        assert forall|i: int| 0 <= i < last implies first.drop_last().keys[i] == first.keys[i]
            && second.drop_last().keys[i] == second.keys[i] by {}
        lemma_same_result_size(first.drop_last(), second.drop_last());
    }
}

/// The status that a check has decided is stable. If its writes are applied, and nothing else is
/// written, a second check of the same keys succeeds as well and answers the same. It releases no
/// lock, and makes no call that changes what the transaction is going to write.
pub proof fn law_status_is_stable<T: StorageTypes>(
    first: Findings<T>,
    second: Findings<T>,
    ctx: T::Context,
    keys: Seq<T::Key>,
    new_acquired_locks: T::NewLocks,
    modifies: T::Modifies,
)
    requires
        first.complete(keys.len()),
        shows_writes_of(second, first),
    ensures
        second.complete(keys.len()),
        leads_to(
            first_step(ctx, keys, second.start_ts),
            second.dialogue(new_acquired_locks, modifies),
            StepView::Return(Ok(second.result(ctx, new_acquired_locks, modifies))),
        ),
        second.result(ctx, new_acquired_locks, modifies).status == first.status(),
        second.result(ctx, new_acquired_locks, modifies).released_locks.len() == 0,
        forall|i: int|
            0 <= i < second.dialogue(new_acquired_locks, modifies).len() ==> !changes_txn(
                (#[trigger] second.dialogue(new_acquired_locks, modifies)[i]).call,
            ),
{
    let start_ts = first.start_ts;
    let last = first.keys.len() - 1;
    if !first.all_locked() {
        lemma_deciding_key(first, keys.len());
        assert(first.keys.last() == first.keys[last]);
        assert(second.keys.last() == second.keys[last]);
        assert forall|i: int| 0 <= i < last implies (#[trigger] first.keys[i]).is_locked(
            start_ts,
        ) by {
            assert(first.drop_last().keys[i] == first.keys[i]);
        }
    }
    assert forall|i: int|
        #![trigger first.keys[i]]
        #![trigger second.keys[i]]
        0 <= i < first.keys.len() implies {
        &&& second.keys[i].is_locked(start_ts) == first.keys[i].is_locked(start_ts)
        &&& second.keys[i].wf(start_ts)
    } by {
        assert(first.keys[i].wf(start_ts));
        assert(first.all_locked() ==> first.keys[i].is_locked(start_ts));
    }
    lemma_same_result_size(first, second);
    if first.all_locked() {
        assert(second.all_locked());
        assert(second.lock_infos() =~= first.lock_infos()) by {
            assert forall|i: int| 0 <= i < first.keys.len() implies second.keys[i].info
                == first.keys[i].info by {
                assert(first.keys[i].is_locked(start_ts));
            }
        }
        if second.keys.len() > 0 {
            assert(second.keys[last].is_locked(start_ts));
        }
        lemma_locked_dialogue(second, new_acquired_locks, modifies);
    } else {
        assert(!second.keys[last].is_locked(start_ts));
        assert(second.drop_last().all_locked()) by {
            assert forall|i: int| 0 <= i < last implies (
            #[trigger] second.drop_last().keys[i]).is_locked(start_ts) by {
                assert(second.drop_last().keys[i] == second.keys[i]);
                assert(first.keys[i].is_locked(start_ts));
            }
        }
        assert(second.complete(keys.len()));
        law_recorded_status_is_only_read(second, keys.len(), new_acquired_locks, modifies);
    }
    law_findings_decide(second, ctx, keys, new_acquired_locks, modifies);
}

/// The calls of a check that finds all keys locked.
proof fn lemma_locked_dialogue<T: StorageTypes>(
    findings: Findings<T>,
    new_acquired_locks: T::NewLocks,
    modifies: T::Modifies,
)
    requires
        findings.all_locked(),
    ensures
        forall|i: int|
            0 <= i < findings.dialogue(new_acquired_locks, modifies).len() ==> {
                let call = (#[trigger] findings.dialogue(new_acquired_locks, modifies)[i]).call;
                !changes_txn(call) && !is_about_rollback(call)
            },
{
    lemma_locked_keys_calls(findings);
    let dialogue = findings.dialogue(new_acquired_locks, modifies);
    let closing = findings.closing_dialogue(new_acquired_locks, modifies);
    let about_keys = findings.keys_dialogue();
    assert forall|i: int| 0 <= i < dialogue.len() implies {
        let call = (#[trigger] dialogue[i]).call;
        !changes_txn(call) && !is_about_rollback(call)
    } by {
        if i >= 2 + about_keys.len() {
            assert(dialogue[i] == closing[i - 2 - about_keys.len()]);
        } else if i >= 2 {
            assert(dialogue[i] == about_keys[i - 2]);
        }
    }
}

/// What the scheduler is told fits what the client is answered: a row is changed if and only if
/// the transaction is rolled back, and the transaction is reported as committed if and only if it
/// is. At most one lock is released. The write goes through on an almost full disk, and the client
/// is answered when it is applied.
pub proof fn law_result_fits_answer<T: StorageTypes>(
    ctx: T::Context,
    keys: Seq<T::Key>,
    start_ts: TimeStamp,
    dialogue: Seq<Exchange<T>>,
    result: WriteResultView<T>,
)
    requires
        leads_to(first_step(ctx, keys, start_ts), dialogue, StepView::Return(Ok(result))),
    ensures
        result.ctx == ctx,
        result.rows == (if result.status is RolledBack { 1int } else { 0 }),
        result.known_txn_status == (match result.status {
            SecondaryLocksStatusView::Committed(commit_ts) => seq![(start_ts, commit_ts)],
            _ => seq![],
        }),
        result.released_locks.len() <= 1,
        result.lock_info.len() == 0,
        result.lock_guards.len() == 0,
        result.response_policy == ResponsePolicy::OnApplied,
        result.to_be_write.allowed_on_disk_almost_full,
{
    law_results_have_findings(ctx, keys, start_ts, dialogue, result);
}

} // verus!
