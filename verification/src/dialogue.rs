//! Whole checks: the dialogue that a check leads with the storage, and what it comes to.
//!
//! The transitions of [`CheckView`] say what follows one reply. Here stands what follows from all
//! replies together, in terms of what the storage holds for the keys.
use vstd::prelude::*;

use crate::protocol::{
    determined_verdict, push_released, Call, CheckView, Phase, Reply, StepView, Verdict,
};
use crate::secondary_lock::{mismatch_lock, overlapped_write, own_lock};
use crate::types::{LoadedLock, StorageTypes, TimeStamp, TxnCommitRecord};
use crate::write_result::{ResponsePolicy, SecondaryLocksStatusView, WriteData, WriteResultView};

verus! {

/// A call, the position of the key that it is about, and its reply.
pub struct Exchange<T: StorageTypes> {
    pub position: int,
    pub call: Call<T>,
    pub reply: Reply<T>,
}

/// Whether a check that stands before `step` makes the calls of `dialogue`, in this order and
/// with these replies, and stands before `end` then.
pub open spec fn leads_to<T: StorageTypes>(
    step: StepView<T>,
    dialogue: Seq<Exchange<T>>,
    end: StepView<T>,
) -> bool
    decreases dialogue.len(),
{
    if dialogue.len() == 0 {
        step == end
    } else {
        &&& step matches StepView::Call(check, call)
        &&& call == dialogue[0].call
        &&& check.position == dialogue[0].position
        &&& check.expects(dialogue[0].reply)
        &&& leads_to(check.resume(dialogue[0].reply), dialogue.drop_first(), end)
    }
}

/// What the storage replies about one key. A call that is not made may reply anything.
pub struct KeyFindings<T: StorageTypes> {
    /// The lock on the key.
    pub loaded: Option<LoadedLock<T>>,
    /// The commit record of the transaction.
    pub record: TxnCommitRecord<T>,
    /// The lock that is released when the key is unlocked.
    pub released: Option<T::ReleasedLock>,
    /// The rollback record that is made.
    pub rollback: Option<T::Write>,
    /// The description of the lock.
    pub info: T::LockInfo,
    /// The size of the description.
    pub size: u32,
}

impl<T: StorageTypes> KeyFindings<T> {
    /// Whether the transaction has a prewritten lock on the key.
    pub open spec fn is_locked(self, start_ts: TimeStamp) -> bool {
        own_lock(self.loaded, start_ts) matches Some(lock) && !lock.pessimistic
    }

    /// Whether the transaction has a pessimistic lock on the key.
    pub open spec fn is_pessimistic(self, start_ts: TimeStamp) -> bool {
        own_lock(self.loaded, start_ts) matches Some(lock) && lock.pessimistic
    }

    /// A lock of the transaction is well-formed, and it has no commit record if it holds a
    /// pessimistic lock that was acquired without a conflict.
    pub open spec fn wf(self, start_ts: TimeStamp) -> bool {
        own_lock(self.loaded, start_ts) matches Some(lock) ==> {
            &&& lock.wf()
            &&& lock.pessimistic && !lock.pessimistic_with_conflict ==> self.record is NotFound
        }
    }

    /// The reading of the commit record.
    pub open spec fn record_exchange(self, position: int) -> Exchange<T> {
        Exchange { position, call: Call::GetTxnCommitRecord, reply: Reply::Record(self.record) }
    }

    /// The release of the pessimistic lock.
    pub open spec fn unlock_exchange(self, position: int) -> Exchange<T> {
        Exchange {
            position,
            call: Call::UnlockKey { pessimistic: true, commit_ts: TimeStamp(0) },
            reply: Reply::Released(self.released),
        }
    }

    /// The part of the dialogue that determines the status of the transaction.
    pub open spec fn status_dialogue(self, position: int, start_ts: TimeStamp) -> Seq<Exchange<T>> {
        let load = Exchange {
            position,
            call: Call::LoadLock,
            reply: Reply::LockLoaded(self.loaded),
        };
        match own_lock(self.loaded, start_ts) {
            Some(lock) => if !lock.pessimistic {
                seq![
                    load,
                    Exchange {
                        position,
                        call: Call::IntoLockInfo { lock },
                        reply: Reply::LockInfo { info: self.info, size: self.size },
                    },
                ]
            } else if lock.pessimistic_with_conflict {
                seq![load, self.record_exchange(position), self.unlock_exchange(position)]
            } else {
                seq![load, self.unlock_exchange(position), self.record_exchange(position)]
            },
            None => seq![load, self.record_exchange(position)],
        }
    }

    /// The part of the dialogue that prevents the status from being changed.
    pub open spec fn rollback_dialogue(self, position: int, start_ts: TimeStamp) -> Seq<
        Exchange<T>,
    > {
        let mark = match mismatch_lock(self.loaded, start_ts) {
            Some(lock) => seq![
                Exchange {
                    position,
                    call: Call::MarkRollbackOnMismatchingLock { lock, is_protected: true },
                    reply: Reply::Done,
                },
            ],
            None => seq![],
        };
        let make = seq![
            Exchange {
                position,
                call: Call::MakeRollback {
                    start_ts,
                    protected: true,
                    overlapped_write: overlapped_write(self.record),
                },
                reply: Reply::RollbackMade(self.rollback),
            },
        ];
        let put = match self.rollback {
            Some(write) => seq![
                Exchange {
                    position,
                    call: Call::PutWrite { ts: start_ts, write },
                    reply: Reply::Done,
                },
                Exchange { position, call: Call::CollapsePrevRollback, reply: Reply::Done },
            ],
            None => seq![],
        };
        mark + make + put
    }

    /// Whether a rollback is made for the key.
    pub open spec fn needs_rollback(self, start_ts: TimeStamp) -> bool {
        !self.is_locked(start_ts) && self.record is NotFound
    }

    /// The dialogue about the key.
    pub open spec fn dialogue(self, position: int, start_ts: TimeStamp) -> Seq<Exchange<T>> {
        self.status_dialogue(position, start_ts) + if self.needs_rollback(start_ts) {
            self.rollback_dialogue(position, start_ts)
        } else {
            seq![]
        }
    }
}

/// What the storage replies about the keys that a check looks at.
pub struct Findings<T: StorageTypes> {
    pub start_ts: TimeStamp,
    pub keys: Seq<KeyFindings<T>>,
}

impl<T: StorageTypes> Findings<T> {
    /// Whether the transaction has a prewritten lock on every key.
    pub open spec fn all_locked(self) -> bool {
        forall|i: int|
            0 <= i < self.keys.len() ==> (#[trigger] self.keys[i]).is_locked(self.start_ts)
    }

    /// The findings without those on the last key.
    pub open spec fn drop_last(self) -> Self {
        Findings { keys: self.keys.drop_last(), ..self }
    }

    /// The total size of the lock descriptions.
    pub open spec fn result_size(self) -> int
        decreases self.keys.len(),
    {
        if self.keys.len() == 0 {
            0
        } else {
            self.drop_last().result_size() + if self.keys.last().is_locked(self.start_ts) {
                self.keys.last().size as int
            } else {
                0
            }
        }
    }

    /// The descriptions of the locks.
    pub open spec fn lock_infos(self) -> Seq<T::LockInfo> {
        self.keys.map_values(|key: KeyFindings<T>| key.info)
    }

    /// Whether these are findings on the keys that a check of `n` keys looks at: on all of them
    /// if they are locked, or else on those up to the first that is not.
    pub open spec fn complete(self, n: nat) -> bool {
        &&& forall|i: int| 0 <= i < self.keys.len() ==> (#[trigger] self.keys[i]).wf(self.start_ts)
        &&& self.result_size() <= u64::MAX
        &&& if self.all_locked() {
            self.keys.len() == n
        } else {
            self.keys.len() <= n && self.drop_last().all_locked()
        }
    }

    /// What the findings say about the transaction.
    pub open spec fn verdict(self) -> Verdict {
        if self.all_locked() {
            Verdict::Locked
        } else {
            determined_verdict(self.keys.last().record)
        }
    }

    /// How many keys are locked.
    pub open spec fn locked_count(self) -> int {
        if self.all_locked() {
            self.keys.len() as int
        } else {
            self.keys.len() - 1
        }
    }

    /// The locks that are released.
    pub open spec fn released_locks(self) -> Seq<T::ReleasedLock> {
        if self.keys.len() > 0 && self.keys.last().is_pessimistic(self.start_ts) {
            push_released(seq![], self.keys.last().released)
        } else {
            seq![]
        }
    }

    /// The dialogue about the keys.
    pub open spec fn keys_dialogue(self) -> Seq<Exchange<T>>
        decreases self.keys.len(),
    {
        if self.keys.len() == 0 {
            seq![]
        } else {
            self.drop_last().keys_dialogue() + self.keys.last().dialogue(
                self.keys.len() - 1,
                self.start_ts,
            )
        }
    }

    /// The first part of the dialogue.
    pub open spec fn opening_dialogue(self) -> Seq<Exchange<T>> {
        seq![
            Exchange {
                position: 0,
                call: Call::UpdateMaxTs { start_ts: self.start_ts },
                reply: Reply::Done,
            },
            Exchange {
                position: 0,
                call: Call::OpenTxn { start_ts: self.start_ts },
                reply: Reply::Done,
            },
        ]
    }

    /// The last part of the dialogue.
    pub open spec fn closing_dialogue(
        self,
        new_acquired_locks: T::NewLocks,
        modifies: T::Modifies,
    ) -> Seq<Exchange<T>> {
        seq![
            Exchange {
                position: self.locked_count(),
                call: Call::RecordNetworkOutBytes { bytes: self.result_size() as u64 },
                reply: Reply::Done,
            },
            Exchange {
                position: self.locked_count(),
                call: Call::CloseTxn,
                reply: Reply::TxnClosed { new_acquired_locks, modifies },
            },
        ]
    }

    /// The dialogue of a check with these findings.
    pub open spec fn dialogue(
        self,
        new_acquired_locks: T::NewLocks,
        modifies: T::Modifies,
    ) -> Seq<Exchange<T>> {
        self.opening_dialogue() + self.keys_dialogue() + self.closing_dialogue(
            new_acquired_locks,
            modifies,
        )
    }

    /// What the client is answered.
    pub open spec fn status(self) -> SecondaryLocksStatusView<T::LockInfo> {
        match self.verdict() {
            Verdict::Locked => SecondaryLocksStatusView::Locked(self.lock_infos()),
            Verdict::Committed(ts) => SecondaryLocksStatusView::Committed(ts),
            Verdict::RolledBack => SecondaryLocksStatusView::RolledBack,
        }
    }

    /// What a check with these findings hands out.
    pub open spec fn result(
        self,
        ctx: T::Context,
        new_acquired_locks: T::NewLocks,
        modifies: T::Modifies,
    ) -> WriteResultView<T> {
        WriteResultView {
            ctx,
            to_be_write: WriteData { modifies, allowed_on_disk_almost_full: true },
            rows: if self.verdict() == Verdict::RolledBack { 1 } else { 0 },
            status: self.status(),
            lock_info: seq![],
            released_locks: self.released_locks(),
            new_acquired_locks,
            lock_guards: seq![],
            response_policy: ResponsePolicy::OnApplied,
            known_txn_status: match self.verdict() {
                Verdict::Committed(commit_ts) => seq![(self.start_ts, commit_ts)],
                _ => seq![],
            },
        }
    }

    /// The state of a check that has found all these keys locked.
    spec fn locked_check(self, ctx: T::Context, keys: Seq<T::Key>) -> CheckView<T> {
        CheckView {
            ctx,
            keys,
            start_ts: self.start_ts,
            position: self.keys.len() as int,
            lock_infos: self.lock_infos(),
            released_locks: seq![],
            result_size: self.result_size(),
            phase: Phase::LoadLock,
        }
    }
}

/// Where a dialogue stops, another one can go on.
pub(crate) proof fn lemma_leads_to_concat<T: StorageTypes>(
    step: StepView<T>,
    first: Seq<Exchange<T>>,
    middle: StepView<T>,
    second: Seq<Exchange<T>>,
    end: StepView<T>,
)
    requires
        leads_to(step, first, middle),
        leads_to(middle, second, end),
    ensures
        leads_to(step, first + second, end),
    decreases first.len(),
{
    if first.len() == 0 {
        assert(first + second =~= second);
    } else {
        let next = step->Call_0.resume(first[0].reply);
        lemma_leads_to_concat(next, first.drop_first(), middle, second, end);
        assert((first + second).drop_first() =~= first.drop_first() + second);
    }
}

impl<T: StorageTypes> CheckView<T> {
    /// What follows the dialogue about a key.
    spec fn after_key(self, key: KeyFindings<T>) -> StepView<T> {
        if key.is_locked(self.start_ts) {
            CheckView {
                position: self.position + 1,
                lock_infos: self.lock_infos.push(key.info),
                result_size: self.result_size + key.size,
                ..self
            }.load_lock()
        } else {
            self.after_unlock(key).conclude(determined_verdict(key.record))
        }
    }

    /// The check once a pessimistic lock on the key has been released.
    spec fn after_unlock(self, key: KeyFindings<T>) -> Self {
        if key.is_pessimistic(self.start_ts) {
            self.released(key.released)
        } else {
            self
        }
    }
}

/// The dialogue about a key without a prewritten lock, up to where the status is known.
proof fn lemma_status_dialogue<T: StorageTypes>(check: CheckView<T>, key: KeyFindings<T>)
    requires
        check.phase is LoadLock,
        key.wf(check.start_ts),
        !key.is_locked(check.start_ts),
    ensures
        ({
            let after = check.after_unlock(key);
            let lock = mismatch_lock(key.loaded, check.start_ts);
            leads_to(
                StepView::Call(check, Call::LoadLock),
                key.status_dialogue(check.position, check.start_ts),
                if key.needs_rollback(check.start_ts) {
                    after.record_of_unlocked(lock, key.record)
                } else {
                    after.conclude(determined_verdict(key.record))
                },
            )
        }),
{
    reveal_with_fuel(leads_to, 4);
}

/// The dialogue about the rollback of the transaction on a key.
proof fn lemma_rollback_dialogue<T: StorageTypes>(check: CheckView<T>, key: KeyFindings<T>)
    requires
        key.needs_rollback(check.start_ts),
    ensures
        leads_to(
            check.record_of_unlocked(mismatch_lock(key.loaded, check.start_ts), key.record),
            key.rollback_dialogue(check.position, check.start_ts),
            check.conclude(Verdict::RolledBack),
        ),
{
    reveal_with_fuel(leads_to, 5);
}

/// The dialogue about a key.
proof fn lemma_key_dialogue<T: StorageTypes>(check: CheckView<T>, key: KeyFindings<T>)
    requires
        check.phase is LoadLock,
        key.wf(check.start_ts),
        key.is_locked(check.start_ts) ==> check.result_size + key.size <= u64::MAX,
    ensures
        leads_to(
            StepView::Call(check, Call::LoadLock),
            key.dialogue(check.position, check.start_ts),
            check.after_key(key),
        ),
{
    let step = StepView::Call(check, Call::LoadLock);
    let status = key.status_dialogue(check.position, check.start_ts);
    let dialogue = key.dialogue(check.position, check.start_ts);
    if key.is_locked(check.start_ts) {
        reveal_with_fuel(leads_to, 3);
        assert(dialogue =~= status);
    } else {
        let after = check.after_unlock(key);
        lemma_status_dialogue(check, key);
        if key.needs_rollback(check.start_ts) {
            lemma_rollback_dialogue(after, key);
            lemma_leads_to_concat(
                step,
                status,
                after.record_of_unlocked(
                    mismatch_lock(key.loaded, check.start_ts),
                    key.record,
                ),
                key.rollback_dialogue(check.position, check.start_ts),
                check.after_key(key),
            );
        } else {
            assert(dialogue =~= status);
        }
    }
}

/// The dialogue about keys that are all locked.
proof fn lemma_locked_keys_dialogue<T: StorageTypes>(
    findings: Findings<T>,
    ctx: T::Context,
    keys: Seq<T::Key>,
)
    requires
        findings.all_locked(),
        forall|i: int|
            0 <= i < findings.keys.len() ==> (#[trigger] findings.keys[i]).wf(findings.start_ts),
        findings.result_size() <= u64::MAX,
        findings.keys.len() <= keys.len(),
    ensures
        leads_to(
            CheckView::<T>::initial(ctx, keys, findings.start_ts).load_lock(),
            findings.keys_dialogue(),
            findings.locked_check(ctx, keys).load_lock(),
        ),
    decreases findings.keys.len(),
{
    let start = CheckView::<T>::initial(ctx, keys, findings.start_ts).load_lock();
    let check = findings.locked_check(ctx, keys);
    if findings.keys.len() == 0 {
        assert(check.lock_infos =~= seq![]);
    } else {
        let before = findings.drop_last();
        let key = findings.keys.last();
        assert forall|i: int| 0 <= i < before.keys.len() implies {
            &&& (#[trigger] before.keys[i]).is_locked(before.start_ts)
            &&& before.keys[i].wf(before.start_ts)
        } by {
            assert(before.keys[i] == findings.keys[i]);
        }
        assert(key == findings.keys[findings.keys.len() - 1]);
        lemma_locked_keys_dialogue(before, ctx, keys);
        lemma_key_dialogue(before.locked_check(ctx, keys), key);
        assert(before.lock_infos().push(key.info) =~= findings.lock_infos());
        lemma_leads_to_concat(
            start,
            before.keys_dialogue(),
            before.locked_check(ctx, keys).load_lock(),
            key.dialogue(findings.keys.len() - 1, findings.start_ts),
            check.load_lock(),
        );
    }
}

/// The findings on the key that decides, and on those before it.
pub(crate) proof fn lemma_deciding_key<T: StorageTypes>(findings: Findings<T>, n: nat)
    requires
        findings.complete(n),
        !findings.all_locked(),
    ensures
        findings.keys.len() > 0,
        !findings.keys.last().is_locked(findings.start_ts),
        findings.keys.last().wf(findings.start_ts),
        findings.drop_last().all_locked(),
        forall|i: int|
            0 <= i < findings.drop_last().keys.len() ==> (
            #[trigger] findings.drop_last().keys[i]).wf(findings.start_ts),
{
    let before = findings.drop_last();
    let i = choose|i: int|
        0 <= i < findings.keys.len() && !(#[trigger] findings.keys[i]).is_locked(findings.start_ts);
    assert(i < before.keys.len() ==> before.keys[i] == findings.keys[i]);
    assert(findings.keys.last() == findings.keys[findings.keys.len() - 1]);
    assert forall|i: int| 0 <= i < before.keys.len() implies (#[trigger] before.keys[i]).wf(
        findings.start_ts,
    ) by {
        assert(before.keys[i] == findings.keys[i]);
    }
}

/// What a check does and comes to, by what the storage holds.
///
/// If the transaction has a prewritten lock on every key, the client is answered with the
/// descriptions of these locks. Otherwise the first key without one decides: by the commit record
/// on it, the transaction is committed or rolled back. If there is no such record, a protected
/// rollback is made, to prevent the status from being changed. The dialogue says which calls are
/// made to this end, and in which order.
pub proof fn law_findings_decide<T: StorageTypes>(
    findings: Findings<T>,
    ctx: T::Context,
    keys: Seq<T::Key>,
    new_acquired_locks: T::NewLocks,
    modifies: T::Modifies,
)
    requires
        findings.complete(keys.len()),
    ensures
        leads_to(
            StepView::Call(
                CheckView::<T>::initial(ctx, keys, findings.start_ts),
                Call::UpdateMaxTs { start_ts: findings.start_ts },
            ),
            findings.dialogue(new_acquired_locks, modifies),
            StepView::Return(Ok(findings.result(ctx, new_acquired_locks, modifies))),
        ),
{
    let initial = CheckView::<T>::initial(ctx, keys, findings.start_ts);
    let start = StepView::Call(initial, Call::UpdateMaxTs { start_ts: findings.start_ts });
    let opening = findings.opening_dialogue();
    let closing = findings.closing_dialogue(new_acquired_locks, modifies);
    let result = findings.result(ctx, new_acquired_locks, modifies);
    let end = StepView::Return(Ok(result));
    assert(leads_to(start, opening, initial.load_lock())) by {
        reveal_with_fuel(leads_to, 3);
    }

    let check = if findings.all_locked() {
        lemma_locked_keys_dialogue(findings, ctx, keys);
        findings.locked_check(ctx, keys)
    } else {
        let before = findings.drop_last();
        let key = findings.keys.last();
        lemma_deciding_key(findings, keys.len());
        lemma_locked_keys_dialogue(before, ctx, keys);
        lemma_key_dialogue(before.locked_check(ctx, keys), key);
        lemma_leads_to_concat(
            initial.load_lock(),
            before.keys_dialogue(),
            before.locked_check(ctx, keys).load_lock(),
            key.dialogue(findings.keys.len() - 1, findings.start_ts),
            before.locked_check(ctx, keys).after_key(key),
        );
        before.locked_check(ctx, keys).after_unlock(key)
    };
    let last = check.conclude(findings.verdict());
    assert(leads_to(initial.load_lock(), findings.keys_dialogue(), last));
    assert(leads_to(last, closing, end)) by {
        reveal_with_fuel(leads_to, 3);
        assert(check.result(findings.verdict(), new_acquired_locks, modifies) =~= result);
    }
    lemma_leads_to_concat(start, opening, initial.load_lock(), findings.keys_dialogue(), last);
    lemma_leads_to_concat(start, opening + findings.keys_dialogue(), last, closing, end);
}

/// A dialogue in which a call fails does not lead to a result.
proof fn lemma_no_failure<T: StorageTypes>(
    check: CheckView<T>,
    call: Call<T>,
    dialogue: Seq<Exchange<T>>,
    result: WriteResultView<T>,
)
    requires
        leads_to(StepView::Call(check, call), dialogue, StepView::Return(Ok(result))),
    ensures
        dialogue.len() > 0,
        dialogue[0] == (Exchange { position: check.position, call, reply: dialogue[0].reply }),
        check.expects(dialogue[0].reply),
        !(dialogue[0].reply is Failed),
        leads_to(
            check.resume(dialogue[0].reply),
            dialogue.drop_first(),
            StepView::Return(Ok(result)),
        ),
{
    reveal_with_fuel(leads_to, 2);
}

/// Reads the findings on the rollback off a dialogue that goes on with it.
proof fn lemma_read_rollback<T: StorageTypes>(
    check: CheckView<T>,
    key: KeyFindings<T>,
    dialogue: Seq<Exchange<T>>,
    result: WriteResultView<T>,
) -> (found: (KeyFindings<T>, Seq<Exchange<T>>))
    requires
        key.needs_rollback(check.start_ts),
        leads_to(
            check.record_of_unlocked(mismatch_lock(key.loaded, check.start_ts), key.record),
            dialogue,
            StepView::Return(Ok(result)),
        ),
    ensures
        found.0 == (KeyFindings { rollback: found.0.rollback, ..key }),
        dialogue == found.0.rollback_dialogue(check.position, check.start_ts) + found.1,
        leads_to(check.conclude(Verdict::RolledBack), found.1, StepView::Return(Ok(result))),
{
    let mark = mismatch_lock(key.loaded, check.start_ts);
    let make = if mark is Some {
        dialogue.drop_first()
    } else {
        dialogue
    };
    let end = StepView::Return(Ok(result));
    assert(leads_to(check.make_rollback(overlapped_write(key.record)), make, end));
    assert(make[0].reply is RollbackMade);
    let rollback = make[0].reply->RollbackMade_0;
    let found = KeyFindings { rollback, ..key };
    let put = make.drop_first();
    let rest = match rollback {
        Some(write) => {
            assert(leads_to(
                check.call(Phase::PutWrite, Call::PutWrite { ts: check.start_ts, write }),
                put,
                end,
            ));
            let collapse = put.drop_first();
            lemma_no_failure(
                CheckView { phase: Phase::CollapsePrevRollback, ..check },
                Call::CollapsePrevRollback,
                collapse,
                result,
            );
            collapse.drop_first()
        },
        None => put,
    };
    assert(dialogue =~= found.rollback_dialogue(check.position, check.start_ts) + rest);
    (found, rest)
}

/// The two parts of the dialogue about a key, and what follows it.
proof fn lemma_split_key_dialogue<T: StorageTypes>(
    key: KeyFindings<T>,
    position: int,
    start_ts: TimeStamp,
    tail: Seq<Exchange<T>>,
    rest: Seq<Exchange<T>>,
)
    requires
        key.needs_rollback(start_ts),
        tail == key.rollback_dialogue(position, start_ts) + rest,
    ensures
        key.status_dialogue(position, start_ts) + tail == key.dialogue(position, start_ts) + rest,
{
    assert(key.status_dialogue(position, start_ts) + tail =~= key.dialogue(position, start_ts)
        + rest);
}

/// Reads the findings on a key off a dialogue that goes on with it.
proof fn lemma_read_key<T: StorageTypes>(
    check: CheckView<T>,
    dialogue: Seq<Exchange<T>>,
    result: WriteResultView<T>,
) -> (found: (KeyFindings<T>, Seq<Exchange<T>>))
    requires
        check.phase is LoadLock,
        leads_to(StepView::Call(check, Call::LoadLock), dialogue, StepView::Return(Ok(result))),
    ensures
        found.0.wf(check.start_ts),
        found.0.is_locked(check.start_ts) ==> check.result_size + found.0.size <= u64::MAX,
        found.1.len() < dialogue.len(),
        dialogue == found.0.dialogue(check.position, check.start_ts) + found.1,
        leads_to(check.after_key(found.0), found.1, StepView::Return(Ok(result))),
{
    let start_ts = check.start_ts;
    let position = check.position;
    let unknown = arbitrary::<KeyFindings<T>>();
    lemma_no_failure(check, Call::LoadLock, dialogue, result);
    let loaded = dialogue[0].reply->LockLoaded_0;
    let second = dialogue.drop_first();
    let third = second.drop_first();
    match own_lock(loaded, start_ts) {
        Some(lock) => if !lock.pessimistic {
            lemma_no_failure(
                CheckView { phase: Phase::IntoLockInfo, ..check },
                Call::IntoLockInfo { lock },
                second,
                result,
            );
            let key = KeyFindings {
                loaded,
                info: second[0].reply->info,
                size: second[0].reply->size,
                ..unknown
            };
            assert(dialogue =~= key.dialogue(position, start_ts) + third);
            (key, third)
        } else if lock.pessimistic_with_conflict {
            let reading = CheckView { phase: Phase::ReadRecordOfLocked { lock }, ..check };
            lemma_no_failure(reading, Call::GetTxnCommitRecord, second, result);
            let record = second[0].reply->Record_0;
            let unlocking = reading.record_of_locked(lock, record);
            assert(leads_to(unlocking, third, StepView::Return(Ok(result))));
            let released = third[0].reply->Released_0;
            let key = KeyFindings { loaded, record, released, ..unknown };
            let after = check.after_unlock(key);
            let rest = third.drop_first();
            if record is NotFound {
                let found = lemma_read_rollback(after, key, rest, result);
                lemma_split_key_dialogue(found.0, position, start_ts, rest, found.1);
                assert(dialogue =~= found.0.status_dialogue(position, start_ts) + rest);
                found
            } else {
                assert(dialogue =~= key.dialogue(position, start_ts) + rest);
                (key, rest)
            }
        } else {
            let released = second[0].reply->Released_0;
            let reading = CheckView {
                phase: Phase::ReadRecordOfLocked { lock },
                ..check.released(released)
            };
            lemma_no_failure(reading, Call::GetTxnCommitRecord, third, result);
            let record = third[0].reply->Record_0;
            let key = KeyFindings { loaded, record, released, ..unknown };
            let found = lemma_read_rollback(
                check.after_unlock(key),
                key,
                third.drop_first(),
                result,
            );
            lemma_split_key_dialogue(found.0, position, start_ts, third.drop_first(), found.1);
            assert(dialogue =~= found.0.status_dialogue(position, start_ts) + third.drop_first());
            found
        },
        None => {
            let mismatch_lock = mismatch_lock(loaded, start_ts);
            let reading = CheckView {
                phase: Phase::ReadRecordOfUnlocked { mismatch_lock },
                ..check
            };
            lemma_no_failure(reading, Call::GetTxnCommitRecord, second, result);
            let record = second[0].reply->Record_0;
            let key = KeyFindings { loaded, record, ..unknown };
            if record is NotFound {
                let found = lemma_read_rollback(check, key, third, result);
                lemma_split_key_dialogue(found.0, position, start_ts, third, found.1);
                assert(dialogue =~= found.0.status_dialogue(position, start_ts) + third);
                found
            } else {
                assert(dialogue =~= key.dialogue(position, start_ts) + third);
                (key, third)
            }
        },
    }
}

/// Reads the findings on the remaining keys off a dialogue that goes on with them.
proof fn lemma_read_keys<T: StorageTypes>(
    before: Findings<T>,
    ctx: T::Context,
    keys: Seq<T::Key>,
    dialogue: Seq<Exchange<T>>,
    result: WriteResultView<T>,
) -> (found: (Findings<T>, T::NewLocks, T::Modifies))
    requires
        before.all_locked(),
        forall|i: int|
            0 <= i < before.keys.len() ==> (#[trigger] before.keys[i]).wf(before.start_ts),
        before.result_size() <= u64::MAX,
        before.keys.len() <= keys.len(),
        leads_to(
            before.locked_check(ctx, keys).load_lock(),
            dialogue,
            StepView::Return(Ok(result)),
        ),
    ensures
        found.0.start_ts == before.start_ts,
        found.0.complete(keys.len()),
        before.keys_dialogue() + dialogue == found.0.keys_dialogue() + found.0.closing_dialogue(
            found.1,
            found.2,
        ),
        result == found.0.result(ctx, found.1, found.2),
    decreases dialogue.len(),
{
    let check = before.locked_check(ctx, keys);
    if before.keys.len() == keys.len() {
        let closed = lemma_read_closing(before, check, dialogue, result);
        (before, closed.0, closed.1)
    } else {
        let (key, rest) = lemma_read_key(check, dialogue, result);
        let findings = Findings { keys: before.keys.push(key), ..before };
        assert(findings.drop_last().keys =~= before.keys);
        assert(findings.drop_last() == before);
        assert(before.keys_dialogue() + dialogue =~= findings.keys_dialogue() + rest);
        assert forall|i: int| 0 <= i < findings.keys.len() implies (#[trigger] findings.keys[i]).wf(
            findings.start_ts,
        ) && (i < before.keys.len() ==> findings.keys[i].is_locked(findings.start_ts)) by {
            assert(i < before.keys.len() ==> findings.keys[i] == before.keys[i]);
        }
        if key.is_locked(check.start_ts) {
            assert(findings.lock_infos() =~= before.lock_infos().push(key.info));
            lemma_read_keys(findings, ctx, keys, rest, result)
        } else {
            assert(!findings.keys[before.keys.len() as int].is_locked(findings.start_ts));
            let closed = lemma_read_closing(findings, check.after_unlock(key), rest, result);
            (findings, closed.0, closed.1)
        }
    }
}

/// Reads what the transaction has gathered off the end of a dialogue.
proof fn lemma_read_closing<T: StorageTypes>(
    findings: Findings<T>,
    check: CheckView<T>,
    dialogue: Seq<Exchange<T>>,
    result: WriteResultView<T>,
) -> (closed: (T::NewLocks, T::Modifies))
    requires
        check.start_ts == findings.start_ts,
        check.position == findings.locked_count(),
        check.result_size == findings.result_size(),
        check.released_locks == findings.released_locks(),
        findings.all_locked() ==> check.lock_infos == findings.lock_infos(),
        leads_to(check.conclude(findings.verdict()), dialogue, StepView::Return(Ok(result))),
    ensures
        dialogue == findings.closing_dialogue(closed.0, closed.1),
        result == findings.result(check.ctx, closed.0, closed.1),
{
    reveal_with_fuel(leads_to, 3);
    let verdict = findings.verdict();
    let close = dialogue.drop_first();
    assert(leads_to(
        check.call(Phase::CloseTxn { verdict }, Call::CloseTxn),
        close,
        StepView::Return(Ok(result)),
    ));
    let new_acquired_locks = close[0].reply->new_acquired_locks;
    let modifies = close[0].reply->modifies;
    assert(close.drop_first().len() == 0);
    assert(dialogue =~= findings.closing_dialogue(new_acquired_locks, modifies));
    assert(result =~= findings.result(check.ctx, new_acquired_locks, modifies));
    (new_acquired_locks, modifies)
}

/// Every check that comes to a result is one of those that [`law_findings_decide`] speaks of: its
/// dialogue and its result are those of some findings of the storage.
pub proof fn law_results_have_findings<T: StorageTypes>(
    ctx: T::Context,
    keys: Seq<T::Key>,
    start_ts: TimeStamp,
    dialogue: Seq<Exchange<T>>,
    result: WriteResultView<T>,
)
    requires
        leads_to(
            StepView::Call(
                CheckView::<T>::initial(ctx, keys, start_ts),
                Call::UpdateMaxTs { start_ts },
            ),
            dialogue,
            StepView::Return(Ok(result)),
        ),
    ensures
        exists|findings: Findings<T>, new_acquired_locks: T::NewLocks, modifies: T::Modifies|
            {
                &&& findings.start_ts == start_ts
                &&& findings.complete(keys.len())
                &&& dialogue == #[trigger] findings.dialogue(new_acquired_locks, modifies)
                &&& result == findings.result(ctx, new_acquired_locks, modifies)
            },
{
    let initial = CheckView::<T>::initial(ctx, keys, start_ts);
    lemma_no_failure(initial, Call::UpdateMaxTs { start_ts }, dialogue, result);
    let opening = CheckView { phase: Phase::OpenTxn, ..initial };
    let second = dialogue.drop_first();
    lemma_no_failure(opening, Call::OpenTxn { start_ts }, second, result);
    let rest = second.drop_first();
    let none = Findings::<T> { start_ts, keys: seq![] };
    assert(none.lock_infos() =~= seq![]);
    assert(none.locked_check(ctx, keys).load_lock() == initial.load_lock());
    let (findings, new_acquired_locks, modifies) = lemma_read_keys(
        none,
        ctx,
        keys,
        rest,
        result,
    );
    let closing = findings.closing_dialogue(new_acquired_locks, modifies);
    assert(none.keys_dialogue() + rest =~= rest);
    assert(dialogue =~= findings.opening_dialogue() + (findings.keys_dialogue() + closing));
    assert(findings.dialogue(new_acquired_locks, modifies) =~= findings.opening_dialogue() + (
    findings.keys_dialogue() + closing));
}

} // verus!
