//! What holds of every ingestion.
use vstd::prelude::*;

use crate::import::{
    allows_write, count_label, EngineTypes, IngestCall, IngestPhase, IngestReply, IngestStep,
    IngestStepView, IngestView, Range, RawIngestExternalFileOptions,
};

verus! {

/// Whatever is ingested, and however much the caller insists: the engine never gets to accept
/// foreground writes during an ingestion.
pub proof fn law_writes_are_never_allowed<'a, T: EngineTypes>(
    ingest: IngestView<'a, T>,
    raw: RawIngestExternalFileOptions,
    has_range: bool,
    force_allow_write: bool,
)
    ensures
        !allows_write(has_range, force_allow_write),
        !ingest.options(raw).allow_write,
{
}

/// What an ingestion decides about its options does not depend on what the engine has given out,
/// and what it does not decide is left as the engine has given it out.
pub proof fn law_options_are_decided<'a, T: EngineTypes>(
    ingest: IngestView<'a, T>,
    raw: RawIngestExternalFileOptions,
    other: RawIngestExternalFileOptions,
)
    ensures
        ingest.options(raw).move_files,
        !ingest.options(raw).write_global_seqno,
        ingest.options(raw).allow_write == ingest.options(other).allow_write,
        ingest.options(raw).snapshot_consistent == raw.snapshot_consistent,
        ingest.options(raw).allow_global_seqno == raw.allow_global_seqno,
        ingest.options(raw).allow_blocking_flush == raw.allow_blocking_flush,
{
}

/// Of option records only: where `write_global_seqno` is set, and then `move_files` and
/// `allow_write`, the record still has `write_global_seqno` as it was set. That the setters of the
/// options make such updates, and that the getter reads such a field, is what their own contracts
/// say.
pub proof fn law_write_global_seqno_is_read_back(
    raw: RawIngestExternalFileOptions,
    write_global_seqno: bool,
    move_files: bool,
    allow_write: bool,
)
    ensures
        ({
            let set = RawIngestExternalFileOptions { write_global_seqno, ..raw };
            let moved = RawIngestExternalFileOptions { move_files, ..set };
            let allowed = RawIngestExternalFileOptions { allow_write, ..moved };
            allowed.write_global_seqno == write_global_seqno
        }),
{
}

/// A call of an ingestion and its reply.
pub struct IngestExchange<'a, T: EngineTypes> {
    pub call: IngestCall<'a, T>,
    pub reply: IngestReply<T>,
}

/// Whether an ingestion that stands before `step` makes the calls of `dialogue`, in this order and
/// with these replies, and stands before `end` then.
pub open spec fn ingest_leads_to<'a, T: EngineTypes>(
    step: IngestStepView<'a, T>,
    dialogue: Seq<IngestExchange<'a, T>>,
    end: IngestStepView<'a, T>,
) -> bool
    decreases dialogue.len(),
{
    if dialogue.len() == 0 {
        step == end
    } else {
        &&& step matches IngestStepView::Call(ingest, call)
        &&& call == dialogue[0].call
        &&& ingest.expects(dialogue[0].reply)
        &&& ingest_leads_to(ingest.resume(dialogue[0].reply), dialogue.drop_first(), end)
    }
}

/// What an engine replies to an ingestion that succeeds.
pub struct IngestReplies<T: EngineTypes> {
    /// The guard of the latch, for an ingestion that is confined to a range.
    pub latch: T::RangeLatchGuard,
    /// The column family that is looked up.
    pub cf: T::CfHandle,
    /// The options that are given out.
    pub raw: RawIngestExternalFileOptions,
    /// Whether the memtable had to be flushed.
    pub did_memtable_flush: bool,
}

impl<T: EngineTypes> IngestReplies<T> {
    /// The guard that an ingestion holds.
    pub open spec fn held_latch<'a>(self, range: Option<Range<'a>>) -> Option<T::RangeLatchGuard> {
        if range is Some {
            Some(self.latch)
        } else {
            None
        }
    }

    /// The first exchange of an ingestion that is confined to a range: the latch.
    pub open spec fn latch_dialogue<'a>(self, range: Option<Range<'a>>) -> Seq<
        IngestExchange<'a, T>,
    > {
        match range {
            Some(range) => seq![
                IngestExchange {
                    call: IngestCall::AcquireLatch { range },
                    reply: IngestReply::Latched(self.latch),
                },
            ],
            None => seq![],
        }
    }

    /// The dialogue of an ingestion that succeeds, after the latch. The column family that is
    /// looked up is the one that the files are ingested into.
    pub open spec fn files_dialogue<'a>(self, ingest: IngestView<'a, T>) -> Seq<
        IngestExchange<'a, T>,
    > {
        seq![
            IngestExchange {
                call: IngestCall::GetCfHandle { cf_name: ingest.cf_name },
                reply: IngestReply::CfFound(self.cf),
            },
            IngestExchange { call: IngestCall::NewOptions, reply: IngestReply::Options(self.raw) },
            IngestExchange {
                call: IngestCall::Count { label: count_label(ingest.allow_write()) },
                reply: IngestReply::Done,
            },
            IngestExchange {
                call: IngestCall::Ingest {
                    cf: self.cf,
                    options: ingest.options(self.raw),
                    files: ingest.files,
                },
                reply: IngestReply::Ingested { did_memtable_flush: self.did_memtable_flush },
            },
            IngestExchange {
                call: IngestCall::Observe {
                    cf_name: ingest.cf_name,
                    block: self.did_memtable_flush,
                },
                reply: IngestReply::Done,
            },
        ]
    }

    /// The dialogue of an ingestion that succeeds.
    pub open spec fn dialogue<'a>(
        self,
        cf_name: &'a str,
        files: &'a [&'a str],
        range: Option<Range<'a>>,
        force_allow_write: bool,
    ) -> Seq<IngestExchange<'a, T>> {
        self.latch_dialogue(range) + self.files_dialogue(
            IngestView {
                cf_name,
                files,
                range,
                force_allow_write,
                latch: self.held_latch(range),
                phase: IngestPhase::GetCfHandle,
            },
        )
    }
}

/// An ingestion whose calls do not fail succeeds. It holds the latch on its range, if it has one,
/// before it does anything else, and until it is over. The files are ingested into the column
/// family that was looked up by its name. The ingestion is counted once, and its time is recorded
/// once, among those that blocked if and only if the engine had to flush the memtable.
pub proof fn law_ingestion_succeeds<'a, T: EngineTypes>(
    cf_name: &'a str,
    files: &'a [&'a str],
    range: Option<Range<'a>>,
    force_allow_write: bool,
    replies: IngestReplies<T>,
)
    ensures
        ingest_leads_to(
            IngestView::<T>::start(cf_name, files, range, force_allow_write),
            replies.dialogue(cf_name, files, range, force_allow_write),
            IngestStepView::Return { result: Ok(()), latch: replies.held_latch(range) },
        ),
{
    reveal_with_fuel(ingest_leads_to, 7);
}

/// Every ingestion that succeeds is one of those that [`law_ingestion_succeeds`] speaks of.
pub proof fn law_successes_are_ingestions<'a, T: EngineTypes>(
    cf_name: &'a str,
    files: &'a [&'a str],
    range: Option<Range<'a>>,
    force_allow_write: bool,
    dialogue: Seq<IngestExchange<'a, T>>,
    latch: Option<T::RangeLatchGuard>,
)
    requires
        ingest_leads_to(
            IngestView::<T>::start(cf_name, files, range, force_allow_write),
            dialogue,
            IngestStepView::Return { result: Ok(()), latch },
        ),
    ensures
        exists|replies: IngestReplies<T>|
            {
                &&& dialogue == #[trigger] replies.dialogue(
                    cf_name,
                    files,
                    range,
                    force_allow_write,
                )
                &&& latch == replies.held_latch(range)
            },
{
    reveal_with_fuel(ingest_leads_to, 7);
    let end = IngestStepView::Return { result: Ok(()), latch };
    let acquired = dialogue[0].reply->Latched_0;
    let ingest = IngestView::<T> {
        cf_name,
        files,
        range,
        force_allow_write,
        latch: if range is Some {
            Some(acquired)
        } else {
            None
        },
        phase: IngestPhase::GetCfHandle,
    };
    let lookup = if range is Some {
        dialogue.drop_first()
    } else {
        dialogue
    };
    assert(ingest_leads_to(ingest.get_cf_handle(), lookup, end));
    assert(!(lookup[0].reply is Failed));
    let replies = IngestReplies::<T> {
        latch: acquired,
        cf: lookup[0].reply->CfFound_0,
        raw: lookup[1].reply->Options_0,
        did_memtable_flush: lookup[3].reply->did_memtable_flush,
    };
    assert(lookup =~= replies.files_dialogue(ingest));
    assert(dialogue =~= replies.dialogue(cf_name, files, range, force_allow_write));
}

/// The guard that was acquired, by the first exchange of an ingestion.
pub open spec fn acquired_latch<'a, T: EngineTypes>(
    dialogue: Seq<IngestExchange<'a, T>>,
) -> Option<T::RangeLatchGuard> {
    if dialogue.len() > 0 {
        match dialogue[0].reply {
            IngestReply::Latched(latch) => Some(latch),
            _ => None,
        }
    } else {
        None
    }
}

/// The latch is held to the end. However far an ingestion has come that is confined to a range,
/// whether it still goes on, has succeeded or has failed: its first call was for the latch on the
/// range, and it holds the very guard that this call replied. An ingestion without a range never
/// acquires a latch.
pub proof fn law_latch_is_held<'a, T: EngineTypes>(
    cf_name: &'a str,
    files: &'a [&'a str],
    range: Option<Range<'a>>,
    force_allow_write: bool,
    dialogue: Seq<IngestExchange<'a, T>>,
    end: IngestStepView<'a, T>,
)
    requires
        ingest_leads_to(
            IngestView::<T>::start(cf_name, files, range, force_allow_write),
            dialogue,
            end,
        ),
    ensures
        end.latch() == acquired_latch(dialogue),
        range is Some && dialogue.len() > 0 ==> {
            &&& dialogue[0].call matches IngestCall::AcquireLatch { range: latched }
            &&& latched == range->0
            &&& end.latch() is Some
        },
        forall|i: int|
            0 <= i < dialogue.len() && (#[trigger] dialogue[i]).call is AcquireLatch ==> range
                is Some && i == 0,
{
    let step = IngestView::<T>::start(cf_name, files, range, force_allow_write);
    if dialogue.len() > 0 {
        let rest = dialogue.drop_first();
        let next = step->Call_0.resume(dialogue[0].reply);
        lemma_latch_is_kept(next, rest, end);
        assert forall|i: int|
            0 <= i < dialogue.len() && (#[trigger] dialogue[i]).call is AcquireLatch implies range
            is Some && i == 0 by {
            assert(i > 0 ==> rest[i - 1] == dialogue[i]);
        }
    }
}

proof fn lemma_latch_is_kept<'a, T: EngineTypes>(
    step: IngestStepView<'a, T>,
    dialogue: Seq<IngestExchange<'a, T>>,
    end: IngestStepView<'a, T>,
)
    requires
        step matches IngestStepView::Call(ingest, call) ==> {
            &&& !(ingest.phase is AcquireLatch)
            &&& ingest.phase.waits_for(call)
        },
        ingest_leads_to(step, dialogue, end),
    ensures
        end.latch() == step.latch(),
        forall|i: int|
            0 <= i < dialogue.len() ==> !((#[trigger] dialogue[i]).call is AcquireLatch),
    decreases dialogue.len(),
{
    if dialogue.len() > 0 {
        let rest = dialogue.drop_first();
        lemma_latch_is_kept(step->Call_0.resume(dialogue[0].reply), rest, end);
        assert forall|i: int| 0 <= i < dialogue.len() implies !((#[trigger] dialogue[i]).call
            is AcquireLatch) by {
            assert(i > 0 ==> rest[i - 1] == dialogue[i]);
        }
    }
}

/// Whether a failure at `i` is the failure of a call that can fail, and the end of the dialogue.
pub open spec fn failure_is_end<'a, T: EngineTypes>(
    dialogue: Seq<IngestExchange<'a, T>>,
    i: int,
    end: IngestStepView<'a, T>,
) -> bool {
    dialogue[i].reply matches IngestReply::Failed(error) ==> {
        &&& dialogue[i].call is GetCfHandle || dialogue[i].call is Ingest
        &&& i == dialogue.len() - 1
        &&& end is Return
        &&& end->result == Err::<(), T::Error>(error)
    }
}

/// An ingestion fails if and only if a call fails, either the lookup of the column family or the
/// ingestion of the files. It then makes no further call, and it reports what that call reported.
pub proof fn law_failure_ends_ingestion<'a, T: EngineTypes>(
    cf_name: &'a str,
    files: &'a [&'a str],
    range: Option<Range<'a>>,
    force_allow_write: bool,
    dialogue: Seq<IngestExchange<'a, T>>,
    end: IngestStepView<'a, T>,
)
    requires
        ingest_leads_to(
            IngestView::<T>::start(cf_name, files, range, force_allow_write),
            dialogue,
            end,
        ),
    ensures
        forall|i: int| 0 <= i < dialogue.len() ==> failure_is_end(dialogue, i, end),
        end is Return && end->result is Err ==> dialogue.len() > 0 && dialogue.last().reply
            is Failed,
{
    lemma_failure_ends_ingestion(
        IngestView::<T>::start(cf_name, files, range, force_allow_write),
        dialogue,
        end,
    );
}

proof fn lemma_failure_ends_ingestion<'a, T: EngineTypes>(
    step: IngestStepView<'a, T>,
    dialogue: Seq<IngestExchange<'a, T>>,
    end: IngestStepView<'a, T>,
)
    requires
        step matches IngestStepView::Call(ingest, call) && ingest.phase.waits_for(call),
        ingest_leads_to(step, dialogue, end),
    ensures
        forall|i: int| 0 <= i < dialogue.len() ==> failure_is_end(dialogue, i, end),
        end is Return && end->result is Err ==> dialogue.len() > 0 && dialogue.last().reply
            is Failed,
    decreases dialogue.len(),
{
    if dialogue.len() > 0 {
        reveal_with_fuel(ingest_leads_to, 2);
        let next = step->Call_0.resume(dialogue[0].reply);
        let rest = dialogue.drop_first();
        if next is Call {
            lemma_failure_ends_ingestion(next, rest, end);
            assert forall|i: int| 0 <= i < dialogue.len() implies failure_is_end(
                dialogue,
                i,
                end,
            ) by {
                assert(i > 0 ==> failure_is_end(rest, i - 1, end));
            }
        } else {
            assert(rest.len() == 0);
        }
    }
}

/// The index of the lookup of the column family.
spec fn lookup_at<'a>(range: Option<Range<'a>>) -> int {
    if range is Some {
        1
    } else {
        0
    }
}

/// Whether the ingestion, which waits for the call, is in the state in which the exchanges behind
/// it leave it.
spec fn ingest_history<'a, T: EngineTypes>(
    cf_name: &'a str,
    files: &'a [&'a str],
    range: Option<Range<'a>>,
    force_allow_write: bool,
    dialogue: Seq<IngestExchange<'a, T>>,
    ingest: IngestView<'a, T>,
    call: IngestCall<'a, T>,
) -> bool {
    let first = lookup_at(range);
    let n = dialogue.len();
    &&& ingest.cf_name == cf_name
    &&& ingest.files == files
    &&& ingest.range == range
    &&& ingest.force_allow_write == force_allow_write
    &&& ingest.phase.waits_for(call)
    &&& n > 0 && range is Some ==> dialogue[0].reply is Latched
    &&& ingest.latch == if n > 0 && range is Some {
        Some(dialogue[0].reply->Latched_0)
    } else {
        None
    }
    &&& n > first ==> dialogue[first].reply is CfFound
    &&& n > first + 1 ==> dialogue[first + 1].reply is Options
    &&& n > first + 3 ==> dialogue[first + 3].reply is Ingested
    &&& match ingest.phase {
        IngestPhase::AcquireLatch => n == 0 && range is Some && (
        call matches IngestCall::AcquireLatch { range: latched } && latched == range->0),
        IngestPhase::GetCfHandle => n == first && (call matches IngestCall::GetCfHandle {
            cf_name: name,
        } && name == cf_name),
        IngestPhase::NewOptions { cf } => n == first + 1 && cf
            == dialogue[first].reply->CfFound_0,
        IngestPhase::Count { cf, options } => {
            &&& n == first + 2
            &&& cf == dialogue[first].reply->CfFound_0
            &&& decides_options(options, dialogue[first + 1].reply->Options_0)
            &&& call matches IngestCall::Count { label }
            &&& label@ == "\n            not_allow_write"@
        },
        IngestPhase::Ingest => {
            &&& n == first + 3
            &&& call matches IngestCall::Ingest { cf, options, files: ingested }
            &&& cf == dialogue[first].reply->CfFound_0
            &&& decides_options(options, dialogue[first + 1].reply->Options_0)
            &&& ingested == files
        },
        IngestPhase::Observe => {
            &&& n == first + 4
            &&& call matches IngestCall::Observe { cf_name: name, block }
            &&& name == cf_name
            &&& block == dialogue[first + 3].reply->did_memtable_flush
        },
    }
}

/// Whether these are the options of an ingestion, if the engine has given out `raw`.
spec fn decides_options(
    options: RawIngestExternalFileOptions,
    raw: RawIngestExternalFileOptions,
) -> bool {
    options == (RawIngestExternalFileOptions {
        move_files: true,
        write_global_seqno: false,
        allow_write: false,
        ..raw
    })
}

/// Whether the exchanges lead to the step.
spec fn ingest_explains<'a, T: EngineTypes>(
    cf_name: &'a str,
    files: &'a [&'a str],
    range: Option<Range<'a>>,
    force_allow_write: bool,
    dialogue: Seq<IngestExchange<'a, T>>,
    end: IngestStepView<'a, T>,
) -> bool {
    let n = dialogue.len();
    match end {
        IngestStepView::Call(ingest, call) => ingest_history(
            cf_name,
            files,
            range,
            force_allow_write,
            dialogue,
            ingest,
            call,
        ),
        IngestStepView::Return { result, latch } => {
            &&& n > 0
            &&& range is Some ==> dialogue[0].reply is Latched
            &&& latch == if range is Some {
                Some(dialogue[0].reply->Latched_0)
            } else {
                None
            }
            &&& match result {
                Ok(()) => n == lookup_at(range) + 5 && !(dialogue.last().reply is Failed),
                Err(error) => dialogue.last().reply == IngestReply::<T>::Failed(error),
            }
        },
    }
}

/// The last exchange, taken off.
proof fn lemma_last_ingest_exchange<'a, T: EngineTypes>(
    step: IngestStepView<'a, T>,
    dialogue: Seq<IngestExchange<'a, T>>,
    end: IngestStepView<'a, T>,
) -> (ingest: IngestView<'a, T>)
    requires
        ingest_leads_to(step, dialogue, end),
        dialogue.len() > 0,
    ensures
        ingest_leads_to(
            step,
            dialogue.drop_last(),
            IngestStepView::Call(ingest, dialogue.last().call),
        ),
        ingest.expects(dialogue.last().reply),
        end == ingest.resume(dialogue.last().reply),
    decreases dialogue.len(),
{
    reveal_with_fuel(ingest_leads_to, 2);
    let rest = dialogue.drop_first();
    let first = step->Call_0;
    if rest.len() == 0 {
        first
    } else {
        let ingest = lemma_last_ingest_exchange(first.resume(dialogue[0].reply), rest, end);
        assert(rest.last() == dialogue.last());
        assert(dialogue.drop_last().drop_first() =~= rest.drop_last());
        ingest
    }
}

/// Every dialogue explains where it leads to.
proof fn lemma_ingest_explains<'a, T: EngineTypes>(
    cf_name: &'a str,
    files: &'a [&'a str],
    range: Option<Range<'a>>,
    force_allow_write: bool,
    dialogue: Seq<IngestExchange<'a, T>>,
    end: IngestStepView<'a, T>,
)
    requires
        ingest_leads_to(
            IngestView::<T>::start(cf_name, files, range, force_allow_write),
            dialogue,
            end,
        ),
    ensures
        ingest_explains(cf_name, files, range, force_allow_write, dialogue, end),
    decreases dialogue.len(),
{
    let start = IngestView::<T>::start(cf_name, files, range, force_allow_write);
    if dialogue.len() > 0 {
        let ingest = lemma_last_ingest_exchange(start, dialogue, end);
        let call = dialogue.last().call;
        let before = IngestStepView::Call(ingest, call);
        let shorter = dialogue.drop_last();
        lemma_ingest_explains(cf_name, files, range, force_allow_write, shorter, before);
        assert forall|i: int| 0 <= i < shorter.len() implies #[trigger] dialogue[i]
            == shorter[i] by {}
    }
}

/// What stands before the exchange at `i`.
proof fn lemma_before_ingest_exchange<'a, T: EngineTypes>(
    cf_name: &'a str,
    files: &'a [&'a str],
    range: Option<Range<'a>>,
    force_allow_write: bool,
    dialogue: Seq<IngestExchange<'a, T>>,
    end: IngestStepView<'a, T>,
    i: int,
) -> (ingest: IngestView<'a, T>)
    requires
        ingest_leads_to(
            IngestView::<T>::start(cf_name, files, range, force_allow_write),
            dialogue,
            end,
        ),
        0 <= i < dialogue.len(),
    ensures
        ingest_leads_to(
            IngestView::<T>::start(cf_name, files, range, force_allow_write),
            dialogue.take(i),
            IngestStepView::Call(ingest, dialogue[i].call),
        ),
        ingest.expects(dialogue[i].reply),
        i == dialogue.len() - 1 ==> end == ingest.resume(dialogue[i].reply),
    decreases dialogue.len(),
{
    let start = IngestView::<T>::start(cf_name, files, range, force_allow_write);
    let ingest = lemma_last_ingest_exchange(start, dialogue, end);
    let shorter = dialogue.drop_last();
    let before = IngestStepView::Call(ingest, dialogue.last().call);
    if i == dialogue.len() - 1 {
        assert(dialogue.take(i) =~= shorter);
        ingest
    } else {
        let found = lemma_before_ingest_exchange(
            cf_name,
            files,
            range,
            force_allow_write,
            shorter,
            before,
            i,
        );
        assert(shorter.take(i) =~= dialogue.take(i));
        assert(shorter[i] == dialogue[i]);
        found
    }
}

/// Before any exchange an ingestion stands before its first step, and holds no latch. If it is
/// confined to a range, it first acquires the latch on this range, and otherwise it looks up the
/// column family.
pub proof fn law_ingestion_begins<'a, T: EngineTypes>(
    cf_name: &'a str,
    files: &'a [&'a str],
    range: Option<Range<'a>>,
    force_allow_write: bool,
)
    ensures
        ingest_leads_to(
            IngestView::<T>::start(cf_name, files, range, force_allow_write),
            seq![],
            IngestView::<T>::start(cf_name, files, range, force_allow_write),
        ),
        IngestView::<T>::start(
            cf_name,
            files,
            range,
            force_allow_write,
        ) matches IngestStepView::Call(ingest, call) && {
            &&& ingest.latch is None
            &&& match range {
                Some(range) => call matches IngestCall::AcquireLatch { range: latched } && latched
                    == range,
                None => call matches IngestCall::GetCfHandle { cf_name: name } && name == cf_name,
            }
        },
{
}

/// Every reply that an ingestion expects is an exchange more, after which the ingestion is where
/// [`IngestExternalFile::resume`] takes it.
///
/// [`IngestExternalFile::resume`]: crate::import::IngestExternalFile::resume
pub proof fn law_ingestion_goes_on<'a, T: EngineTypes>(
    cf_name: &'a str,
    files: &'a [&'a str],
    range: Option<Range<'a>>,
    force_allow_write: bool,
    dialogue: Seq<IngestExchange<'a, T>>,
    ingest: IngestView<'a, T>,
    call: IngestCall<'a, T>,
    reply: IngestReply<T>,
)
    requires
        ingest_leads_to(
            IngestView::<T>::start(cf_name, files, range, force_allow_write),
            dialogue,
            IngestStepView::Call(ingest, call),
        ),
        ingest.expects(reply),
    ensures
        ingest_leads_to(
            IngestView::<T>::start(cf_name, files, range, force_allow_write),
            dialogue.push(IngestExchange { call, reply }),
            ingest.resume(reply),
        ),
{
    lemma_next_ingest_exchange(
        IngestView::<T>::start(cf_name, files, range, force_allow_write),
        dialogue,
        ingest,
        call,
        reply,
    );
}

proof fn lemma_next_ingest_exchange<'a, T: EngineTypes>(
    step: IngestStepView<'a, T>,
    dialogue: Seq<IngestExchange<'a, T>>,
    ingest: IngestView<'a, T>,
    call: IngestCall<'a, T>,
    reply: IngestReply<T>,
)
    requires
        ingest_leads_to(step, dialogue, IngestStepView::Call(ingest, call)),
        ingest.expects(reply),
    ensures
        ingest_leads_to(
            step,
            dialogue.push(IngestExchange { call, reply }),
            ingest.resume(reply),
        ),
    decreases dialogue.len(),
{
    reveal_with_fuel(ingest_leads_to, 2);
    let longer = dialogue.push(IngestExchange { call, reply });
    if dialogue.len() > 0 {
        let next = step->Call_0.resume(dialogue[0].reply);
        lemma_next_ingest_exchange(next, dialogue.drop_first(), ingest, call, reply);
        assert(longer.drop_first() =~= dialogue.drop_first().push(IngestExchange { call, reply }));
    } else {
        assert(longer.drop_first() =~= seq![]);
    }
}

/// What a call can reply, and nothing else, is expected, and an ingestion can always go on. Only
/// the lookup of the column family and the ingestion of the files can fail.
pub proof fn law_ingest_replies_are_expected<'a, T: EngineTypes>(
    cf_name: &'a str,
    files: &'a [&'a str],
    range: Option<Range<'a>>,
    force_allow_write: bool,
    dialogue: Seq<IngestExchange<'a, T>>,
    ingest: IngestView<'a, T>,
    call: IngestCall<'a, T>,
    reply: IngestReply<T>,
)
    requires
        ingest_leads_to(
            IngestView::<T>::start(cf_name, files, range, force_allow_write),
            dialogue,
            IngestStepView::Call(ingest, call),
        ),
    ensures
        ingest.wf(),
        ingest.phase.waits_for(call),
        ingest.expects(reply) <==> match call {
            IngestCall::AcquireLatch { .. } => reply is Latched,
            IngestCall::GetCfHandle { .. } => reply is CfFound || reply is Failed,
            IngestCall::NewOptions => reply is Options,
            IngestCall::Count { .. } => reply is Done,
            IngestCall::Ingest { .. } => reply is Ingested || reply is Failed,
            IngestCall::Observe { .. } => reply is Done,
        },
{
    lemma_ingest_explains(
        cf_name,
        files,
        range,
        force_allow_write,
        dialogue,
        IngestStepView::Call(ingest, call),
    );
}

/// What an ingestion does, one exchange after the other: it acquires the latch on its range, if it
/// is confined to one, looks up the column family by its name, lets the engine give out options,
/// is counted as one that does not allow writes, ingests all the files into the column family that
/// was found, with the options that are decided, and records whether it blocked. Then it has
/// succeeded. Where a call fails, it ends with that failure.
pub proof fn law_ingestion_steps<'a, T: EngineTypes>(
    cf_name: &'a str,
    files: &'a [&'a str],
    range: Option<Range<'a>>,
    force_allow_write: bool,
    dialogue: Seq<IngestExchange<'a, T>>,
    end: IngestStepView<'a, T>,
)
    requires
        ingest_leads_to(
            IngestView::<T>::start(cf_name, files, range, force_allow_write),
            dialogue,
            end,
        ),
    ensures
        ({
            let first = if range is Some {
                1int
            } else {
                0
            };
            let n = dialogue.len();
            if n > 0 && dialogue.last().reply is Failed {
                end matches IngestStepView::Return { result: Err(error), .. } && error
                    == dialogue.last().reply->Failed_0
            } else if n == first + 5 {
                end matches IngestStepView::Return { result: Ok(()), .. }
            } else {
                &&& n < first + 5
                &&& end matches IngestStepView::Call(_, call)
                &&& if n < first {
                    call matches IngestCall::AcquireLatch { range: latched } && latched == range->0
                } else if n == first {
                    call matches IngestCall::GetCfHandle { cf_name: name } && name == cf_name
                } else if n == first + 1 {
                    call is NewOptions
                } else if n == first + 2 {
                    call matches IngestCall::Count { label } && label@
                        == "\n            not_allow_write"@
                } else if n == first + 3 {
                    &&& call matches IngestCall::Ingest { cf, options, files: ingested }
                    &&& dialogue[first].reply matches IngestReply::CfFound(found)
                    &&& cf == found
                    &&& ingested == files
                    &&& dialogue[first + 1].reply matches IngestReply::Options(raw)
                    &&& options.move_files
                    &&& !options.write_global_seqno
                    &&& !options.allow_write
                    &&& options.snapshot_consistent == raw.snapshot_consistent
                    &&& options.allow_global_seqno == raw.allow_global_seqno
                    &&& options.allow_blocking_flush == raw.allow_blocking_flush
                } else {
                    &&& call matches IngestCall::Observe { cf_name: name, block }
                    &&& name == cf_name
                    &&& dialogue[first + 3].reply matches IngestReply::Ingested {
                        did_memtable_flush,
                    }
                    &&& block == did_memtable_flush
                }
            }
        }),
        forall|i: int|
            0 <= i < dialogue.len() - 1 ==> !((#[trigger] dialogue[i]).reply is Failed),
{
    lemma_ingest_explains(cf_name, files, range, force_allow_write, dialogue, end);
    if dialogue.len() > 0 {
        let last = dialogue.len() - 1;
        let ingest = lemma_before_ingest_exchange(
            cf_name,
            files,
            range,
            force_allow_write,
            dialogue,
            end,
            last,
        );
        assert(end == ingest.resume(dialogue.last().reply));
        lemma_ingest_explains(
            cf_name,
            files,
            range,
            force_allow_write,
            dialogue.take(last),
            IngestStepView::Call(ingest, dialogue[last].call),
        );
    }
    assert forall|i: int| 0 <= i < dialogue.len() - 1 implies !((#[trigger] dialogue[i]).reply
        is Failed) by {
        let next = lemma_before_ingest_exchange(
            cf_name,
            files,
            range,
            force_allow_write,
            dialogue,
            end,
            i + 1,
        );
        let beginning = dialogue.take(i + 1);
        let before = lemma_last_ingest_exchange(
            IngestView::<T>::start(cf_name, files, range, force_allow_write),
            beginning,
            IngestStepView::Call(next, dialogue[i + 1].call),
        );
        assert(beginning.last() == dialogue[i]);
    }
}

/// Whatever is ingested, however much the caller insists, and whatever the engine has given out:
/// where the engine is handed files, it is told to accept no foreground writes meanwhile, to move
/// the files, and to leave the global sequence number out of them. The rest of the options is as
/// the engine has given it out. The files are those that the caller named, and they go into the
/// column family that the name stood for.
pub proof fn law_files_are_ingested_without_writes<'a, T: EngineTypes>(
    cf_name: &'a str,
    files: &'a [&'a str],
    range: Option<Range<'a>>,
    force_allow_write: bool,
    dialogue: Seq<IngestExchange<'a, T>>,
    end: IngestStepView<'a, T>,
    i: int,
)
    requires
        ingest_leads_to(
            IngestView::<T>::start(cf_name, files, range, force_allow_write),
            dialogue,
            end,
        ),
        0 <= i < dialogue.len(),
        dialogue[i].call is Ingest,
    ensures
        dialogue[i].call matches IngestCall::Ingest { cf, options, files: ingested } && {
            &&& !options.allow_write
            &&& options.move_files
            &&& !options.write_global_seqno
            &&& i >= 3
            &&& dialogue[i - 2].call is NewOptions
            &&& dialogue[i - 2].reply matches IngestReply::Options(raw)
            &&& options.snapshot_consistent == raw.snapshot_consistent
            &&& options.allow_global_seqno == raw.allow_global_seqno
            &&& options.allow_blocking_flush == raw.allow_blocking_flush
            &&& ingested == files
            &&& dialogue[i - 3].call matches IngestCall::GetCfHandle { cf_name: name }
            &&& name == cf_name
            &&& dialogue[i - 3].reply matches IngestReply::CfFound(found)
            &&& cf == found
        },
{
    let ingest = lemma_before_ingest_exchange(
        cf_name,
        files,
        range,
        force_allow_write,
        dialogue,
        end,
        i,
    );
    let beginning = dialogue.take(i);
    lemma_ingest_explains(
        cf_name,
        files,
        range,
        force_allow_write,
        beginning,
        IngestStepView::Call(ingest, dialogue[i].call),
    );
    let made = lemma_before_ingest_exchange(
        cf_name,
        files,
        range,
        force_allow_write,
        dialogue,
        end,
        i - 2,
    );
    lemma_ingest_explains(
        cf_name,
        files,
        range,
        force_allow_write,
        dialogue.take(i - 2),
        IngestStepView::Call(made, dialogue[i - 2].call),
    );
    let found = lemma_before_ingest_exchange(
        cf_name,
        files,
        range,
        force_allow_write,
        dialogue,
        end,
        i - 3,
    );
    lemma_ingest_explains(
        cf_name,
        files,
        range,
        force_allow_write,
        dialogue.take(i - 3),
        IngestStepView::Call(found, dialogue[i - 3].call),
    );
}

/// However far an ingestion has come, it holds the very guard that its first call replied, if it
/// is confined to a range, and none otherwise.
pub proof fn law_guard_is_kept<'a, T: EngineTypes>(
    cf_name: &'a str,
    files: &'a [&'a str],
    range: Option<Range<'a>>,
    force_allow_write: bool,
    dialogue: Seq<IngestExchange<'a, T>>,
    end: IngestStepView<'a, T>,
)
    requires
        ingest_leads_to(
            IngestView::<T>::start(cf_name, files, range, force_allow_write),
            dialogue,
            end,
        ),
    ensures
        ({
            let held = match end {
                IngestStepView::Call(ingest, _) => ingest.latch,
                IngestStepView::Return { latch, .. } => latch,
            };
            if range is Some && dialogue.len() > 0 {
                &&& dialogue[0].reply matches IngestReply::Latched(guard)
                &&& held == Some(guard)
            } else {
                held is None
            }
        }),
{
    lemma_ingest_explains(cf_name, files, range, force_allow_write, dialogue, end);
}

/// The view of a step shows all that the step holds.
pub proof fn law_ingest_steps_are_shown<'a, T: EngineTypes>(step: IngestStep<'a, T>)
    ensures
        match step {
            IngestStep::Call(ingest, call) => step@ == IngestStepView::Call(ingest@, call),
            IngestStep::Return { result, latch } => {
                &&& step@ matches IngestStepView::Return { result: shown, latch: held }
                &&& shown == result
                &&& held == latch
            },
        },
{
}

} // verus!
