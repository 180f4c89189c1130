//! Ingesting external files into the storage engine.
//!
//! Like a check of secondary locks, an ingestion is a machine:
//! [`IngestExternalFile::ingest_external_file_cf`] starts it, every [`IngestStep::Call`] names the
//! next call to make, and [`IngestExternalFile::resume`] takes what the call replied.
use vstd::prelude::*;

verus! {

/// Whether the engine may accept foreground writes during an ingestion. While it does, the
/// sequence number of an ingested file can hide a part of a batch that was written meanwhile, so
/// this is switched off.
pub const ENABLE_INGEST_ALLOW_WRITE: bool = false;

/// A range of keys, from `start_key` on and before `end_key`.
#[derive(Debug, Clone, Copy)]
pub struct Range<'a> {
    pub start_key: &'a [u8],
    pub end_key: &'a [u8],
}

impl<'a> Range<'a> {
    /// The range between the two keys.
    pub fn new(start_key: &'a [u8], end_key: &'a [u8]) -> (result: Range<'a>)
        ensures
            result.start_key@ == start_key@,
            result.end_key@ == end_key@,
    {
        Range { start_key, end_key }
    }
}

/// Whether foreground writes are allowed during an ingestion: only if that is switched on, and
/// then if the ingestion is confined to a range or the caller insists.
pub open spec fn allows_write(has_range: bool, force_allow_write: bool) -> bool {
    ENABLE_INGEST_ALLOW_WRITE && (has_range || force_allow_write)
}

/// Decides whether foreground writes are allowed during an ingestion.
pub fn should_allow_write_during_ingest(
    range: Option<&Range<'_>>,
    force_allow_write: bool,
) -> (result: bool)
    ensures
        result == allows_write(range is Some, force_allow_write),
        !result,
{
    ENABLE_INGEST_ALLOW_WRITE && (range.is_some() || force_allow_write)
}

/// The options of an ingestion as the engine keeps them.
#[derive(Debug, Clone, Copy, PartialEq, Eq, Structural)]
pub struct RawIngestExternalFileOptions {
    /// Move the files instead of copying them.
    pub move_files: bool,
    /// Keep existing snapshots from seeing the ingested keys.
    pub snapshot_consistent: bool,
    /// Accept files that get a global sequence number.
    pub allow_global_seqno: bool,
    /// Flush the memtable even if that blocks.
    pub allow_blocking_flush: bool,
    /// Write the global sequence number into the files.
    pub write_global_seqno: bool,
    /// Accept foreground writes during the ingestion.
    pub allow_write: bool,
}

/// The options of an ingestion.
#[derive(Debug, Clone, Copy, PartialEq, Eq)]
pub struct RocksIngestExternalFileOptions(RawIngestExternalFileOptions);

impl View for RocksIngestExternalFileOptions {
    type V = RawIngestExternalFileOptions;

    closed spec fn view(&self) -> RawIngestExternalFileOptions {
        self.0
    }
}

impl RocksIngestExternalFileOptions {
    /// The options that the engine has given out.
    pub fn new(raw: RawIngestExternalFileOptions) -> (result: Self)
        ensures
            result@ == raw,
    {
        RocksIngestExternalFileOptions(raw)
    }

    /// The options for the engine.
    pub fn raw(&self) -> (result: RawIngestExternalFileOptions)
        ensures
            result == self@,
    {
        self.0
    }

    /// Sets whether the files are moved instead of copied.
    pub fn move_files(&mut self, f: bool)
        ensures
            final(self)@ == (RawIngestExternalFileOptions { move_files: f, ..old(self)@ }),
    {
        self.0.move_files = f;
    }

    /// Sets whether foreground writes are accepted during the ingestion.
    pub fn allow_write(&mut self, f: bool)
        ensures
            final(self)@ == (RawIngestExternalFileOptions { allow_write: f, ..old(self)@ }),
    {
        self.0.allow_write = f;
    }

    /// Whether the global sequence number is written into the files.
    pub fn get_write_global_seqno(&self) -> (result: bool)
        ensures
            result == self@.write_global_seqno,
    {
        self.0.write_global_seqno
    }

    /// Sets whether the global sequence number is written into the files.
    pub fn set_write_global_seqno(&mut self, f: bool)
        ensures
            final(self)@ == (RawIngestExternalFileOptions { write_global_seqno: f, ..old(self)@ }),
    {
        self.0.write_global_seqno = f;
    }
}

/// The keys between which a latch is held.
pub struct LatchRange {
    pub start_key: Vec<u8>,
    pub end_key: Vec<u8>,
}

/// The bounds of the latch that keeps compaction filters out of a range during an ingestion.
pub fn acquire_ingest_latch(range: Range<'_>) -> (result: LatchRange)
    ensures
        result.start_key@ == range.start_key@,
        result.end_key@ == range.end_key@,
{
    LatchRange {
        start_key: vstd::slice::slice_to_vec(range.start_key),
        end_key: vstd::slice::slice_to_vec(range.end_key),
    }
}

/// The label under which an ingestion is counted.
pub open spec fn count_label(allow_write: bool) -> &'static str {
    if allow_write {
        "\n            allow_write"
    } else {
        "\n            not_allow_write"
    }
}

/// The types of an engine that an ingestion takes from one call into the engine and hands to the
/// next, or to its caller, without looking inside.
pub trait EngineTypes {
    /// A guard. The latch that it stands for is held as long as the guard exists.
    type RangeLatchGuard;

    /// A column family that was looked up.
    type CfHandle;

    /// What a failing call into the engine reports.
    type Error;
}

/// What an ingestion waits for.
pub enum IngestPhase<T: EngineTypes> {
    /// The latch on the range is being acquired.
    AcquireLatch,
    /// The column family is being looked up.
    GetCfHandle,
    /// The engine is giving out options for an ingestion into this column family.
    NewOptions { cf: T::CfHandle },
    /// The ingestion is being counted; then it is made with these options.
    Count { cf: T::CfHandle, options: RawIngestExternalFileOptions },
    /// The files are being ingested.
    Ingest,
    /// The time that the ingestion took is being recorded.
    Observe,
}

/// A call that an ingestion makes.
pub enum IngestCall<'a, T: EngineTypes> {
    /// Acquire the latch on the range, as [`acquire_ingest_latch`] says. Replied by `Latched`.
    AcquireLatch { range: Range<'a> },
    /// Look up the column family. Replied by `CfFound` or `Failed`.
    GetCfHandle { cf_name: &'a str },
    /// Let the engine give out options. Replied by `Options`.
    NewOptions,
    /// Count the ingestion under the label. Replied by `Done`.
    Count { label: &'static str },
    /// Ingest the files into the column family. Replied by `Ingested` or `Failed`.
    Ingest { cf: T::CfHandle, options: RawIngestExternalFileOptions, files: &'a [&'a str] },
    /// Record the time that the ingestion took, among the ingestions into the column family that
    /// blocked for a flush of the memtable, or among those that did not. Replied by `Done`.
    Observe { cf_name: &'a str, block: bool },
}

impl<T: EngineTypes> IngestPhase<T> {
    /// Whether an ingestion in this phase waits for this call.
    pub open spec fn waits_for<'a>(self, call: IngestCall<'a, T>) -> bool {
        match self {
            IngestPhase::AcquireLatch => call is AcquireLatch,
            IngestPhase::GetCfHandle => call is GetCfHandle,
            IngestPhase::NewOptions { .. } => call is NewOptions,
            IngestPhase::Count { .. } => call is Count,
            IngestPhase::Ingest => call is Ingest,
            IngestPhase::Observe => call is Observe,
        }
    }
}

/// What a call replied.
pub enum IngestReply<T: EngineTypes> {
    /// The call was made.
    Done,
    /// The latch was acquired.
    Latched(T::RangeLatchGuard),
    /// The column family.
    CfFound(T::CfHandle),
    /// The options that the engine has given out.
    Options(RawIngestExternalFileOptions),
    /// The files were ingested. `did_memtable_flush` says whether the engine had to fall back to
    /// a flush of the memtable.
    Ingested { did_memtable_flush: bool },
    /// The call failed.
    Failed(T::Error),
}

/// An ingestion under way.
pub struct IngestExternalFile<'a, T: EngineTypes> {
    cf_name: &'a str,
    files: &'a [&'a str],
    range: Option<Range<'a>>,
    force_allow_write: bool,
    /// The guard of the latch on the range. The ingestion keeps it until it is over.
    latch: Option<T::RangeLatchGuard>,
    phase: IngestPhase<T>,
}

/// The state of an ingestion.
pub struct IngestView<'a, T: EngineTypes> {
    pub cf_name: &'a str,
    pub files: &'a [&'a str],
    pub range: Option<Range<'a>>,
    pub force_allow_write: bool,
    /// The guard of the latch that the ingestion holds.
    pub latch: Option<T::RangeLatchGuard>,
    pub phase: IngestPhase<T>,
}

impl<'a, T: EngineTypes> View for IngestExternalFile<'a, T> {
    type V = IngestView<'a, T>;

    closed spec fn view(&self) -> IngestView<'a, T> {
        IngestView {
            cf_name: self.cf_name,
            files: self.files,
            range: self.range,
            force_allow_write: self.force_allow_write,
            latch: self.latch,
            phase: self.phase,
        }
    }
}

/// What is to be done next.
pub enum IngestStep<'a, T: EngineTypes> {
    /// Make the call and resume the ingestion with what it replied.
    Call(IngestExternalFile<'a, T>, IngestCall<'a, T>),
    /// The ingestion is over. The guard of its latch is handed out, to be dropped.
    Return { result: Result<(), T::Error>, latch: Option<T::RangeLatchGuard> },
}

/// An [`IngestStep`] over the state of the ingestion.
pub enum IngestStepView<'a, T: EngineTypes> {
    Call(IngestView<'a, T>, IngestCall<'a, T>),
    Return { result: Result<(), T::Error>, latch: Option<T::RangeLatchGuard> },
}

impl<'a, T: EngineTypes> View for IngestStep<'a, T> {
    type V = IngestStepView<'a, T>;

    open spec fn view(&self) -> IngestStepView<'a, T> {
        match self {
            IngestStep::Call(ingest, call) => IngestStepView::Call(ingest@, *call),
            IngestStep::Return { result, latch } => {
                IngestStepView::Return { result: *result, latch: *latch }
            },
        }
    }
}

impl<'a, T: EngineTypes> IngestStep<'a, T> {
    /// An ingestion that goes on is in one of the states that an ingestion can be in, and waits
    /// for the call.
    pub open spec fn wf(self) -> bool {
        self matches IngestStep::Call(ingest, call) ==> {
            &&& ingest@.wf()
            &&& ingest@.phase.waits_for(call)
        }
    }
}

impl<'a, T: EngineTypes> IngestStepView<'a, T> {
    /// The guard of the latch that is held before this step.
    pub open spec fn latch(self) -> Option<T::RangeLatchGuard> {
        match self {
            IngestStepView::Call(ingest, _) => ingest.latch,
            IngestStepView::Return { latch, .. } => latch,
        }
    }
}

impl<'a, T: EngineTypes> IngestView<'a, T> {
    /// The states that an ingestion can be in: past the acquisition of the latch, it holds one if
    /// and only if it is confined to a range.
    pub open spec fn wf(self) -> bool {
        if self.phase is AcquireLatch {
            self.range is Some && self.latch is None
        } else {
            self.latch is Some <==> self.range is Some
        }
    }

    /// Whether foreground writes are allowed during the ingestion.
    pub open spec fn allow_write(self) -> bool {
        allows_write(self.range is Some, self.force_allow_write)
    }

    /// The options of the ingestion, if the engine has given out `raw`.
    pub open spec fn options(
        self,
        raw: RawIngestExternalFileOptions,
    ) -> RawIngestExternalFileOptions {
        RawIngestExternalFileOptions {
            move_files: true,
            write_global_seqno: false,
            allow_write: self.allow_write(),
            ..raw
        }
    }

    /// Whether the pending call can reply so.
    pub open spec fn expects(self, reply: IngestReply<T>) -> bool {
        match self.phase {
            IngestPhase::AcquireLatch => reply is Latched,
            IngestPhase::GetCfHandle => reply is CfFound || reply is Failed,
            IngestPhase::NewOptions { .. } => reply is Options,
            IngestPhase::Count { .. } => reply is Done,
            IngestPhase::Ingest => reply is Ingested || reply is Failed,
            IngestPhase::Observe => reply is Done,
        }
    }

    /// Wait for the call.
    pub open spec fn call(self, phase: IngestPhase<T>, call: IngestCall<'a, T>) -> IngestStepView<
        'a,
        T,
    > {
        IngestStepView::Call(IngestView { phase, ..self }, call)
    }

    /// What comes first: the latch, if the ingestion is confined to a range.
    pub open spec fn start(
        cf_name: &'a str,
        files: &'a [&'a str],
        range: Option<Range<'a>>,
        force_allow_write: bool,
    ) -> IngestStepView<'a, T> {
        let phase = if range is Some {
            IngestPhase::AcquireLatch
        } else {
            IngestPhase::GetCfHandle
        };
        let call = match range {
            Some(range) => IngestCall::AcquireLatch { range },
            None => IngestCall::GetCfHandle { cf_name },
        };
        IngestStepView::Call(
            IngestView { cf_name, files, range, force_allow_write, latch: None, phase },
            call,
        )
    }

    /// Look up the column family.
    pub open spec fn get_cf_handle(self) -> IngestStepView<'a, T> {
        self.call(IngestPhase::GetCfHandle, IngestCall::GetCfHandle { cf_name: self.cf_name })
    }

    /// What is to be done after the pending call has replied.
    pub open spec fn resume(self, reply: IngestReply<T>) -> IngestStepView<'a, T>
        recommends
            self.expects(reply),
    {
        match (self.phase, reply) {
            (_, IngestReply::Failed(error)) => {
                IngestStepView::Return { result: Err(error), latch: self.latch }
            },
            (IngestPhase::AcquireLatch, IngestReply::Latched(latch)) => {
                IngestView { latch: Some(latch), ..self }.get_cf_handle()
            },
            (IngestPhase::GetCfHandle, IngestReply::CfFound(cf)) => {
                self.call(IngestPhase::NewOptions { cf }, IngestCall::NewOptions)
            },
            (IngestPhase::NewOptions { cf }, IngestReply::Options(raw)) => self.call(
                IngestPhase::Count { cf, options: self.options(raw) },
                IngestCall::Count { label: count_label(self.allow_write()) },
            ),
            (IngestPhase::Count { cf, options }, _) => self.call(
                IngestPhase::Ingest,
                IngestCall::Ingest { cf, options, files: self.files },
            ),
            (IngestPhase::Ingest, IngestReply::Ingested { did_memtable_flush }) => self.call(
                IngestPhase::Observe,
                IngestCall::Observe { cf_name: self.cf_name, block: did_memtable_flush },
            ),
            (IngestPhase::Observe, _) => {
                IngestStepView::Return { result: Ok(()), latch: self.latch }
            },
            _ => arbitrary(),
        }
    }
}

impl<'a, T: EngineTypes> IngestExternalFile<'a, T> {
    /// Starts the ingestion of the files into the column family.
    ///
    /// If the ingestion is confined to a range, it holds a latch that keeps compaction filters
    /// out of the range.
    pub fn ingest_external_file_cf(
        cf_name: &'a str,
        files: &'a [&'a str],
        range: Option<Range<'a>>,
        force_allow_write: bool,
    ) -> (step: IngestStep<'a, T>)
        ensures
            step@ == IngestView::<T>::start(cf_name, files, range, force_allow_write),
            step.wf(),
    {
        let ingest = IngestExternalFile {
            cf_name,
            files,
            range,
            force_allow_write,
            latch: None,
            phase: IngestPhase::GetCfHandle,
        };
        match range {
            Some(range) => {
                ingest.call(IngestPhase::AcquireLatch, IngestCall::AcquireLatch { range })
            },
            None => ingest.call(IngestPhase::GetCfHandle, IngestCall::GetCfHandle { cf_name }),
        }
    }

    fn call(self, phase: IngestPhase<T>, call: IngestCall<'a, T>) -> (step: IngestStep<'a, T>)
        ensures
            step@ == self@.call(phase, call),
    {
        IngestStep::Call(IngestExternalFile { phase, ..self }, call)
    }

    /// Whether the ingestion can go on with this reply to its pending call.
    pub fn accepts(&self, reply: &IngestReply<T>) -> (result: bool)
        ensures
            result == self@.expects(*reply),
    {
        match (&self.phase, reply) {
            (IngestPhase::AcquireLatch, IngestReply::Latched(_)) => true,
            (IngestPhase::GetCfHandle, IngestReply::CfFound(_) | IngestReply::Failed(_)) => true,
            (IngestPhase::NewOptions { .. }, IngestReply::Options(_)) => true,
            (IngestPhase::Count { .. }, IngestReply::Done) => true,
            (IngestPhase::Ingest, IngestReply::Ingested { .. } | IngestReply::Failed(_)) => true,
            (IngestPhase::Observe, IngestReply::Done) => true,
            _ => false,
        }
    }

    /// Goes on after the pending call has replied.
    pub fn resume(self, reply: IngestReply<T>) -> (step: IngestStep<'a, T>)
        requires
            self@.wf(),
            self@.expects(reply),
        ensures
            step@ == self@.resume(reply),
            step.wf(),
    {
        let cf_name = self.cf_name;
        let files = self.files;
        let phase = self.phase;
        // The calls below set the phase that comes next.
        let ingest = IngestExternalFile { phase: IngestPhase::GetCfHandle, ..self };
        match (phase, reply) {
            (_, IngestReply::Failed(error)) => {
                IngestStep::Return { result: Err(error), latch: ingest.latch }
            },
            (IngestPhase::AcquireLatch, IngestReply::Latched(latch)) => {
                let latched = IngestExternalFile { latch: Some(latch), ..ingest };
                latched.call(IngestPhase::GetCfHandle, IngestCall::GetCfHandle { cf_name })
            },
            (IngestPhase::GetCfHandle, IngestReply::CfFound(cf)) => {
                ingest.call(IngestPhase::NewOptions { cf }, IngestCall::NewOptions)
            },
            (IngestPhase::NewOptions { cf }, IngestReply::Options(raw)) => {
                let mut opts = RocksIngestExternalFileOptions::new(raw);
                opts.move_files(true);
                opts.set_write_global_seqno(false);
                let allow_write = should_allow_write_during_ingest(
                    ingest.range.as_ref(),
                    ingest.force_allow_write,
                );
                opts.allow_write(allow_write);
                let label = if allow_write {
                    "\n            allow_write"
                } else {
                    "\n            not_allow_write"
                };
                ingest.call(
                    IngestPhase::Count { cf, options: opts.raw() },
                    IngestCall::Count { label },
                )
            },
            (IngestPhase::Count { cf, options }, _) => {
                ingest.call(IngestPhase::Ingest, IngestCall::Ingest { cf, options, files })
            },
            (IngestPhase::Ingest, IngestReply::Ingested { did_memtable_flush }) => ingest.call(
                IngestPhase::Observe,
                IngestCall::Observe { cf_name, block: did_memtable_flush },
            ),
            (IngestPhase::Observe, _) => {
                IngestStep::Return { result: Ok(()), latch: ingest.latch }
            },
            _ => vstd::pervasive::unreached(),
        }
    }
}

} // verus!
