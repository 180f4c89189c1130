//! Ingestions into an engine in memory.
use std::cell::RefCell;
use std::collections::BTreeMap;
use std::rc::Rc;

use secondary_locks::import::{
    acquire_ingest_latch, should_allow_write_during_ingest, EngineTypes, IngestCall,
    IngestExternalFile, IngestReply, IngestStep, Range, RawIngestExternalFileOptions,
    RocksIngestExternalFileOptions,
};

/// The options that the engine gives out.
fn raw() -> RawIngestExternalFileOptions {
    RawIngestExternalFileOptions {
        move_files: false,
        snapshot_consistent: true,
        allow_global_seqno: true,
        allow_blocking_flush: true,
        write_global_seqno: true,
        allow_write: true,
    }
}

type Table = BTreeMap<String, String>;

type Calls = Rc<RefCell<Vec<&'static str>>>;

/// Notes when the latch is released.
struct Guard(Calls);

impl Drop for Guard {
    fn drop(&mut self) {
        self.0.borrow_mut().push("release_latch");
    }
}

struct Mem;

impl EngineTypes for Mem {
    type RangeLatchGuard = Guard;
    type CfHandle = String;
    type Error = String;
}

#[derive(Default)]
struct Engine {
    memtable: Table,
    /// The files at level 0.
    level0: Vec<Table>,
    /// The files on disk, by path.
    disk: BTreeMap<String, Table>,
    latches: Vec<(Vec<u8>, Vec<u8>)>,
    options: Vec<RawIngestExternalFileOptions>,
    counts: Vec<String>,
    observed: Vec<(String, bool)>,
    /// The column families that files were ingested into.
    ingested: Vec<String>,
    calls: Calls,
}

impl Engine {
    fn flush(&mut self) {
        self.level0.push(std::mem::take(&mut self.memtable));
    }

    fn note(&self, call: &'static str) {
        self.calls.borrow_mut().push(call);
    }

    fn call(&mut self, call: IngestCall<'_, Mem>) -> IngestReply<Mem> {
        match call {
            IngestCall::AcquireLatch { range } => {
                self.note("acquire_latch");
                let latch = acquire_ingest_latch(range);
                self.latches.push((latch.start_key, latch.end_key));
                IngestReply::Latched(Guard(self.calls.clone()))
            }
            IngestCall::GetCfHandle { cf_name } => {
                self.note("get_cf_handle");
                if cf_name == "default" {
                    IngestReply::CfFound("handle of default".to_string())
                } else {
                    IngestReply::Failed(format!("cf {} not found", cf_name))
                }
            }
            IngestCall::NewOptions => {
                self.note("new_options");
                IngestReply::Options(raw())
            }
            IngestCall::Count { label } => {
                self.note("count");
                self.counts.push(label.to_string());
                IngestReply::Done
            }
            IngestCall::Ingest { cf, options, files } => {
                self.note("ingest");
                self.ingested.push(cf);
                self.options.push(options);
                for file in files {
                    if !self.disk.contains_key(*file) {
                        return IngestReply::Failed(format!("{} not found", file));
                    }
                }
                let did_memtable_flush = !self.memtable.is_empty();
                if did_memtable_flush {
                    self.flush();
                }
                for file in files {
                    let table = self.disk.remove(*file).unwrap();
                    self.level0.push(table);
                }
                IngestReply::Ingested { did_memtable_flush }
            }
            IngestCall::Observe { cf_name, block } => {
                self.note("observe");
                self.observed.push((cf_name.to_string(), block));
                IngestReply::Done
            }
        }
    }

    fn ingest_external_file_cf(
        &mut self,
        cf_name: &str,
        files: &[&str],
        range: Option<Range<'_>>,
        force_allow_write: bool,
    ) -> Result<(), String> {
        let mut step = IngestExternalFile::<Mem>::ingest_external_file_cf(
            cf_name,
            files,
            range,
            force_allow_write,
        );
        loop {
            match step {
                IngestStep::Call(ingest, call) => {
                    let reply = self.call(call);
                    assert!(ingest.accepts(&reply));
                    step = ingest.resume(reply);
                }
                IngestStep::Return { result, latch } => {
                    drop(latch);
                    return result;
                }
            }
        }
    }
}

#[test]
fn test_ingest_allow_write_is_disabled() {
    let range = Range::new(b"key", b"kez");

    // Foreground writes stay disabled even for snapshot-like ranged ingests and explicit
    // force_allow_write requests.
    assert!(!should_allow_write_during_ingest(None, false));
    assert!(!should_allow_write_during_ingest(None, true));
    assert!(!should_allow_write_during_ingest(Some(&range), false));
    assert!(!should_allow_write_during_ingest(Some(&range), true));
}

#[test]
fn test_ingest_multiple_file() {
    let mut db = Engine::default();
    let mut wb = Table::new();
    for i in 1000..5000 {
        let v = i.to_string();
        wb.insert(v.clone(), v);
        if i % 1000 == 100 {
            // Writes the batch and clears it.
            db.memtable.append(&mut wb);
        }
    }
    // Flush one memtable to L0 to make sure that the next sst files to be ingested
    //  must locate in L0.
    db.flush();
    assert_eq!(1, db.level0.len());

    let mut sst1 = Table::new();
    let mut sst2 = Table::new();
    for i in 1001..2000 {
        let v = i.to_string();
        sst1.insert(v.clone(), v);
    }
    for i in 2001..3000 {
        let v = i.to_string();
        sst2.insert(v.clone(), v);
    }
    db.disk.insert("sst1".to_string(), sst1);
    db.disk.insert("sst2".to_string(), sst2);
    db.ingest_external_file_cf(
        "default",
        &["sst1", "sst2"],
        None,
        false, // force_allow_write
    )
    .unwrap();
    assert_eq!(3, db.level0.len());
}

fn call_of<'a>(step: IngestStep<'a, Mem>) -> IngestExternalFile<'a, Mem> {
    match step {
        IngestStep::Call(ingest, _) => ingest,
        IngestStep::Return { .. } => panic!("the ingestion is over"),
    }
}

#[test]
fn impossible_replies_are_not_accepted_by_ingestion() {
    let failed = || IngestReply::Failed(String::new());
    let latched = || IngestReply::Latched(Guard(Calls::default()));
    let range = Some(Range::new(b"key", b"kez"));
    let step = IngestExternalFile::ingest_external_file_cf("default", &[], range, false);
    // Acquiring the latch.
    let ingest = call_of(step);
    assert!(!ingest.accepts(&IngestReply::Done));
    assert!(!ingest.accepts(&failed()));
    assert!(ingest.accepts(&latched()));
    // Looking the column family up.
    let ingest = call_of(ingest.resume(latched()));
    assert!(!ingest.accepts(&latched()));
    assert!(ingest.accepts(&failed()));
    let found = || IngestReply::CfFound("handle".to_string());
    assert!(ingest.accepts(&found()));
    // Making the options.
    let ingest = call_of(ingest.resume(found()));
    assert!(!ingest.accepts(&found()));
    assert!(!ingest.accepts(&failed()));
    assert!(ingest.accepts(&IngestReply::Options(raw())));
    // Counting.
    let ingest = call_of(ingest.resume(IngestReply::Options(raw())));
    assert!(!ingest.accepts(&IngestReply::Options(raw())));
    assert!(!ingest.accepts(&failed()));
    assert!(ingest.accepts(&IngestReply::Done));
    // Ingesting.
    let ingest = call_of(ingest.resume(IngestReply::Done));
    assert!(!ingest.accepts(&IngestReply::Done));
    assert!(ingest.accepts(&failed()));
    let ingested = || IngestReply::Ingested { did_memtable_flush: true };
    assert!(ingest.accepts(&ingested()));
    // Observing.
    let ingest = call_of(ingest.resume(ingested()));
    assert!(!ingest.accepts(&ingested()));
    assert!(!ingest.accepts(&failed()));
    assert!(ingest.accepts(&IngestReply::Done));
    match ingest.resume(IngestReply::Done) {
        IngestStep::Return { result, latch } => {
            assert_eq!(result, Ok(()));
            assert!(latch.is_some());
        }
        IngestStep::Call(..) => panic!("unexpected call"),
    }
}

#[test]
fn ingestion_decides_its_options() {
    for force_allow_write in [false, true] {
        for range in [None, Some(Range::new(b"key", b"kez"))] {
            let mut db = Engine::default();
            db.ingest_external_file_cf("default", &[], range, force_allow_write).unwrap();
            let expected = RawIngestExternalFileOptions {
                move_files: true,
                write_global_seqno: false,
                allow_write: false,
                ..raw()
            };
            assert_eq!(db.options, [expected]);
            assert_eq!(db.counts, ["\n            not_allow_write"]);
        }
    }
}

#[test]
fn latch_comes_first_if_there_is_a_range() {
    let mut db = Engine::default();
    let range = Range::new(b"key", b"kez");
    db.ingest_external_file_cf("default", &[], Some(range), false).unwrap();
    assert_eq!(db.latches, [(b"key".to_vec(), b"kez".to_vec())]);
    assert_eq!(
        *db.calls.borrow(),
        [
            "acquire_latch",
            "get_cf_handle",
            "new_options",
            "count",
            "ingest",
            "observe",
            "release_latch",
        ]
    );

    let mut db = Engine::default();
    db.ingest_external_file_cf("default", &[], None, true).unwrap();
    assert!(db.latches.is_empty());
    assert_eq!(
        *db.calls.borrow(),
        ["get_cf_handle", "new_options", "count", "ingest", "observe"]
    );
}

#[test]
fn files_go_into_the_column_family_that_was_looked_up() {
    let mut db = Engine::default();
    db.ingest_external_file_cf("default", &[], None, false).unwrap();
    assert_eq!(db.ingested, ["handle of default"]);
}

#[test]
fn flush_of_memtable_is_observed() {
    let mut db = Engine::default();
    db.ingest_external_file_cf("default", &[], None, false).unwrap();
    db.memtable.insert("k".to_string(), "v".to_string());
    db.ingest_external_file_cf("default", &[], None, false).unwrap();
    assert_eq!(
        db.observed,
        [("default".to_string(), false), ("default".to_string(), true)]
    );
}

#[test]
fn failing_lookup_ends_the_ingestion() {
    let mut db = Engine::default();
    let range = Range::new(b"key", b"kez");
    let result = db.ingest_external_file_cf("raft", &[], Some(range), false);
    assert_eq!(result, Err("cf raft not found".to_string()));
    assert_eq!(*db.calls.borrow(), ["acquire_latch", "get_cf_handle", "release_latch"]);
    assert!(db.counts.is_empty());
}

#[test]
fn failing_ingestion_is_counted_but_not_observed() {
    let mut db = Engine::default();
    let result = db.ingest_external_file_cf("default", &["sst1"], None, false);
    assert_eq!(result, Err("sst1 not found".to_string()));
    assert_eq!(db.counts.len(), 1);
    assert!(db.observed.is_empty());
}

#[test]
fn options_are_set_one_by_one() {
    let mut opts = RocksIngestExternalFileOptions::new(raw());
    assert_eq!(opts.raw(), raw());
    assert!(opts.get_write_global_seqno());
    opts.set_write_global_seqno(false);
    opts.move_files(true);
    opts.allow_write(false);
    assert!(!opts.get_write_global_seqno());
    let expected = RawIngestExternalFileOptions {
        move_files: true,
        write_global_seqno: false,
        allow_write: false,
        ..raw()
    };
    assert_eq!(opts.raw(), expected);
    opts.set_write_global_seqno(true);
    assert!(opts.get_write_global_seqno());
}
