//! The decisions behind two operations of a transactional key-value storage: the check of an
//! async commit transaction's secondary locks, and the ingestion of external files.

pub mod check_secondary_locks;
pub mod dialogue;
pub mod import;
pub mod import_laws;
pub mod laws;
pub mod protocol;
pub mod secondary_lock;
pub mod types;
pub mod write_result;
