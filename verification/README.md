# secondary_locks

The decisions behind two operations of a transactional key-value storage, verified with Verus:

- the check of an async commit transaction's secondary locks (`src/check_secondary_locks.rs`);
- the ingestion of external files into the storage engine (`src/import.rs`).

Both operations alternate between calls into the storage and decisions. Each is a machine that
names the next call and is resumed with its reply, so that the decisions can be proved without
the storage.

| Path | What it holds |
| --- | --- |
| `src/types.rs` | what a check reads, and the storage's types that it only carries |
| `src/secondary_lock.rs` | judging a transaction on one key |
| `src/protocol.rs` | the calls of a check, their replies, and how one leads to the next |
| `src/check_secondary_locks.rs` | the check itself |
| `src/write_result.rs` | what a finished check hands out |
| `src/dialogue.rs` | whole checks, by what the storage holds |
| `src/laws.rs` | what holds of every check |
| `src/import.rs`, `src/import_laws.rs` | the ingestion, and what holds of every one |
| `tests/` | checks and ingestions against a storage in memory |
| `app/` | the loops that make the calls |
