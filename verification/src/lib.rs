//! Content digests of database tables.
//!
//! Two tables hold the same data exactly when their digests agree, with
//! overwhelming probability. There are two digests: the streaming digest of
//! a table's serialized bytes, which depends on the order of the rows, and
//! the row digest, which does not. Around them stand what a run over a whole
//! database needs: the split of the tables among workers, throughput
//! reports, and the lines and totals at the end.

pub mod catalog;
pub mod database;
pub mod encoding;
pub mod format;
pub mod hashing;
pub mod partition;
pub mod progress;
pub mod row_digest;
pub mod sql;
pub mod stream_digest;
pub mod sums;
pub mod table_scan;
pub mod text;
