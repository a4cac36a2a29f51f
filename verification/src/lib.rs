//! Incremental conversion of bank transaction exports.
//!
//! Given a directory of historical export files, the library picks the newest
//! export, finds the most recently processed earlier export for the same
//! account, locates where the earlier export's latest transaction reappears in
//! the new one, and emits only the strictly newer transactions.

pub mod convert;
pub mod csvio;
pub mod datetime;
pub mod filename;
pub mod output;
pub mod reader;
pub mod records;
pub mod resolver;
pub mod selection;

pub use convert::{convert, Conversion};
pub use datetime::DateTime;
pub use reader::Schema;
pub use records::TransactionRecord;
pub use resolver::ResolveError;
pub use selection::ExportFile;
