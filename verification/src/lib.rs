//! Decides, for the exported functions of a shared library, whether each
//! signature can cross a serialization boundary.
//!
//! The crate joins two views of a library's symbols: the functions that its
//! debug information describes, keyed by source name, and its linkage symbol
//! table, keyed by exported name. The join goes through the symbols'
//! addresses, so that aliases, weak symbols and default-versioned symbols
//! find the function they stand for.

pub mod correlate;
pub mod model;
pub mod nm;
pub mod report;
pub mod serializable;
pub mod table;
pub mod text;
