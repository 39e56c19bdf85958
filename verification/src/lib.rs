//! Import engine for broker-exported spreadsheet files.
//!
//! The engine verifies a file's integrity against a declared fingerprint,
//! discovers per-account sheets inside a workbook, locates the investment
//! transaction table in each sheet by a sentinel-row search, and parses each
//! data row into a typed, reconciled transaction record.  The caller reads
//! files and persists records; everything here works on plain values.

pub mod accounts;
pub mod cells;
pub mod engine;
pub mod errors;
pub mod integrity;
pub mod manifest;
pub mod records;
pub mod rows;
pub mod scanner;
pub mod store;
pub mod text;
