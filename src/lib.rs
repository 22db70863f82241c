//! A smart-home domain model: houses that hold rooms that hold devices.
//!
//! `sql` is the relational data-access layer (three tables joined at read
//! time, with server-assigned identifiers); `home_part` is the in-memory
//! home model with its textual device reports.
pub mod errors;
pub mod home_part;
pub mod sql;
pub mod table;
