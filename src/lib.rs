//! A format-neutral ingestion core for relational tables: a record model,
//! identifier validation, column resolution, INSERT statement construction,
//! a transactional loader driven as a state machine, and the readers that
//! turn CSV text, XML text and workbook sheets into records.

pub mod value;
pub mod error;
pub mod ident;
pub mod schema;
pub mod sql;
pub mod loader;
pub mod adapt;
pub mod xml;
pub mod sheet;
pub mod greeting;
