use vstd::prelude::*;

verus! {

/// The kinds of failure of an ingestion.
#[derive(Debug, Clone, Copy, PartialEq, Eq, Structural)]
pub enum IngestError {
    /// A record holds a column that the target does not have.
    SchemaMismatch,
    /// No records and no known column list to take the columns from.
    EmptyBatch,
    /// A table or column name fails the identifier allow-list.
    InvalidIdentifier,
    /// The gateway could not begin a transaction.
    TransactionStartFailed,
    /// The gateway failed to execute the statement of one row.
    RowExecutionFailed,
    /// The gateway failed to commit; the table's state is unknown.
    CommitFailed,
    /// The gateway failed to roll back; the connection must be discarded.
    RollbackFailed,
    /// The source could not decode its next record.
    DecodeError,
    /// The ingestion was cancelled between rows.
    Cancelled,
}

} // verus!
