//! The closed set of failures a storage operation can report, and the total
//! mapping from the database driver's error codes into it.

use vstd::prelude::*;
use vstd::std_specs::convert::FromSpecImpl;

verus! {

/// What went wrong in a storage operation. Every operation of the engine
/// returns its value or exactly one of these kinds.
#[derive(Debug, Clone, Copy, PartialEq, Eq, Structural)]
pub enum DataError {
    /// A point lookup found no row.
    NotFound,
    /// The write would break a uniqueness or referential rule.
    Conflict,
    /// A value handed in is malformed, such as an unknown split code.
    InvalidInput,
    /// A value could not be converted to or from its stored form.
    SerializationFailure,
    /// The storage medium or the engine underneath failed.
    IoOrEngineFailure,
    /// A failure of no recognised kind.
    Unknown,
}

/// Why the database engine itself refused a statement.
#[derive(Debug, Clone, Copy, PartialEq, Eq, Structural)]
pub enum EngineFailure {
    /// A uniqueness, not-null or foreign-key constraint was violated.
    ConstraintViolation,
    /// The database file or one of its tables is locked by someone else.
    Busy,
    /// Any other engine failure: I/O, corruption, a full disk, misuse.
    Other,
}

/// The error codes of the database driver, as plain values.
#[derive(Debug, Clone, Copy, PartialEq, Eq, Structural)]
pub enum SqliteError {
    SqliteFailure(EngineFailure),
    SqliteSingleThreadedMode,
    FromSqlConversionFailure,
    IntegralValueOutOfRange,
    Utf8Error,
    NulError,
    InvalidParameterName,
    InvalidPath,
    ExecuteReturnedResults,
    QueryReturnedNoRows,
    InvalidColumnIndex,
    InvalidColumnName,
    InvalidColumnType,
    StatementChangedRows,
    ToSqlConversionFailure,
    InvalidQuery,
    MultipleStatement,
    InvalidParameterCount,
    SqlInputError,
    /// A code the driver added later, or one this engine never provokes.
    Other,
}

/// The failure kind that stands for a driver error code.
///
/// A missing row is `NotFound`; a violated constraint is `Conflict`; every
/// other engine failure, and a driver that cannot open or use the database,
/// is `IoOrEngineFailure`; a value that does not convert is
/// `SerializationFailure`; a statement or parameter list that is malformed is
/// `InvalidInput`; whatever is left is `Unknown`.
pub open spec fn classify(code: SqliteError) -> DataError {
    match code {
        SqliteError::QueryReturnedNoRows => DataError::NotFound,
        SqliteError::SqliteFailure(EngineFailure::ConstraintViolation) => DataError::Conflict,
        SqliteError::SqliteFailure(_) => DataError::IoOrEngineFailure,
        SqliteError::SqliteSingleThreadedMode => DataError::IoOrEngineFailure,
        SqliteError::InvalidPath => DataError::IoOrEngineFailure,
        SqliteError::FromSqlConversionFailure => DataError::SerializationFailure,
        SqliteError::IntegralValueOutOfRange => DataError::SerializationFailure,
        SqliteError::Utf8Error => DataError::SerializationFailure,
        SqliteError::NulError => DataError::SerializationFailure,
        SqliteError::InvalidColumnType => DataError::SerializationFailure,
        SqliteError::ToSqlConversionFailure => DataError::SerializationFailure,
        SqliteError::InvalidParameterName => DataError::InvalidInput,
        SqliteError::InvalidParameterCount => DataError::InvalidInput,
        SqliteError::InvalidColumnIndex => DataError::InvalidInput,
        SqliteError::InvalidColumnName => DataError::InvalidInput,
        SqliteError::InvalidQuery => DataError::InvalidInput,
        SqliteError::MultipleStatement => DataError::InvalidInput,
        SqliteError::ExecuteReturnedResults => DataError::InvalidInput,
        SqliteError::StatementChangedRows => DataError::InvalidInput,
        SqliteError::SqlInputError => DataError::Unknown,
        SqliteError::Other => DataError::Unknown,
    }
}

impl From<SqliteError> for DataError {
    fn from(value: SqliteError) -> (kind: DataError) {
        match value {
            SqliteError::QueryReturnedNoRows => DataError::NotFound,
            SqliteError::SqliteFailure(failure) => match failure {
                EngineFailure::ConstraintViolation => DataError::Conflict,
                EngineFailure::Busy => DataError::IoOrEngineFailure,
                EngineFailure::Other => DataError::IoOrEngineFailure,
            },
            SqliteError::SqliteSingleThreadedMode => DataError::IoOrEngineFailure,
            SqliteError::InvalidPath => DataError::IoOrEngineFailure,
            SqliteError::FromSqlConversionFailure => DataError::SerializationFailure,
            SqliteError::IntegralValueOutOfRange => DataError::SerializationFailure,
            SqliteError::Utf8Error => DataError::SerializationFailure,
            SqliteError::NulError => DataError::SerializationFailure,
            SqliteError::InvalidColumnType => DataError::SerializationFailure,
            SqliteError::ToSqlConversionFailure => DataError::SerializationFailure,
            SqliteError::InvalidParameterName => DataError::InvalidInput,
            SqliteError::InvalidParameterCount => DataError::InvalidInput,
            SqliteError::InvalidColumnIndex => DataError::InvalidInput,
            SqliteError::InvalidColumnName => DataError::InvalidInput,
            SqliteError::InvalidQuery => DataError::InvalidInput,
            SqliteError::MultipleStatement => DataError::InvalidInput,
            SqliteError::ExecuteReturnedResults => DataError::InvalidInput,
            SqliteError::StatementChangedRows => DataError::InvalidInput,
            SqliteError::SqlInputError => DataError::Unknown,
            SqliteError::Other => DataError::Unknown,
        }
    }
}

impl FromSpecImpl<SqliteError> for DataError {
    open spec fn obeys_from_spec() -> bool {
        true
    }

    open spec fn from_spec(value: SqliteError) -> DataError {
        classify(value)
    }
}

} // verus!
