use entelur::error::{DataError, EngineFailure, SqliteError};

#[test]
fn missing_row_is_not_found() {
    assert_eq!(DataError::from(SqliteError::QueryReturnedNoRows), DataError::NotFound);
}

#[test]
fn violated_constraint_is_conflict() {
    assert_eq!(
        DataError::from(SqliteError::SqliteFailure(EngineFailure::ConstraintViolation)),
        DataError::Conflict
    );
}

#[test]
fn other_engine_failures_are_engine_failures() {
    assert_eq!(
        DataError::from(SqliteError::SqliteFailure(EngineFailure::Busy)),
        DataError::IoOrEngineFailure
    );
    assert_eq!(
        DataError::from(SqliteError::SqliteFailure(EngineFailure::Other)),
        DataError::IoOrEngineFailure
    );
    assert_eq!(DataError::from(SqliteError::SqliteSingleThreadedMode), DataError::IoOrEngineFailure);
    assert_eq!(DataError::from(SqliteError::InvalidPath), DataError::IoOrEngineFailure);
}

#[test]
fn conversion_failures_are_serialization_failures() {
    let codes = [
        SqliteError::FromSqlConversionFailure,
        SqliteError::IntegralValueOutOfRange,
        SqliteError::Utf8Error,
        SqliteError::NulError,
        SqliteError::InvalidColumnType,
        SqliteError::ToSqlConversionFailure,
    ];
    for code in codes {
        assert_eq!(DataError::from(code), DataError::SerializationFailure);
    }
}

#[test]
fn malformed_statements_are_invalid_input() {
    let codes = [
        SqliteError::InvalidParameterName,
        SqliteError::InvalidParameterCount,
        SqliteError::InvalidColumnIndex,
        SqliteError::InvalidColumnName,
        SqliteError::InvalidQuery,
        SqliteError::MultipleStatement,
        SqliteError::ExecuteReturnedResults,
        SqliteError::StatementChangedRows,
    ];
    for code in codes {
        assert_eq!(DataError::from(code), DataError::InvalidInput);
    }
}

#[test]
fn unlisted_codes_are_unknown() {
    assert_eq!(DataError::from(SqliteError::SqlInputError), DataError::Unknown);
    assert_eq!(DataError::from(SqliteError::Other), DataError::Unknown);
}

#[test]
fn into_gives_the_same_kind_as_from() {
    let kind: DataError = SqliteError::QueryReturnedNoRows.into();
    assert_eq!(kind, DataError::NotFound);
}
