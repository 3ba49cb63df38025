use vstd::prelude::*;
use crate::error::AppError;
use crate::error::BackendError;
use crate::error::DbError;
use crate::error::STATUS_BAD_REQUEST;
use crate::error::STATUS_INTERNAL_SERVER_ERROR;
use crate::error::STATUS_NOT_FOUND;

verus! {

#[verifier::external_type_specification]
#[verifier::external_body]
pub struct ExDieselError(diesel::result::Error);

/// Relies on diesel::result::Error: a database error carries its kind and
/// its backend message (DatabaseErrorInformation::message), a missing row is
/// Error::NotFound, and every other kind is an unclassified query failure.
#[verifier::external_body]
fn classify_diesel_error(e: diesel::result::Error) -> (r: DbError)
    ensures
        r.is_query_failure(),
{
    match e {
        diesel::result::Error::DatabaseError(kind, info) => {
            let m = info.message().to_string();
            match kind {
                diesel::result::DatabaseErrorKind::UniqueViolation => DbError::UniqueConstraintError(m),
                diesel::result::DatabaseErrorKind::ForeignKeyViolation => DbError::ForeignKeyError(m),
                diesel::result::DatabaseErrorKind::NotNullViolation => DbError::NotNullError(m),
                _ => DbError::QueryError(m),
            }
        },
        diesel::result::Error::NotFound => DbError::BackendError(
            BackendError::DoesNotExist("Record not found".to_string()),
        ),
        other => DbError::QueryError(other.to_string()),
    }
}

/// Converts a failed backend query into the taxonomy. Whatever the raw
/// failure was, the caller receives a database-class failure whose status is
/// bad-request, not-found, or the internal condition — never anything else,
/// and never the raw backend error itself.
pub fn app_error_from_query(e: diesel::result::Error) -> (r: AppError)
    ensures
        r matches AppError::DbError(d) && d.is_query_failure(),
        r.status_spec() == STATUS_BAD_REQUEST || r.status_spec() == STATUS_NOT_FOUND
            || r.status_spec() == STATUS_INTERNAL_SERVER_ERROR,
{
    let d = classify_diesel_error(e);
    AppError::DbError(d)
}

} // verus!
