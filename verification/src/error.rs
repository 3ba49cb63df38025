use vstd::prelude::*;
use vstd::string::StringExecFns;

verus! {

/// Failure kinds reported by the storage backend's own application logic.
#[derive(Clone, Debug)]
pub enum BackendError {
    DoesNotExist(String),
    Deleted,
    UpdateParametersEmpty,
    UserPasswordDoesNotMatch,
    UserPasswordVerificationFailed(String),
    PermissionDenied(String),
}

/// Failure kinds arising from the database layer: constraint violations,
/// migration failures, pool failures, and unclassified query failures.
#[derive(Clone, Debug)]
pub enum DbError {
    BackendError(BackendError),
    ForeignKeyError(String),
    UniqueConstraintError(String),
    NotNullError(String),
    MigrationError(String),
    PoolError(String),
    QueryError(String),
}

/// The closed taxonomy of application failures. Every failure source is
/// converted into exactly one of these kinds before it crosses the core
/// boundary; the transport status of each kind is total and deterministic.
#[derive(Clone, Debug)]
pub enum AppError {
    DbError(DbError),
    InternalServerError(String),
    NotFound(String),
    BadRequest(String),
    TemplatingError(String),
    IdentityError(String),
    SessionError(String),
    CookieError(String),
    FileError(String),
    Unauthorized(String),
    ParseError(String),
    DeviceTransmitRequestDenied(String),
    ApDatabaseError(String),
    OidcError(String),
    DnsPacketManipulationError(String),
    EnvVarError(String),
}

pub const STATUS_BAD_REQUEST: u16 = 400;

pub const STATUS_UNAUTHORIZED: u16 = 401;

pub const STATUS_FORBIDDEN: u16 = 403;

pub const STATUS_NOT_FOUND: u16 = 404;

pub const STATUS_INTERNAL_SERVER_ERROR: u16 = 500;

impl BackendError {
    /// The transport status of a backend failure kind.
    pub open spec fn status_spec(self) -> u16 {
        match self {
            BackendError::DoesNotExist(_) => STATUS_NOT_FOUND,
            BackendError::Deleted => STATUS_BAD_REQUEST,
            BackendError::UpdateParametersEmpty => STATUS_BAD_REQUEST,
            BackendError::UserPasswordDoesNotMatch => STATUS_UNAUTHORIZED,
            BackendError::UserPasswordVerificationFailed(_) => STATUS_BAD_REQUEST,
            BackendError::PermissionDenied(_) => STATUS_FORBIDDEN,
        }
    }

    /// The human-readable description carried by a backend failure.
    pub open spec fn message_spec(self) -> Seq<char> {
        match self {
            BackendError::DoesNotExist(m) => "Does not exist: "@ + m@,
            BackendError::Deleted => "Already deleted"@,
            BackendError::UpdateParametersEmpty => "Update parameters empty"@,
            BackendError::UserPasswordDoesNotMatch => "User password does not match"@,
            BackendError::UserPasswordVerificationFailed(m) => "Password verification failed: "@
                + m@,
            BackendError::PermissionDenied(m) => "Permission denied: "@ + m@,
        }
    }

    /// Maps a backend failure to its transport status.
    pub fn status_code(&self) -> (s: u16)
        ensures
            s == self.status_spec(),
    {
        match self {
            BackendError::DoesNotExist(_) => STATUS_NOT_FOUND,
            BackendError::Deleted => STATUS_BAD_REQUEST,
            BackendError::UpdateParametersEmpty => STATUS_BAD_REQUEST,
            BackendError::UserPasswordDoesNotMatch => STATUS_UNAUTHORIZED,
            BackendError::UserPasswordVerificationFailed(_) => STATUS_BAD_REQUEST,
            BackendError::PermissionDenied(_) => STATUS_FORBIDDEN,
        }
    }

    /// Renders the carried description.
    pub fn message(&self) -> (m: String)
        ensures
            m@ == self.message_spec(),
    {
        match self {
            BackendError::DoesNotExist(m) => "Does not exist: ".to_owned().concat(m.as_str()),
            BackendError::Deleted => "Already deleted".to_owned(),
            BackendError::UpdateParametersEmpty => "Update parameters empty".to_owned(),
            BackendError::UserPasswordDoesNotMatch => "User password does not match".to_owned(),
            BackendError::UserPasswordVerificationFailed(m) => "Password verification failed: "
                .to_owned()
                .concat(m.as_str()),
            BackendError::PermissionDenied(m) => "Permission denied: ".to_owned().concat(
                m.as_str(),
            ),
        }
    }
}

impl DbError {
    /// The transport status of a database failure kind: constraint violations
    /// are client-correctable, everything else is an internal condition.
    pub open spec fn status_spec(self) -> u16 {
        match self {
            DbError::BackendError(e) => e.status_spec(),
            DbError::ForeignKeyError(_) => STATUS_BAD_REQUEST,
            DbError::UniqueConstraintError(_) => STATUS_BAD_REQUEST,
            DbError::NotNullError(_) => STATUS_BAD_REQUEST,
            DbError::MigrationError(_) => STATUS_INTERNAL_SERVER_ERROR,
            DbError::PoolError(_) => STATUS_INTERNAL_SERVER_ERROR,
            DbError::QueryError(_) => STATUS_INTERNAL_SERVER_ERROR,
        }
    }

    /// The human-readable description carried by a database failure.
    pub open spec fn message_spec(self) -> Seq<char> {
        match self {
            DbError::BackendError(e) => e.message_spec(),
            DbError::ForeignKeyError(m) => "Foreign key violation: "@ + m@,
            DbError::UniqueConstraintError(m) => "Unique constraint violation: "@ + m@,
            DbError::NotNullError(m) => "Not-null violation: "@ + m@,
            DbError::MigrationError(m) => "Migration error: "@ + m@,
            DbError::PoolError(m) => "Connection pool error: "@ + m@,
            DbError::QueryError(m) => "Database error: "@ + m@,
        }
    }

    /// Holds of exactly the kinds that a failed repository query can produce.
    pub open spec fn is_query_failure(self) -> bool {
        match self {
            DbError::BackendError(e) => e matches BackendError::DoesNotExist(_),
            DbError::ForeignKeyError(_) => true,
            DbError::UniqueConstraintError(_) => true,
            DbError::NotNullError(_) => true,
            DbError::QueryError(_) => true,
            _ => false,
        }
    }

    /// Maps a database failure to its transport status.
    pub fn status_code(&self) -> (s: u16)
        ensures
            s == self.status_spec(),
    {
        match self {
            DbError::BackendError(e) => e.status_code(),
            DbError::ForeignKeyError(_) => STATUS_BAD_REQUEST,
            DbError::UniqueConstraintError(_) => STATUS_BAD_REQUEST,
            DbError::NotNullError(_) => STATUS_BAD_REQUEST,
            DbError::MigrationError(_) => STATUS_INTERNAL_SERVER_ERROR,
            DbError::PoolError(_) => STATUS_INTERNAL_SERVER_ERROR,
            DbError::QueryError(_) => STATUS_INTERNAL_SERVER_ERROR,
        }
    }

    /// Renders the carried description.
    pub fn message(&self) -> (m: String)
        ensures
            m@ == self.message_spec(),
    {
        match self {
            DbError::BackendError(e) => e.message(),
            DbError::ForeignKeyError(m) => "Foreign key violation: ".to_owned().concat(m.as_str()),
            DbError::UniqueConstraintError(m) => "Unique constraint violation: ".to_owned().concat(
                m.as_str(),
            ),
            DbError::NotNullError(m) => "Not-null violation: ".to_owned().concat(m.as_str()),
            DbError::MigrationError(m) => "Migration error: ".to_owned().concat(m.as_str()),
            DbError::PoolError(m) => "Connection pool error: ".to_owned().concat(m.as_str()),
            DbError::QueryError(m) => "Database error: ".to_owned().concat(m.as_str()),
        }
    }
}

impl AppError {
    /// The transport status of every failure kind: a pure, total, exhaustive
    /// mapping over the closed taxonomy.
    pub open spec fn status_spec(self) -> u16 {
        match self {
            AppError::BadRequest(_) => STATUS_BAD_REQUEST,
            AppError::ParseError(_) => STATUS_BAD_REQUEST,
            AppError::DeviceTransmitRequestDenied(_) => STATUS_FORBIDDEN,
            AppError::DbError(e) => e.status_spec(),
            AppError::TemplatingError(_) => STATUS_INTERNAL_SERVER_ERROR,
            AppError::InternalServerError(_) => STATUS_INTERNAL_SERVER_ERROR,
            AppError::IdentityError(_) => STATUS_INTERNAL_SERVER_ERROR,
            AppError::SessionError(_) => STATUS_INTERNAL_SERVER_ERROR,
            AppError::CookieError(_) => STATUS_INTERNAL_SERVER_ERROR,
            AppError::FileError(_) => STATUS_INTERNAL_SERVER_ERROR,
            AppError::ApDatabaseError(_) => STATUS_INTERNAL_SERVER_ERROR,
            AppError::DnsPacketManipulationError(_) => STATUS_INTERNAL_SERVER_ERROR,
            AppError::EnvVarError(_) => STATUS_INTERNAL_SERVER_ERROR,
            AppError::OidcError(_) => STATUS_INTERNAL_SERVER_ERROR,
            AppError::NotFound(_) => STATUS_NOT_FOUND,
            AppError::Unauthorized(_) => STATUS_UNAUTHORIZED,
        }
    }

    /// An internal-class failure: reported to the caller only generically.
    pub open spec fn is_internal(self) -> bool {
        self.status_spec() == STATUS_INTERNAL_SERVER_ERROR
    }

    /// The full human-readable description, kind prefix included; this is
    /// what internal logs record.
    pub open spec fn message_spec(self) -> Seq<char> {
        match self {
            AppError::DbError(e) => "DbError -> "@ + e.message_spec(),
            AppError::InternalServerError(m) => "Internal server error: "@ + m@,
            AppError::NotFound(m) => "Not found: "@ + m@,
            AppError::BadRequest(m) => "Bad request: "@ + m@,
            AppError::TemplatingError(m) => "Templating error: "@ + m@,
            AppError::IdentityError(m) => "Identity error: "@ + m@,
            AppError::SessionError(m) => "Session error: "@ + m@,
            AppError::CookieError(m) => "Cookie error: "@ + m@,
            AppError::FileError(m) => "File error: "@ + m@,
            AppError::Unauthorized(m) => "Unauthorized: "@ + m@,
            AppError::ParseError(m) => "Parse error: "@ + m@,
            AppError::DeviceTransmitRequestDenied(m) => "Device discovery request denied: "@ + m@,
            AppError::ApDatabaseError(m) => "AP database error: "@ + m@,
            AppError::OidcError(m) => "OIDC error: "@ + m@,
            AppError::DnsPacketManipulationError(m) => "DNS packet manipulation error: "@ + m@,
            AppError::EnvVarError(m) => "Could not load the env var: "@ + m@,
        }
    }

    /// What a caller is shown: the description for client-correctable kinds,
    /// and only a generic text for internal-class kinds, so that no internal
    /// diagnostic leaks across the boundary.
    pub open spec fn public_description_spec(self) -> Seq<char> {
        if self.is_internal() {
            "Internal server error"@
        } else {
            self.message_spec()
        }
    }

    /// Maps a failure kind to its transport status.
    pub fn status_code(&self) -> (s: u16)
        ensures
            s == self.status_spec(),
    {
        match self {
            AppError::BadRequest(_) => STATUS_BAD_REQUEST,
            AppError::ParseError(_) => STATUS_BAD_REQUEST,
            AppError::DeviceTransmitRequestDenied(_) => STATUS_FORBIDDEN,
            AppError::DbError(e) => e.status_code(),
            AppError::TemplatingError(_) => STATUS_INTERNAL_SERVER_ERROR,
            AppError::InternalServerError(_) => STATUS_INTERNAL_SERVER_ERROR,
            AppError::IdentityError(_) => STATUS_INTERNAL_SERVER_ERROR,
            AppError::SessionError(_) => STATUS_INTERNAL_SERVER_ERROR,
            AppError::CookieError(_) => STATUS_INTERNAL_SERVER_ERROR,
            AppError::FileError(_) => STATUS_INTERNAL_SERVER_ERROR,
            AppError::ApDatabaseError(_) => STATUS_INTERNAL_SERVER_ERROR,
            AppError::DnsPacketManipulationError(_) => STATUS_INTERNAL_SERVER_ERROR,
            AppError::EnvVarError(_) => STATUS_INTERNAL_SERVER_ERROR,
            AppError::OidcError(_) => STATUS_INTERNAL_SERVER_ERROR,
            AppError::NotFound(_) => STATUS_NOT_FOUND,
            AppError::Unauthorized(_) => STATUS_UNAUTHORIZED,
        }
    }

    /// Renders the full description, for internal logs.
    pub fn message(&self) -> (m: String)
        ensures
            m@ == self.message_spec(),
    {
        match self {
            AppError::DbError(e) => "DbError -> ".to_owned().concat(e.message().as_str()),
            AppError::InternalServerError(m) => "Internal server error: ".to_owned().concat(
                m.as_str(),
            ),
            AppError::NotFound(m) => "Not found: ".to_owned().concat(m.as_str()),
            AppError::BadRequest(m) => "Bad request: ".to_owned().concat(m.as_str()),
            AppError::TemplatingError(m) => "Templating error: ".to_owned().concat(m.as_str()),
            AppError::IdentityError(m) => "Identity error: ".to_owned().concat(m.as_str()),
            AppError::SessionError(m) => "Session error: ".to_owned().concat(m.as_str()),
            AppError::CookieError(m) => "Cookie error: ".to_owned().concat(m.as_str()),
            AppError::FileError(m) => "File error: ".to_owned().concat(m.as_str()),
            AppError::Unauthorized(m) => "Unauthorized: ".to_owned().concat(m.as_str()),
            AppError::ParseError(m) => "Parse error: ".to_owned().concat(m.as_str()),
            AppError::DeviceTransmitRequestDenied(m) => "Device discovery request denied: "
                .to_owned()
                .concat(m.as_str()),
            AppError::ApDatabaseError(m) => "AP database error: ".to_owned().concat(m.as_str()),
            AppError::OidcError(m) => "OIDC error: ".to_owned().concat(m.as_str()),
            AppError::DnsPacketManipulationError(m) => "DNS packet manipulation error: "
                .to_owned()
                .concat(m.as_str()),
            AppError::EnvVarError(m) => "Could not load the env var: ".to_owned().concat(
                m.as_str(),
            ),
        }
    }

    /// Renders what the caller may see: internal-class kinds yield only the
    /// generic internal text, every other kind yields its description.
    pub fn public_description(&self) -> (m: String)
        ensures
            m@ == self.public_description_spec(),
    {
        let status = self.status_code();
        if status == STATUS_INTERNAL_SERVER_ERROR {
            "Internal server error".to_owned()
        } else {
            self.message()
        }
    }
}

impl From<DbError> for AppError {
    /// Wraps a database failure, preserving its kind.
    fn from(value: DbError) -> (r: Self) {
        AppError::DbError(value)
    }
}

impl vstd::std_specs::convert::FromSpecImpl<DbError> for AppError {
    open spec fn obeys_from_spec() -> bool {
        true
    }

    open spec fn from_spec(v: DbError) -> AppError {
        AppError::DbError(v)
    }
}

} // verus!
