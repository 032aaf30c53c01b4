use vstd::prelude::*;

verus! {

/// Error taxonomy surfaced by the inventory core.
///
/// `Validation` carries a human-readable message; `Database` carries detail
/// meant for the host's log, never for the client.
#[derive(Debug)]
pub enum ApiError {
    Validation(String),
    NotFound,
    Conflict,
    Database(String),
}

impl ApiError {
    /// HTTP status code that the host must answer with for this error kind.
    pub open spec fn spec_status_code(&self) -> u16 {
        match self {
            ApiError::Validation(_) => 400,
            ApiError::NotFound => 404,
            ApiError::Conflict => 409,
            ApiError::Database(_) => 500,
        }
    }

    pub fn status_code(&self) -> (c: u16)
        ensures
            c == self.spec_status_code(),
    {
        match self {
            ApiError::Validation(_) => 400,
            ApiError::NotFound => 404,
            ApiError::Conflict => 409,
            ApiError::Database(_) => 500,
        }
    }

    /// The message serialized to the client. Database detail stays opaque:
    /// the client always sees a fixed string for store failures.
    pub fn client_message(&self) -> (m: String)
        ensures
            self matches ApiError::Validation(s) ==> m@ == s@,
            self is NotFound ==> m@ == "Resource not found"@,
            self is Conflict ==> m@ == "Conflict"@,
            self is Database ==> m@ == "Internal server error"@,
    {
        match self {
            ApiError::Validation(s) => s.clone(),
            ApiError::NotFound => "Resource not found".to_owned(),
            ApiError::Conflict => "Conflict".to_owned(),
            ApiError::Database(_) => "Internal server error".to_owned(),
        }
    }
}

} // verus!
