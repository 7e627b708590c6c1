//! The errors the server functions report, with the HTTP status and the
//! text each is shown as.
use vstd::prelude::*;

use crate::validation::FieldErrors;

verus! {

/// An error of a server function.
#[derive(Debug, Clone)]
pub enum AppError {
    NotFound,
    SignUpError(String),
    ValidationError(FieldErrors),
    SqlxError(String),
    Argon2Error(String),
    OtherError(String),
}

/// The HTTP status code of an error: 404 for a missing page, 401 for a
/// failed sign-up, 500 for everything else.
pub open spec fn status_of(e: AppError) -> u16 {
    match e {
        AppError::NotFound => 404,
        AppError::SignUpError(_) => 401,
        _ => 500,
    }
}

/// The text an error is displayed as.
pub open spec fn app_error_text(e: AppError) -> Seq<char> {
    match e {
        AppError::NotFound => "Not Found"@,
        AppError::SignUpError(_) => "Failed to sign up"@,
        AppError::ValidationError(_) => "Validation error occurred"@,
        AppError::SqlxError(_) => "Sqlx error occurred"@,
        AppError::Argon2Error(_) => "Argon2 error occurred"@,
        AppError::OtherError(_) => "Error occurred"@,
    }
}

impl AppError {
    /// The number of the HTTP status the error is answered with.
    pub fn status_code(&self) -> (r: u16)
        ensures
            r == status_of(*self),
            *self is NotFound ==> r == 404,
            *self is SignUpError ==> r == 401,
            (*self is ValidationError || *self is SqlxError || *self is Argon2Error
                || *self is OtherError) ==> r == 500,
    {
        match self {
            AppError::NotFound => 404,
            AppError::SignUpError(_) => 401,
            AppError::ValidationError(_) => 500,
            AppError::SqlxError(_) => 500,
            AppError::Argon2Error(_) => 500,
            AppError::OtherError(_) => 500,
        }
    }

    /// The text the error is displayed as.
    pub fn to_string(&self) -> (r: String)
        ensures
            r@ == app_error_text(*self),
    {
        let text = match self {
            AppError::NotFound => "Not Found",
            AppError::SignUpError(_) => "Failed to sign up",
            AppError::ValidationError(_) => "Validation error occurred",
            AppError::SqlxError(_) => "Sqlx error occurred",
            AppError::Argon2Error(_) => "Argon2 error occurred",
            AppError::OtherError(_) => "Error occurred",
        };
        String::from_str(text)
    }
}

/// The status of an error depends on its variant alone, never on what it
/// carries: 404 for a missing page, 401 for a failed sign-up, and 500 for a
/// validation, database, Argon2 or other error.
pub proof fn lemma_status_by_variant(e: AppError)
    ensures
        e is NotFound ==> status_of(e) == 404,
        e is SignUpError ==> status_of(e) == 401,
        (e is ValidationError || e is SqlxError || e is Argon2Error || e is OtherError)
            ==> status_of(e) == 500,
{
}

} // verus!
