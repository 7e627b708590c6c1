use blog::error::AppError;
use blog::providers::DummyContext;
use blog::validation::FieldErrors;
use blog::views::{account_link, error_heading, response_status, theme};

#[test]
fn status_codes() {
    assert_eq!(AppError::NotFound.status_code(), 404);
    assert_eq!(AppError::SignUpError("x".to_string()).status_code(), 401);
    assert_eq!(AppError::ValidationError(FieldErrors::default()).status_code(), 500);
    assert_eq!(AppError::SqlxError("x".to_string()).status_code(), 500);
    assert_eq!(AppError::Argon2Error("x".to_string()).status_code(), 500);
    assert_eq!(AppError::OtherError("x".to_string()).status_code(), 500);
}

#[test]
fn error_texts() {
    assert_eq!(AppError::NotFound.to_string(), "Not Found");
    assert_eq!(AppError::SignUpError("x".to_string()).to_string(), "Failed to sign up");
    assert_eq!(
        AppError::ValidationError(FieldErrors::default()).to_string(),
        "Validation error occurred"
    );
    assert_eq!(AppError::SqlxError("x".to_string()).to_string(), "Sqlx error occurred");
    assert_eq!(AppError::Argon2Error("x".to_string()).to_string(), "Argon2 error occurred");
    assert_eq!(AppError::OtherError("x".to_string()).to_string(), "Error occurred");
}

#[test]
fn error_page_heading() {
    assert_eq!(error_heading(0), "Error");
    assert_eq!(error_heading(1), "Error");
    assert_eq!(error_heading(2), "Errors");
}

#[test]
fn error_page_status() {
    assert_eq!(response_status(Some(&AppError::NotFound)), 404);
    assert_eq!(response_status(None), 500);
}

#[test]
fn theme_follows_preference() {
    assert_eq!(theme(Some(true)), "dark");
    assert_eq!(theme(Some(false)), "");
    assert_eq!(theme(None), "");
}

#[test]
fn account_link_depends_on_sign_in() {
    assert_eq!(account_link(true), ("/auth/settings".to_string(), "Settings".to_string()));
    assert_eq!(account_link(false), ("/auth/login".to_string(), "Login".to_string()));
}

#[test]
fn dummy_context_defaults_to_zero() {
    let c = DummyContext::default();
    assert_eq!(c.clone().uuid, 0);
}
