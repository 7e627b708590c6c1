use blog::auth::{
    check_login, check_signup, hash_password, login_errors, login_redirect, signup_error_redirect,
    verify_password,
};
use blog::error::AppError;
use blog::user::SignupUser;
use blog::validation::ValidationErrorsKind;

fn signup(u: &str, p: &str, c: &str) -> SignupUser {
    SignupUser { username: u.to_string(), password: p.to_string(), password_confirm: c.to_string() }
}

#[test]
fn valid_signup_passes() {
    assert!(signup("alice", "password1", "password1").validate().is_ok());
    assert!(check_signup(&signup("alice", "password1", "password1")).is_ok());
}

#[test]
fn username_length_bounds_are_inclusive() {
    assert!(signup("abcd", "password1", "password1").validate().is_ok());
    assert!(signup(&"a".repeat(32), "password1", "password1").validate().is_ok());
    assert!(signup("abc", "password1", "password1").validate().is_err());
    assert!(signup(&"a".repeat(33), "password1", "password1").validate().is_err());
}

#[test]
fn lengths_count_characters() {
    // four characters, eight bytes
    assert!(signup("éééé", "password1", "password1").validate().is_ok());
    // eight characters of two bytes each
    assert!(signup("alice", "éééééééé", "éééééééé").validate().is_ok());
    assert!(signup("alice", "ééééééé", "ééééééé").validate().is_err());
}

#[test]
fn validate_reports_fields_in_declaration_order() {
    let errs = signup("ab", "short", "other").validate().unwrap_err();
    let entries = errs.errors();
    assert_eq!(entries.len(), 2);
    assert_eq!(entries[0].0, "username");
    assert_eq!(entries[1].0, "password");
    match &entries[1].1 {
        ValidationErrorsKind::Field(v) => {
            assert_eq!(v.len(), 2);
            assert_eq!(v[0].code, "must_match");
            assert_eq!(v[0].message.as_deref(), Some("Passwords don't match"));
            assert_eq!(v[1].code, "length");
            assert_eq!(v[1].message.as_deref(), Some("Password length too short"));
            assert_eq!(v[1].location, "");
        }
        _ => panic!("expected field errors"),
    }
}

#[test]
fn check_signup_flattens_to_field_locations() {
    match check_signup(&signup("ab", "password1", "password2")) {
        Err(AppError::ValidationError(f)) => {
            let got: Vec<(&str, &str, Option<&str>)> = f
                .errors
                .iter()
                .map(|e| (e.location.as_str(), e.code.as_str(), e.message.as_deref()))
                .collect();
            assert_eq!(
                got,
                vec![
                    ("/username", "length", Some("Username length too long or short")),
                    ("/password", "must_match", Some("Passwords don't match")),
                ]
            );
            assert_eq!(f.errors[0].path, vec!["username".to_string()]);
            assert!(f.field("/password").is_some());
            assert_eq!(f.field("/username").unwrap().len(), 1);
        }
        _ => panic!("expected a validation error"),
    }
}

#[test]
fn check_signup_only_password_too_short() {
    match check_signup(&signup("alice", "short", "short")) {
        Err(AppError::ValidationError(f)) => {
            assert_eq!(f.errors.len(), 1);
            assert_eq!(f.errors[0].location, "/password");
            assert_eq!(f.errors[0].code, "length");
            assert!(f.field("/username").is_none());
        }
        _ => panic!("expected a validation error"),
    }
}

#[test]
fn hash_then_verify_succeeds() {
    let h = hash_password("hunter22".as_bytes()).unwrap();
    assert_ne!(h, "hunter22");
    assert!(h.starts_with("$argon2id$v=19$m=19456,t=2,p=1$"));
    assert!(verify_password(h.clone(), "hunter22".to_string()).is_ok());
}

#[test]
fn wrong_password_is_an_argon2_error() {
    let h = hash_password("hunter22".as_bytes()).unwrap();
    match verify_password(h, "hunter23".to_string()) {
        Err(AppError::Argon2Error(m)) => assert!(!m.is_empty()),
        _ => panic!("expected an argon2 error"),
    }
}

#[test]
fn malformed_hash_is_an_argon2_error() {
    assert!(matches!(
        verify_password("not a hash".to_string(), "x".to_string()),
        Err(AppError::Argon2Error(_))
    ));
}

#[test]
fn two_hashes_of_one_password_differ_but_both_verify() {
    let a = hash_password(b"same password").unwrap();
    let b = hash_password(b"same password").unwrap();
    assert_ne!(a, b);
    assert!(verify_password(a, "same password".to_string()).is_ok());
    assert!(verify_password(b, "same password".to_string()).is_ok());
}

#[test]
fn login_errors_hold_one_message() {
    let f = login_errors();
    assert_eq!(f.errors.len(), 1);
    assert_eq!(f.errors[0].message.as_deref(), Some("Username or password is incorrect."));
    assert_eq!(f.errors[0].code, "");
    assert_eq!(f.errors[0].location, "");
}

#[test]
fn login_outcomes() {
    let h = hash_password(b"correct horse").unwrap();
    assert!(check_login(Some(h.clone()), "correct horse".to_string()).is_ok());
    for r in [
        check_login(Some(h), "wrong horse".to_string()),
        check_login(None, "correct horse".to_string()),
    ] {
        match r {
            Err(AppError::ValidationError(f)) => {
                assert_eq!(f.errors.len(), 1);
                assert_eq!(f.errors[0].to_string(), "Username or password is incorrect. ()");
            }
            _ => panic!("expected the log-in validation error"),
        }
    }
}

#[test]
fn hashing_an_empty_password_succeeds() {
    let h = hash_password(b"").unwrap();
    assert!(verify_password(h, String::new()).is_ok());
}

#[test]
fn login_redirect_targets() {
    assert_eq!(login_redirect(true, true).as_deref(), Some("/"));
    assert_eq!(login_redirect(true, false).as_deref(), Some("/auth/login??"));
    assert_eq!(login_redirect(false, false), None);
}

#[test]
fn signup_error_redirect_only_when_asked() {
    assert_eq!(signup_error_redirect(Some(true)).as_deref(), Some("/auth/signup?"));
    assert_eq!(signup_error_redirect(Some(false)), None);
    assert_eq!(signup_error_redirect(None), None);
}
