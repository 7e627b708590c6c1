//! Passwords and the decisions of sign-up and log-in: Argon2 hashing and
//! verification, the checks of a sign-up form, and the answer to a log-in
//! attempt.
use vstd::prelude::*;
use vstd::utf8::encode_utf8;
use argon2::{PasswordHasher, PasswordVerifier};

use crate::error::AppError;
use crate::text::{has_prefix, join, location_of};
use crate::user::{
    password_failures, password_long_enough, signup_failures, username_failures, username_ok,
    SignupUser,
};
use crate::validation::{
    errors_at, flat_field_errors, lemma_parse_fields, relocate_all, FieldErrors, ValidationError,
    ValidationErrorView,
};

verus! {

/// What verifying `password` against the PHC string `hash` gives: success,
/// or the text of the error (the string does not parse, or the password does
/// not match).
pub uninterp spec fn argon2_verify_outcome(hash: Seq<char>, password: Seq<u8>) -> Result<
    (),
    Seq<char>,
>;

/// `Argon2::default().hash_password(password, salt)` with a salt from
/// `SaltString::generate` and the operating system's random number
/// generator, as its PHC string, or the text of its error. Claimed: a hash
/// it returns verifies the same password (as the argon2 crate's
/// documentation shows), that it is an Argon2id version 19 PHC string with
/// the default parameters (m=19456, t=2, p=1), and that hashing fails exactly for a password longer than
/// `0xFFFF_FFFF` bytes (the only input check `Argon2::verify_inputs` makes
/// that a generated 16-byte salt and the default parameters can fail).
#[verifier::external_body]
fn argon2_hash_with_random_salt(password: &[u8]) -> (r: Result<String, String>)
    ensures
        r matches Ok(h) ==> argon2_verify_outcome(h@, password@) is Ok,
        r matches Ok(h) ==> has_prefix(h@, "$argon2id$v=19$m=19456,t=2,p=1$"@),
        r is Ok <==> password@.len() <= 0xFFFF_FFFF,
{
    let salt = argon2::password_hash::SaltString::generate(&mut rand_core::OsRng);
    match argon2::Argon2::default().hash_password(password, &salt) {
        Ok(h) => Ok(h.to_string()),
        Err(e) => Err(e.to_string()),
    }
}

/// `PasswordHash::new(hash)` followed by
/// `Argon2::default().verify_password(password, ..)`, with the text of the
/// error of either. Claimed: the outcome is the one named by
/// [`argon2_verify_outcome`] for these arguments.
#[verifier::external_body]
fn argon2_verify(hash: &str, password: &[u8]) -> (r: Result<(), String>)
    ensures
        match r {
            Ok(_) => argon2_verify_outcome(hash@, password@) is Ok,
            Err(m) => argon2_verify_outcome(hash@, password@) == Err::<(), Seq<char>>(m@),
        },
{
    match argon2::PasswordHash::new(hash) {
        Ok(parsed) => match argon2::Argon2::default().verify_password(password, &parsed) {
            Ok(()) => Ok(()),
            Err(e) => Err(e.to_string()),
        },
        Err(e) => Err(e.to_string()),
    }
}

/// Hashes a password with Argon2 and a fresh random salt, as a PHC string.
/// It succeeds for every password of at most `0xFFFF_FFFF` bytes, with an
/// Argon2id string of the default parameters that verifies the same
/// password; a longer password gives an Argon2 error.
pub fn hash_password(password: &[u8]) -> (r: Result<String, AppError>)
    ensures
        r is Ok <==> password@.len() <= 0xFFFF_FFFF,
        r matches Ok(h) ==> argon2_verify_outcome(h@, password@) is Ok,
        r matches Ok(h) ==> has_prefix(h@, "$argon2id$v=19$m=19456,t=2,p=1$"@),
        r matches Err(e) ==> e is Argon2Error,
{
    match argon2_hash_with_random_salt(password) {
        Ok(h) => Ok(h),
        Err(m) => Err(AppError::Argon2Error(m)),
    }
}

/// Verifies `password2` against the stored PHC string `password`: `Ok` when
/// it matches, otherwise an Argon2 error with the text of the failure.
pub fn verify_password(password: String, password2: String) -> (r: Result<(), AppError>)
    ensures
        match argon2_verify_outcome(password@, encode_utf8(password2@)) {
            Ok(_) => r is Ok,
            Err(m) => r matches Err(AppError::Argon2Error(t)) && t@ == m,
        },
{
    match argon2_verify(password.as_str(), password2.as_str().as_bytes()) {
        Ok(()) => Ok(()),
        Err(m) => Err(AppError::Argon2Error(m)),
    }
}

/// Checks a sign-up form: `Ok` when it passes every rule, otherwise a
/// validation error listing each failed check at its field's location
/// (`"/username"`, `"/password"`).
pub fn check_signup(user: &SignupUser) -> (r: Result<(), AppError>)
    ensures
        r is Ok <==> signup_failures(*user).len() == 0,
        r is Ok <==> (4 <= user.username@.len() <= 32 && user.password@ == user.password_confirm@
            && user.password@.len() >= 8),
        r matches Err(e) ==> e matches AppError::ValidationError(f) && f@ == flat_field_errors(
            signup_failures(*user),
        ),
{
    proof {
        crate::user::lemma_signup_rules(*user);
    }
    match user.validate() {
        Ok(()) => Ok(()),
        Err(errs) => {
            let errors = errs.parse();
            proof {
                lemma_parse_fields(errs, signup_failures(*user));
            }
            Err(AppError::ValidationError(errors))
        },
    }
}

/// The error shown after a failed log-in attempt.
pub open spec fn login_failure() -> ValidationErrorView {
    ValidationErrorView {
        code: Seq::empty(),
        message: Some("Username or password is incorrect."@),
        location: Seq::empty(),
        path: Seq::empty(),
    }
}

/// The errors a failed log-in attempt answers with: one message, the same
/// whether the user is unknown or the password is wrong.
pub fn login_errors() -> (r: FieldErrors)
    ensures
        r@ == seq![login_failure()],
{
    let mut errors: Vec<ValidationError> = Vec::new();
    errors.push(ValidationError::simple(String::from_str("Username or password is incorrect.")));
    let r = FieldErrors { errors };
    assert(r@ =~= seq![login_failure()]);
    r
}

/// The answer to a log-in attempt, given the stored password hash of the
/// user (`None` when no such user exists): `Ok` when the password verifies,
/// otherwise the log-in validation error.
pub fn check_login(stored_hash: Option<String>, password: String) -> (r: Result<(), AppError>)
    ensures
        r is Ok <==> (stored_hash matches Some(h) && argon2_verify_outcome(
            h@,
            encode_utf8(password@),
        ) is Ok),
        r matches Err(e) ==> e matches AppError::ValidationError(f) && f@ == seq![login_failure()],
{
    match stored_hash {
        None => Err(AppError::ValidationError(login_errors())),
        Some(h) => match verify_password(h, password) {
            Ok(()) => Ok(()),
            Err(_) => Err(AppError::ValidationError(login_errors())),
        },
    }
}


proof fn lemma_errors_at_concat(a: Seq<ValidationErrorView>, b: Seq<ValidationErrorView>, prefix: Seq<char>)
    ensures
        errors_at(a + b, prefix) == errors_at(a, prefix) + errors_at(b, prefix),
    decreases b.len(),
{
    if b.len() == 0 {
        assert(a + b =~= a);
        assert(errors_at(a, prefix) + errors_at(b, prefix) =~= errors_at(a, prefix));
    } else {
        lemma_errors_at_concat(a, b.drop_last(), prefix);
        assert((a + b).drop_last() =~= a + b.drop_last());
        assert((a + b).last() == b.last());
        if has_prefix(b.last().location, prefix) {
            assert(errors_at(a, prefix) + errors_at(b.drop_last(), prefix).push(b.last())
                =~= (errors_at(a, prefix) + errors_at(b.drop_last(), prefix)).push(b.last()));
        }
    }
}

/// Errors all located at `location` are all selected by a prefix of it,
/// and none by a prefix that is not.
proof fn lemma_errors_at_uniform(errs: Seq<ValidationErrorView>, location: Seq<char>, prefix: Seq<char>)
    requires
        forall|i: int| 0 <= i < errs.len() ==> (#[trigger] errs[i]).location == location,
    ensures
        has_prefix(location, prefix) ==> errors_at(errs, prefix) == errs,
        !has_prefix(location, prefix) ==> errors_at(errs, prefix).len() == 0,
    decreases errs.len(),
{
    if errs.len() > 0 {
        lemma_errors_at_uniform(errs.drop_last(), location, prefix);
        assert(errs.drop_last().push(errs.last()) =~= errs);
    }
}

/// The sign-up page shows errors under a field exactly when that field
/// breaks a rule: under `"/username"` when the username does not have 4 to
/// 32 characters, under `"/password"` when the password differs from its
/// confirmation or has fewer than 8 characters.
pub proof fn lemma_signup_errors_by_field(u: SignupUser)
    ensures
        errors_at(flat_field_errors(signup_failures(u)), "/username"@).len() > 0 <==> !username_ok(
            u.username@,
        ),
        errors_at(flat_field_errors(signup_failures(u)), "/password"@).len() > 0 <==> (u.password@
            != u.password_confirm@ || !password_long_enough(u.password@)),
{
    reveal_strlit("/username");
    reveal_strlit("/password");
    reveal_strlit("/");
    reveal_strlit("username");
    reveal_strlit("password");
    let uf = username_failures(u);
    let pf = password_failures(u);
    let ur = relocate_all(uf, seq!["username"@]);
    let pr = relocate_all(pf, seq!["password"@]);
    let uloc = location_of(seq!["username"@]);
    let ploc = location_of(seq!["password"@]);
    assert(join(seq!["username"@], "/"@) == "username"@);
    assert(join(seq!["password"@], "/"@) == "password"@);
    assert(uloc =~= "/username"@);
    assert(ploc =~= "/password"@);
    assert(has_prefix(uloc, "/username"@)) by {
        assert(uloc.subrange(0, 9) =~= "/username"@);
    }
    assert(has_prefix(ploc, "/password"@)) by {
        assert(ploc.subrange(0, 9) =~= "/password"@);
    }
    assert(!has_prefix(uloc, "/password"@)) by {
        assert(uloc.subrange(0, 9)[1] != "/password"@[1]);
    }
    assert(!has_prefix(ploc, "/username"@)) by {
        assert(ploc.subrange(0, 9)[1] != "/username"@[1]);
    }
    lemma_errors_at_uniform(ur, uloc, "/username"@);
    lemma_errors_at_uniform(ur, uloc, "/password"@);
    lemma_errors_at_uniform(pr, ploc, "/username"@);
    lemma_errors_at_uniform(pr, ploc, "/password"@);
    let e: Seq<(Seq<char>, Seq<ValidationErrorView>)> = Seq::empty();
    let fields = signup_failures(u);
    let by_user: Seq<(Seq<char>, Seq<ValidationErrorView>)> = if uf.len() == 0 {
        e
    } else {
        seq![("username"@, uf)]
    };
    let flat_user = if uf.len() == 0 { Seq::<ValidationErrorView>::empty() } else { ur };
    assert(flat_field_errors(e) =~= Seq::<ValidationErrorView>::empty());
    assert(flat_field_errors(by_user) == flat_user) by {
        if uf.len() > 0 {
            assert(by_user.last() == ("username"@, uf));
            assert(by_user.drop_last() =~= e);
            assert(Seq::<ValidationErrorView>::empty() + ur =~= ur);
        }
    }
    if pf.len() > 0 {
        assert(fields.drop_last() =~= by_user);
        lemma_errors_at_concat(flat_user, pr, "/username"@);
        lemma_errors_at_concat(flat_user, pr, "/password"@);
    }
    assert(uf.len() > 0 <==> !username_ok(u.username@));
    assert(pf.len() > 0 <==> (u.password@ != u.password_confirm@ || !password_long_enough(
        u.password@,
    )));
}


/// Where a log-in attempt sends the browser: home after signing in, back to
/// the log-in form (whose query then carries the errors) after a wrong
/// password for a known user, and nowhere for an unknown user.
pub fn login_redirect(user_found: bool, signed_in: bool) -> (r: Option<String>)
    ensures
        signed_in ==> (r matches Some(t) && t@ == "/"@),
        !signed_in && user_found ==> (r matches Some(t) && t@ == "/auth/login??"@),
        !signed_in && !user_found ==> r is None,
{
    if signed_in {
        Some(String::from_str("/"))
    } else if user_found {
        Some(String::from_str("/auth/login??"))
    } else {
        None
    }
}

/// Where a rejected sign-up form sends the browser: back to the sign-up form
/// (whose query then carries the errors) when the form asked for it, and
/// nowhere otherwise.
pub fn signup_error_redirect(redirect: Option<bool>) -> (r: Option<String>)
    ensures
        redirect == Some(true) ==> (r matches Some(t) && t@ == "/auth/signup?"@),
        redirect != Some(true) ==> r is None,
{
    match redirect {
        Some(true) => Some(String::from_str("/auth/signup?")),
        _ => None,
    }
}

} // verus!
