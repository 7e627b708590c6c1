//! Users: the sign-up form and its validation rules, and the user record
//! built from stored rows.
use vstd::prelude::*;

use crate::text::strings_view;
use crate::validation::{
    entry_keys, errors_view, has_field_entries, ValidationError, ValidationErrorView,
    ValidationErrors, ValidationErrorsKind,
};

verus! {

/// The fields of the sign-up form.
#[derive(Debug, Clone)]
pub struct SignupUser {
    pub username: String,
    pub password: String,
    pub password_confirm: String,
}

/// `validator::validate_length` applied to a string, which counts its
/// characters: with `equal` set the count must equal it, otherwise it must be
/// at least `min` and at most `max` where these are set.
#[verifier::external_body]
fn validate_length(value: &String, min: Option<u64>, max: Option<u64>, equal: Option<u64>) -> (r:
    bool)
    ensures
        r == match equal {
            Some(e) => value@.len() == e,
            None => (min matches Some(m) ==> value@.len() >= m) && (max matches Some(m)
                ==> value@.len() <= m),
        },
{
    validator::validate_length(value, min, max, equal)
}

/// `validator::validate_must_match` applied to two strings: whether they
/// are equal.
#[verifier::external_body]
fn validate_must_match(a: &String, b: &String) -> (r: bool)
    ensures
        r == (a@ == b@),
{
    validator::validate_must_match(a, b)
}

/// The username has between 4 and 32 characters.
pub open spec fn username_ok(username: Seq<char>) -> bool {
    4 <= username.len() <= 32
}

/// The password has at least 8 characters.
pub open spec fn password_long_enough(password: Seq<char>) -> bool {
    password.len() >= 8
}

/// A failed check as the validator reports it: a code and a message, no
/// location yet.
pub open spec fn check_failure(code: Seq<char>, message: Seq<char>) -> ValidationErrorView {
    ValidationErrorView {
        code,
        message: Some(message),
        location: Seq::empty(),
        path: Seq::empty(),
    }
}

/// The failed checks of the username.
pub open spec fn username_failures(u: SignupUser) -> Seq<ValidationErrorView> {
    if username_ok(u.username@) {
        Seq::empty()
    } else {
        seq![check_failure("length"@, "Username length too long or short"@)]
    }
}

/// The failed checks of the password, in the order the rules are declared:
/// the confirmation must match, then the length.
pub open spec fn password_failures(u: SignupUser) -> Seq<ValidationErrorView> {
    let mismatch: Seq<ValidationErrorView> = if u.password@ == u.password_confirm@ {
        Seq::empty()
    } else {
        seq![check_failure("must_match"@, "Passwords don't match"@)]
    };
    if password_long_enough(u.password@) {
        mismatch
    } else {
        mismatch.push(check_failure("length"@, "Password length too short"@))
    }
}

/// The fields with failed checks, with those checks, in the order the fields
/// are declared.
pub open spec fn signup_failures(u: SignupUser) -> Seq<(Seq<char>, Seq<ValidationErrorView>)> {
    let by_user: Seq<(Seq<char>, Seq<ValidationErrorView>)> = if username_failures(u).len() == 0 {
        Seq::empty()
    } else {
        seq![("username"@, username_failures(u))]
    };
    if password_failures(u).len() == 0 {
        by_user
    } else {
        by_user.push(("password"@, password_failures(u)))
    }
}

/// The rules of the sign-up form: the form passes exactly when the username
/// has 4 to 32 characters, the password equals its confirmation and has at
/// least 8 characters (with no upper bound). The username fails one check
/// exactly when its length is out of range; the password fails one check for
/// differing from its confirmation and one for having fewer than 8
/// characters.
pub proof fn lemma_signup_rules(u: SignupUser)
    ensures
        signup_failures(u).len() == 0 <==> (4 <= u.username@.len() <= 32 && u.password@
            == u.password_confirm@ && u.password@.len() >= 8),
        username_failures(u).len() == (if 4 <= u.username@.len() <= 32 {
            0int
        } else {
            1int
        }),
        password_failures(u).len() == (if u.password@ == u.password_confirm@ {
            0int
        } else {
            1int
        }) + (if u.password@.len() >= 8 {
            0int
        } else {
            1int
        }),
{
}

/// A failed check with a code and a message.
fn failure(code: &str, message: &str) -> (r: ValidationError)
    ensures
        r@ == check_failure(code@, message@),
{
    let r = ValidationError {
        code: String::from_str(code),
        message: Some(String::from_str(message)),
        location: String::new(),
        path: Vec::new(),
    };
    assert(r@.path =~= Seq::<Seq<char>>::empty());
    r
}

impl SignupUser {
    /// Checks the form: the username must have 4 to 32 characters, the
    /// password must equal its confirmation and have at least 8 characters.
    /// On failure, the errors of each field with a failed check, in the
    /// order the fields and rules are declared.
    pub fn validate(&self) -> (r: Result<(), ValidationErrors>)
        ensures
            r is Ok <==> signup_failures(*self).len() == 0,
            r is Ok <==> (4 <= self.username@.len() <= 32 && self.password@
                == self.password_confirm@ && self.password@.len() >= 8),
            r matches Err(errs) ==> has_field_entries(errs, signup_failures(*self)),
    {
        proof {
            lemma_signup_rules(*self);
        }
        let mut errors = ValidationErrors::new();
        let mut username_errs: Vec<ValidationError> = Vec::new();
        if !validate_length(&self.username, Some(4), Some(32), None) {
            username_errs.push(failure("length", "Username length too long or short"));
        }
        let mut password_errs: Vec<ValidationError> = Vec::new();
        if !validate_must_match(&self.password, &self.password_confirm) {
            password_errs.push(failure("must_match", "Passwords don't match"));
        }
        if !validate_length(&self.password, Some(8), None, None) {
            password_errs.push(failure("length", "Password length too short"));
        }
        proof {
            assert(errors_view(username_errs@) =~= username_failures(*self));
            assert(errors_view(password_errs@) =~= password_failures(*self));
        }
        let has_username = username_errs.len() > 0;
        let has_password = password_errs.len() > 0;
        proof {
            assert(!entry_keys(errors.entries()).contains("username"@));
        }
        if has_username {
            errors.insert(String::from_str("username"), ValidationErrorsKind::Field(username_errs));
        }
        proof {
            assert(errors.entries().len() <= 1);
            assert(forall|i: int|
                0 <= i < errors.entries().len() ==> errors.entries()[i].0@ == "username"@);
        }
        if has_password {
            let ghost before = errors.entries();
            proof {
                reveal_strlit("username");
                reveal_strlit("password");
                assert("username"@[0] != "password"@[0]);
                assert(!entry_keys(before).contains("password"@)) by {
                    if entry_keys(before).contains("password"@) {
                        let i = choose|i: int|
                            0 <= i < entry_keys(before).len()
                                && entry_keys(before)[i] == "password"@;
                        assert(entry_keys(before)[i] == before[i].0@);
                        assert(before[i].0@ == "username"@);
                    }
                }
            }
            errors.insert(String::from_str("password"), ValidationErrorsKind::Field(password_errs));
        }
        if has_username || has_password {
            Err(errors)
        } else {
            Ok(())
        }
    }
}

/// A user as the application sees it. `permissions` holds each permission
/// token once.
#[derive(Debug, Clone, PartialEq, Eq)]
pub struct User {
    pub id: i64,
    pub username: String,
    pub display_name: String,
    pub password: String,
    pub created_at: i64,
    pub created_at_pretty: String,
    pub updated_at: i64,
    pub updated_at_pretty: String,
    pub permissions: Vec<String>,
}

/// A row of the `users` table.
#[derive(Debug, Clone)]
pub struct SqlUser {
    pub id: i64,
    pub username: String,
    pub display_name: String,
    pub password: String,
    pub created_at: i64,
    pub updated_at: i64,
}

/// A row of the `user_permissions` table.
#[derive(Debug, Clone)]
pub struct SqlPermissionTokens {
    pub token: String,
}

/// The text chrono writes for the date and time `secs` seconds after the
/// Unix epoch (UTC), or `None` when that instant is out of its range.
pub uninterp spec fn chrono_timestamp_text(secs: i64) -> Option<Seq<char>>;

/// `chrono::NaiveDateTime::from_timestamp_opt(secs, 0)` written out with its
/// `Display`, or `None` when out of range. Claimed: the result named by
/// [`chrono_timestamp_text`], and the epoch itself is in range.
#[verifier::external_body]
#[allow(deprecated)]
fn timestamp_text(secs: i64) -> (r: Option<String>)
    ensures
        match r {
            Some(t) => chrono_timestamp_text(secs) == Some(t@),
            None => chrono_timestamp_text(secs) is None,
        },
        secs == 0 ==> r is Some,
{
    match chrono::NaiveDateTime::from_timestamp_opt(secs, 0) {
        Some(dt) => Some(dt.to_string()),
        None => None,
    }
}

/// How a timestamp is shown: the date and time it names, or, out of range,
/// the Unix epoch (chrono's default date and time).
pub open spec fn timestamp_pretty(secs: i64) -> Seq<char> {
    match chrono_timestamp_text(secs) {
        Some(t) => t,
        None => chrono_timestamp_text(0).unwrap(),
    }
}

/// Writes a timestamp out as a date and time; one out of range is shown as
/// the Unix epoch.
pub fn pretty_timestamp(secs: i64) -> (r: String)
    ensures
        r@ == timestamp_pretty(secs),
{
    match timestamp_text(secs) {
        Some(t) => t,
        None => match timestamp_text(0) {
            Some(t) => t,
            None => String::new(),
        },
    }
}

/// The tokens of permission rows, as character sequences.
pub open spec fn token_views(rows: Seq<SqlPermissionTokens>) -> Seq<Seq<char>> {
    rows.map_values(|r: SqlPermissionTokens| r.token@)
}

impl SqlUser {
    /// The user of this row, with the given permission rows (none when
    /// absent): each distinct token is kept once. Both pretty timestamps are
    /// written from `created_at`.
    pub fn into_user(self, sql_user_perms: Option<Vec<SqlPermissionTokens>>) -> (r: User)
        ensures
            r.id == self.id,
            r.username@ == self.username@,
            r.display_name@ == self.display_name@,
            r.password@ == self.password@,
            r.created_at == self.created_at,
            r.created_at_pretty@ == timestamp_pretty(self.created_at),
            r.updated_at == self.updated_at,
            r.updated_at_pretty@ == timestamp_pretty(self.created_at),
            strings_view(r.permissions@).no_duplicates(),
            strings_view(r.permissions@).to_set() == match sql_user_perms {
                Some(rows) => token_views(rows@).to_set(),
                None => Set::<Seq<char>>::empty(),
            },
    {
        let created_at_pretty = pretty_timestamp(self.created_at);
        let updated_at_pretty = pretty_timestamp(self.created_at);
        let permissions = match sql_user_perms {
            Some(rows) => distinct_tokens(&rows),
            None => {
                let v: Vec<String> = Vec::new();
                assert(strings_view(v@) =~= Seq::<Seq<char>>::empty());
                assert(strings_view(v@).to_set() =~= Set::<Seq<char>>::empty());
                v
            },
        };
        User {
            id: self.id,
            username: self.username,
            display_name: self.display_name,
            password: self.password,
            created_at: self.created_at,
            created_at_pretty,
            updated_at: self.updated_at,
            updated_at_pretty,
            permissions,
        }
    }
}

/// Whether `v` holds a string equal to `s`.
fn contains_string(v: &Vec<String>, s: &String) -> (r: bool)
    ensures
        r == strings_view(v@).contains(s@),
{
    let mut i: usize = 0;
    while i < v.len()
        invariant
            i <= v.len(),
            forall|j: int| 0 <= j < i ==> v@[j]@ != s@,
        decreases v.len() - i,
    {
        if v[i] == *s {
            assert(strings_view(v@)[i as int] == s@);
            return true;
        }
        i = i + 1;
    }
    assert forall|j: int| 0 <= j < strings_view(v@).len() implies strings_view(v@)[j] != s@ by {
        assert(strings_view(v@)[j] == v@[j]@);
    }
    false
}

/// The distinct tokens of the rows, each once, in order of first occurrence.
fn distinct_tokens(rows: &Vec<SqlPermissionTokens>) -> (r: Vec<String>)
    ensures
        strings_view(r@).no_duplicates(),
        strings_view(r@).to_set() == token_views(rows@).to_set(),
{
    let mut r: Vec<String> = Vec::new();
    let mut i: usize = 0;
    proof {
        assert(strings_view(r@) =~= Seq::<Seq<char>>::empty());
        assert(token_views(rows@).take(0) =~= Seq::<Seq<char>>::empty());
    }
    while i < rows.len()
        invariant
            i <= rows.len(),
            strings_view(r@).no_duplicates(),
            strings_view(r@).to_set() == token_views(rows@).take(i as int).to_set(),
        decreases rows.len() - i,
    {
        let token = &rows[i].token;
        let ghost before = strings_view(r@);
        proof {
            assert(token_views(rows@).take(i + 1) =~= token_views(rows@).take(i as int).push(
                token@,
            ));
            before.lemma_push_to_set_commute(token@);
            token_views(rows@).take(i as int).lemma_push_to_set_commute(token@);
        }
        if !contains_string(&r, token) {
            r.push(token.clone());
            proof {
                assert(strings_view(r@) =~= before.push(token@));
            }
        }
        proof {
            if before.contains(token@) {
                assert(before.to_set().insert(token@) =~= before.to_set());
            }
            assert(strings_view(r@).to_set() =~= token_views(rows@).take(i + 1).to_set());
        }
        i = i + 1;
    }
    assert(token_views(rows@).take(rows.len() as int) =~= token_views(rows@));
    r
}

} // verus!
