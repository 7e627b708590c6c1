//! The decisions the pages make about what to show: the heading of the
//! error page and its status, the colour theme, and the log-in link of the
//! navigation bar.
use vstd::prelude::*;

use crate::error::{status_of, AppError};

verus! {

/// The heading of the error page: `"Errors"` for more than one error,
/// otherwise `"Error"`.
pub open spec fn error_heading_text(count: nat) -> Seq<char> {
    if count > 1 {
        "Errors"@
    } else {
        "Error"@
    }
}

/// The heading of the error page for `count` errors.
pub fn error_heading(count: usize) -> (r: String)
    ensures
        r@ == error_heading_text(count as nat),
{
    if count > 1 {
        String::from_str("Errors")
    } else {
        String::from_str("Error")
    }
}

/// The status the error page is answered with: that of the first error when
/// it is an [`AppError`], otherwise 500.
pub fn response_status(first: Option<&AppError>) -> (r: u16)
    ensures
        r == match first {
            Some(e) => status_of(*e),
            None => 500,
        },
{
    match first {
        Some(e) => e.status_code(),
        None => 500,
    }
}

/// The `data-theme` of the page: `"dark"` when the reader prefers a dark
/// scheme, empty otherwise or when the preference is unknown.
pub fn theme(prefers_dark: Option<bool>) -> (r: String)
    ensures
        r@ == (if prefers_dark == Some(true) {
            "dark"@
        } else {
            Seq::<char>::empty()
        }),
{
    match prefers_dark {
        Some(true) => String::from_str("dark"),
        _ => String::new(),
    }
}

/// The account link of the navigation bar: the settings for a signed-in
/// user, the log-in page otherwise, as target and label.
pub fn account_link(signed_in: bool) -> (r: (String, String))
    ensures
        signed_in ==> r.0@ == "/auth/settings"@ && r.1@ == "Settings"@,
        !signed_in ==> r.0@ == "/auth/login"@ && r.1@ == "Login"@,
{
    if signed_in {
        (String::from_str("/auth/settings"), String::from_str("Settings"))
    } else {
        (String::from_str("/auth/login"), String::from_str("Login"))
    }
}

} // verus!
