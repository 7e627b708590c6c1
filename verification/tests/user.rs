use blog::user::{pretty_timestamp, SqlPermissionTokens, SqlUser};

fn row() -> SqlUser {
    SqlUser {
        id: 7,
        username: "alice".to_string(),
        display_name: "Alice".to_string(),
        password: "$argon2id$...".to_string(),
        created_at: 86400,
        updated_at: 172800,
    }
}

#[test]
fn timestamps_are_written_as_date_and_time() {
    assert_eq!(pretty_timestamp(0), "1970-01-01 00:00:00");
    assert_eq!(pretty_timestamp(86400 + 3661), "1970-01-02 01:01:01");
}

#[test]
fn out_of_range_timestamp_is_the_epoch() {
    assert_eq!(pretty_timestamp(i64::MAX), "1970-01-01 00:00:00");
}

#[test]
fn into_user_copies_fields_and_uses_created_at_for_both_dates() {
    let u = row().into_user(None);
    assert_eq!(u.id, 7);
    assert_eq!(u.username, "alice");
    assert_eq!(u.display_name, "Alice");
    assert_eq!(u.password, "$argon2id$...");
    assert_eq!(u.created_at, 86400);
    assert_eq!(u.updated_at, 172800);
    assert_eq!(u.created_at_pretty, "1970-01-02 00:00:00");
    assert_eq!(u.updated_at_pretty, "1970-01-02 00:00:00");
    assert!(u.permissions.is_empty());
}

#[test]
fn into_user_keeps_each_token_once() {
    let perms = vec!["read", "write", "read", "admin", "write"]
        .into_iter()
        .map(|t| SqlPermissionTokens { token: t.to_string() })
        .collect();
    let u = row().into_user(Some(perms));
    let mut got = u.permissions.clone();
    got.sort();
    assert_eq!(got, vec!["admin".to_string(), "read".to_string(), "write".to_string()]);
}
