use blog::validation::{FieldErrors, ValidationError, ValidationErrors, ValidationErrorsKind};

fn err(code: &str, message: Option<&str>) -> ValidationError {
    ValidationError {
        code: code.to_string(),
        message: message.map(|m| m.to_string()),
        location: String::new(),
        path: vec![],
    }
}

fn located(code: &str, location: &str) -> ValidationError {
    ValidationError {
        code: code.to_string(),
        message: None,
        location: location.to_string(),
        path: vec![],
    }
}

#[test]
fn simple_error_has_only_a_message() {
    let e = ValidationError::simple("Bad input".to_string());
    assert_eq!(e.code, "");
    assert_eq!(e.message, Some("Bad input".to_string()));
    assert_eq!(e.location, "");
    assert!(e.path.is_empty());
}

#[test]
fn display_with_message_shows_location() {
    let mut e = err("length", Some("Too short"));
    e.location = "/password".to_string();
    assert_eq!(e.to_string(), "Too short (/password)");
}

#[test]
fn display_without_message_shows_code() {
    let e = err("must_match", None);
    assert_eq!(e.to_string(), "Validation error: must_match");
}

#[test]
fn display_of_simple_error() {
    let e = ValidationError::simple("Username or password is incorrect.".to_string());
    assert_eq!(e.to_string(), "Username or password is incorrect. ()");
}

#[test]
fn duplicate_copies_every_field() {
    let e = ValidationError {
        code: "c".to_string(),
        message: Some("m".to_string()),
        location: "/a/b".to_string(),
        path: vec!["a".to_string(), "b".to_string()],
    };
    assert_eq!(e.duplicate(), e);
}

#[test]
fn field_selects_by_location_prefix_in_order() {
    let fe = FieldErrors {
        errors: vec![
            located("a", "/username"),
            located("b", "/password"),
            located("c", "/username/0"),
            located("d", "/usernames"),
        ],
    };
    let got = fe.field("/username").unwrap();
    let codes: Vec<&str> = got.iter().map(|e| e.code.as_str()).collect();
    assert_eq!(codes, vec!["a", "c", "d"]);
    let got = fe.field("/password").unwrap();
    assert_eq!(got.len(), 1);
    assert_eq!(got[0].code, "b");
}

#[test]
fn field_without_match_is_none() {
    let fe = FieldErrors { errors: vec![located("a", "/username")] };
    assert!(fe.field("/password").is_none());
    let empty = FieldErrors { errors: vec![] };
    assert!(empty.field("").is_none());
}

#[test]
fn field_with_empty_prefix_selects_all() {
    let fe = FieldErrors { errors: vec![located("a", "/x"), located("b", "")] };
    assert_eq!(fe.field("").unwrap().len(), 2);
}

#[test]
fn field_is_idempotent() {
    let fe = FieldErrors {
        errors: vec![located("a", "/username"), located("b", "/password"), located("c", "/user")],
    };
    let once = fe.field("/user").unwrap();
    let twice = FieldErrors { errors: once.clone() }.field("/user").unwrap();
    assert_eq!(once, twice);
}

#[test]
fn field_compares_characters_not_bytes_prefixes() {
    let fe = FieldErrors { errors: vec![located("a", "/é"), located("b", "/e")] };
    let got = fe.field("/é").unwrap();
    assert_eq!(got.len(), 1);
    assert_eq!(got[0].code, "a");
}

#[test]
fn insert_appends_new_keys_in_order() {
    let mut errs = ValidationErrors::new();
    assert!(errs.insert("b".to_string(), ValidationErrorsKind::Field(vec![err("x", None)])).is_none());
    assert!(errs.insert("a".to_string(), ValidationErrorsKind::Field(vec![])).is_none());
    let keys: Vec<&str> = errs.errors().iter().map(|(k, _)| k.as_str()).collect();
    assert_eq!(keys, vec!["b", "a"]);
}

#[test]
fn insert_existing_key_keeps_place_and_returns_old() {
    let mut errs = ValidationErrors::new();
    errs.insert("b".to_string(), ValidationErrorsKind::Field(vec![err("old", None)]));
    errs.insert("a".to_string(), ValidationErrorsKind::Field(vec![]));
    let old = errs.insert("b".to_string(), ValidationErrorsKind::Field(vec![err("new", None)]));
    match old {
        Some(ValidationErrorsKind::Field(v)) => assert_eq!(v[0].code, "old"),
        _ => panic!("expected the former field errors"),
    }
    assert_eq!(errs.errors().len(), 2);
    assert_eq!(errs.errors()[0].0, "b");
    match &errs.errors()[0].1 {
        ValidationErrorsKind::Field(v) => assert_eq!(v[0].code, "new"),
        _ => panic!("expected field errors"),
    }
}

#[test]
fn default_is_empty() {
    let errs = ValidationErrors::default();
    assert!(errs.errors().is_empty());
    assert!(errs.parse().errors.is_empty());
}

#[test]
fn parse_moves_field_errors_to_their_location() {
    let mut errs = ValidationErrors::new();
    errs.insert(
        "password".to_string(),
        ValidationErrorsKind::Field(vec![err("must_match", Some("m1")), err("length", Some("m2"))]),
    );
    let fe = errs.parse();
    assert_eq!(fe.errors.len(), 2);
    for (e, (code, msg)) in fe.errors.iter().zip([("must_match", "m1"), ("length", "m2")]) {
        assert_eq!(e.code, code);
        assert_eq!(e.message.as_deref(), Some(msg));
        assert_eq!(e.location, "/password");
        assert_eq!(e.path, vec!["password".to_string()]);
    }
}

#[test]
fn parse_nested_structures_and_lists() {
    let mut inner = ValidationErrors::new();
    inner.insert("street".to_string(), ValidationErrorsKind::Field(vec![err("required", None)]));
    let mut item0 = ValidationErrors::new();
    item0.insert("name".to_string(), ValidationErrorsKind::Field(vec![err("length", None)]));
    let item1 = ValidationErrors::new();
    let mut item2 = ValidationErrors::new();
    item2.insert("name".to_string(), ValidationErrorsKind::Field(vec![err("email", None)]));
    let mut items: Vec<ValidationErrors> = Vec::new();
    for _ in 0..7 {
        items.push(ValidationErrors::new());
    }
    let mut item10 = ValidationErrors::new();
    item10.insert("x".to_string(), ValidationErrorsKind::Field(vec![err("ten", None)]));

    let mut list = vec![item0, item1, item2];
    list.extend(items);
    list.push(item10);

    let mut top = ValidationErrors::new();
    top.insert("address".to_string(), ValidationErrorsKind::Struct(Box::new(inner)));
    top.insert("users".to_string(), ValidationErrorsKind::List(list));
    top.insert("top".to_string(), ValidationErrorsKind::Field(vec![err("t", Some("msg"))]));

    let fe = top.parse();
    let got: Vec<(String, String, Vec<String>)> = fe
        .errors
        .iter()
        .map(|e| (e.code.clone(), e.location.clone(), e.path.clone()))
        .collect();
    let s = |v: &[&str]| v.iter().map(|x| x.to_string()).collect::<Vec<_>>();
    assert_eq!(
        got,
        vec![
            ("required".to_string(), "/address/street".to_string(), s(&["address", "street"])),
            ("length".to_string(), "/users/0/name".to_string(), s(&["users", "0", "name"])),
            ("email".to_string(), "/users/2/name".to_string(), s(&["users", "2", "name"])),
            ("ten".to_string(), "/users/10/x".to_string(), s(&["users", "10", "x"])),
            ("t".to_string(), "/top".to_string(), s(&["top"])),
        ]
    );
    assert_eq!(fe.errors[4].message.as_deref(), Some("msg"));
}

#[test]
fn parse_then_field_finds_nested_errors() {
    let mut inner = ValidationErrors::new();
    inner.insert("street".to_string(), ValidationErrorsKind::Field(vec![err("required", None)]));
    let mut top = ValidationErrors::new();
    top.insert("address".to_string(), ValidationErrorsKind::Struct(Box::new(inner)));
    top.insert("name".to_string(), ValidationErrorsKind::Field(vec![err("length", None)]));
    let fe = top.parse();
    assert_eq!(fe.field("/address").unwrap()[0].code, "required");
    assert_eq!(fe.field("/name").unwrap()[0].code, "length");
    assert!(fe.field("/email").is_none());
}
