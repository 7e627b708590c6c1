use blog::text::{location_from_path, starts_with, usize_to_decimal};

#[test]
fn decimal_rendering_matches_display() {
    for n in [0usize, 7, 9, 10, 42, 100, 1234567, usize::MAX] {
        assert_eq!(usize_to_decimal(n), n.to_string());
    }
}

#[test]
fn location_joins_segments_after_a_slash() {
    let p = vec!["users".to_string(), "0".to_string(), "name".to_string()];
    assert_eq!(location_from_path(&p), "/users/0/name");
    assert_eq!(location_from_path(&vec![]), "/");
    assert_eq!(location_from_path(&vec!["a".to_string()]), "/a");
}

#[test]
fn starts_with_agrees_with_std() {
    for (s, p) in [("/username", "/user"), ("/user", "/username"), ("abc", ""), ("", ""), ("héllo", "hé"), ("héllo", "he")] {
        assert_eq!(starts_with(s, p), s.starts_with(p));
    }
}
