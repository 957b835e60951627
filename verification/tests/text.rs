use wipedicks::text::{bytes_eq, find, nth_field_bounds, nth_field_exec, ws_len_at};

#[test]
fn fields_split_on_unicode_whitespace() {
    let s = "  a\tbb \u{a0}ccc\u{3000}d ".as_bytes();
    let std_fields: Vec<&str> = std::str::from_utf8(s).unwrap().split_whitespace().collect();
    for (n, f) in std_fields.iter().enumerate() {
        assert_eq!(nth_field_exec(s, n), Some(f.as_bytes().to_vec()));
    }
    assert_eq!(nth_field_exec(s, std_fields.len()), None);
    assert_eq!(nth_field_bounds(b"ab cd", 1), Some((3, 5)));
    assert_eq!(nth_field_bounds(b"   ", 0), None);
}

#[test]
fn whitespace_lengths() {
    assert_eq!(ws_len_at(b" ", 0), 1);
    assert_eq!(ws_len_at("\u{85}".as_bytes(), 0), 2);
    assert_eq!(ws_len_at("\u{2029}".as_bytes(), 0), 3);
    assert_eq!(ws_len_at("\u{200b}".as_bytes(), 0), 0);
    assert_eq!(ws_len_at(b"x", 0), 0);
    assert_eq!(ws_len_at(b"x", 5), 0);
}

#[test]
fn substring_search() {
    assert_eq!(find(b"a - b - c", b" - ", 0), Some(1));
    assert_eq!(find(b"a - b - c", b" - ", 2), Some(5));
    assert_eq!(find(b"a - b", b" - ", 2), None);
    assert_eq!(find(b"abc", b"", 1), Some(1));
    assert!(bytes_eq(b"abc", b"abc"));
    assert!(!bytes_eq(b"abc", b"abd"));
    assert!(!bytes_eq(b"abc", b"ab"));
}
