use wipedicks::pathname::{components_exec, file_name, is_absolute, path_eq, path_starts_with};

fn comps(p: &str) -> Vec<String> {
    components_exec(p.as_bytes())
        .into_iter()
        .map(|c| String::from_utf8(c).unwrap())
        .collect()
}

#[test]
fn components_like_std() {
    for p in [
        "", "/", "//", "/a//b/./c/", "./a", "a/.", ".", "..", "../x", "a/../b", "/./x", "./",
        "a", "a/b/", "/etc/passwd", "x/./.",
    ] {
        let std_comps: Vec<String> = std::path::Path::new(p)
            .components()
            .map(|c| c.as_os_str().to_str().unwrap().to_string())
            .collect();
        assert_eq!(comps(p), std_comps, "{p:?}");
    }
}

#[test]
fn equality_and_prefix_by_components() {
    assert!(path_eq(b"/etc/", b"/etc"));
    assert!(path_eq(b"/a//b", b"/a/./b"));
    assert!(!path_eq(b"/a", b"a"));
    assert!(!path_eq(b"/a/..", b"/"));
    assert!(path_starts_with(b"/etc/passwd", b"/etc"));
    assert!(!path_starts_with(b"/etc-backup", b"/etc"));
    assert!(path_starts_with(b"/anything", b"/"));
    assert!(!path_starts_with(b"/etc", b"/etc/passwd"));
}

#[test]
fn file_names() {
    assert_eq!(file_name(b"/dev/sda1"), Some(b"sda1".to_vec()));
    assert_eq!(file_name(b"nvme0n1/"), Some(b"nvme0n1".to_vec()));
    assert_eq!(file_name(b"x/."), Some(b"x".to_vec()));
    assert_eq!(file_name(b"/"), None);
    assert_eq!(file_name(b".."), None);
    assert_eq!(file_name(b"."), None);
    assert_eq!(file_name(b""), None);
}

#[test]
fn absolute_paths() {
    assert!(is_absolute(b"/x"));
    assert!(!is_absolute(b"x"));
    assert!(!is_absolute(b""));
}
