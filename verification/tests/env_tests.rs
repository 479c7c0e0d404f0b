use loco_pilot::environ::{
    get_shortened_dir, substitute_home, resolve_hostname, resolve_username, snapshot_now,
    display_directory,
};

#[test]
fn test_short_path_unchanged() {
    assert_eq!(get_shortened_dir("~/code"), "~/code");
    assert_eq!(get_shortened_dir(""), "");
    // exactly 15 characters
    assert_eq!(get_shortened_dir("/fifteen-chars1"), "/fifteen-chars1");
}

#[test]
fn test_few_segments_unchanged_regardless_of_length() {
    // one separator, two segments, far over 15 characters
    let p = "/averyveryverylongrootdirectoryname";
    assert_eq!(get_shortened_dir(p), p);
    // three segments
    let q = "/averylongdirname/anotherlongname";
    assert_eq!(get_shortened_dir(q), q);
}

#[test]
fn test_deep_path_abbreviated() {
    assert_eq!(
        get_shortened_dir("/home/user/projects/deep/nested/dir"),
        "/.../nested/dir"
    );
    assert_eq!(
        get_shortened_dir("~/projects/deep/nested/dir"),
        "~/.../nested/dir"
    );
}

#[test]
fn test_substitute_home() {
    assert_eq!(substitute_home("/home/u/code", "/home/u"), "~/code");
    assert_eq!(substitute_home("/home/u", "/home/u"), "~");
    assert_eq!(substitute_home("/srv/data", "/home/u"), "/srv/data");
    assert_eq!(substitute_home("/srv/data", ""), "/srv/data");
}

#[test]
fn test_display_directory_keeps_relative_paths() {
    // a home directory is absolute, so it never prefixes this path
    assert_eq!(display_directory("relative/path"), "relative/path");
}

#[test]
fn test_hostname_resolution_order() {
    assert_eq!(
        resolve_hostname(Some("a".to_string()), Some("b".to_string()), Some("c".to_string())),
        "a"
    );
    assert_eq!(resolve_hostname(None, Some("b".to_string()), Some("c".to_string())), "b");
    assert_eq!(resolve_hostname(None, None, Some("  myhost\n".to_string())), "myhost");
    assert_eq!(resolve_hostname(None, None, None), "localhost");
}

#[test]
fn test_username_fallback() {
    assert_eq!(resolve_username(Some("alice".to_string())), "alice");
    assert_eq!(resolve_username(None), "user");
}

#[test]
fn test_snapshot_time_is_clock_shaped() {
    let snap = snapshot_now("u".to_string(), "h".to_string(), "~".to_string());
    assert_eq!(snap.username, "u");
    assert_eq!(snap.hostname, "h");
    assert_eq!(snap.directory, "~");
    let t: Vec<char> = snap.time.chars().collect();
    assert_eq!(t.len(), 8);
    assert_eq!(t[2], ':');
    assert_eq!(t[5], ':');
    for i in [0, 1, 3, 4, 6, 7] {
        assert!(t[i].is_ascii_digit());
    }
}
