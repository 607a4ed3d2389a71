//! Paths read the way the standard library reads them.
use std::path::Path;
use wake::paths::{file_name, join, nth_ancestor, parent, path_ends_with, same_path};

const SAMPLES: &[&str] = &[
    "", "/", "//", ".", "./", "..", "/..", "a", "a/", "a/b", "a//b", "/a", "/a/", "/a/b", "//a//b//",
    "./a", "./a/.", "a/.", "a/./b", "/a/./b", "a/..", "/a/../b", "...", "a.b", ".a", "/.", "/./a", "a/b/c/.",
    "C:", r"C:\a", r"\\s\t\a", r"\\?\C:\a", r"a\b", "x/cli/db/db.sqlite", "cli/db", "/home/u/.zcode/cli", "é/ü", "a b/c d",
];

#[test]
fn parents_and_names_agree_with_the_standard_library() {
    for s in SAMPLES {
        let p = Path::new(s);
        assert_eq!(parent(s, false), p.parent().map(|q| q.to_string_lossy().to_string()), "{s}");
        assert_eq!(file_name(s, false), p.file_name().map(|q| q.to_string_lossy().to_string()), "{s}");
        for n in 0..4 {
            assert_eq!(
                nth_ancestor(s, n, false),
                p.ancestors().nth(n).map(|q| q.to_string_lossy().to_string()),
                "{s} {n}"
            );
        }
    }
}

#[test]
fn pairs_of_paths_agree_with_the_standard_library() {
    for a in SAMPLES {
        for b in SAMPLES {
            let (p, q) = (Path::new(a), Path::new(b));
            assert_eq!(join(a, b, false), p.join(q).to_string_lossy(), "{a} {b}");
            assert_eq!(path_ends_with(a, b, false), p.ends_with(q), "{a} {b}");
            assert_eq!(same_path(a, b, false), p == q, "{a} {b}");
        }
    }
}

#[test]
fn parents_on_windows_keep_the_prefix_and_the_root() {
    let up = |s: &str| parent(s, true);
    for (path, expected) in [
        (r"C:\a\b", Some(r"C:\a")),
        (r"C:\a/b\", Some(r"C:\a")),
        (r"C:\a\.\b", Some(r"C:\a")),
        (r"C:\a", Some(r"C:\")),
        ("C:/a", Some("C:/")),
        ("C:a", Some("C:")),
        (r"C:.\a", Some("C:.")),
        ("C:", None),
        (r"C:\", None),
        (r"\a", Some(r"\")),
        (r"a\b", Some("a")),
        ("a", Some("")),
        (r"\\srv\share\x", Some(r"\\srv\share\")),
        (r"\\srv\share", None),
        (r"//srv/share/x/y", Some("//srv/share/x")),
        (r"\\.\COM1\x", Some(r"\\.\COM1\")),
        (r"\\?\C:\a\b", Some(r"\\?\C:\a")),
        (r"\\?\C:\a/b", Some(r"\\?\C:\")),
        (r"\\?\UNC\srv\share\x", Some(r"\\?\UNC\srv\share\")),
        (r"\\?\pics\x", Some(r"\\?\pics\")),
        (r"\\?\C:\a\.", Some(r"\\?\C:\a")),
    ] {
        assert_eq!(up(path).as_deref(), expected, "{path}");
    }
    assert_eq!(nth_ancestor(r"C:\a\b\c", 2, true).as_deref(), Some(r"C:\a"));
    assert_eq!(nth_ancestor(r"C:\a", 2, true), None);
}

#[test]
fn paths_are_joined_as_windows_does() {
    for (base, rel, expected) in [
        (r"C:\a", "b", r"C:\a\b"),
        (r"C:\a\", "b", r"C:\a\b"),
        ("C:/a/", "b", "C:/a/b"),
        ("C:", "b", "C:b"),
        ("", "b", "b"),
        (r"C:\a", "cli/db", r"C:\a\cli/db"),
        (r"C:\a", r"\b", r"C:\b"),
        (r"\\srv\share\x", r"\b", r"\\srv\share\b"),
        (r"C:\a", "D:b", "D:b"),
        (r"C:\a", r"D:\b", r"D:\b"),
        (r"C:\a", r"\\srv\share", r"\\srv\share"),
        (r"\\srv\share", "b", r"\\srv\share\b"),
        (r"\\?\C:\a", "b/c", r"\\?\C:\a\b\c"),
        (r"\\?\C:\a\x", r"..\b\.\c", r"\\?\C:\a\b\c"),
        (r"\\?\C:\a", r"\b", r"\\?\C:\b"),
        (r"\\?\C:\", "..", r"\\?\C:\"),
        (r"\\?\C:", "b", r"\\?\C:\b"),
        (r"\\?\C:\a", "", r"\\?\C:\a\"),
    ] {
        assert_eq!(join(base, rel, true), expected, "{base} {rel}");
    }
}

#[test]
fn names_and_sameness_on_windows() {
    assert_eq!(file_name(r"C:\x\db.sqlite", true).as_deref(), Some("db.sqlite"));
    assert_eq!(file_name(r"C:\x\db.sqlite", false).as_deref(), Some(r"C:\x\db.sqlite"));
    assert_eq!(file_name("C:", true), None);
    assert_eq!(file_name(r"C:\..", true), None);
    for (a, b, expected) in [
        (r"c:\a", "C:/a", true),
        (r"C:\a\.\b\", r"C:\a\b", true),
        ("C:a", r"C:\a", false),
        (r"C:\a", r"D:\a", false),
        (r"\\srv\share\a", "//srv/share/a", true),
        (r"\\srv\share", r"\\srv\share\", true),
        (r"\\?\C:\a", r"C:\a", false),
        (r"C:\A", r"C:\a", false),
    ] {
        assert_eq!(same_path(a, b, true), expected, "{a} {b}");
    }
    assert!(path_ends_with(r"C:\h\cli\db", "cli/db", true));
    assert!(!path_ends_with(r"C:\h\cli\db", "cli/db", false));
    assert!(path_ends_with(r"C:\a", r"\a", true));
    assert!(!path_ends_with(r"C:a", r"\a", true));
    assert!(!path_ends_with(r"\\?\C:\h/cli", "cli", true));
}
