use poly::paths::{
    extension_of, file_name_of, has_extension, join, parent, strip_prefix,
    trim_leading_slashes, with_file_name,
};
use std::path::Path;

#[test]
fn extension_matches_the_standard_library() {
    let cases = [
        "main.rs",
        "src/main.rs",
        "src.d/main",
        ".gitignore",
        "dir/.gitignore",
        "a.tar.gz",
        "foo.",
        "..",
        "a/..",
        "noext",
        "",
        "a/b.c/d.e",
        ".a.b",
    ];
    for path in cases {
        let theirs = Path::new(path).extension().map(|e| e.to_str().unwrap().to_string());
        assert_eq!(extension_of(path), theirs, "{path:?}");
    }
}

#[test]
fn has_extension_compares_the_whole_extension() {
    assert!(has_extension("src/lib.rs", "rs"));
    assert!(!has_extension("src/lib.rs", "ts"));
    assert!(!has_extension("src/lib.rs", "s"));
    assert!(!has_extension("src/rs", "rs"));
    assert!(!has_extension(".rs", "rs"));
}

#[test]
fn parent_is_what_stands_before_the_file_name() {
    assert_eq!(parent("/p/core/src/view.rs"), "/p/core/src/");
    assert_eq!(parent("src/view.rs"), "src/");
    assert_eq!(parent("/view.rs"), "/");
    assert_eq!(parent("view.rs"), ".");
    assert_eq!(parent(""), ".");
}

#[test]
fn join_matches_the_standard_library() {
    let cases = [
        ("/home/me", "src"),
        ("/home/me/", "src"),
        ("", "src"),
        ("/home/me", "/etc"),
        ("web", "wasm"),
        ("web", ""),
        (".", "a/b"),
    ];
    for (base, rel) in cases {
        let theirs = Path::new(base).join(rel);
        assert_eq!(join(base, rel), theirs.to_str().unwrap(), "{base:?} {rel:?}");
    }
}

#[test]
fn strip_prefix_matches_the_standard_library() {
    let cases = [
        ("/p/dist/app.css", "/p/dist"),
        ("/p/dist/app.css", "/p/dist/"),
        ("/p/dist//app.css", "/p/dist"),
        ("/p/distant/app.css", "/p/dist"),
        ("/p/dist", "/p/dist"),
        ("/p/other/app.css", "/p/dist"),
        ("a/b", ""),
        ("/p/dist/a/b.c", "/p"),
    ];
    for (path, base) in cases {
        let theirs = Path::new(path)
            .strip_prefix(base)
            .ok()
            .map(|p| p.to_str().unwrap().to_string());
        assert_eq!(strip_prefix(path, base), theirs, "{path:?} {base:?}");
    }
}

#[test]
fn file_names_are_what_follows_the_last_slash() {
    assert_eq!(file_name_of("a/b/c.txt"), "c.txt");
    assert_eq!(file_name_of("c.txt"), "c.txt");
    assert_eq!(file_name_of("a/"), "");
    assert_eq!(with_file_name("/tmp/x/counter-tailwind", "myproject"), "/tmp/x/myproject");
    assert_eq!(with_file_name("counter", "myproject"), "myproject");
}

#[test]
fn leading_slashes_are_trimmed() {
    assert_eq!(trim_leading_slashes("///a/b"), "a/b");
    assert_eq!(trim_leading_slashes("a/b"), "a/b");
    assert_eq!(trim_leading_slashes("/"), "");
}
