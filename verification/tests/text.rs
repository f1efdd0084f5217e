use shoka::fspath::{
    components, file_name, is_rooted, join, parent, same_path, stem, text_from, with_extension,
};
use shoka::text::{
    contains, decimal_of, eq_ignore_ascii_case, is_white_space, join as join_texts,
    signed_decimal_of, split_on, trim, trim_newlines,
};
use std::path::Path;

#[test]
fn white_space_is_that_of_std() {
    for n in 0..=0x10ffffu32 {
        if let Some(c) = char::from_u32(n) {
            assert_eq!(is_white_space(c), c.is_whitespace(), "{n:x}");
        }
    }
}

#[test]
fn texts_are_trimmed_like_std_does() {
    for s in ["", " ", " a ", "\u{3000}a b\n", "a", "\t\r\n"] {
        assert_eq!(trim(s), s.trim());
        assert_eq!(trim_newlines(s), s.trim_end_matches('\n'));
    }
}

#[test]
fn texts_are_split_and_joined_like_std_does() {
    for s in ["", "/", "a/b", "/a//b/"] {
        let parts = split_on(s, '/');
        assert_eq!(parts, s.split('/').collect::<Vec<_>>());
        assert_eq!(join_texts(&parts, "/"), s);
    }
    assert_eq!(decimal_of(0), "0");
    assert_eq!(decimal_of(u64::MAX), u64::MAX.to_string());
    assert_eq!(signed_decimal_of(-17), "-17");
    assert_eq!(signed_decimal_of(i32::MIN), i32::MIN.to_string());
    assert!(contains("abcd", "bc") && contains("abcd", "") && !contains("abcd", "bd"));
    assert!(eq_ignore_ascii_case("AbC", "aBc") && !eq_ignore_ascii_case("Ä", "ä"));
}

#[test]
fn paths_are_those_of_std() {
    let all = [
        "", "/", ".", "a", "/a", "a/b/", "/a//b", "./a", "/a/./b.toml", "a/..", ".x", "/a/x.tar.gz",
        "//a", "///a//b/c", "/./a", "a/./b/.", "a//b//c//", "././a",
    ];
    for p in all {
        let std_path = Path::new(p);
        assert_eq!(is_rooted(p), std_path.has_root(), "{p:?}");
        assert_eq!(
            parent(p).as_deref(),
            std_path.parent().and_then(|d| d.to_str()),
            "parent of {p:?}"
        );
        assert_eq!(
            file_name(p).as_deref(),
            std_path.file_name().and_then(|s| s.to_str()),
            "name of {p:?}"
        );
        assert_eq!(
            Some(with_extension(p, "new").as_str()),
            std_path.with_extension("new").to_str(),
            "extension of {p:?}"
        );
        for q in all {
            assert_eq!(same_path(p, q), std_path == Path::new(q), "{p:?} {q:?}");
            assert_eq!(Path::new(&join(p, q)), std_path.join(q), "{p:?} + {q:?}");
        }
    }
    assert_eq!(components("/a//b/./c"), vec!["a", "b", "c"]);
    assert_eq!(stem("x.tar.gz"), "x.tar");
}

#[test]
fn tail_of_a_path_is_kept_as_written() {
    assert_eq!(text_from("/a//b/./c/", 0), "a//b/./c");
    assert_eq!(text_from("/a//b/./c/.", 1), "b/./c");
    assert_eq!(text_from("./a", 0), "./a");
    assert_eq!(text_from("./a", 1), "a");
}

#[test]
fn windows_paths_keep_their_spelling() {
    let p = "C:\\src\\x.toml";
    assert_eq!(components(p), vec!["C:", "src", "x.toml"]);
    assert!(same_path(p, "C:/src/x.toml") && same_path("C:/src\\x.toml", p));
    assert!(!same_path("/src\\x", "/src/x"));
    assert_eq!(file_name(p).as_deref(), Some("x.toml"));
    assert_eq!(parent(p).as_deref(), Some("C:\\src"));
    assert_eq!(parent("C:/src").as_deref(), Some("C:/"));
    assert_eq!(parent("C:\\"), None);
    assert_eq!(file_name("C:\\"), None);
    assert_eq!(parent("\\\\srv\\share\\x").as_deref(), Some("\\\\srv\\share"));
    assert_eq!(with_extension(p, "tmp"), "C:\\src\\x.tmp");
    assert_eq!(with_extension("C:/src/x.toml", "tmp"), "C:/src/x.tmp");
    assert_eq!(join("C:\\src", "a/b"), "C:\\src\\a/b");
    assert_eq!(join("C:\\", "a"), "C:\\a");
    assert_eq!(join("C:\\src", "/a"), "C:/a");
    assert_eq!(join("/src", "D:\\a"), "D:\\a");
    assert_eq!(text_from("C:\\u\\a\\\\b\\", 2), "a\\\\b");
    assert_eq!(components("a\\b"), vec!["a\\b"]);
}
