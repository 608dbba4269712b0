use grokdb::path::{normalize, normalize_chars};
use grokdb::text::{chars_of, holds, push_literal, string_of};
use std::path::{Path, PathBuf};

fn by_std(path: &str) -> String {
    let collected: PathBuf = Path::new(path).iter().collect();
    collected.to_str().unwrap().to_string()
}

#[test]
fn normalize_collapses_repeated_separators() {
    assert_eq!(normalize("a//b"), "a/b");
    assert_eq!(normalize(".//grok.db"), "./grok.db");
    assert_eq!(normalize("/tmp///x//y.db"), "/tmp/x/y.db");
}

#[test]
fn normalize_drops_trailing_separator() {
    assert_eq!(normalize("a/b/"), "a/b");
    assert_eq!(normalize("/tmp/"), "/tmp");
}

#[test]
fn normalize_keeps_only_a_leading_dot() {
    assert_eq!(normalize("./a/./b"), "./a/b");
    assert_eq!(normalize("a/./b"), "a/b");
    assert_eq!(normalize("/./a"), "/a");
    assert_eq!(normalize("."), ".");
    assert_eq!(normalize("./"), ".");
    assert_eq!(normalize("././a"), "./a");
}

#[test]
fn normalize_keeps_parent_segments() {
    assert_eq!(normalize("a/../b"), "a/../b");
    assert_eq!(normalize("../x.db"), "../x.db");
    assert_eq!(normalize("..."), "...");
}

#[test]
fn normalize_of_root_and_of_nothing() {
    assert_eq!(normalize("/"), "/");
    assert_eq!(normalize("//"), "/");
    assert_eq!(normalize("//a"), "/a");
    assert_eq!(normalize(""), "");
}

#[test]
fn normalize_keeps_other_characters() {
    assert_eq!(normalize("/tmp/gr\u{f6}k- 5.db"), "/tmp/gr\u{f6}k- 5.db");
    assert_eq!(normalize("a\\b//c"), "a\\b/c");
}

#[test]
fn normalize_is_idempotent_on_samples() {
    let samples = [
        "", "/", ".", "./", "a", "/a", "a//b/", ".//grok.db", "/./a/./b/..//c", "..//..", "//",
        "./.", "a/.", "/tmp/mybackup.db",
    ];
    for sample in samples {
        let once = normalize(sample);
        let twice = normalize(&once);
        assert_eq!(twice, once, "normalising {:?} twice", sample);
    }
}

#[test]
fn normalize_agrees_with_the_component_iterator() {
    let samples = [
        "", "/", ".", "./", "a", "/a", "a//b/", ".//grok.db", "/./a/./b/..//c", "..//..", "//",
        "./.", "a/.", "/tmp/mybackup.db", "./x/./y", "x/./", "/..", ".hidden/.db",
    ];
    for sample in samples {
        assert_eq!(normalize(sample), by_std(sample), "normalising {:?}", sample);
    }
}

#[test]
fn normalize_chars_matches_normalize() {
    let chars: Vec<char> = "/a//./b/".chars().collect();
    let normal: String = normalize_chars(&chars).into_iter().collect();
    assert_eq!(normal, "/a/b");
}

#[test]
fn chars_and_strings_round_trip() {
    let chars = chars_of("d\u{e9}j\u{e0}/vu");
    assert_eq!(chars, vec!['d', '\u{e9}', 'j', '\u{e0}', '/', 'v', 'u']);
    assert_eq!(string_of(&chars), "d\u{e9}j\u{e0}/vu");
    assert_eq!(chars_of(""), Vec::<char>::new());
    assert_eq!(string_of(&Vec::new()), "");
}

#[test]
fn holds_finds_a_character() {
    let chars = chars_of("a/b");
    assert!(holds(&chars, '/'));
    assert!(holds(&chars, 'b'));
    assert!(!holds(&chars, '\0'));
    assert!(!holds(&Vec::new(), 'a'));
}

#[test]
fn push_literal_appends() {
    let mut out = vec!['x'];
    push_literal(&mut out, "yz");
    assert_eq!(out, vec!['x', 'y', 'z']);
    push_literal(&mut out, "");
    assert_eq!(out, vec!['x', 'y', 'z']);
}
