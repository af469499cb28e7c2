use gette::text::{
    chars_of, appended, contains, ends_with, join, matches_at, rest_of, same, split, starts_with,
};

#[test]
fn split_has_one_piece_more_than_separators() {
    assert_eq!(split("a/b/c", '/'), vec!["a", "b", "c"]);
    assert_eq!(split("", '/'), vec![""]);
    assert_eq!(split("/", '/'), vec!["", ""]);
    assert_eq!(split("a/", '/'), vec!["a", ""]);
    assert_eq!(split("/a", '/'), vec!["", "a"]);
    assert_eq!(split("a//b", '/'), vec!["a", "", "b"]);
    assert_eq!(split("no separator", '/'), vec!["no separator"]);
    assert_eq!(split("ü.é.ñ", '.'), vec!["ü", "é", "ñ"]);
}

#[test]
fn split_agrees_with_the_standard_library() {
    for input in ["", "/", "//", "a", "a/b", "/a/b/", "github.com/acme/widget/src/lib.rs", "é/ü"] {
        let expected: Vec<&str> = input.split('/').collect();
        assert_eq!(split(input, '/'), expected, "input {:?}", input);
    }
}

#[test]
fn join_puts_the_separator_between_neighbours() {
    let parts = vec!["a", "b", "c", "d"];
    assert_eq!(join(&parts, 0, 4, "/"), "a/b/c/d");
    assert_eq!(join(&parts, 0, 3, "/"), "a/b/c");
    assert_eq!(join(&parts, 3, 4, "/"), "d");
    assert_eq!(join(&parts, 1, 3, "--"), "b--c");
    assert_eq!(join(&parts, 2, 2, "/"), "");
    let empty = vec!["", ""];
    assert_eq!(join(&empty, 0, 2, "/"), "/");
}

#[test]
fn join_gives_back_what_was_split() {
    for input in ["", "/", "a/b", "/a//b/", "x"] {
        let parts = split(input, '/');
        assert_eq!(join(&parts, 0, parts.len(), "/"), input);
    }
}

#[test]
fn rest_of_skips_the_first_pieces() {
    let parts = vec!["a", "b", "c"];
    assert_eq!(rest_of(&parts, 0), vec!["a", "b", "c"]);
    assert_eq!(rest_of(&parts, 1), vec!["b", "c"]);
    assert_eq!(rest_of(&parts, 3), Vec::<&str>::new());
}

#[test]
fn prefixes_suffixes_and_infixes_are_found() {
    assert!(starts_with("github.com/acme", "github.com/"));
    assert!(!starts_with("git+github.com/acme", "github.com/"));
    assert!(!starts_with("github", "github.com/"));
    assert!(starts_with("anything", ""));
    assert!(ends_with("/acme/widget.git", ".git"));
    assert!(!ends_with("/acme/widget.git/x", ".git"));
    assert!(!ends_with("git", ".git"));
    assert!(ends_with("anything", ""));
    assert!(contains("bucket.s3.amazonaws.com/key", "amazonaws.com/"));
    assert!(contains("amazonaws.com/", "amazonaws.com/"));
    assert!(!contains("amazonaws.com", "amazonaws.com/"));
    assert!(contains("", ""));
    assert!(contains("abc", ""));
    assert!(contains("xxabxabc", "abc"));
    assert!(!contains("xxabxab", "abc"));
}

#[test]
fn matches_at_looks_at_one_position() {
    let s = chars_of("hello");
    let pat = chars_of("ll");
    assert!(matches_at(&s, 2, &pat));
    assert!(!matches_at(&s, 1, &pat));
    assert!(!matches_at(&s, 4, &pat));
    assert!(!matches_at(&s, 9, &pat));
    assert!(matches_at(&s, 5, &chars_of("")));
    assert!(!matches_at(&s, 6, &chars_of("")));
}

#[test]
fn strings_are_read_by_their_characters() {
    assert_eq!(chars_of("aé𝄞"), vec!['a', 'é', '𝄞']);
    assert_eq!(chars_of(""), Vec::<char>::new());
    assert!(same("s3", "s3"));
    assert!(!same("s3", "s4"));
    assert!(!same("s3", "s3 "));
    assert!(same("", ""));
    assert_eq!(appended("file://", "/tmp/x"), "file:///tmp/x");
    assert_eq!(appended("", ""), "");
}
