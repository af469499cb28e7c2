use gette::forced::token_char;
use gette::get_forced_proto;
use regex::Regex;

#[test]
fn forced_proto_is_split_from_the_rest() {
    assert_eq!(
        get_forced_proto("s3+https://bucket.example/key"),
        (Some("s3"), "https://bucket.example/key")
    );
    assert_eq!(
        get_forced_proto("myscheme+github.com/acme/widget"),
        (Some("myscheme"), "github.com/acme/widget")
    );
    assert_eq!(get_forced_proto("Git2+"), (Some("Git2"), ""));
    assert_eq!(get_forced_proto("a+b+c"), (Some("a"), "b+c"));
}

#[test]
fn sources_without_forced_proto_are_left_whole() {
    for input in [
        "",
        "+",
        "+rest",
        "https://example.com/a+b",
        "file:///tmp/x",
        "git-hub+x",
        "a b+c",
        "s3",
        "naïve+x",
        "a+b\nc",
        "a+\n",
    ] {
        assert_eq!(get_forced_proto(input), (None, input), "input {:?}", input);
    }
}

#[test]
fn forced_proto_keeps_what_is_not_ascii_in_the_rest() {
    assert_eq!(get_forced_proto("x+ünï/çødé"), (Some("x"), "ünï/çødé"));
    assert_eq!(get_forced_proto("x+a\rb"), (Some("x"), "a\rb"));
}

#[test]
fn token_chars_are_ascii_letters_and_digits() {
    for c in ['a', 'z', 'A', 'Z', '0', '9', 'm', 'Q', '5'] {
        assert!(token_char(c), "{:?}", c);
    }
    for c in ['+', '-', '.', '_', ':', '/', ' ', '\n', 'é', '٣', '`', '{', '@', '['] {
        assert!(!token_char(c), "{:?}", c);
    }
}

#[test]
fn forced_proto_agrees_with_the_pattern() {
    let pattern = Regex::new(r"^([A-Za-z0-9]+)\+(.*)$").unwrap();
    for input in [
        "",
        "+",
        "a+",
        "a+b",
        "+b",
        "a+b+c",
        "s3+https://us-east-2.amazonaws.com/bucket/key",
        "https://github.com/acme/widget.git",
        "git+https://github.com/acme/widget",
        "a-b+c",
        "ab c+d",
        "a+b\n",
        "a+b\nc",
        "a+\nb",
        "\na+b",
        "a\n+b",
        "a+b\r\n",
        "a+b\r",
        "é+b",
        "a+é",
        "0+1",
        "Z9z+",
        "plain/path/with+plus",
        "x++",
        "++x",
    ] {
        let expected = match pattern.captures(input) {
            Some(found) => (
                Some(found.get(1).unwrap().as_str()),
                found.get(2).unwrap().as_str(),
            ),
            None => (None, input),
        };
        assert_eq!(get_forced_proto(input), expected, "input {:?}", input);
    }
}
