use gette::detectors::Github;
use gette::uri::Uri;
use gette::{
    get_forced_proto, is_no_match, resolve, scheme_for, Detector, Dispatch, Error, NoDest, NoSrc,
    RequestBuilder,
};

/// A detector that must never be asked.
struct Forbidden;

impl Detector for Forbidden {
    fn detect(&self, path: &str) -> Result<Option<String>, Error> {
        panic!("the detector was asked about {:?}", path)
    }
}

/// A detector that answers every source, with what it was made with.
struct Fixed(&'static str);

impl Detector for Fixed {
    fn detect(&self, _path: &str) -> Result<Option<String>, Error> {
        Ok(Some(self.0.to_string()))
    }
}

/// A detector that refuses every source.
struct Refusing;

impl Detector for Refusing {
    fn detect(&self, path: &str) -> Result<Option<String>, Error> {
        Err(Error::InvalidUrl(path.to_string(), "refused".to_string()))
    }
}

/// The working directory of these tests.
const BASE: Option<&str> = Some("/work/dir");

fn builder<X: Detector>() -> RequestBuilder<NoSrc, NoDest, &'static str, X> {
    RequestBuilder::builder("file getter", "s3 getter")
}

#[test]
fn test_simple_detect() {
    let b = builder::<Github>()
        .src("file://test.txt".to_string())
        .dest("test2.txt".to_string());
    let res = b.detect(BASE).unwrap();
    assert_eq!("file://test.txt", res);
}

#[test]
fn test_file_detect_without_proto() {
    let b = builder::<Github>()
        .src("test.txt".to_string())
        .dest("test2.txt".to_string());

    let res = b.detect(BASE).unwrap();
    assert_eq!(format!("file://{}", "/work/dir/test.txt"), res);
}

#[test]
fn test_get_call() {
    let source = "./test-get-call.txt";
    let dest = "./test-get-call-destination.txt";
    let builder = builder::<Github>()
        .src(source.to_string())
        .dest(dest.to_string());

    let Dispatch { scheme, getter, dest: to, source: from } = builder.get(BASE).unwrap();
    assert_eq!(scheme, "file");
    assert_eq!(*getter, "file getter");
    assert_eq!(to, dest);
    assert_eq!(from, "file:///work/dir/test-get-call.txt");
}

#[test]
fn a_url_is_resolved_to_itself_and_no_detector_is_asked() {
    for input in [
        "file://test.txt",
        "https://example.com/a/b?c#d",
        "s3+https://us-east-2.amazonaws.com/bucket/key",
        "mailto:someone@example.com",
    ] {
        let b = builder::<Forbidden>()
            .add_detector(Forbidden)
            .src(input.to_string())
            .dest("out".to_string());
        assert!(!b.needs_base());
        assert_eq!(b.detect(None).unwrap(), input);
    }
}

#[test]
fn absolute_paths_are_cleaned_and_keep_their_root() {
    let b = builder::<Github>()
        .src("/srv/data/../files/./a.txt".to_string())
        .dest("out".to_string());
    assert_eq!(b.detect(BASE).unwrap(), "file:///srv/files/a.txt");
}

#[test]
fn relative_paths_start_at_the_base_directory() {
    let b = builder::<Github>()
        .src("sub/../a.txt".to_string())
        .dest("out".to_string());
    assert_eq!(b.detect(BASE).unwrap(), "file:///work/dir/a.txt");
}

#[test]
fn a_relative_path_without_base_directory_cannot_be_resolved() {
    let b = builder::<Github>()
        .src("a.txt".to_string())
        .dest("out".to_string());
    assert!(b.needs_base());
    assert!(matches!(b.detect(None), Err(Error::Io)));
    let b = builder::<Github>()
        .src("/a.txt".to_string())
        .dest("out".to_string());
    assert!(!b.needs_base());
    assert_eq!(b.detect(None).unwrap(), "file:///a.txt");
}

#[test]
fn the_first_detector_that_matches_wins() {
    // The detector of local paths stands first and takes whatever is no URL.
    let b = builder::<Forbidden>()
        .add_detector(Forbidden)
        .src("github.com/acme/widget".to_string())
        .dest("out".to_string());
    assert_eq!(b.detect(BASE).unwrap(), "file:///work/dir/github.com/acme/widget");
}

#[test]
fn forced_scheme_of_the_input_wins() {
    let b = builder::<Github>()
        .add_getter("myscheme", "my getter")
        .src("myscheme+github.com/acme/widget".to_string())
        .dest("out".to_string());
    let resolved = b.detect(BASE).unwrap();
    let found = b.select(&resolved).unwrap();
    assert_eq!(found.scheme, "myscheme");
    assert_eq!(*found.getter, "my getter");
    assert_ne!(found.scheme, "https");
    assert_ne!(found.scheme, "file");
}

#[test]
fn forced_scheme_of_the_input_replaces_that_of_the_detector() {
    assert_eq!(
        resolve(
            "myscheme+github.com/acme/widget",
            Ok(Some("https://github.com/acme/widget.git".to_string()))
        )
        .unwrap(),
        "myscheme+https://github.com/acme/widget.git"
    );
    assert_eq!(
        resolve(
            "mine+bucket.us-east-2.amazonaws.com/key",
            Ok(Some("s3+https://us-east-2.amazonaws.com/bucket/key".to_string()))
        )
        .unwrap(),
        "mine+https://us-east-2.amazonaws.com/bucket/key"
    );
}

#[test]
fn forced_scheme_of_the_detector_is_kept_where_the_input_has_none() {
    assert_eq!(
        resolve(
            "bucket.us-east-2.amazonaws.com/key",
            Ok(Some("s3+https://us-east-2.amazonaws.com/bucket/key".to_string()))
        )
        .unwrap(),
        "s3+https://us-east-2.amazonaws.com/bucket/key"
    );
    assert_eq!(
        resolve("a.txt", Ok(Some("file:///work/a.txt".to_string()))).unwrap(),
        "file:///work/a.txt"
    );
}

#[test]
fn without_a_match_no_getter_is_found() {
    match resolve("nothing knows this", Ok(None)) {
        Err(Error::GetterNotFound(input)) => assert_eq!(input, "nothing knows this"),
        other => panic!("expected that no getter is found, got {:?}", other),
    }
}

#[test]
fn an_error_of_a_detector_ends_the_resolution() {
    match resolve(
        "github.com/acme",
        Err(Error::InvalidUrl("github.com/acme".to_string(), "why".to_string())),
    ) {
        Err(Error::InvalidUrl(input, reason)) => {
            assert_eq!(input, "github.com/acme");
            assert_eq!(reason, "why");
        }
        other => panic!("expected the detector's error, got {:?}", other),
    }
}

#[test]
fn a_scheme_without_getter_is_an_error() {
    let b = builder::<Github>()
        .src("foo://somewhere/thing".to_string())
        .dest("out".to_string());
    match b.get(BASE) {
        Err(Error::GetterNotFound(scheme)) => assert_eq!(scheme, "foo"),
        Ok(_) => panic!("a getter was selected"),
        Err(other) => panic!("expected that no getter is found, got {:?}", other),
    }
}

#[test]
fn a_forced_scheme_without_getter_is_an_error() {
    let b = builder::<Github>()
        .src("foo+https://example.com/thing".to_string())
        .dest("out".to_string());
    match b.get(BASE) {
        Err(Error::GetterNotFound(scheme)) => assert_eq!(scheme, "foo"),
        Ok(_) => panic!("a getter was selected"),
        Err(other) => panic!("expected that no getter is found, got {:?}", other),
    }
}

#[test]
fn the_getter_is_handed_the_source_without_forced_scheme() {
    let b = builder::<Github>()
        .src("bucket.s3.us-east-2.amazonaws.com/key".to_string())
        .dest("out".to_string());
    // The detector of local paths takes it first.
    let found = b.get(BASE).unwrap();
    assert_eq!(found.scheme, "file");

    let b = builder::<Github>()
        .src("s3+https://s3.us-east-2.amazonaws.com/bucket/key".to_string())
        .dest("out".to_string());
    let found = b.get(BASE).unwrap();
    assert_eq!(found.scheme, "s3");
    assert_eq!(*found.getter, "s3 getter");
    assert_eq!(found.source, "https://s3.us-east-2.amazonaws.com/bucket/key");
    assert_eq!(found.dest, "out");
}

#[test]
fn what_is_selected_must_be_a_url() {
    let b = builder::<Github>()
        .src("unused".to_string())
        .dest("out".to_string());
    assert!(matches!(b.select("s3+not a url"), Err(Error::UrlParseError(_))));
    assert!(matches!(b.select("not a url"), Err(Error::UrlParseError(_))));
}

#[test]
fn a_later_getter_replaces_an_earlier_one() {
    let b = builder::<Github>()
        .add_getter("file", "first")
        .add_getter("file", "second")
        .src("file:///tmp/a".to_string())
        .dest("out".to_string());
    assert_eq!(*b.get(BASE).unwrap().getter, "second");
}

#[test]
fn a_detector_that_refuses_is_not_asked_where_an_earlier_one_matches() {
    let b = builder::<Refusing>()
        .add_detector(Refusing)
        .src("a.txt".to_string())
        .dest("out".to_string());
    assert_eq!(b.detect(BASE).unwrap(), "file:///work/dir/a.txt");
}

#[test]
fn fixed_detector_is_never_reached_behind_the_local_one() {
    let b = builder::<Fixed>()
        .add_detector(Fixed("foo://x/y"))
        .src("whatever".to_string())
        .dest("out".to_string());
    assert_eq!(b.detect(BASE).unwrap(), "file:///work/dir/whatever");
}

#[test]
fn a_detected_scheme_without_getter_is_an_error() {
    let resolved = resolve("thing", Ok(Some("foo://somewhere/thing".to_string()))).unwrap();
    assert_eq!(resolved, "foo://somewhere/thing");
    let b = builder::<Github>()
        .src("thing".to_string())
        .dest("out".to_string());
    match b.select(&resolved) {
        Err(Error::GetterNotFound(scheme)) => assert_eq!(scheme, "foo"),
        Ok(_) => panic!("a getter was selected"),
        Err(other) => panic!("expected that no getter is found, got {:?}", other),
    }
    let b = builder::<Github>()
        .add_getter("foo", "foo getter")
        .src("thing".to_string())
        .dest("out".to_string());
    let found = b.select(&resolved).unwrap();
    assert_eq!(*found.getter, "foo getter");
    assert_eq!(found.source, "foo://somewhere/thing");
}

#[test]
fn only_the_answer_without_match_is_no_match() {
    assert!(is_no_match(&Ok(None)));
    assert!(!is_no_match(&Ok(Some(String::new()))));
    assert!(!is_no_match(&Err(Error::SourceNotFound)));
}

#[test]
fn a_line_feed_in_the_answer_hides_the_forced_scheme() {
    // The grammar of a forced source ends at the end of the line.
    let resolved = resolve("mine+x", Ok(Some("file:///a\nb".to_string()))).unwrap();
    assert_eq!(resolved, "mine+file:///a\nb");
    assert_eq!(get_forced_proto(&resolved), (None, "mine+file:///a\nb"));
}

#[test]
fn the_forced_protocol_selects_before_the_scheme_of_the_url() {
    let uri = Uri::parse("https://example.com/thing").unwrap();
    assert_eq!(scheme_for(Some("s3"), uri), "s3");
    let uri = Uri::parse("https://example.com/thing").unwrap();
    assert_eq!(scheme_for(None, uri), "https");
    let uri = Uri {
        text: "x:y".to_string(),
        scheme: "x".to_string(),
        domain: None,
        path: "y".to_string(),
        resource: "y".to_string(),
    };
    assert_eq!(scheme_for(None, uri), "x");
}

#[test]
fn a_getter_is_looked_up_by_its_scheme() {
    let b = builder::<Github>()
        .src("unused".to_string())
        .dest("out".to_string());
    let found = b.lookup("s3".to_string(), "https://host/key").unwrap();
    assert_eq!(found.scheme, "s3");
    assert_eq!(*found.getter, "s3 getter");
    assert_eq!(found.source, "https://host/key");
    assert_eq!(found.dest, "out");
    match b.lookup("foo".to_string(), "foo://x") {
        Err(Error::GetterNotFound(scheme)) => assert_eq!(scheme, "foo"),
        Ok(_) => panic!("a getter was selected"),
        Err(other) => panic!("expected that no getter is found, got {:?}", other),
    }
}
