use gette::detectors::S3;
use gette::uri::Uri;
use gette::{Detector, Error};

#[test]
fn it_should_decode_all_valid_variants_of_s3_urls() {
    let d = S3;
    let tests = vec![
        (
            "test.us-east-2.amazonaws.com/test.txt",
            "s3+https://us-east-2.amazonaws.com/test/test.txt",
        ),
        (
            "test.s3.us-east-2.amazonaws.com/test.txt",
            "s3+https://s3.us-east-2.amazonaws.com/test/test.txt",
        ),
        (
            "us-east-2.amazonaws.com/test/test.txt",
            "s3+https://us-east-2.amazonaws.com/test/test.txt",
        ),
    ];

    for test in tests {
        let res = d.detect(test.0).unwrap();
        assert!(res.is_some());
        assert_eq!(res, Some(test.1.to_string()));
    }
}

#[test]
fn it_should_fail_on_invalid_s3_urls() {
    let d = S3;
    let tests = vec![
        "wrong.test.us-east-2.amazonaws.com/test.txt",
        "amazonaws.com/test.txt",
    ];

    for test in tests {
        let res = d.detect(test);
        println!("test: ({}) => {:#?}", test, res);
        assert!(res.is_err());
    }
}

#[test]
fn s3_hosts_of_each_shape_become_forced_sources() {
    let d = S3;
    assert_eq!(
        d.detect("bucket.us-east-2.amazonaws.com/key").unwrap(),
        Some("s3+https://us-east-2.amazonaws.com/bucket/key".to_string()),
    );
    assert_eq!(
        d.detect("bucket.s3.us-east-2.amazonaws.com/key").unwrap(),
        Some("s3+https://s3.us-east-2.amazonaws.com/bucket/key".to_string()),
    );
    assert_eq!(
        d.detect("us-east-2.amazonaws.com/bucket/key").unwrap(),
        Some("s3+https://us-east-2.amazonaws.com/bucket/key".to_string()),
    );
}

#[test]
fn s3_keeps_every_piece_of_a_deep_key() {
    let d = S3;
    assert_eq!(
        d.detect("bucket.us-east-2.amazonaws.com/a/b/c.tar.gz").unwrap(),
        Some("s3+https://us-east-2.amazonaws.com/bucket/a/b/c.tar.gz".to_string()),
    );
}

#[test]
fn s3_says_why_a_host_is_refused() {
    let d = S3;
    for input in [
        "wrong.test.us-east-2.amazonaws.com/test.txt",
        "amazonaws.com/test.txt",
        "a.b.c.d.e.amazonaws.com/test.txt",
        "somewhere/amazonaws.com/test.txt",
    ] {
        match d.detect(input) {
            Err(Error::InvalidUrl(given, reason)) => {
                assert_eq!(given, input);
                assert_eq!(reason, "not a valid s3 url");
            }
            other => panic!("expected a structural error, got {:?}", other),
        }
    }
}

#[test]
fn s3_passes_over_other_sources() {
    let d = S3;
    assert_eq!(d.detect("github.com/acme/widget").unwrap(), None);
    assert_eq!(d.detect("amazonaws.com").unwrap(), None);
    assert_eq!(d.detect("").unwrap(), None);
}

#[test]
fn s3_helpers_build_the_three_shapes() {
    let d = S3;
    assert_eq!(
        d.region_path_style("eu-west-1", vec!["bucket", "key"]).unwrap(),
        Some("s3+https://eu-west-1.amazonaws.com/bucket/key".to_string()),
    );
    assert_eq!(
        d.vhost_path_style("eu-west-1", "bucket", vec!["key"]).unwrap(),
        Some("s3+https://eu-west-1.amazonaws.com/bucket/key".to_string()),
    );
    assert_eq!(
        d.new_vhost_path_style("eu-west-1", "bucket", vec!["key"]).unwrap(),
        Some("s3+https://s3.eu-west-1.amazonaws.com/bucket/key".to_string()),
    );
    assert!(matches!(
        S3::source_of("no scheme here"),
        Err(Error::UrlParseError(_))
    ));
}

#[test]
fn a_parsed_url_is_put_behind_the_forced_protocol() {
    let uri = Uri::parse("https://us-east-2.amazonaws.com/bucket/key").unwrap();
    assert_eq!(S3::forced(&uri), "s3+https://us-east-2.amazonaws.com/bucket/key");
    let uri = Uri {
        text: "x:y".to_string(),
        scheme: "x".to_string(),
        domain: None,
        path: "y".to_string(),
        resource: "y".to_string(),
    };
    assert_eq!(S3::forced(&uri), "s3+x:y");
}
