use gette::getters::{ObjectLocation, S3Getter};
use gette::uri::Uri;
use gette::Error;

/// Stands for a backend client.
#[derive(Debug, PartialEq)]
struct Client(u32);

#[test]
fn it_should_get_files() {
    let mut g: S3Getter<Client> = S3Getter::new();
    g.set_client(Client(10));

    let dest = "test.txt";

    let res = g.get(dest, "https://test.s3.us-east-2.amazonaws.com/test.txt");

    assert!(res.is_ok());
    let download = res.unwrap().unwrap();
    assert_eq!(download.location.bucket, "test");
    assert_eq!(download.location.key, "test.txt");
    assert_eq!(download.dest, "test.txt");
    assert_eq!(*download.client, Client(10));
}

#[test]
fn the_client_is_set_once() {
    let mut g: S3Getter<Client> = S3Getter::new();
    assert!(!g.is_ready());
    g.set_client(Client(1));
    assert!(g.is_ready());
    g.set_client(Client(2));
    let download = g.get("out", "https://bucket.example.com/key").unwrap().unwrap();
    assert_eq!(*download.client, Client(1));
}

#[test]
fn a_getter_without_client_cannot_download() {
    let g: S3Getter<Client> = S3Getter::new();
    assert!(matches!(
        g.get("out", "https://bucket.example.com/key"),
        Err(Error::ClientNotSet)
    ));
}

#[test]
fn a_source_that_is_no_url_cannot_be_downloaded() {
    let mut g: S3Getter<Client> = S3Getter::new();
    assert!(matches!(g.get("out", "bucket/key"), Err(Error::UrlParseError(_))));
    g.set_client(Client(1));
    assert!(matches!(g.get("out", "bucket/key"), Err(Error::UrlParseError(_))));
}

#[test]
fn a_host_that_is_no_domain_names_no_object() {
    let mut g: S3Getter<Client> = S3Getter::new();
    g.set_client(Client(1));
    assert!(g.get("out", "https://127.0.0.1/key").unwrap().is_none());
    assert!(g.get("out", "mailto:someone@example.com").unwrap().is_none());
}

#[test]
fn the_key_is_the_path_without_its_first_slash() {
    let uri = Uri::parse("https://bucket.s3.eu-west-1.amazonaws.com/a/b/c.txt").unwrap();
    let location = ObjectLocation::of(&uri).unwrap();
    assert_eq!(location.bucket, "bucket");
    assert_eq!(location.key, "a/b/c.txt");

    let uri = Uri::parse("https://single/").unwrap();
    let location = ObjectLocation::of(&uri).unwrap();
    assert_eq!(location.bucket, "single");
    assert_eq!(location.key, "");
}

#[test]
fn a_location_is_read_from_the_parts_of_a_url() {
    let uri = Uri {
        text: "https://test.s3.us-east-2.amazonaws.com/test.txt".to_string(),
        scheme: "https".to_string(),
        domain: Some("test.s3.us-east-2.amazonaws.com".to_string()),
        path: "/test.txt".to_string(),
        resource: "test.s3.us-east-2.amazonaws.com/test.txt".to_string(),
    };
    let location = ObjectLocation::of(&uri).unwrap();
    assert_eq!(location.bucket, "test");
    assert_eq!(location.key, "test.txt");

    let uri = Uri {
        text: "x:relative".to_string(),
        scheme: "x".to_string(),
        domain: Some("".to_string()),
        path: "relative".to_string(),
        resource: "relative".to_string(),
    };
    let location = ObjectLocation::of(&uri).unwrap();
    assert_eq!(location.bucket, "");
    assert_eq!(location.key, "relative");

    let uri = Uri {
        text: "https://10.0.0.1/k".to_string(),
        scheme: "https".to_string(),
        domain: None,
        path: "/k".to_string(),
        resource: "10.0.0.1/k".to_string(),
    };
    assert!(ObjectLocation::of(&uri).is_none());
}
