//! The getter for object storage: which object a source names, and the
//! client that fetches it, set at most once.

use vstd::prelude::*;
use crate::error::{Error, ErrorView};
use crate::text::{chars_of, lemma_split_has_a_piece, split, split_on, views};
use crate::uri::{parsed_uri, Uri, UriView};

verus! {

/// An object in a bucket.
#[derive(Debug)]
pub struct ObjectLocation {
    pub bucket: String,
    pub key: String,
}

/// The first label of a domain name: what stands before its first dot.
pub open spec fn first_label(domain: Seq<char>) -> Seq<char> {
    split_on(domain, '.')[0]
}

/// The key of the object at `path`: the path without its leading slash.
pub open spec fn object_key(path: Seq<char>) -> Seq<char> {
    if path.len() > 0 && path[0] == '/' {
        path.skip(1)
    } else {
        path
    }
}

/// Bucket and key of the object that a URL names, where its host is a
/// domain name.
pub open spec fn located(uri: UriView) -> Option<(Seq<char>, Seq<char>)> {
    match uri.domain {
        Some(domain) => Some((first_label(domain), object_key(uri.path))),
        None => None,
    }
}

impl ObjectLocation {
    /// Bucket and key of the object that `uri` names: the first label of its
    /// domain, and its path without the leading slash. A URL whose host is no
    /// domain name names none.
    pub fn of(uri: &Uri) -> (r: Option<ObjectLocation>)
        ensures
            match r {
                Some(location) => located(uri@) == Some((location.bucket@, location.key@)),
                None => located(uri@) is None,
            },
    {
        match &uri.domain {
            None => None,
            Some(domain) => {
                let labels = split(domain.as_str(), '.');
                proof {
                    lemma_split_has_a_piece(domain@, '.');
                    assert(views(labels@)[0] == labels@[0]@);
                }
                let bucket = labels[0].to_owned();
                let path = uri.path.as_str();
                let chars = chars_of(path);
                let key = if chars.len() > 0 && chars[0] == '/' {
                    let tail = path.substring_char(1, chars.len());
                    assert(path@.subrange(1, chars.len() as int) =~= path@.skip(1));
                    tail.to_owned()
                } else {
                    path.to_owned()
                };
                Some(ObjectLocation { bucket, key })
            },
        }
    }
}

/// What a download needs: the client, the object and the destination.
pub struct Download<'a, T> {
    pub client: &'a T,
    pub location: ObjectLocation,
    pub dest: &'a str,
}

/// The getter for object storage. It holds the backend client, which is made
/// on first use and kept from then on.
pub struct S3Getter<T> {
    client: Option<T>,
}

impl<T> S3Getter<T> {
    /// The client, once it is set.
    pub closed spec fn client(&self) -> Option<T> {
        self.client
    }

    /// A getter without a client.
    pub fn new() -> (getter: Self)
        ensures
            getter.client() is None,
    {
        S3Getter { client: None }
    }

    /// Whether the client is set.
    pub fn is_ready(&self) -> (ready: bool)
        ensures
            ready == self.client() is Some,
    {
        self.client.is_some()
    }

    /// Sets the client where none is set. A client that is set stays.
    pub fn set_client(&mut self, client: T)
        ensures
            final(self).client() == (match old(self).client() {
                Some(first) => Some(first),
                None => Some(client),
            }),
    {
        if self.client.is_none() {
            self.client = Some(client);
        }
    }

    /// What is needed to download `source` to `dest`. The source must be a
    /// URL and the client must be set; a URL whose host is no domain name
    /// names no object, and nothing is to be downloaded.
    pub fn get<'a>(&'a self, dest: &'a str, source: &str) -> (r: Result<
        Option<Download<'a, T>>,
        Error,
    >)
        ensures
            match parsed_uri(source@) {
                None => r matches Err(e) && e@ == ErrorView::UrlParseError,
                Some(uri) => match self.client() {
                    None => r matches Err(e) && e@ == ErrorView::ClientNotSet,
                    Some(client) => match located(uri) {
                        None => r matches Ok(None),
                        Some((bucket, key)) => {
                            &&& r matches Ok(Some(found))
                            &&& *found.client == client
                            &&& found.location.bucket@ == bucket
                            &&& found.location.key@ == key
                            &&& found.dest@ == dest@
                        },
                    },
                },
            },
    {
        let uri = Uri::parse(source)?;
        match &self.client {
            None => Err(Error::ClientNotSet),
            Some(client) => match ObjectLocation::of(&uri) {
                None => Ok(None),
                Some(location) => Ok(Some(Download { client, location, dest })),
            },
        }
    }
}

} // verus!
