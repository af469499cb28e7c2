//! Object-storage hosts: sources that name a host under `amazonaws.com`.

use vstd::prelude::*;
use crate::error::{Error, ErrorView};
use crate::text::{appended, contains, join, joined, occurs_in, rest_of, same, split, split_on, views};
use crate::forced::{forced_split, is_forced, lemma_forced_is_split, no_line_feed};
use crate::uri::{parsed_uri, Uri};
use crate::{detection_view, Detection, Detector};

verus! {

/// Detects sources that hold `amazonaws.com/`.
pub struct S3;

/// The URL of an object addressed by region and path: the bucket is the
/// first piece of `key`.
pub open spec fn region_url(region: Seq<char>, key: Seq<char>) -> Seq<char> {
    "https://"@ + region + ".amazonaws.com/"@ + key
}

/// The URL of an object addressed by a host that begins with the bucket.
pub open spec fn vhost_url(region: Seq<char>, bucket: Seq<char>, key: Seq<char>) -> Seq<char> {
    "https://"@ + region + ".amazonaws.com/"@ + bucket + "/"@ + key
}

/// The URL of an object addressed by a host that begins with the bucket and
/// the label `s3`.
pub open spec fn new_vhost_url(region: Seq<char>, bucket: Seq<char>, key: Seq<char>) -> Seq<
    char,
> {
    "https://s3."@ + region + ".amazonaws.com/"@ + bucket + "/"@ + key
}

/// The URL `text` behind the forced protocol `s3`.
pub open spec fn forced_source(text: Seq<char>) -> Seq<char> {
    "s3+"@ + text
}

/// The canonical source for the object at `url`: the URL in its normal form
/// behind the forced protocol `s3`.
pub open spec fn s3_source(url: Seq<char>) -> Detection {
    match parsed_uri(url) {
        Some(uri) => Ok(Some(forced_source(uri.text))),
        None => Err(ErrorView::UrlParseError),
    }
}

/// The error for a source that no host shape fits.
pub open spec fn not_s3(path: Seq<char>) -> Detection {
    Err(ErrorView::InvalidUrl(path, "not a valid s3 url"@))
}

/// What the detector answers on a source that holds `amazonaws.com/`: the
/// number of labels of the host decides how bucket and region are read.
pub open spec fn s3_http_detection(path: Seq<char>) -> Detection {
    let parts = split_on(path, '/');
    if parts.len() < 2 {
        not_s3(path)
    } else {
        let host = split_on(parts[0], '.');
        let key = joined(parts.skip(1), "/"@);
        if host.len() == 3 {
            s3_source(region_url(host[0], key))
        } else if host.len() == 4 {
            s3_source(vhost_url(host[1], host[0], key))
        } else if host.len() == 5 && host[1] == "s3"@ {
            s3_source(new_vhost_url(host[2], host[0], key))
        } else {
            not_s3(path)
        }
    }
}

/// What the detector answers on any source.
pub open spec fn s3_detection(path: Seq<char>) -> Detection {
    if occurs_in(path, "amazonaws.com/"@) {
        s3_http_detection(path)
    } else {
        Ok(None)
    }
}

/// Every source that the detector builds carries the forced protocol `s3`,
/// so the getter for object storage is selected though the URL behind it
/// has the scheme `https`. The URL must run on one line, as the grammar of a
/// forced source asks.
pub proof fn lemma_s3_source_is_forced(path: Seq<char>, out: Seq<char>)
    requires
        s3_detection(path) == Ok::<Option<Seq<char>>, ErrorView>(Some(out)),
    ensures
        "s3+"@.is_prefix_of(out),
        no_line_feed(out.skip(3)) ==> forced_split(out) == (Some("s3"@), out.skip(3)),
{
    reveal_strlit("s3+");
    reveal_strlit("s3");
    let text = out.skip(3);
    assert(out =~= "s3+"@ + text);
    assert("s3+"@ =~= "s3"@ + seq!['+']);
    if no_line_feed(text) {
        assert(out =~= "s3"@ + seq!['+'] + text);
        assert(is_forced(out, "s3"@, text));
        lemma_forced_is_split(out, "s3"@, text);
    }
}

/// A host of fewer than three or more than five labels, or of five whose
/// second is not `s3`, is refused.
pub proof fn lemma_s3_refuses_other_hosts(path: Seq<char>)
    requires
        occurs_in(path, "amazonaws.com/"@),
        ({
            let host = split_on(split_on(path, '/')[0], '.');
            host.len() < 3 || host.len() > 5 || (host.len() == 5 && host[1] != "s3"@)
        }),
    ensures
        s3_detection(path) == not_s3(path),
{
}

impl Detector for S3 {
    open spec fn yields(&self, path: Seq<char>, out: Detection) -> bool {
        out == s3_detection(path)
    }

    fn detect(&self, path: &str) -> (r: Result<Option<String>, Error>) {
        if contains(path, "amazonaws.com/") {
            self.detect_http(path)
        } else {
            Ok(None)
        }
    }
}

impl S3 {
    /// Reads bucket and region from the host of `path` and builds the
    /// canonical source, or refuses a host of another shape.
    pub fn detect_http(&self, path: &str) -> (r: Result<Option<String>, Error>)
        ensures
            detection_view(r) == s3_http_detection(path@),
    {
        let parts = split(path, '/');
        if parts.len() < 2 {
            return Err(Error::InvalidUrl(path.to_owned(), "not a valid s3 url".to_owned()));
        }
        let host = split(parts[0], '.');
        let len: usize = host.len();
        if len == 3 {
            self.region_path_style(host[0], rest_of(&parts, 1))
        } else if len == 4 {
            self.vhost_path_style(host[1], host[0], rest_of(&parts, 1))
        } else if len == 5 && same(host[1], "s3") {
            self.new_vhost_path_style(host[2], host[0], rest_of(&parts, 1))
        } else {
            Err(Error::InvalidUrl(path.to_owned(), "not a valid s3 url".to_owned()))
        }
    }

    /// The canonical source for the object at the parsed URL `uri`.
    pub fn forced(uri: &Uri) -> (source: String)
        ensures
            source@ == forced_source(uri@.text),
    {
        appended("s3+", uri.text.as_str())
    }

    /// The canonical source for the object at `url_string`.
    pub fn source_of(url_string: &str) -> (r: Result<Option<String>, Error>)
        ensures
            detection_view(r) == s3_source(url_string@),
    {
        let uri = Uri::parse(url_string)?;
        Ok(Some(S3::forced(&uri)))
    }

    /// The source for a host of three labels: the first is the region, and
    /// the bucket is the first piece of the path.
    pub fn region_path_style(&self, region: &str, parts: Vec<&str>) -> (r: Result<
        Option<String>,
        Error,
    >)
        ensures
            detection_view(r) == s3_source(region_url(region@, joined(views(parts@), "/"@))),
    {
        let key = join(&parts, 0, parts.len(), "/");
        assert(views(parts@).subrange(0, parts.len() as int) =~= views(parts@));
        let host = appended("https://", region);
        let root = appended(host.as_str(), ".amazonaws.com/");
        let url_string = appended(root.as_str(), key.as_str());
        S3::source_of(url_string.as_str())
    }

    /// The source for a host of four labels: bucket, then region.
    pub fn vhost_path_style(&self, region: &str, bucket: &str, parts: Vec<&str>) -> (r: Result<
        Option<String>,
        Error,
    >)
        ensures
            detection_view(r) == s3_source(
                vhost_url(region@, bucket@, joined(views(parts@), "/"@)),
            ),
    {
        let key = join(&parts, 0, parts.len(), "/");
        assert(views(parts@).subrange(0, parts.len() as int) =~= views(parts@));
        let host = appended("https://", region);
        let root = appended(host.as_str(), ".amazonaws.com/");
        let home = appended(root.as_str(), bucket);
        let dir = appended(home.as_str(), "/");
        let url_string = appended(dir.as_str(), key.as_str());
        S3::source_of(url_string.as_str())
    }

    /// The source for a host of five labels whose second is `s3`: bucket,
    /// `s3`, then region.
    pub fn new_vhost_path_style(&self, region: &str, bucket: &str, parts: Vec<&str>) -> (r:
        Result<Option<String>, Error>)
        ensures
            detection_view(r) == s3_source(
                new_vhost_url(region@, bucket@, joined(views(parts@), "/"@)),
            ),
    {
        let key = join(&parts, 0, parts.len(), "/");
        assert(views(parts@).subrange(0, parts.len() as int) =~= views(parts@));
        let host = appended("https://s3.", region);
        let root = appended(host.as_str(), ".amazonaws.com/");
        let home = appended(root.as_str(), bucket);
        let dir = appended(home.as_str(), "/");
        let url_string = appended(dir.as_str(), key.as_str());
        S3::source_of(url_string.as_str())
    }
}

} // verus!
