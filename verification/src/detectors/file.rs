//! Local paths: whatever is no URL is taken for a path on this machine.

use vstd::prelude::*;
use crate::error::Error;
use crate::paths::{absolute, absolute_path, base_view, is_relative, path_is_absolute};
use crate::text::appended;
use crate::uri::{parsed_uri, Uri};
use crate::{detection_view, Detection, Detector};

verus! {

/// Detects local paths and makes them absolute `file://` sources.
pub struct File;

/// The source for the absolute path `whole`.
pub open spec fn file_source(whole: Seq<char>) -> Seq<char> {
    "file://"@ + whole
}

/// What the detector answers on `path`, given whether `path` is a URL and
/// the base directory at which relative paths start, where it is known. A
/// URL is no local path; a relative path without a base directory cannot be
/// resolved.
pub open spec fn local_detection(is_uri: bool, path: Seq<char>, base: Option<Seq<char>>) -> Detection {
    if is_uri {
        Ok(None)
    } else {
        match absolute(path, base) {
            Ok(whole) => Ok(Some(file_source(whole))),
            Err(e) => Err(e),
        }
    }
}

/// What the detector answers on `path` where relative paths start at `base`.
pub open spec fn file_detection(base: Option<Seq<char>>, path: Seq<char>) -> Detection {
    local_detection(parsed_uri(path) is Some, path, base)
}

/// Whether the answer on `path` depends on the base directory: `path` is no
/// URL and is relative.
pub open spec fn wants_base(path: Seq<char>) -> bool {
    parsed_uri(path) is None && !path_is_absolute(path)
}

impl File {
    /// The source for the absolute path `whole`.
    pub fn source_of(whole: &str) -> (source: String)
        ensures
            source@ == file_source(whole@),
    {
        appended("file://", whole)
    }

    /// Whether the base directory is needed to answer on `path`.
    pub fn needs_base(path: &str) -> (yes: bool)
        ensures
            yes == wants_base(path@),
    {
        !Uri::is_uri(path) && is_relative(path)
    }

    /// The answer on `path`, given whether `path` is a URL.
    pub fn detect_parsed(&self, path: &str, is_uri: bool, base: Option<&str>) -> (r: Result<
        Option<String>,
        Error,
    >)
        ensures
            detection_view(r) == local_detection(is_uri, path@, base_view(base)),
    {
        if is_uri {
            return Ok(None);
        }
        let whole = absolute_path(path, base)?;
        Ok(Some(File::source_of(whole.as_str())))
    }

    /// The answer on `path` where relative paths start at `base`, the
    /// working directory; `None` where that is not known.
    pub fn detect_from(&self, path: &str, base: Option<&str>) -> (r: Result<Option<String>, Error>)
        ensures
            detection_view(r) == file_detection(base_view(base), path@),
    {
        self.detect_parsed(path, Uri::is_uri(path), base)
    }
}

/// On its own the detector knows no base directory.
impl Detector for File {
    open spec fn yields(&self, path: Seq<char>, out: Detection) -> bool {
        out == file_detection(None, path)
    }

    fn detect(&self, path: &str) -> (r: Result<Option<String>, Error>) {
        self.detect_from(path, None)
    }
}

} // verus!
