//! The shorthand `github.com/owner/repo[/path...]`.

use vstd::prelude::*;
use crate::error::{Error, ErrorView};
use crate::text::{
    appended, ends_with, join, joined, lemma_split_across_separator, lemma_split_without_separator,
    split, split_on, starts_with, views,
};
use crate::uri::{parsed_uri, repathed, Uri, UriView};
use crate::{detection_view, Detection, Detector};

verus! {

/// Detects sources that begin with `github.com/`.
pub struct Github;

/// The URL of the repository that the first three pieces of a shorthand
/// name: host, owner and repository.
pub open spec fn repository_url(parts: Seq<Seq<char>>) -> Seq<char> {
    "https://"@ + joined(parts.take(3), "/"@)
}

/// The repository's URL with a path that ends in `.git`.
pub open spec fn with_git_suffix(base: UriView) -> Result<UriView, ErrorView> {
    if ".git"@.is_suffix_of(base.path) {
        Ok(base)
    } else {
        repathed(base.text, base.path + ".git"@)
    }
}

/// The pieces of a shorthand after the repository, as one path.
pub open spec fn inner_path(parts: Seq<Seq<char>>) -> Seq<char> {
    joined(parts.skip(3), "/"@)
}

/// The repository's URL followed, after a double slash, by the path inside
/// the repository, where the shorthand has one.
pub open spec fn with_inner_path(repo: UriView, parts: Seq<Seq<char>>) -> Result<
    UriView,
    ErrorView,
> {
    if parts.len() > 3 {
        repathed(repo.text, repo.path + "//"@ + inner_path(parts))
    } else {
        Ok(repo)
    }
}

/// What the detector answers on a source that begins with `github.com/`.
pub open spec fn github_http_detection(path: Seq<char>) -> Detection {
    let parts = split_on(path, '/');
    if parts.len() < 3 {
        Err(
            ErrorView::InvalidUrl(
                path,
                "github.com urls should have the following format github.com/:username/:repo"@,
            ),
        )
    } else {
        match parsed_uri(repository_url(parts)) {
            None => Err(ErrorView::UrlParseError),
            Some(base) => match with_git_suffix(base) {
                Err(e) => Err(e),
                Ok(repo) => match with_inner_path(repo, parts) {
                    Err(e) => Err(e),
                    Ok(whole) => Ok(Some(whole.text)),
                },
            },
        }
    }
}

/// What the detector answers on any source.
pub open spec fn github_detection(path: Seq<char>) -> Detection {
    if "github.com/"@.is_prefix_of(path) {
        github_http_detection(path)
    } else {
        Ok(None)
    }
}

/// A shorthand with fewer than three pieces is refused, with the format that
/// is expected.
pub proof fn lemma_github_needs_three_pieces(path: Seq<char>)
    requires
        "github.com/"@.is_prefix_of(path),
        split_on(path, '/').len() < 3,
    ensures
        github_detection(path) == Err::<Option<Seq<char>>, ErrorView>(
            ErrorView::InvalidUrl(
                path,
                "github.com urls should have the following format github.com/:username/:repo"@,
            ),
        ),
{
}

/// A shorthand that names no repository is refused: behind `github.com/`
/// must stand an owner, a slash and a repository, so what holds no slash
/// there is too short.
pub proof fn lemma_github_needs_a_repository(rest: Seq<char>)
    requires
        forall|i: int| 0 <= i < rest.len() ==> rest[i] != '/',
    ensures
        github_detection("github.com/"@ + rest) == Err::<Option<Seq<char>>, ErrorView>(
            ErrorView::InvalidUrl(
                "github.com/"@ + rest,
                "github.com urls should have the following format github.com/:username/:repo"@,
            ),
        ),
{
    reveal_strlit("github.com/");
    let prefix = "github.com/"@;
    let host = prefix.drop_last();
    let path = prefix + rest;
    assert(path =~= host + seq!['/'] + rest);
    assert(path.subrange(0, prefix.len() as int) =~= prefix);
    lemma_split_without_separator(host, '/');
    lemma_split_without_separator(rest, '/');
    lemma_split_across_separator(host, rest, '/');
    assert(split_on(path, '/').len() == 2);
}

impl Detector for Github {
    open spec fn yields(&self, path: Seq<char>, out: Detection) -> bool {
        out == github_detection(path)
    }

    fn detect(&self, path: &str) -> (r: Result<Option<String>, Error>) {
        if starts_with(path, "github.com/") {
            self.detect_http(path)
        } else {
            Ok(None)
        }
    }
}

impl Github {
    /// The repository's URL with `.git` at the end of its path, added where
    /// the path does not end so already.
    pub fn repository(base: Uri) -> (r: Result<Uri, Error>)
        ensures
            match r {
                Ok(repo) => with_git_suffix(base@) == Ok::<UriView, ErrorView>(repo@),
                Err(e) => with_git_suffix(base@) == Err::<UriView, ErrorView>(e@),
            },
    {
        if ends_with(base.path.as_str(), ".git") {
            Ok(base)
        } else {
            let path = appended(base.path.as_str(), ".git");
            base.with_path(path.as_str())
        }
    }

    /// The repository's URL with the pieces of the shorthand after the
    /// repository appended behind a double slash, where there are any.
    pub fn inner(repo: Uri, parts: &Vec<&str>) -> (r: Result<Uri, Error>)
        ensures
            match r {
                Ok(whole) => with_inner_path(repo@, views(parts@)) == Ok::<UriView, ErrorView>(
                    whole@,
                ),
                Err(e) => with_inner_path(repo@, views(parts@)) == Err::<UriView, ErrorView>(e@),
            },
    {
        if parts.len() > 3 {
            let rest = join(parts, 3, parts.len(), "/");
            let marked = appended(repo.path.as_str(), "//");
            let path = appended(marked.as_str(), rest.as_str());
            assert(views(parts@).skip(3) =~= views(parts@).subrange(3, parts.len() as int));
            repo.with_path(path.as_str())
        } else {
            Ok(repo)
        }
    }

    /// Turns a source that begins with `github.com/` into the URL of the
    /// repository, or refuses it where owner or repository is missing.
    pub fn detect_http(&self, path: &str) -> (r: Result<Option<String>, Error>)
        ensures
            detection_view(r) == github_http_detection(path@),
    {
        let parts = split(path, '/');
        if parts.len() < 3 {
            return Err(
                Error::InvalidUrl(
                    path.to_owned(),
                    "github.com urls should have the following format github.com/:username/:repo".to_owned(),
                ),
            );
        }
        let head = join(&parts, 0, 3, "/");
        let url_string = appended("https://", head.as_str());
        assert(views(parts@).take(3) =~= views(parts@).subrange(0, 3));
        let base = Uri::parse(url_string.as_str())?;
        let repo = Github::repository(base)?;
        let whole = Github::inner(repo, &parts)?;
        Ok(Some(whole.text))
    }
}

} // verus!
