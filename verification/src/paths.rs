//! Local paths as strings: the three questions that the platform's path
//! rules answer, and the absolute, cleaned form of a path that rests on them.

use vstd::prelude::*;
use crate::error::{Error, ErrorView};

verus! {

/// Whether the platform's path rules take `path` for absolute.
pub uninterp spec fn path_is_absolute(path: Seq<char>) -> bool;

/// `path` adjoined to `base` by the platform's path rules.
pub uninterp spec fn path_joined(base: Seq<char>, path: Seq<char>) -> Seq<char>;

/// `path` with its `.` and `..` elements and repeated separators resolved
/// lexically, as `path_clean::clean` resolves them.
pub uninterp spec fn path_cleaned(path: Seq<char>) -> Seq<char>;

/// Calls `std::path::Path::is_absolute`. The contract claims only that the
/// answer is the one that [`path_is_absolute`] names for these characters:
/// std decides it from the text of the path alone, by the rules of the
/// platform the library is built for.
#[verifier::external_body]
fn is_absolute(path: &str) -> (yes: bool)
    ensures
        yes == path_is_absolute(path@),
{
    std::path::Path::new(path).is_absolute()
}

/// Calls `std::path::Path::join`. The contract claims only that the result is
/// the one that [`path_joined`] names for these characters: std builds it
/// from the two texts alone.
#[verifier::external_body]
fn join_paths(base: &str, path: &str) -> (whole: String)
    ensures
        whole@ == path_joined(base@, path@),
{
    std::path::Path::new(base).join(path).to_string_lossy().into_owned()
}

/// Calls `path_clean::clean`, which works on the text of the path and never
/// touches the file system. The contract claims only that the result is the
/// one that [`path_cleaned`] names for these characters.
#[verifier::external_body]
fn clean(path: &str) -> (cleaned: String)
    ensures
        cleaned@ == path_cleaned(path@),
{
    path_clean::clean(path).to_string_lossy().into_owned()
}

/// The absolute, cleaned form of `path`, where relative paths start at
/// `base`. A relative path without a base has none.
pub open spec fn absolute(path: Seq<char>, base: Option<Seq<char>>) -> Result<
    Seq<char>,
    ErrorView,
> {
    if path_is_absolute(path) {
        Ok(path_cleaned(path))
    } else {
        match base {
            Some(b) => Ok(path_cleaned(path_joined(b, path))),
            None => Err(ErrorView::Io),
        }
    }
}

/// The absolute, cleaned form of `path`. A relative path is resolved against
/// `base`, the working directory; where that is unknown the path cannot be
/// resolved.
pub fn absolute_path(path: &str, base: Option<&str>) -> (r: Result<String, Error>)
    ensures
        match r {
            Ok(p) => absolute(path@, crate::paths::base_view(base)) == Ok::<Seq<char>, ErrorView>(p@),
            Err(e) => absolute(path@, crate::paths::base_view(base)) == Err::<Seq<char>, ErrorView>(e@),
        },
{
    if is_absolute(path) {
        Ok(clean(path))
    } else {
        match base {
            Some(b) => {
                let whole = join_paths(b, path);
                Ok(clean(whole.as_str()))
            },
            None => Err(Error::Io),
        }
    }
}

/// Whether `path` is relative, so that it needs a base directory.
pub fn is_relative(path: &str) -> (yes: bool)
    ensures
        yes == !path_is_absolute(path@),
{
    !is_absolute(path)
}

/// The characters of an optional base directory.
pub open spec fn base_view(base: Option<&str>) -> Option<Seq<char>> {
    match base {
        Some(b) => Some(b@),
        None => None,
    }
}

} // verus!
