//! The errors of resolution and dispatch.

use vstd::prelude::*;

verus! {

/// The cause that the URL parser reports for a string it rejects. Nothing in
/// this library looks inside it.
#[verifier::external_type_specification]
#[verifier::external_body]
pub struct ExUrlParseError(url::ParseError);

/// Why a source could not be resolved or fetched.
#[derive(Debug)]
pub enum Error {
    /// The input has the shape of a known kind of source but breaks its
    /// structure: the input, then the reason.
    InvalidUrl(String, String),
    /// The file system, or the working directory, could not be consulted.
    Io,
    /// A getter was used before its backend client was set.
    ClientNotSet,
    /// The source of a link does not exist.
    SourceNotFound,
    /// No detector recognises the input, or no getter is registered for the
    /// scheme: the input, or the scheme.
    GetterNotFound(String),
    /// The destination exists and is not a symbolic link.
    DestinationExists,
    /// The directories above the destination could not be created.
    DestinationNotCreated,
    /// A string that must be a URL is none.
    UrlParseError(url::ParseError),
    /// The backend failed; the cause stays with whoever talked to it.
    Unknown,
}

/// An [`Error`] as contracts speak of it: strings by their characters, the
/// URL parser's cause left out.
pub enum ErrorView {
    InvalidUrl(Seq<char>, Seq<char>),
    Io,
    ClientNotSet,
    SourceNotFound,
    GetterNotFound(Seq<char>),
    DestinationExists,
    DestinationNotCreated,
    UrlParseError,
    Unknown,
}

impl View for Error {
    type V = ErrorView;

    open spec fn view(&self) -> ErrorView {
        match self {
            Error::InvalidUrl(input, reason) => ErrorView::InvalidUrl(input@, reason@),
            Error::Io => ErrorView::Io,
            Error::ClientNotSet => ErrorView::ClientNotSet,
            Error::SourceNotFound => ErrorView::SourceNotFound,
            Error::GetterNotFound(name) => ErrorView::GetterNotFound(name@),
            Error::DestinationExists => ErrorView::DestinationExists,
            Error::DestinationNotCreated => ErrorView::DestinationNotCreated,
            Error::UrlParseError(_) => ErrorView::UrlParseError,
            Error::Unknown => ErrorView::Unknown,
        }
    }
}

} // verus!
