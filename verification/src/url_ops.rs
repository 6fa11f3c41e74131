//! Operations on asset identifiers, which are serialized URLs.
use vstd::prelude::*;

verus! {

/// Why a URL could not be parsed; the variants follow `url::ParseError`.
#[derive(Debug, Clone, Copy, PartialEq, Eq, Structural)]
pub enum UrlError {
    EmptyHost,
    IdnaError,
    InvalidPort,
    InvalidIpv4Address,
    InvalidIpv6Address,
    InvalidDomainCharacter,
    RelativeUrlWithoutBase,
    RelativeUrlWithCannotBeABaseBase,
    SetHostOnCannotBeABaseUrl,
    Overflow,
    /// A kind of parse error that this library does not know by name.
    Other,
}

/// The serialization that `url::Url::parse` produces for `input`, or the
/// error it reports.
pub uninterp spec fn url_parsed(input: Seq<char>) -> Result<Seq<char>, UrlError>;

/// The serialization that `url::Url::join` produces when `input` is read
/// relative to the URL that `base` parses to, or the error reported.
pub uninterp spec fn url_joined(base: Seq<char>, input: Seq<char>) -> Result<Seq<char>, UrlError>;

/// The file system path that `url::Url::to_file_path` gives for the URL that
/// `id` parses to, if there is one, as the bytes of the path in the operating
/// system's encoding (`OsString::into_encoded_bytes`).
pub uninterp spec fn url_file_path(id: Seq<char>) -> Option<Seq<u8>>;

/// The outcome of a URL operation, with the serialization as a sequence.
pub open spec fn outcome_view(res: Result<String, UrlError>) -> Result<Seq<char>, UrlError> {
    match res {
        Ok(s) => Ok(s@),
        Err(e) => Err(e),
    }
}

#[verifier::external_type_specification]
#[verifier::external_body]
pub struct ExParseError(url::ParseError);

/// Names the kind of a `url::ParseError`, one variant for each.
#[verifier::external_body]
fn error_kind(e: url::ParseError) -> UrlError {
    match e {
        url::ParseError::EmptyHost => UrlError::EmptyHost,
        url::ParseError::IdnaError => UrlError::IdnaError,
        url::ParseError::InvalidPort => UrlError::InvalidPort,
        url::ParseError::InvalidIpv4Address => UrlError::InvalidIpv4Address,
        url::ParseError::InvalidIpv6Address => UrlError::InvalidIpv6Address,
        url::ParseError::InvalidDomainCharacter => UrlError::InvalidDomainCharacter,
        url::ParseError::RelativeUrlWithoutBase => UrlError::RelativeUrlWithoutBase,
        url::ParseError::RelativeUrlWithCannotBeABaseBase => UrlError::RelativeUrlWithCannotBeABaseBase,
        url::ParseError::SetHostOnCannotBeABaseUrl => UrlError::SetHostOnCannotBeABaseUrl,
        url::ParseError::Overflow => UrlError::Overflow,
        _ => UrlError::Other,
    }
}

/// Calls `url::Url::parse` on `input` and returns the serialization of the
/// parsed URL (`Url::as_str`). Claimed: the outcome is `url_parsed(input)`.
#[verifier::external_body]
pub(crate) fn parse_url(input: &str) -> (res: Result<String, UrlError>)
    ensures
        outcome_view(res) == url_parsed(input@),
{
    match url::Url::parse(input) {
        Ok(u) => Ok(u.into()),
        Err(e) => Err(error_kind(e)),
    }
}

/// Parses `base` with `url::Url::parse` and reads `input` relative to it with
/// `url::Url::join`, returning the serialization of the result. Claimed: the
/// outcome is `url_joined(base, input)`.
#[verifier::external_body]
pub(crate) fn join_url(base: &str, input: &str) -> (res: Result<String, UrlError>)
    ensures
        outcome_view(res) == url_joined(base@, input@),
        url_parsed(base@) is Err ==> outcome_view(res) == url_parsed(base@),
{
    match url::Url::parse(base).and_then(|b| b.join(input)) {
        Ok(u) => Ok(u.into()),
        Err(e) => Err(error_kind(e)),
    }
}

/// Parses `id` with `url::Url::parse` and converts it with
/// `url::Url::to_file_path`; the path is returned as its encoded bytes.
/// Claimed: the result is `url_file_path(id)`.
#[verifier::external_body]
pub(crate) fn file_path_of(id: &str) -> (res: Option<Vec<u8>>)
    ensures
        match res {
            Some(p) => url_file_path(id@) == Some(p@),
            None => url_file_path(id@) is None,
        },
{
    let path = url::Url::parse(id).ok()?.to_file_path().ok()?;
    Some(path.into_os_string().into_encoded_bytes())
}

} // verus!
