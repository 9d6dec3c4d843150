//! Origins as URIs.

use vstd::prelude::*;

verus! {

/// The parts of a URI that origins are judged by.
#[derive(Debug)]
pub struct UriParts {
    pub scheme: Option<String>,
    pub authority: Option<String>,
    pub path_and_query: Option<String>,
}

/// The characters of an optional string.
pub open spec fn optional_chars(text: Option<String>) -> Option<Seq<char>> {
    match text {
        Some(text) => Some(text@),
        None => None,
    }
}

impl View for UriParts {
    type V = (Option<Seq<char>>, Option<Seq<char>>, Option<Seq<char>>);

    open spec fn view(&self) -> (Option<Seq<char>>, Option<Seq<char>>, Option<Seq<char>>) {
        (
            optional_chars(self.scheme),
            optional_chars(self.authority),
            optional_chars(self.path_and_query),
        )
    }
}

/// The scheme, the authority, and the path with its query of a text that is a URI.
pub uninterp spec fn uri_parts(text: Seq<char>) -> Option<
    (Option<Seq<char>>, Option<Seq<char>>, Option<Seq<char>>),
>;

/// Why a text is not a URI.
#[verifier::external_type_specification]
#[verifier::external_body]
pub struct ExInvalidUri(http::uri::InvalidUri);

/// `http::Uri::from_str`, and what `scheme_str`, `authority` and `path_and_query` give of it. The
/// contract claims only that the outcome is determined by the text.
#[verifier::external_body]
pub(crate) fn parse_uri(text: &str) -> (parsed: Result<UriParts, http::uri::InvalidUri>)
    ensures
        match parsed {
            Ok(parts) => uri_parts(text@) == Some(parts@),
            Err(_) => uri_parts(text@) is None,
        },
{
    let uri: http::Uri = text.parse()?;
    Ok(UriParts {
        scheme: uri.scheme_str().map(str::to_owned),
        authority: uri.authority().map(|authority| authority.as_str().to_owned()),
        path_and_query: uri.path_and_query().map(|path| path.as_str().to_owned()),
    })
}

} // verus!
