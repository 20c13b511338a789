use vstd::prelude::*;

use crate::error::FetchError;

verus! {

/// `url::ParseError`, the error of `url::Url::parse`, carried through opaque.
#[verifier::external_type_specification]
#[verifier::external_body]
pub struct ExParseError(url::ParseError);

/// What the resolution logic reads of a parsed absolute URL: its
/// `/`-separated path segments (none for a URL that cannot be a base) and
/// its fragment, the text after `#`.
pub struct LinkParts {
    pub segments: Option<Vec<String>>,
    pub fragment: Option<String>,
}

impl View for LinkParts {
    type V = (Option<Seq<Seq<char>>>, Option<Seq<char>>);

    open spec fn view(&self) -> Self::V {
        (
            match self.segments {
                Some(v) => Some(v.deep_view()),
                None => None,
            },
            match self.fragment {
                Some(f) => Some(f@),
                None => None,
            },
        )
    }
}

/// The path segments and fragment of `link` parsed as an absolute URL
/// (segments percent-encoded as the URL standard prescribes), or `None` when it
/// is not one.
pub uninterp spec fn url_parts(link: Seq<char>) -> Option<(Option<Seq<Seq<char>>>, Option<Seq<char>>)>;

/// Relies on `url::Url::parse`, then `Url::path_segments` and `Url::fragment` of
/// the URL it returns: whether the link parses, and into what, depends on its
/// text alone.
#[verifier::external_body]
fn parse_url(link: &str) -> (r: Result<LinkParts, url::ParseError>)
    ensures
        match r {
            Ok(p) => url_parts(link@) == Some(p@),
            Err(_) => url_parts(link@) is None,
        },
{
    match url::Url::parse(link) {
        Ok(u) => Ok(LinkParts {
            segments: u.path_segments().map(|s| s.map(|p| p.to_string()).collect()),
            fragment: u.fragment().map(|f| f.to_string()),
        }),
        Err(e) => Err(e),
    }
}

/// Parses `link` as an absolute URL into its path segments and fragment.
pub fn split_link(link: &str) -> (r: Result<LinkParts, FetchError>)
    ensures
        match r {
            Ok(p) => url_parts(link@) == Some(p@),
            Err(e) => url_parts(link@) is None && e == FetchError::MalformedUrl,
        },
{
    match parse_url(link) {
        Ok(p) => Ok(p),
        Err(_) => Err(FetchError::MalformedUrl),
    }
}

} // verus!
