//! Locations: where a route reads from and where it writes to, given as URLs.

use vstd::prelude::*;

verus! {

/// The error of `url::Url::parse`. It is carried, never looked into.
#[verifier::external_type_specification]
#[verifier::external_body]
pub struct ExParseError(url::ParseError);

/// What a route needs of a parsed URL.
#[derive(Debug)]
pub struct Location {
    /// The URL as the parser writes it out again.
    pub text: String,
    /// Its scheme, without the `:`.
    pub scheme: String,
    /// Its path.
    pub path: String,
}

/// A location as mathematics.
pub struct LocationView {
    pub text: Seq<char>,
    pub scheme: Seq<char>,
    pub path: Seq<char>,
}

impl View for Location {
    type V = LocationView;

    open spec fn view(&self) -> LocationView {
        LocationView { text: self.text@, scheme: self.scheme@, path: self.path@ }
    }
}

/// What `url::Url::parse` makes of `input`: the serialization, the scheme
/// and the path of the URL, or nothing where `input` is no absolute URL.
pub uninterp spec fn parsed_url(input: Seq<char>) -> Option<LocationView>;

/// The scheme of the local file system.
pub open spec fn file_scheme() -> Seq<char> {
    seq!['f', 'i', 'l', 'e']
}

impl LocationView {
    /// Whether the location lies in the local file system.
    pub open spec fn is_local(self) -> bool {
        self.scheme == file_scheme()
    }
}

/// Calls `url::Url::parse` on `input` and, where that gives a URL, reads
/// its serialization (`Url::as_str`), its scheme (`Url::scheme`) and its path
/// (`Url::path`). The parser works on its argument alone, so what comes back
/// is named `parsed_url(input)`; an error stands for "no URL".
#[verifier::external_body]
pub(crate) fn parse_url(input: &str) -> (r: Result<Location, url::ParseError>)
    ensures
        match r {
            Ok(location) => parsed_url(input@) == Some(location@),
            Err(_) => parsed_url(input@) is None,
        },
{
    match url::Url::parse(input) {
        Ok(u) => Ok(
            Location {
                text: u.as_str().to_string(),
                scheme: u.scheme().to_string(),
                path: u.path().to_string(),
            },
        ),
        Err(e) => Err(e),
    }
}

impl Location {
    /// Parses a location string.
    pub fn parse(input: &str) -> (r: Option<Location>)
        ensures
            match r {
                Some(location) => parsed_url(input@) == Some(location@),
                None => parsed_url(input@) is None,
            },
    {
        match parse_url(input) {
            Ok(location) => Some(location),
            Err(_) => None,
        }
    }

    /// Whether the location lies in the local file system: only such a
    /// source is watched or scanned.
    pub fn is_local(&self) -> (local: bool)
        ensures
            local == self@.is_local(),
    {
        proof {
            reveal_strlit("file");
            assert("file"@ =~= file_scheme());
        }
        let file: String = "file".to_owned();
        self.scheme == file
    }
}

} // verus!
