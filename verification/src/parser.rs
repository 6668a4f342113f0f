//! The source sites whose pages the application can parse, recognized from
//! a URL's domain.

use vstd::prelude::*;

use crate::text::{chars_eq, to_chars};

verus! {

/// The registered domain of a URL string, when the string parses as an
/// absolute URL with a domain host. A function of the string alone.
pub uninterp spec fn domain_of(url: Seq<char>) -> Option<Seq<char>>;

/// Relies on `url::Url::parse` and `Url::domain`: the domain of a
/// parseable absolute URL; deterministic in the string.
#[verifier::external_body]
fn parse_domain(url: &str) -> (r: Option<String>)
    ensures
        match r {
            Some(d) => domain_of(url@) == Some(d@),
            None => domain_of(url@) is None,
        },
{
    match url::Url::parse(url) {
        Ok(u) => u.domain().map(|d| d.to_string()),
        Err(_) => None,
    }
}

/// A supported novel-listing site, or none.
#[derive(Clone, Copy, PartialEq, Eq, Structural, Debug)]
pub enum NovelParser {
    Unsupported,
    NovelUpdates,
    RoyalRoad,
    ScribbleHub,
}

/// The site a URL's domain belongs to.
pub open spec fn parser_of_domain(d: Option<Seq<char>>) -> NovelParser {
    if d == Some("www.novelupdates.com"@) {
        NovelParser::NovelUpdates
    } else if d == Some("www.royalroad.com"@) {
        NovelParser::RoyalRoad
    } else if d == Some("www.scribblehub.com"@) {
        NovelParser::ScribbleHub
    } else {
        NovelParser::Unsupported
    }
}

impl NovelParser {
    /// Recognizes the site a URL belongs to by its domain.
    pub fn from_url(url: &str) -> (r: NovelParser)
        ensures
            r == parser_of_domain(domain_of(url@)),
    {
        match parse_domain(url) {
            Some(d) => {
                let dv = to_chars(d.as_str());
                let k1 = to_chars("www.novelupdates.com");
                if chars_eq(&dv, &k1) {
                    return NovelParser::NovelUpdates;
                }
                let k2 = to_chars("www.royalroad.com");
                if chars_eq(&dv, &k2) {
                    return NovelParser::RoyalRoad;
                }
                let k3 = to_chars("www.scribblehub.com");
                if chars_eq(&dv, &k3) {
                    return NovelParser::ScribbleHub;
                }
                NovelParser::Unsupported
            },
            None => NovelParser::Unsupported,
        }
    }

    /// Whether a parser exists for the site.
    pub fn is_supported(&self) -> (r: bool)
        ensures
            r == (*self != NovelParser::Unsupported),
    {
        !matches!(self, NovelParser::Unsupported)
    }

    /// The domain the site is recognized by.
    pub fn to_str(&self) -> (r: &'static str)
        ensures
            match self {
                NovelParser::NovelUpdates => r@ == "www.novelupdates.com"@,
                NovelParser::RoyalRoad => r@ == "www.royalroad.com"@,
                NovelParser::ScribbleHub => r@ == "www.scribblehub.com"@,
                NovelParser::Unsupported => r@ == "None"@,
            },
    {
        match self {
            NovelParser::NovelUpdates => "www.novelupdates.com",
            NovelParser::RoyalRoad => "www.royalroad.com",
            NovelParser::ScribbleHub => "www.scribblehub.com",
            NovelParser::Unsupported => "None",
        }
    }
}

} // verus!
