//! The parts of a URL, how a URL is taken apart into them and put together again.

use vstd::prelude::*;

verus! {

/// The parts of a URL as the rules see them. `query` is the raw text between `?` and `#`.
#[derive(Debug, Clone, PartialEq, Eq)]
pub struct UrlComponents {
    pub scheme: String,
    pub host: String,
    pub path: String,
    pub query: Option<String>,
    pub fragment: Option<String>,
}

/// The parts of a URL as sequences of characters: what the contracts speak of.
pub struct UrlParts {
    pub scheme: Seq<char>,
    pub host: Seq<char>,
    pub path: Seq<char>,
    pub query: Option<Seq<char>>,
    pub fragment: Option<Seq<char>>,
}

/// Why a string was not taken for an absolute URL.
#[derive(Debug, Clone, Copy, PartialEq, Eq, Structural)]
pub enum ParseError {
    /// No scheme stands before a `:`.
    MissingScheme,
    /// No host follows `//`.
    MissingHost,
}

/// The view of an optional string.
pub open spec fn text_of(s: Option<String>) -> Option<Seq<char>> {
    match s {
        Some(t) => Some(t@),
        None => None,
    }
}

impl View for UrlComponents {
    type V = UrlParts;

    open spec fn view(&self) -> UrlParts {
        UrlParts {
            scheme: self.scheme@,
            host: self.host@,
            path: self.path@,
            query: text_of(self.query),
            fragment: text_of(self.fragment),
        }
    }
}

/// What `urlparse::urlparse` makes of a string: its scheme, network location, path, query and
/// fragment.
pub uninterp spec fn parsed_url(raw: Seq<char>) -> UrlParts;

/// The parts joined as they stand: scheme, `://`, host and path, then `?` and the query and `#`
/// and the fragment where there is one.
pub open spec fn joined(p: UrlParts) -> Seq<char> {
    p.scheme + seq![':', '/', '/'] + p.host + p.path + (match p.query {
        Some(q) => seq!['?'] + q,
        None => Seq::empty(),
    }) + (match p.fragment {
        Some(f) => seq!['#'] + f,
        None => Seq::empty(),
    })
}

/// `t`, unless it is empty.
pub open spec fn non_empty(t: Option<Seq<char>>) -> Option<Seq<char>> {
    match t {
        Some(s) if s.len() > 0 => t,
        _ => None,
    }
}

/// The URL that the parts spell. An empty query or fragment is left out with its mark.
pub open spec fn serialized(p: UrlParts) -> Seq<char> {
    joined(UrlParts { query: non_empty(p.query), fragment: non_empty(p.fragment), ..p })
}

/// What parsing makes of `raw`: the parts, or the reason why `raw` is no absolute URL.
pub open spec fn parse_outcome(raw: Seq<char>) -> Result<UrlParts, ParseError> {
    let p = parsed_url(raw);
    if p.scheme.len() == 0 {
        Err(ParseError::MissingScheme)
    } else if p.host.len() == 0 {
        Err(ParseError::MissingHost)
    } else {
        Ok(p)
    }
}

/// Calls `urlparse::urlparse` and keeps the five parts that the rules read. The contract
/// names the outcome; nothing more is claimed of it.
#[verifier::external_body]
fn split_url(raw: &str) -> (c: UrlComponents)
    ensures
        c@ == parsed_url(raw@),
{
    let url = urlparse::urlparse(raw);
    UrlComponents {
        scheme: url.scheme,
        host: url.netloc,
        path: url.path,
        query: url.query,
        fragment: url.fragment,
    }
}

/// Calls `urlparse::urlunparse` on the five parts. It writes the scheme, `://`, the network
/// location and the path, then `?` and the query if there is one, then `#` and the fragment
/// if there is one.
#[verifier::external_body]
fn join_url(c: UrlComponents) -> (r: String)
    ensures
        r@ == joined(c@),
{
    urlparse::urlunparse(
        urlparse::Url {
            scheme: c.scheme,
            netloc: c.host,
            path: c.path,
            query: c.query,
            fragment: c.fragment,
            username: None,
            password: None,
            hostname: None,
            port: None,
        },
    )
}

/// `t`, unless it is empty.
fn drop_empty(t: Option<String>) -> (r: Option<String>)
    ensures
        text_of(r) == non_empty(text_of(t)),
{
    match t {
        Some(s) => {
            if s.as_str().is_empty() {
                None
            } else {
                Some(s)
            }
        },
        None => None,
    }
}

impl UrlComponents {
    /// Takes `raw` apart. It fails when `raw` has no scheme or no host.
    pub fn parse(raw: &str) -> (r: Result<UrlComponents, ParseError>)
        ensures
            match parse_outcome(raw@) {
                Ok(p) => r is Ok && r->Ok_0@ == p,
                Err(e) => r == Err::<UrlComponents, ParseError>(e),
            },
    {
        let c = split_url(raw);
        if c.scheme.as_str().is_empty() {
            Err(ParseError::MissingScheme)
        } else if c.host.as_str().is_empty() {
            Err(ParseError::MissingHost)
        } else {
            Ok(c)
        }
    }

    /// Puts the parts together again.
    pub fn serialize(self) -> (r: String)
        ensures
            r@ == serialized(self@),
    {
        let c = UrlComponents {
            scheme: self.scheme,
            host: self.host,
            path: self.path,
            query: drop_empty(self.query),
            fragment: drop_empty(self.fragment),
        };
        join_url(c)
    }
}

} // verus!
