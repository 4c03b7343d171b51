//! HTTP requests and responses as plain values.

use vstd::prelude::*;
use vstd::string::*;

verus! {

/// Where a request is directed: the components of its URI.
///
/// An empty query is not the same as no query: it is written as a trailing `?`.
#[derive(Debug, PartialEq, Eq)]
pub struct Target {
    pub scheme: Option<String>,
    pub authority: Option<String>,
    pub path: String,
    pub query: Option<String>,
}

/// A request, as the client sends it to the homeserver.
#[derive(Debug, PartialEq, Eq)]
pub struct HttpRequest {
    pub method: String,
    pub target: Target,
    pub headers: Vec<(String, Vec<u8>)>,
    pub body: Vec<u8>,
}

/// A response, as the homeserver gives it to the client.
#[derive(Debug, PartialEq, Eq)]
pub struct HttpResponse {
    pub status: u16,
    pub headers: Vec<(String, Vec<u8>)>,
    pub body: Vec<u8>,
}

impl Target {
    /// The URI in writing: `scheme://authority` as far as they are there, the path, and the query
    /// behind a `?`.
    pub open spec fn written(&self) -> Seq<char> {
        let scheme = match self.scheme {
            Some(s) => s@ + "://"@,
            None => Seq::<char>::empty(),
        };
        let authority = match self.authority {
            Some(s) => s@,
            None => Seq::<char>::empty(),
        };
        let query = match self.query {
            Some(s) => "?"@ + s@,
            None => Seq::<char>::empty(),
        };
        scheme + authority + self.path@ + query
    }

    /// The URI in writing.
    pub fn text(&self) -> (text: String)
        ensures
            text@ == self.written(),
    {
        let mut text = String::new();
        if let Some(scheme) = &self.scheme {
            text.append(scheme.as_str());
            text.append("://");
        }
        if let Some(authority) = &self.authority {
            text.append(authority.as_str());
        }
        text.append(self.path.as_str());
        if let Some(query) = &self.query {
            text.append("?");
            text.append(query.as_str());
        }
        assert(text@ =~= self.written());
        text
    }
}

/// The URI in writing, for every combination of the parts that may be missing.
pub proof fn law_target_in_writing(target: Target)
    ensures
        target.written() == match (target.scheme, target.authority, target.query) {
            (None, None, None) => target.path@,
            (None, None, Some(query)) => target.path@ + "?"@ + query@,
            (None, Some(authority), None) => authority@ + target.path@,
            (None, Some(authority), Some(query)) => authority@ + target.path@ + "?"@ + query@,
            (Some(scheme), None, None) => scheme@ + "://"@ + target.path@,
            (Some(scheme), None, Some(query)) => scheme@ + "://"@ + target.path@ + "?"@ + query@,
            (Some(scheme), Some(authority), None) => scheme@ + "://"@ + authority@ + target.path@,
            (Some(scheme), Some(authority), Some(query)) => scheme@ + "://"@ + authority@
                + target.path@ + "?"@ + query@,
        },
{
    match (target.scheme, target.authority, target.query) {
        (None, None, None) => {
            assert(target.written() =~= target.path@);
        },
        (None, None, Some(query)) => {
            assert(target.written() =~= target.path@ + "?"@ + query@);
        },
        (None, Some(authority), None) => {
            assert(target.written() =~= authority@ + target.path@);
        },
        (None, Some(authority), Some(query)) => {
            assert(target.written() =~= authority@ + target.path@ + "?"@ + query@);
        },
        (Some(scheme), None, None) => {
            assert(target.written() =~= scheme@ + "://"@ + target.path@);
        },
        (Some(scheme), None, Some(query)) => {
            assert(target.written() =~= scheme@ + "://"@ + target.path@ + "?"@ + query@);
        },
        (Some(scheme), Some(authority), None) => {
            assert(target.written() =~= scheme@ + "://"@ + authority@ + target.path@);
        },
        (Some(scheme), Some(authority), Some(query)) => {
            assert(target.written() =~= scheme@ + "://"@ + authority@ + target.path@ + "?"@
                + query@);
        },
    }
}

} // verus!
