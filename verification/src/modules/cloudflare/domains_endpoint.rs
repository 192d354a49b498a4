//! The endpoint that lists the registrar's domains of an account.

use vstd::prelude::*;
use vstd::string::*;

verus! {

#[derive(Debug)]
pub struct ListDomains {
    pub params: ListDomainsParams,
}

#[derive(Debug)]
pub struct ListDomainsParams {
    pub account: String,
}

/// The kind of body that a request carries.
#[derive(Clone, Copy, Debug, PartialEq, Eq, Structural)]
pub enum RequestBodyKind {
    Json,
    Raw,
    MultiPart,
}

/// The path of the listing for an account.
pub open spec fn list_domains_path(account: Seq<char>) -> Seq<char> {
    "accounts/"@ + account + "/registrar/domains"@
}

/// The media type of a body of the given kind.
pub open spec fn media_type(kind: RequestBodyKind) -> Seq<char> {
    match kind {
        RequestBodyKind::Json => "application/json"@,
        RequestBodyKind::Raw => "application/octet-stream"@,
        RequestBodyKind::MultiPart => "multipart/form-data"@,
    }
}

/// The media type that goes with a body, and none where there is no body.
pub fn media_type_of(body: Option<RequestBodyKind>) -> (r: Option<&'static str>)
    ensures
        match r {
            Some(text) => body matches Some(kind) && text@ == media_type(kind),
            None => body is None,
        },
{
    match body {
        Some(RequestBodyKind::Json) => Some("application/json"),
        Some(RequestBodyKind::Raw) => Some("application/octet-stream"),
        Some(RequestBodyKind::MultiPart) => Some("multipart/form-data"),
        None => None,
    }
}

impl ListDomains {
    /// The path of the request, below the root of the API.
    pub fn path(&self) -> (r: String)
        ensures
            r@ == list_domains_path(self.params.account@),
    {
        let mut out = "accounts/".to_owned();
        out.append(self.params.account.as_str());
        out.append("/registrar/domains");
        out
    }

    /// The request carries no body.
    pub fn body(&self) -> (r: Option<RequestBodyKind>)
        ensures
            r is None,
    {
        None
    }

    /// The request names no media type, as it carries no body.
    pub fn content_type(&self) -> (r: Option<&'static str>)
        ensures
            r is None,
    {
        media_type_of(self.body())
    }
}

} // verus!
