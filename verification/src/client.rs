//! Binding: from an endpoint as the user wrote it to a request that an HTTP
//! client can perform, or to the reason why there is none.

use vstd::prelude::*;

use crate::entities::{EndpointData, EndpointView, Header, HeaderView, clone_headers, headers_view};
use crate::error::RequestError;
use crate::headers::{
    all_sendable, all_valid, ascending, bind_headers, effective_headers, listing,
};
use crate::method::{RequestMethod, method_named, parse_method};
use crate::text::chars_of;
use crate::url::{absolute_url, is_absolute_url};

verus! {

/// A request that can be performed: a verb, an absolute URL, and headers
/// with one value for each name, listed in ascending order of name.
#[derive(Debug, PartialEq, Eq)]
pub struct BoundRequest {
    method: RequestMethod,
    url: String,
    headers: Vec<Header>,
}

/// What a bound request holds.
pub struct BoundView {
    pub method: RequestMethod,
    pub url: Seq<char>,
    pub headers: Seq<HeaderView>,
}

/// What binding an endpoint gives. The URL is looked at first, then the
/// method, then the headers, and the first of them that is found wanting
/// decides the error. The URL is kept as it was written.
pub open spec fn bind_spec(e: EndpointView) -> Result<BoundView, RequestError> {
    if !is_absolute_url(e.url) {
        Err(RequestError::InvalidUrl)
    } else if method_named(e.method) is None {
        Err(RequestError::UnsupportedMethod)
    } else if !all_valid(e.headers) {
        Err(RequestError::InvalidHeader)
    } else {
        Ok(
            BoundView {
                method: method_named(e.method)->Some_0,
                url: e.url,
                headers: listing(effective_headers(e.headers)),
            },
        )
    }
}

impl View for BoundRequest {
    type V = BoundView;

    closed spec fn view(&self) -> BoundView {
        BoundView { method: self.method, url: self.url@, headers: headers_view(self.headers@) }
    }
}

impl BoundRequest {
    #[verifier::type_invariant]
    spec fn well_formed(self) -> bool {
        &&& is_absolute_url(self.url@)
        &&& ascending(headers_view(self.headers@))
        &&& all_sendable(headers_view(self.headers@))
    }

    /// The verb.
    pub fn method(&self) -> (m: RequestMethod)
        ensures
            m == self@.method,
    {
        self.method
    }

    /// The URL, which is an absolute one.
    pub fn url(&self) -> (u: &str)
        ensures
            u@ == self@.url,
            is_absolute_url(u@),
    {
        proof {
            use_type_invariant(self);
        }
        self.url.as_str()
    }

    /// The headers, in strictly ascending order of name.
    pub fn headers(&self) -> (hs: &Vec<Header>)
        ensures
            headers_view(hs@) == self@.headers,
            ascending(self@.headers),
            all_sendable(self@.headers),
    {
        proof {
            use_type_invariant(self);
        }
        &self.headers
    }
}

impl Clone for BoundRequest {
    fn clone(&self) -> (b: BoundRequest)
        ensures
            b@ == self@,
    {
        proof {
            use_type_invariant(self);
        }
        BoundRequest {
            method: self.method,
            url: self.url.clone(),
            headers: clone_headers(&self.headers),
        }
    }
}

/// Binds an endpoint to a request.
pub fn bind(endpoint: EndpointData) -> (r: Result<BoundRequest, RequestError>)
    ensures
        match r {
            Ok(bound) => bind_spec(endpoint@) == Ok::<BoundView, RequestError>(bound@),
            Err(e) => bind_spec(endpoint@) == Err::<BoundView, RequestError>(e),
        },
{
    let url_chars = chars_of(endpoint.url.as_str());
    if !absolute_url(&url_chars) {
        return Err(RequestError::InvalidUrl);
    }
    let method = match parse_method(endpoint.method.as_str()) {
        Ok(method) => method,
        Err(e) => {
            return Err(e);
        },
    };
    let headers = match bind_headers(&endpoint.headers) {
        Ok(headers) => headers,
        Err(e) => {
            return Err(e);
        },
    };
    Ok(BoundRequest { method, url: endpoint.url, headers })
}

} // verus!
