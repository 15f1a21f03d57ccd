//! The messages that pass through the proxy, as plain values.

use crate::headers::copy_lines;
use vstd::prelude::*;

verus! {

/// A request on the proxy route.
#[derive(Debug, PartialEq, Eq)]
pub struct Request {
    /// The method, as the request line gives it.
    pub method: String,
    /// The path behind the route's prefix: the target without its query.
    pub url_no_query: String,
    /// The query string, without the `?`; empty where there is none.
    pub query_string: String,
    /// The headers, in order.
    pub headers: Vec<(String, String)>,
}

/// A request as mathematical values.
pub struct RequestView {
    pub method: Seq<char>,
    pub url_no_query: Seq<char>,
    pub query_string: Seq<char>,
    pub headers: Seq<(Seq<char>, Seq<char>)>,
}

impl View for Request {
    type V = RequestView;

    open spec fn view(&self) -> RequestView {
        RequestView {
            method: self.method@,
            url_no_query: self.url_no_query@,
            query_string: self.query_string@,
            headers: self.headers.deep_view(),
        }
    }
}

impl Clone for Request {
    fn clone(&self) -> (copy: Self)
        ensures
            copy@ == self@,
    {
        Request {
            method: self.method.clone(),
            url_no_query: self.url_no_query.clone(),
            query_string: self.query_string.clone(),
            headers: copy_lines(&self.headers),
        }
    }
}

/// The request that is sent to the origin.
#[derive(Debug, PartialEq, Eq)]
pub struct OriginRequest {
    pub method: String,
    pub url: String,
    pub headers: Vec<(String, String)>,
}

/// A request to the origin as mathematical values.
pub struct OriginRequestView {
    pub method: Seq<char>,
    pub url: Seq<char>,
    pub headers: Seq<(Seq<char>, Seq<char>)>,
}

impl View for OriginRequest {
    type V = OriginRequestView;

    open spec fn view(&self) -> OriginRequestView {
        OriginRequestView {
            method: self.method@,
            url: self.url@,
            headers: self.headers.deep_view(),
        }
    }
}

/// The numbers that are status codes: those of three decimal digits.
pub open spec fn is_status_code(code: int) -> bool {
    100 <= code <= 999
}

/// An HTTP status code.
#[derive(Debug, Clone, Copy, PartialEq, Eq)]
pub struct StatusCode {
    code: u16,
}

impl View for StatusCode {
    type V = u16;

    closed spec fn view(&self) -> u16 {
        self.code
    }
}

impl StatusCode {
    #[verifier::type_invariant]
    spec fn has_three_digits(self) -> bool {
        is_status_code(self.code as int)
    }

    /// The status code with the number `code`; `None` where that is no status
    /// code.
    pub fn from_u16(code: u16) -> (r: Option<StatusCode>)
        ensures
            match r {
                Some(status) => status@ == code && is_status_code(code as int),
                None => !is_status_code(code as int),
            },
    {
        if 100 <= code && code <= 999 {
            Some(StatusCode { code })
        } else {
            None
        }
    }

    /// The status code with the number `code`, as a store holds it; `None`
    /// where that is no status code.
    pub fn from_i64(code: i64) -> (r: Option<StatusCode>)
        ensures
            match r {
                Some(status) => status@ == code && is_status_code(code as int),
                None => !is_status_code(code as int),
            },
    {
        if 100 <= code && code <= 999 {
            Some(StatusCode { code: code as u16 })
        } else {
            None
        }
    }

    /// The number of the status code.
    pub fn as_u16(&self) -> (code: u16)
        ensures
            code == self@,
            is_status_code(code as int),
    {
        proof {
            use_type_invariant(self);
        }
        self.code
    }

    /// 200, the status of success.
    pub fn ok() -> (status: StatusCode)
        ensures
            status@ == 200,
    {
        StatusCode { code: 200 }
    }

    /// 500, the status of a failure of the server.
    pub fn internal_server_error() -> (status: StatusCode)
        ensures
            status@ == 500,
    {
        StatusCode { code: 500 }
    }

    /// 404, the status of a path that leads nowhere.
    pub fn not_found() -> (status: StatusCode)
        ensures
            status@ == 404,
    {
        StatusCode { code: 404 }
    }
}

/// A response: what the origin gave, and what the client is sent.
#[derive(Debug, PartialEq, Eq)]
pub struct Response {
    /// The status code.
    pub status_code: StatusCode,
    /// The headers, in order.
    pub headers: Vec<(String, String)>,
    /// The body.
    pub body: Vec<u8>,
}

/// A response as mathematical values.
pub struct ResponseView {
    pub status_code: u16,
    pub headers: Seq<(Seq<char>, Seq<char>)>,
    pub body: Seq<u8>,
}

impl View for Response {
    type V = ResponseView;

    open spec fn view(&self) -> ResponseView {
        ResponseView {
            status_code: self.status_code@,
            headers: self.headers.deep_view(),
            body: self.body@,
        }
    }
}

/// A copy of a body.
pub fn copy_bytes(bytes: &Vec<u8>) -> (copy: Vec<u8>)
    ensures
        copy@ == bytes@,
{
    let mut copy: Vec<u8> = Vec::new();
    let mut k: usize = 0;
    while k < bytes.len()
        invariant
            k <= bytes.len(),
            copy@ == bytes@.take(k as int),
        decreases bytes.len() - k,
    {
        copy.push(bytes[k]);
        assert(bytes@.take(k + 1) =~= bytes@.take(k as int).push(bytes@[k as int]));
        k += 1;
    }
    assert(bytes@.take(bytes.len() as int) =~= bytes@);
    copy
}

impl Clone for Response {
    fn clone(&self) -> (copy: Self)
        ensures
            copy@ == self@,
    {
        Response {
            status_code: self.status_code,
            headers: copy_lines(&self.headers),
            body: copy_bytes(&self.body),
        }
    }
}

} // verus!
