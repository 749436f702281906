//! The envelopes that cross the bridge: requests going out, responses
//! coming back.

use crate::headers::Headers;
use vstd::prelude::*;

verus! {

/// A JSON value, `serde_json::Value`: the body of a submission. The bridge
/// carries it through and never looks inside.
#[verifier::external_type_specification]
#[verifier::external_body]
pub struct ExJsonValue(serde_json::Value);

/// The two kinds of outbound call.
#[derive(Clone, Copy, Debug, PartialEq, Eq, Structural)]
pub enum Method {
    /// A retrieval.
    Get,
    /// A submission with a body.
    Post,
}

/// A retrieval request.
#[derive(Debug, PartialEq)]
pub struct GETData {
    /// The correlation token, chosen by the caller.
    pub req_id: String,
    /// The target of the call.
    pub url: String,
    /// The caller's headers, the correlation header not among them.
    pub not_req_id_headers: Headers,
}

/// A submission request.
#[derive(Debug, PartialEq)]
pub struct POSTData {
    /// The correlation token, chosen by the caller.
    pub req_id: String,
    /// The target of the call.
    pub url: String,
    /// The caller's headers, the correlation header not among them.
    pub not_req_id_headers: Headers,
    /// The value to send as structured data.
    pub body: serde_json::Value,
}

/// A request envelope.
#[derive(Debug, PartialEq)]
pub enum HTTPRequest {
    GET(GETData),
    POST(POSTData),
}

/// What a request is, as plain values.
pub struct RequestView {
    pub method: Method,
    pub req_id: Seq<char>,
    pub url: Seq<char>,
    pub headers: Map<Seq<char>, Seq<char>>,
    pub body: Option<serde_json::Value>,
}

impl View for GETData {
    type V = RequestView;

    open spec fn view(&self) -> RequestView {
        RequestView {
            method: Method::Get,
            req_id: self.req_id@,
            url: self.url@,
            headers: self.not_req_id_headers@,
            body: None,
        }
    }
}

impl View for POSTData {
    type V = RequestView;

    open spec fn view(&self) -> RequestView {
        RequestView {
            method: Method::Post,
            req_id: self.req_id@,
            url: self.url@,
            headers: self.not_req_id_headers@,
            body: Some(self.body),
        }
    }
}

impl View for HTTPRequest {
    type V = RequestView;

    open spec fn view(&self) -> RequestView {
        match self {
            HTTPRequest::GET(data) => data@,
            HTTPRequest::POST(data) => data@,
        }
    }
}

/// What the remote side answered.
#[derive(Debug, PartialEq)]
pub struct HTTPResponseData {
    /// The headers of the reply.
    pub all_headers: Headers,
    /// The status code of the reply, whatever it is.
    pub status_code: u16,
    /// The body of the reply, as text.
    pub body: String,
}

/// A response envelope: the token of the request it answers, and either
/// the reply or the mark of a failed call, which carries no detail.
#[derive(Debug, PartialEq)]
pub struct HTTPResponse {
    pub request_id: String,
    pub data: Result<HTTPResponseData, ()>,
}

/// What a reply is, as plain values.
pub struct ResponseDataView {
    pub all_headers: Map<Seq<char>, Seq<char>>,
    pub status_code: u16,
    pub body: Seq<char>,
}

/// What a response is, as plain values.
pub struct ResponseView {
    pub request_id: Seq<char>,
    pub data: Result<ResponseDataView, ()>,
}

impl View for HTTPResponseData {
    type V = ResponseDataView;

    open spec fn view(&self) -> ResponseDataView {
        ResponseDataView {
            all_headers: self.all_headers@,
            status_code: self.status_code,
            body: self.body@,
        }
    }
}

impl View for HTTPResponse {
    type V = ResponseView;

    open spec fn view(&self) -> ResponseView {
        ResponseView {
            request_id: self.request_id@,
            data: match self.data {
                Ok(reply) => Ok(reply@),
                Err(_) => Err(()),
            },
        }
    }
}

impl HTTPRequest {
    /// The correlation token of the request.
    pub fn req_id(&self) -> (token: &String)
        ensures
            token@ == self@.req_id,
    {
        match self {
            HTTPRequest::GET(data) => &data.req_id,
            HTTPRequest::POST(data) => &data.req_id,
        }
    }
}

} // verus!
