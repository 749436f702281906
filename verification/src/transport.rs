//! What the worker hands to the network and what it gets back, as plain
//! values: the outbound call built from a request, and the reply that the
//! remote side gave.

use crate::headers::{
    lemma_lines_to_map_names, lemma_lines_to_map_value, line_views, lines_to_map, names_distinct,
    Headers,
};
use crate::messages::{HTTPRequest, Method, RequestView};
use vstd::prelude::*;
use vstd::utf8::{decode_utf8, valid_utf8};

verus! {

/// The name of the header that carries the correlation token to the
/// remote side.
pub open spec fn correlation_header() -> Seq<char> {
    "request_id"@
}

/// The characters of which a header name may consist: letters, digits and
/// fifteen marks.
pub open spec fn is_name_char(c: char) -> bool {
    ||| 'a' <= c <= 'z'
    ||| 'A' <= c <= 'Z'
    ||| '0' <= c <= '9'
    ||| c == '!'
    ||| c == '#'
    ||| c == '$'
    ||| c == '%'
    ||| c == '&'
    ||| c == '\''
    ||| c == '*'
    ||| c == '+'
    ||| c == '-'
    ||| c == '.'
    ||| c == '^'
    ||| c == '_'
    ||| c == '`'
    ||| c == '|'
    ||| c == '~'
}

/// A header name is well formed when it is not empty, shorter than 65536
/// characters, and made of name characters alone.
pub open spec fn header_name_valid(name: Seq<char>) -> bool {
    &&& 1 <= name.len() <= 65535
    &&& forall|i: int| 0 <= i < name.len() ==> is_name_char(#[trigger] name[i])
}

/// The characters that a header value may hold: the tab, and whatever is
/// neither a control character nor the delete character.
pub open spec fn is_value_char(c: char) -> bool {
    c == '\t' || (' ' <= c && c != '\x7f')
}

/// A header value is well formed when it is made of value characters
/// alone.
pub open spec fn header_value_valid(value: Seq<char>) -> bool {
    forall|i: int| 0 <= i < value.len() ==> is_value_char(#[trigger] value[i])
}

/// A header mapping is well formed when each of its names and each of its
/// values is.
pub open spec fn headers_valid(headers: Map<Seq<char>, Seq<char>>) -> bool {
    forall|name: Seq<char>| #[trigger]
        headers.contains_key(name) ==> header_name_valid(name) && header_value_valid(headers[name])
}

/// `HeaderName::try_from(&String)` of the `http` crate, as `reqwest`
/// exports it: whether the text parses as a header name. By the crate's
/// source it does when it has between 1 and 65535 bytes, each of them one
/// of the characters of an HTTP token; such text has one byte for each
/// character.
#[verifier::external_body]
fn name_parses(name: &String) -> (ok: bool)
    ensures
        ok == header_name_valid(name@),
{
    reqwest::header::HeaderName::try_from(name).is_ok()
}

/// `HeaderValue::try_from(&String)` of the `http` crate, as `reqwest`
/// exports it: whether the text parses as a header value. By the crate's
/// source it does when no byte is below 32, but for the tab, and none is
/// 127; the bytes of a character beyond ASCII are all above 127.
#[verifier::external_body]
fn value_parses(value: &String) -> (ok: bool)
    ensures
        ok == header_value_valid(value@),
{
    reqwest::header::HeaderValue::try_from(value).is_ok()
}

/// Whether every name and every value of the mapping parses as a header
/// name or value.
pub fn headers_parse(headers: &Headers) -> (ok: bool)
    ensures
        ok == headers_valid(headers@),
{
    let entries = headers.pairs();
    let ghost lines = line_views(entries@);
    proof {
        lemma_lines_to_map_names(lines);
    }
    let mut i: usize = 0;
    while i < entries.len()
        invariant
            i <= entries.len(),
            lines == line_views(entries@),
            names_distinct(lines),
            lines_to_map(lines) == headers@,
            forall|j: int|
                0 <= j < i ==> header_name_valid(#[trigger] lines[j].0) && header_value_valid(
                    lines[j].1,
                ),
        decreases entries.len() - i,
    {
        let good = name_parses(&entries[i].0) && value_parses(&entries[i].1);
        if !good {
            proof {
                lemma_lines_to_map_value(lines, i as int);
            }
            return false;
        }
        i += 1;
    }
    proof {
        assert forall|name: Seq<char>| #[trigger]
            headers@.contains_key(name) implies header_name_valid(name) && header_value_valid(
            headers@[name],
        ) by {
            lemma_lines_to_map_names(lines);
            let j = choose|j: int| 0 <= j < lines.len() && #[trigger] lines[j].0 == name;
            lemma_lines_to_map_value(lines, j);
        }
    }
    true
}

/// The call that the network side is to make for one request.
#[derive(Debug, PartialEq)]
pub struct OutboundCall {
    /// Retrieval or submission.
    pub method: Method,
    /// The target of the call.
    pub url: String,
    /// The caller's headers, as supplied.
    pub headers: Headers,
    /// The header that is added to them: the correlation header's name,
    /// and the token as its value.
    pub added_header: (String, String),
    /// The body of a submission, to be sent as structured data.
    pub body: Option<serde_json::Value>,
}

/// What an outbound call is, as plain values.
pub struct CallView {
    pub method: Method,
    pub url: Seq<char>,
    pub headers: Map<Seq<char>, Seq<char>>,
    pub added_header: (Seq<char>, Seq<char>),
    pub body: Option<serde_json::Value>,
}

impl View for OutboundCall {
    type V = CallView;

    open spec fn view(&self) -> CallView {
        CallView {
            method: self.method,
            url: self.url@,
            headers: self.headers@,
            added_header: (self.added_header.0@, self.added_header.1@),
            body: self.body,
        }
    }
}

/// The call for a request: same kind, target, headers and body, and the
/// correlation header with the request's token.
pub open spec fn call_for(request: RequestView) -> CallView {
    CallView {
        method: request.method,
        url: request.url,
        headers: request.headers,
        added_header: (correlation_header(), request.req_id),
        body: request.body,
    }
}

/// Builds the call for a request.
pub fn outbound_call(request: HTTPRequest) -> (call: OutboundCall)
    ensures
        call@ == call_for(request@),
{
    let name = "request_id".to_owned();
    match request {
        HTTPRequest::GET(data) => OutboundCall {
            method: Method::Get,
            url: data.url,
            headers: data.not_req_id_headers,
            added_header: (name, data.req_id),
            body: None,
        },
        HTTPRequest::POST(data) => OutboundCall {
            method: Method::Post,
            url: data.url,
            headers: data.not_req_id_headers,
            added_header: (name, data.req_id),
            body: Some(data.body),
        },
    }
}

/// What came back from a completed call. A header value that the network
/// side could not render as text is `None`; the body is as it was read,
/// byte for byte.
#[derive(Debug, PartialEq)]
pub struct TransportReply {
    /// The status code, whatever it is.
    pub status_code: u16,
    /// The header lines in the order in which they came.
    pub header_lines: Vec<(String, Option<String>)>,
    /// The bytes of the body.
    pub body: Vec<u8>,
}

/// What a reply is, as plain values.
pub struct ReplyView {
    pub status_code: u16,
    pub header_lines: Seq<(Seq<char>, Option<Seq<char>>)>,
    pub body: Seq<u8>,
}

/// The views of the strings of one reply line.
pub open spec fn reply_line_view(line: (String, Option<String>)) -> (Seq<char>, Option<Seq<char>>) {
    (
        line.0@,
        match line.1 {
            Some(text) => Some(text@),
            None => None,
        },
    )
}

impl View for TransportReply {
    type V = ReplyView;

    open spec fn view(&self) -> ReplyView {
        ReplyView {
            status_code: self.status_code,
            header_lines: self.header_lines@.map_values(
                |line: (String, Option<String>)| reply_line_view(line),
            ),
            body: self.body@,
        }
    }
}

/// `String::from_utf8` of the standard library: the text that the bytes
/// are the UTF-8 encoding of, or nothing where they are no valid UTF-8.
#[verifier::external_body]
pub(crate) fn text_of(bytes: Vec<u8>) -> (text: Option<String>)
    ensures
        text matches Some(decoded) ==> valid_utf8(bytes@) && decoded@ == decode_utf8(bytes@),
        text is None ==> !valid_utf8(bytes@),
{
    String::from_utf8(bytes).ok()
}

/// Every header value of the reply came as text.
pub open spec fn reply_lines_are_text(lines: Seq<(Seq<char>, Option<Seq<char>>)>) -> bool {
    forall|i: int| 0 <= i < lines.len() ==> (#[trigger] lines[i]).1 is Some
}

/// The reply's header lines as pairs of name and text.
pub open spec fn reply_lines_text(lines: Seq<(Seq<char>, Option<Seq<char>>)>) -> Seq<
    (Seq<char>, Seq<char>),
> {
    lines.map_values(|line: (Seq<char>, Option<Seq<char>>)| (line.0, line.1->0))
}

} // verus!
