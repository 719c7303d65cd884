//! SIP messages and their wire form.

use vstd::prelude::*;
use vstd::string::*;
use vstd::utf8::encode_utf8;
use bytes::Bytes;
use crate::numeral::{decimal, push_decimal};
use crate::sip::header::{find_header, header_value, header_views, Header, HeaderView};
use crate::sip::method::Method;
use crate::sip::response::{reason_of, StatusCode};
use crate::sip::uri::{uri_text, Uri, UriView};
use crate::text::{append_str, string_of};

verus! {

/// `bytes::Bytes`, a buffer of bytes. Nothing is seen of its inside; what it
/// holds is told by `bytes_of`.
#[verifier::external_type_specification]
#[verifier::external_body]
pub struct ExBytes(bytes::Bytes);

/// The bytes that a `Bytes` buffer holds.
pub uninterp spec fn bytes_of(b: Bytes) -> Seq<u8>;

/// A clone of a `Bytes` buffer holds the same bytes.
pub assume_specification[ <bytes::Bytes as Clone>::clone ](b: &Bytes) -> (r: Bytes)
    ensures
        bytes_of(r) == bytes_of(*b),
;

/// `Bytes::new` makes an empty buffer.
#[verifier::external_body]
pub(crate) fn bytes_new() -> (b: Bytes)
    ensures
        bytes_of(b) == Seq::<u8>::empty(),
{
    Bytes::new()
}

/// `Bytes::from` takes over the bytes of a vector unchanged.
#[verifier::external_body]
pub(crate) fn bytes_from_vec(v: Vec<u8>) -> (b: Bytes)
    ensures
        bytes_of(b) == v@,
{
    Bytes::from(v)
}

/// `Bytes::len` is the number of bytes held.
#[verifier::external_body]
pub(crate) fn bytes_len(b: &Bytes) -> (n: usize)
    ensures
        n == bytes_of(*b).len(),
{
    b.len()
}

/// Indexing a `Bytes` buffer below its length gives the byte held there.
#[verifier::external_body]
pub(crate) fn bytes_at(b: &Bytes, i: usize) -> (x: u8)
    requires
        i < bytes_of(*b).len(),
    ensures
        x == bytes_of(*b)[i as int],
{
    b[i]
}

/// Appends the bytes of `b` to `out`.
pub fn append_bytes(out: &mut Vec<u8>, b: &Bytes)
    ensures
        final(out)@ == old(out)@ + bytes_of(*b),
{
    let n = bytes_len(b);
    let mut i: usize = 0;
    while i < n
        invariant
            i <= n,
            n == bytes_of(*b).len(),
            out@ == old(out)@ + bytes_of(*b).take(i as int),
        decreases n - i,
    {
        out.push(bytes_at(b, i));
        i += 1;
        assert(bytes_of(*b).take(i as int) == bytes_of(*b).take(i - 1).push(bytes_of(*b)[i - 1]));
    }
    assert(bytes_of(*b).take(n as int) == bytes_of(*b));
}

pub open spec fn crlf() -> Seq<char> {
    seq!['\r', '\n']
}

/// The wire form of one header: `Name: value` and a line end.
pub open spec fn header_text(h: HeaderView) -> Seq<char> {
    h.name + seq![':', ' '] + h.value + crlf()
}

/// The wire form of a header list, in order.
pub open spec fn headers_text(hs: Seq<HeaderView>) -> Seq<char>
    decreases hs.len(),
{
    if hs.len() == 0 {
        Seq::empty()
    } else {
        headers_text(hs.drop_last()) + header_text(hs.last())
    }
}

/// What a request holds.
pub struct RequestView {
    pub method: Seq<char>,
    pub uri: UriView,
    pub version: Seq<char>,
    pub headers: Seq<HeaderView>,
    pub body: Seq<u8>,
}

/// What a response holds.
pub struct ResponseView {
    pub version: Seq<char>,
    pub status: u16,
    pub reason: Seq<char>,
    pub headers: Seq<HeaderView>,
    pub body: Seq<u8>,
}

/// What a message holds.
pub enum MessageView {
    Request(RequestView),
    Response(ResponseView),
}

/// The text of a request before its body: request line, headers, empty line.
pub open spec fn request_head(r: RequestView) -> Seq<char> {
    r.method + seq![' '] + uri_text(r.uri) + seq![' '] + r.version + crlf() + headers_text(
        r.headers,
    ) + crlf()
}

/// The text of a response before its body: status line, headers, empty line.
pub open spec fn response_head(r: ResponseView) -> Seq<char> {
    r.version + seq![' '] + decimal(r.status as nat) + seq![' '] + r.reason + crlf()
        + headers_text(r.headers) + crlf()
}

/// The wire form of a request.
pub open spec fn request_bytes(r: RequestView) -> Seq<u8> {
    encode_utf8(request_head(r)) + r.body
}

/// The wire form of a response.
pub open spec fn response_bytes(r: ResponseView) -> Seq<u8> {
    encode_utf8(response_head(r)) + r.body
}

/// The wire form of a message.
pub open spec fn message_bytes(m: MessageView) -> Seq<u8> {
    match m {
        MessageView::Request(r) => request_bytes(r),
        MessageView::Response(r) => response_bytes(r),
    }
}

fn write_headers(out: &mut Vec<char>, headers: &Vec<Header>)
    ensures
        final(out)@ == old(out)@ + headers_text(header_views(headers@)),
{
    let ghost hv = header_views(headers@);
    let mut i: usize = 0;
    assert(hv.take(0) =~= Seq::empty());
    while i < headers.len()
        invariant
            i <= headers.len(),
            hv == header_views(headers@),
            out@ == old(out)@ + headers_text(hv.take(i as int)),
        decreases headers.len() - i,
    {
        let ghost before = out@;
        append_str(out, headers[i].name.as_str());
        out.push(':');
        out.push(' ');
        append_str(out, headers[i].value.as_str());
        out.push('\r');
        out.push('\n');
        proof {
            assert(hv.take(i + 1).drop_last() =~= hv.take(i as int));
            assert(hv.take(i + 1).last() == hv[i as int]);
            assert(out@ =~= before + header_text(hv[i as int]));
        }
        i += 1;
    }
    assert(hv.take(headers.len() as int) =~= hv);
}

/// SIP request.
#[derive(Debug, Clone)]
pub struct Request {
    pub method: Method,
    pub uri: Uri,
    pub version: String,
    pub headers: Vec<Header>,
    pub body: Bytes,
}

impl View for Request {
    type V = RequestView;

    open spec fn view(&self) -> RequestView {
        RequestView {
            method: self.method@,
            uri: self.uri@,
            version: self.version@,
            headers: header_views(self.headers@),
            body: bytes_of(self.body),
        }
    }
}

impl Request {
    /// A request without headers or body, of version `SIP/2.0`.
    pub fn new(method: Method, uri: Uri) -> (r: Self)
        ensures
            r.method == method,
            r.uri == uri,
            r.version@ == "SIP/2.0"@,
            r.headers@.len() == 0,
            bytes_of(r.body).len() == 0,
    {
        Request { method, uri, version: "SIP/2.0".to_owned(), headers: Vec::new(), body: bytes_new() }
    }

    /// This request with one more header at the end.
    pub fn with_header(self, name: &str, value: &str) -> (r: Self)
        ensures
            r@.headers == self@.headers.push(HeaderView { name: name@, value: value@ }),
            r.method == self.method,
            r.uri == self.uri,
            r.version == self.version,
            r.body == self.body,
    {
        let mut r = self;
        r.headers.push(Header::new(name, value));
        assert(header_views(r.headers@) =~= header_views(self.headers@).push(
            HeaderView { name: name@, value: value@ },
        ));
        r
    }

    /// This request with `body` as its body.
    pub fn with_body(self, body: Vec<u8>) -> (r: Self)
        ensures
            r@.body == body@,
            r.method == self.method,
            r.uri == self.uri,
            r.version == self.version,
            r.headers == self.headers,
    {
        let mut r = self;
        r.body = bytes_from_vec(body);
        r
    }

    /// The first header named `name`, names compared without regard to ASCII
    /// case.
    pub fn get_header(&self, name: &str) -> (r: Option<&Header>)
        ensures
            r.is_some() <==> header_value(self@.headers, name@).is_some(),
            r.is_some() ==> r.unwrap().value@ == header_value(self@.headers, name@).unwrap(),
    {
        find_header(&self.headers, name)
    }

    /// The value of the first header named `name`.
    pub fn get_header_value(&self, name: &str) -> (r: Option<&str>)
        ensures
            r.is_some() <==> header_value(self@.headers, name@).is_some(),
            r.is_some() ==> r.unwrap()@ == header_value(self@.headers, name@).unwrap(),
    {
        match find_header(&self.headers, name) {
            Some(h) => Some(h.value.as_str()),
            None => None,
        }
    }

    /// Serialize to bytes: request line, headers in order, empty line, body.
    pub fn to_bytes(&self) -> (out: Vec<u8>)
        ensures
            out@ == request_bytes(self@),
    {
        let mut text: Vec<char> = Vec::new();
        append_str(&mut text, self.method.as_str());
        text.push(' ');
        self.uri.write_to(&mut text);
        text.push(' ');
        append_str(&mut text, self.version.as_str());
        text.push('\r');
        text.push('\n');
        write_headers(&mut text, &self.headers);
        text.push('\r');
        text.push('\n');
        assert(text@ =~= request_head(self@));
        let head = string_of(&text);
        let mut out = head.as_str().as_bytes_vec();
        append_bytes(&mut out, &self.body);
        out
    }
}

/// SIP response.
#[derive(Debug, Clone)]
pub struct Response {
    pub version: String,
    pub status_code: StatusCode,
    pub reason_phrase: String,
    pub headers: Vec<Header>,
    pub body: Bytes,
}

impl View for Response {
    type V = ResponseView;

    open spec fn view(&self) -> ResponseView {
        ResponseView {
            version: self.version@,
            status: self.status_code.0,
            reason: self.reason_phrase@,
            headers: header_views(self.headers@),
            body: bytes_of(self.body),
        }
    }
}

impl Response {
    /// A response with the canonical reason phrase of its code, without
    /// headers or body, of version `SIP/2.0`.
    pub fn new(status_code: StatusCode) -> (r: Self)
        ensures
            r.status_code == status_code,
            r.reason_phrase@ == reason_of(status_code.0),
            r.version@ == "SIP/2.0"@,
            r.headers@.len() == 0,
            bytes_of(r.body).len() == 0,
    {
        let reason_phrase = status_code.reason_phrase().to_owned();
        Response {
            version: "SIP/2.0".to_owned(),
            status_code,
            reason_phrase,
            headers: Vec::new(),
            body: bytes_new(),
        }
    }

    /// This response with one more header at the end.
    pub fn with_header(self, name: &str, value: &str) -> (r: Self)
        ensures
            r@.headers == self@.headers.push(HeaderView { name: name@, value: value@ }),
            r.status_code == self.status_code,
            r.reason_phrase == self.reason_phrase,
            r.version == self.version,
            r.body == self.body,
    {
        let mut r = self;
        r.headers.push(Header::new(name, value));
        assert(header_views(r.headers@) =~= header_views(self.headers@).push(
            HeaderView { name: name@, value: value@ },
        ));
        r
    }

    /// This response with `body` as its body.
    pub fn with_body(self, body: Vec<u8>) -> (r: Self)
        ensures
            r@.body == body@,
            r.status_code == self.status_code,
            r.reason_phrase == self.reason_phrase,
            r.version == self.version,
            r.headers == self.headers,
    {
        let mut r = self;
        r.body = bytes_from_vec(body);
        r
    }

    /// The first header named `name`, names compared without regard to ASCII
    /// case.
    pub fn get_header(&self, name: &str) -> (r: Option<&Header>)
        ensures
            r.is_some() <==> header_value(self@.headers, name@).is_some(),
            r.is_some() ==> r.unwrap().value@ == header_value(self@.headers, name@).unwrap(),
    {
        find_header(&self.headers, name)
    }

    /// The value of the first header named `name`.
    pub fn get_header_value(&self, name: &str) -> (r: Option<&str>)
        ensures
            r.is_some() <==> header_value(self@.headers, name@).is_some(),
            r.is_some() ==> r.unwrap()@ == header_value(self@.headers, name@).unwrap(),
    {
        match find_header(&self.headers, name) {
            Some(h) => Some(h.value.as_str()),
            None => None,
        }
    }

    /// Serialize to bytes: status line, headers in order, empty line, body.
    pub fn to_bytes(&self) -> (out: Vec<u8>)
        ensures
            out@ == response_bytes(self@),
    {
        let mut text: Vec<char> = Vec::new();
        append_str(&mut text, self.version.as_str());
        text.push(' ');
        push_decimal(&mut text, self.status_code.0 as u64);
        text.push(' ');
        append_str(&mut text, self.reason_phrase.as_str());
        text.push('\r');
        text.push('\n');
        write_headers(&mut text, &self.headers);
        text.push('\r');
        text.push('\n');
        assert(text@ =~= response_head(self@));
        let head = string_of(&text);
        let mut out = head.as_str().as_bytes_vec();
        append_bytes(&mut out, &self.body);
        out
    }
}

/// SIP message - either a request or a response.
#[derive(Debug, Clone)]
pub enum Message {
    Request(Request),
    Response(Response),
}

impl View for Message {
    type V = MessageView;

    open spec fn view(&self) -> MessageView {
        match self {
            Message::Request(r) => MessageView::Request(r@),
            Message::Response(r) => MessageView::Response(r@),
        }
    }
}

impl Message {
    pub fn is_request(&self) -> (b: bool)
        ensures
            b == (self is Request),
    {
        match self {
            Message::Request(_) => true,
            Message::Response(_) => false,
        }
    }

    pub fn is_response(&self) -> (b: bool)
        ensures
            b == (self is Response),
    {
        match self {
            Message::Request(_) => false,
            Message::Response(_) => true,
        }
    }

    pub fn as_request(&self) -> (r: Option<&Request>)
        ensures
            r == (match self {
                Message::Request(req) => Some(req),
                Message::Response(_) => None,
            }),
    {
        match self {
            Message::Request(req) => Some(req),
            Message::Response(_) => None,
        }
    }

    pub fn as_response(&self) -> (r: Option<&Response>)
        ensures
            r == (match self {
                Message::Response(res) => Some(res),
                Message::Request(_) => None,
            }),
    {
        match self {
            Message::Response(res) => Some(res),
            Message::Request(_) => None,
        }
    }

    /// The headers of the message, in order.
    pub fn headers(&self) -> (h: &Vec<Header>)
        ensures
            *h == (match self {
                Message::Request(req) => req.headers,
                Message::Response(res) => res.headers,
            }),
    {
        match self {
            Message::Request(req) => &req.headers,
            Message::Response(res) => &res.headers,
        }
    }

    /// The body of the message.
    pub fn body(&self) -> (b: &Bytes)
        ensures
            *b == (match self {
                Message::Request(req) => req.body,
                Message::Response(res) => res.body,
            }),
    {
        match self {
            Message::Request(req) => &req.body,
            Message::Response(res) => &res.body,
        }
    }

    /// Serialize to bytes.
    pub fn to_bytes(&self) -> (out: Vec<u8>)
        ensures
            out@ == message_bytes(self@),
    {
        match self {
            Message::Request(req) => req.to_bytes(),
            Message::Response(res) => res.to_bytes(),
        }
    }
}

} // verus!
