//! Reading SIP messages from the wire.
//!
//! A message is a start line, header lines, an empty line and a body. Lines
//! end with a line feed; a carriage return before it is not part of the
//! line. A header line that starts with a space or a tab continues the
//! header before it. The start line and the headers are UTF-8 text; the
//! body is bytes, of which nothing is asked.

use vstd::prelude::*;
use vstd::string::*;
use vstd::utf8::{decode_utf8, encode_utf8, valid_utf8};
use crate::numeral::{parse_number, parse_unsigned};
use crate::sip::header::{
    find_header, header_value, header_views, Header, HeaderName, HeaderValue, HeaderView,
};
use crate::sip::message::{
    bytes_from_vec, Message, MessageView, Request, RequestView, Response, ResponseView,
};
use crate::sip::method::Method;
use crate::sip::response::StatusCode;
use crate::sip::uri::{read_uri, uri_at, Uri, UriView};
use crate::text::{
    append_chars, chars_of, is_blank, matches_at, occurs_at, scan, scan_class, slice_of,
    string_of, string_of_range, trim, trim_chars, CharClass,
};

verus! {

/// Why a byte string is not a SIP message.
#[derive(Debug, Clone, Copy, PartialEq, Eq, Structural)]
pub enum ParseError {
    /// The start line and the headers are not UTF-8.
    InvalidEncoding,
    /// The message ends before its header section does, or holds fewer body
    /// bytes than its `Content-Length` announces.
    Truncated,
    /// The first line is neither a request line nor a status line.
    MalformedStartLine,
    /// A line of the header section is not `Name: value`.
    MalformedHeader,
}

impl ParseError {
    /// A description of the error.
    pub fn message(&self) -> (s: String)
        ensures
            s@ == (match self {
                ParseError::InvalidEncoding => "Invalid SIP message: not UTF-8"@,
                ParseError::Truncated => "Invalid SIP message: truncated"@,
                ParseError::MalformedStartLine => "Invalid SIP message: malformed start line"@,
                ParseError::MalformedHeader => "Invalid SIP message: malformed header"@,
            }),
    {
        match self {
            ParseError::InvalidEncoding => "Invalid SIP message: not UTF-8".to_owned(),
            ParseError::Truncated => "Invalid SIP message: truncated".to_owned(),
            ParseError::MalformedStartLine => "Invalid SIP message: malformed start line".to_owned(),
            ParseError::MalformedHeader => "Invalid SIP message: malformed header".to_owned(),
        }
    }
}

/// The index of the line feed that ends the line starting at `pos`, or the
/// length of `s` when the line is not ended.
pub open spec fn line_end(s: Seq<char>, pos: int) -> int {
    scan(s, CharClass::Except('\n'), pos)
}

/// Where the content of the line `s[pos..e]` ends: before a carriage return
/// that stands last.
pub open spec fn content_end(s: Seq<char>, pos: int, e: int) -> int {
    if pos < e && s[e - 1] == '\r' {
        e - 1
    } else {
        e
    }
}

/// The method and URI of the request line `s[0..c]`:
/// `METHOD blanks URI blanks SIP/2.0`.
pub open spec fn request_line(s: Seq<char>, c: int) -> Option<(Seq<char>, UriView)> {
    let m = scan(s, CharClass::Name, 0);
    let b1 = scan(s, CharClass::Blank, m);
    if 0 < m < b1 {
        match uri_at(s, b1) {
            Some((uri, u)) => {
                let b2 = scan(s, CharClass::Blank, u);
                if u < b2 && occurs_at(s, "SIP/2.0"@, b2) && b2 + 7 == c {
                    Some((s.subrange(0, m), uri))
                } else {
                    None
                }
            },
            None => None,
        }
    } else {
        None
    }
}

/// The code and reason of the status line `s[0..c]`:
/// `SIP/2.0 blanks code blanks reason`.
pub open spec fn status_line(s: Seq<char>, c: int) -> Option<(u16, Seq<char>)> {
    if occurs_at(s, "SIP/2.0"@, 0) {
        let b1 = scan(s, CharClass::Blank, 7);
        let d = scan(s, CharClass::Digit, b1);
        let b2 = scan(s, CharClass::Blank, d);
        if 7 < b1 && d < b2 && b2 <= c {
            match parse_unsigned(s.subrange(b1, d), 65535) {
                Some(n) => Some((n as u16, s.subrange(b2, c))),
                None => None,
            }
        } else {
            None
        }
    } else {
        None
    }
}

/// The header that the line `s[pos..c]` is: a name, a colon, and a value
/// taken without the white space around it.
pub open spec fn header_at(s: Seq<char>, pos: int, c: int) -> Option<HeaderView> {
    let n = scan(s, CharClass::Name, pos);
    if pos < n < c && s[n] == ':' {
        Some(HeaderView { name: s.subrange(pos, n), value: trim(s.subrange(n + 1, c)) })
    } else {
        None
    }
}

/// `value` extended by the continuation lines that start at `pos`, each
/// joined by one space and taken without the white space around it; with
/// the index of the first line that is no continuation.
pub open spec fn fold_from(s: Seq<char>, pos: int, value: Seq<char>) -> (Seq<char>, int)
    decreases s.len() - pos,
{
    if 0 <= pos < s.len() && is_blank(s[pos]) {
        let e = line_end(s, pos);
        if pos < e < s.len() {
            fold_from(s, e + 1, value + seq![' '] + trim(s.subrange(pos, content_end(s, pos, e))))
        } else {
            (value, pos)
        }
    } else {
        (value, pos)
    }
}

/// The headers from `pos` up to the empty line, after those in `acc`, with
/// the index at which the body starts.
pub open spec fn headers_from(s: Seq<char>, pos: int, acc: Seq<HeaderView>) -> Result<
    (Seq<HeaderView>, int),
    ParseError,
>
    decreases s.len() - pos,
{
    let e = line_end(s, pos);
    if !(0 <= pos <= e < s.len()) {
        Err(ParseError::Truncated)
    } else {
        let c = content_end(s, pos, e);
        if c == pos {
            Ok((acc, e + 1))
        } else {
            match header_at(s, pos, c) {
                None => Err(ParseError::MalformedHeader),
                Some(h) => {
                    let (value, next) = fold_from(s, e + 1, h.value);
                    if e < next <= s.len() {
                        headers_from(s, next, acc.push(HeaderView { name: h.name, value }))
                    } else {
                        Err(ParseError::Truncated)
                    }
                },
            }
        }
    }
}

/// The body length that the first `Content-Length` header announces, if
/// there is one and it holds a number.
pub open spec fn declared_length(headers: Seq<HeaderView>) -> Option<nat> {
    match header_value(headers, "Content-Length"@) {
        Some(v) => parse_unsigned(v, 0xffff_ffff),
        None => None,
    }
}

/// The body, given the bytes after the header section: as many bytes as
/// `Content-Length` announces, or all of them when nothing is announced.
pub open spec fn body_of(headers: Seq<HeaderView>, rest: Seq<u8>) -> Result<Seq<u8>, ParseError> {
    match declared_length(headers) {
        Some(n) => if n <= rest.len() {
            Ok(rest.take(n as int))
        } else {
            Err(ParseError::Truncated)
        },
        None => Ok(rest),
    }
}

/// What the first line of a message holds.
pub enum StartLineView {
    Request(Seq<char>, UriView),
    Status(u16, Seq<char>),
}

/// The start line and the headers of the text `s`, with the index at which
/// the body starts.
pub open spec fn head_of(s: Seq<char>) -> Result<(StartLineView, Seq<HeaderView>, int), ParseError> {
    let e = line_end(s, 0);
    if !(0 <= e < s.len()) {
        Err(ParseError::Truncated)
    } else {
        let c = content_end(s, 0, e);
        let start = match request_line(s, c) {
            Some((method, uri)) => Some(StartLineView::Request(method, uri)),
            None => match status_line(s, c) {
                Some((status, reason)) => Some(StartLineView::Status(status, reason)),
                None => None,
            },
        };
        match start {
            None => Err(ParseError::MalformedStartLine),
            Some(line) => match headers_from(s, e + 1, Seq::empty()) {
                Err(x) => Err(x),
                Ok((headers, b)) => Ok((line, headers, b)),
            },
        }
    }
}

/// The message with the given start line, headers and body.
pub open spec fn message_of(line: StartLineView, headers: Seq<HeaderView>, body: Seq<u8>) -> MessageView {
    match line {
        StartLineView::Request(method, uri) => MessageView::Request(
            RequestView { method, uri, version: "SIP/2.0"@, headers, body },
        ),
        StartLineView::Status(status, reason) => MessageView::Response(
            ResponseView { version: "SIP/2.0"@, status, reason, headers, body },
        ),
    }
}

/// The length of the longest prefix of `b`, of at most `n` bytes, that is
/// UTF-8.
pub open spec fn utf8_prefix_within(b: Seq<u8>, n: int) -> int
    decreases n,
{
    if n <= 0 {
        0
    } else if n <= b.len() && valid_utf8(b.take(n)) {
        n
    } else {
        utf8_prefix_within(b, n - 1)
    }
}

/// The length of the longest prefix of `b` that is UTF-8.
pub open spec fn utf8_prefix(b: Seq<u8>) -> int {
    utf8_prefix_within(b, b.len() as int)
}

/// The message that the bytes `b` are.
///
/// The start line and the headers are read from the text of the longest
/// prefix of the bytes that is UTF-8. The body is taken from the bytes
/// behind the empty line, whatever they are. A head that ends where the
/// bytes stop to be UTF-8 is not UTF-8.
pub open spec fn parse_bytes(b: Seq<u8>) -> Result<MessageView, ParseError> {
    let n = utf8_prefix(b);
    let text = decode_utf8(b.take(n));
    match head_of(text) {
        Err(x) => if x == ParseError::Truncated && n < b.len() {
            Err(ParseError::InvalidEncoding)
        } else {
            Err(x)
        },
        Ok((line, headers, at)) => match body_of(
            headers,
            b.skip(encode_utf8(text.take(at)).len() as int),
        ) {
            Err(x) => Err(x),
            Ok(body) => Ok(message_of(line, headers, body)),
        },
    }
}

/// The UTF-8 form of two texts, one behind the other, is the UTF-8 forms of
/// the texts, one behind the other.
pub proof fn lemma_encode_concat(a: Seq<char>, b: Seq<char>)
    ensures
        encode_utf8(a + b) == encode_utf8(a) + encode_utf8(b),
    decreases a.len(),
{
    if a.len() == 0 {
        assert(a + b =~= b);
        assert(encode_utf8(a) + encode_utf8(b) =~= encode_utf8(b));
    } else {
        lemma_encode_concat(a.drop_first(), b);
        assert((a + b).drop_first() =~= a.drop_first() + b);
        assert((a + b)[0] == a[0]);
        assert(encode_utf8(a + b) =~= encode_utf8(a) + encode_utf8(b));
    }
}

/// The longest UTF-8 prefix within `n` bytes is UTF-8, and no longer prefix
/// within `n` bytes is.
pub proof fn lemma_utf8_prefix_within(b: Seq<u8>, n: int)
    requires
        0 <= n <= b.len(),
    ensures
        0 <= utf8_prefix_within(b, n) <= n,
        valid_utf8(b.take(utf8_prefix_within(b, n))),
        forall|j: int| utf8_prefix_within(b, n) < j <= n ==> !valid_utf8(#[trigger] b.take(j)),
    decreases n,
{
    if n <= 0 {
        assert(b.take(0).len() == 0);
    } else if !valid_utf8(b.take(n)) {
        lemma_utf8_prefix_within(b, n - 1);
    }
}

/// The length `r` is that of the longest UTF-8 prefix where the prefix of
/// that length is UTF-8 and no longer one is.
pub proof fn lemma_utf8_prefix_is(b: Seq<u8>, r: int)
    requires
        0 <= r <= b.len(),
        valid_utf8(b.take(r)),
        forall|j: int| r < j <= b.len() ==> !valid_utf8(#[trigger] b.take(j)),
    ensures
        utf8_prefix(b) == r,
{
    lemma_utf8_prefix_within(b, b.len() as int);
}

/// `core::str::from_utf8` accepts exactly the valid UTF-8 byte strings, and
/// the text it gives encodes to the bytes it was given.
#[verifier::external_body]
pub(crate) fn utf8_text(input: &[u8]) -> (r: Option<&str>)
    ensures
        r is Some <==> valid_utf8(input@),
        r is Some ==> encode_utf8(r.unwrap()@) == input@,
{
    core::str::from_utf8(input).ok()
}

/// Where `core::str::from_utf8` accepts the bytes, their number; where it
/// fails, `Utf8Error::valid_up_to` of its error: the greatest length of a
/// prefix of the bytes that it accepts.
#[verifier::external_body]
pub(crate) fn utf8_valid_up_to(input: &[u8]) -> (n: usize)
    ensures
        n <= input@.len(),
        valid_utf8(input@.take(n as int)),
        forall|j: int| n < j <= input@.len() ==> !valid_utf8(#[trigger] input@.take(j)),
{
    match core::str::from_utf8(input) {
        Ok(_) => input.len(),
        Err(e) => e.valid_up_to(),
    }
}

fn read_content_end(v: &Vec<char>, pos: usize, e: usize) -> (c: usize)
    requires
        pos <= e <= v.len(),
    ensures
        c == content_end(v@, pos as int, e as int),
        pos <= c <= e,
{
    if pos < e && v[e - 1] == '\r' {
        e - 1
    } else {
        e
    }
}

fn read_request_line(v: &Vec<char>, c: usize) -> (r: Option<(Method, Uri)>)
    requires
        c <= v.len(),
    ensures
        match r {
            Some((m, u)) => request_line(v@, c as int) == Some((m@, u@)),
            None => request_line(v@, c as int) is None,
        },
{
    let m = scan_class(v, &CharClass::Name, 0);
    let b1 = scan_class(v, &CharClass::Blank, m);
    if !(0 < m && m < b1) {
        return None;
    }
    match read_uri(v, b1) {
        None => None,
        Some((uri, u)) => {
            let b2 = scan_class(v, &CharClass::Blank, u);
            let version = chars_of("SIP/2.0");
            proof {
                reveal_strlit("SIP/2.0");
            }
            if u < b2 && matches_at(v, &version, b2) && b2 + 7 == c {
                let name = string_of_range(v, 0, m);
                Some((Method::from_name(name.as_str()), uri))
            } else {
                None
            }
        },
    }
}

fn read_status_line(v: &Vec<char>, c: usize) -> (r: Option<(u16, String)>)
    requires
        c <= v.len(),
    ensures
        match r {
            Some((code, reason)) => status_line(v@, c as int) == Some((code, reason@)),
            None => status_line(v@, c as int) is None,
        },
{
    let version = chars_of("SIP/2.0");
    proof {
        reveal_strlit("SIP/2.0");
    }
    if !matches_at(v, &version, 0) {
        return None;
    }
    let b1 = scan_class(v, &CharClass::Blank, 7);
    let d = scan_class(v, &CharClass::Digit, b1);
    let b2 = scan_class(v, &CharClass::Blank, d);
    if !(7 < b1 && d < b2 && b2 <= c) {
        return None;
    }
    let digits = slice_of(v, b1, d);
    match parse_number(&digits, 65535) {
        Some(n) => Some((n as u16, string_of_range(v, b2, c))),
        None => None,
    }
}

fn read_header_at(v: &Vec<char>, pos: usize, c: usize) -> (r: Option<(String, Vec<char>)>)
    requires
        pos <= c <= v.len(),
    ensures
        match r {
            Some((name, value)) => header_at(v@, pos as int, c as int) == Some(
                HeaderView { name: name@, value: value@ },
            ),
            None => header_at(v@, pos as int, c as int) is None,
        },
{
    let n = scan_class(v, &CharClass::Name, pos);
    if pos < n && n < c && v[n] == ':' {
        let raw = slice_of(v, n + 1, c);
        Some((string_of_range(v, pos, n), trim_chars(&raw)))
    } else {
        None
    }
}

fn read_fold(v: &Vec<char>, pos: usize, first: Vec<char>) -> (r: (Vec<char>, usize))
    requires
        pos <= v.len(),
    ensures
        fold_from(v@, pos as int, first@) == (r.0@, r.1 as int),
        pos <= r.1 <= v.len(),
{
    let ghost start = first@;
    let mut value = first;
    let mut at: usize = pos;
    while at < v.len() && (v[at] == ' ' || v[at] == '\t')
        invariant
            pos <= at <= v.len(),
            start == first@,
            fold_from(v@, pos as int, start) == fold_from(v@, at as int, value@),
        decreases v.len() - at,
    {
        let e = scan_class(v, &CharClass::Except('\n'), at);
        assert(at < e);
        if e < v.len() {
            let c = read_content_end(v, at, e);
            let raw = slice_of(v, at, c);
            let piece = trim_chars(&raw);
            let ghost before = value@;
            value.push(' ');
            append_chars(&mut value, &piece);
            assert(value@ =~= before + seq![' '] + trim(v@.subrange(at as int, c as int)));
            at = e + 1;
        } else {
            return (value, at);
        }
    }
    (value, at)
}

fn read_headers(v: &Vec<char>, pos: usize) -> (r: Result<(Vec<Header>, usize), ParseError>)
    requires
        pos <= v.len(),
    ensures
        match r {
            Ok((h, b)) => headers_from(v@, pos as int, Seq::empty()) == Ok::<
                (Seq<HeaderView>, int),
                ParseError,
            >((header_views(h@), b as int)) && pos <= b <= v.len(),
            Err(x) => headers_from(v@, pos as int, Seq::empty()) == Err::<
                (Seq<HeaderView>, int),
                ParseError,
            >(x),
        },
{
    let mut acc: Vec<Header> = Vec::new();
    let mut at: usize = pos;
    assert(header_views(acc@) =~= Seq::empty());
    loop
        invariant
            pos <= at <= v.len(),
            headers_from(v@, pos as int, Seq::empty()) == headers_from(
                v@,
                at as int,
                header_views(acc@),
            ),
        decreases v.len() - at,
    {
        let e = scan_class(v, &CharClass::Except('\n'), at);
        if e >= v.len() {
            return Err(ParseError::Truncated);
        }
        let c = read_content_end(v, at, e);
        if c == at {
            return Ok((acc, e + 1));
        }
        match read_header_at(v, at, c) {
            None => {
                return Err(ParseError::MalformedHeader);
            },
            Some((name, first)) => {
                let (value, next) = read_fold(v, e + 1, first);
                let ghost before = header_views(acc@);
                acc.push(Header { name: HeaderName(name), value: HeaderValue(string_of(&value)) });
                assert(header_views(acc@) =~= before.push(
                    HeaderView { name: name@, value: value@ },
                ));
                at = next;
            },
        }
    }
}

fn read_body(headers: &Vec<Header>, rest: Vec<u8>) -> (r: Result<Vec<u8>, ParseError>)
    ensures
        match r {
            Ok(b) => body_of(header_views(headers@), rest@) == Ok::<Seq<u8>, ParseError>(b@),
            Err(x) => body_of(header_views(headers@), rest@) == Err::<Seq<u8>, ParseError>(x),
        },
{
    match content_length(headers) {
        Some(n) => {
            if n as usize <= rest.len() {
                let mut body = rest;
                body.truncate(n as usize);
                assert(body@ =~= rest@.take(n as int));
                Ok(body)
            } else {
                Err(ParseError::Truncated)
            }
        },
        None => Ok(rest),
    }
}

/// The first line of a message.
#[derive(Debug, Clone)]
pub enum StartLine {
    Request(Method, Uri),
    Status(u16, String),
}

impl View for StartLine {
    type V = StartLineView;

    open spec fn view(&self) -> StartLineView {
        match self {
            StartLine::Request(method, uri) => StartLineView::Request(method@, uri@),
            StartLine::Status(status, reason) => StartLineView::Status(*status, reason@),
        }
    }
}

/// Reads the start line and the headers of a text.
pub fn read_head(v: &Vec<char>) -> (r: Result<(StartLine, Vec<Header>, usize), ParseError>)
    ensures
        match r {
            Ok((line, headers, b)) => head_of(v@) == Ok::<
                (StartLineView, Seq<HeaderView>, int),
                ParseError,
            >((line@, header_views(headers@), b as int)) && b <= v.len(),
            Err(e) => head_of(v@) == Err::<(StartLineView, Seq<HeaderView>, int), ParseError>(e),
        },
{
    let e = scan_class(v, &CharClass::Except('\n'), 0);
    if e >= v.len() {
        return Err(ParseError::Truncated);
    }
    let c = read_content_end(v, 0, e);
    let line = match read_request_line(v, c) {
        Some((method, uri)) => StartLine::Request(method, uri),
        None => match read_status_line(v, c) {
            Some((code, reason)) => StartLine::Status(code, reason),
            None => {
                return Err(ParseError::MalformedStartLine);
            },
        },
    };
    match read_headers(v, e + 1) {
        Ok((headers, b)) => Ok((line, headers, b)),
        Err(x) => Err(x),
    }
}

/// The first `Content-Length` of the headers, where it holds a number.
pub fn content_length(headers: &Vec<Header>) -> (r: Option<u32>)
    ensures
        match r {
            Some(n) => declared_length(header_views(headers@)) == Some(n as nat),
            None => declared_length(header_views(headers@)) is None,
        },
{
    match find_header(headers, "Content-Length") {
        Some(h) => {
            let digits = chars_of(h.value.as_str());
            parse_number(&digits, 0xffff_ffff)
        },
        None => None,
    }
}

/// Parse a complete SIP message.
pub fn parse_message(input: &[u8]) -> (r: Result<Message, ParseError>)
    ensures
        match r {
            Ok(m) => parse_bytes(input@) == Ok::<MessageView, ParseError>(m@),
            Err(e) => parse_bytes(input@) == Err::<MessageView, ParseError>(e),
        },
{
    let n = utf8_valid_up_to(input);
    proof {
        lemma_utf8_prefix_is(input@, n as int);
    }
    let head = vstd::slice::slice_subrange(input, 0, n);
    assert(head@ =~= input@.take(n as int));
    let text = match utf8_text(head) {
        Some(t) => t,
        None => {
            return Err(ParseError::InvalidEncoding);
        },
    };
    proof {
        vstd::utf8::encode_utf8_decode_utf8(text@);
    }
    let v = chars_of(text);
    let (line, headers, at) = match read_head(&v) {
        Ok(x) => x,
        Err(x) => {
            return match x {
                ParseError::Truncated => if n < input.len() {
                    Err(ParseError::InvalidEncoding)
                } else {
                    Err(x)
                },
                _ => Err(x),
            };
        },
    };
    let read = string_of_range(&v, 0, at);
    assert(v@.subrange(0, at as int) =~= v@.take(at as int));
    let offset = read.as_str().len();
    proof {
        lemma_encode_concat(v@.take(at as int), v@.skip(at as int));
        assert(v@.take(at as int) + v@.skip(at as int) =~= v@);
    }
    let rest = vstd::slice::slice_subrange(input, offset, input.len());
    assert(rest@ =~= input@.skip(offset as int));
    let body = match read_body(&headers, vstd::slice::slice_to_vec(rest)) {
        Ok(x) => x,
        Err(x) => {
            return Err(x);
        },
    };
    match line {
        StartLine::Request(method, uri) => Ok(
            Message::Request(
                Request {
                    method,
                    uri,
                    version: "SIP/2.0".to_owned(),
                    headers,
                    body: bytes_from_vec(body),
                },
            ),
        ),
        StartLine::Status(code, reason) => Ok(
            Message::Response(
                Response {
                    version: "SIP/2.0".to_owned(),
                    status_code: StatusCode(code),
                    reason_phrase: reason,
                    headers,
                    body: bytes_from_vec(body),
                },
            ),
        ),
    }
}

} // verus!
