//! Responses to the sender of a request: the headers that a response
//! repeats of the request, and the responses that are built from them.

use vstd::prelude::*;
use vstd::string::*;
use crate::b2bua::dialog::{header, tag_in, tag_of};
use crate::numeral::{decimal, decimal_string};
use crate::sip::header::{header_views, Header, HeaderView};
use crate::sip::message::{Response, ResponseView};
use crate::sip::response::{reason_of, StatusCode};
use crate::text::{append_str, chars_of, eq_ignore_case, opt_str, string_of};

verus! {

/// A `To` value with the tag of this side, unless it has a tag already.
pub open spec fn stamped(value: Seq<char>, tag: Seq<char>) -> Seq<char> {
    if tag_in(value) is Some {
        value
    } else {
        value + ";tag="@ + tag
    }
}

/// What a response repeats of a header of the request it answers: `Via`,
/// `From`, `Call-ID` and `CSeq` as they are, `To` with the tag of this
/// side, and nothing of any other header.
pub open spec fn echo_of(h: HeaderView, tag: Seq<char>) -> Option<HeaderView> {
    if eq_ignore_case(h.name, "To"@) {
        Some(HeaderView { name: h.name, value: stamped(h.value, tag) })
    } else if eq_ignore_case(h.name, "Via"@) || eq_ignore_case(h.name, "From"@) || eq_ignore_case(
        h.name,
        "Call-ID"@,
    ) || eq_ignore_case(h.name, "CSeq"@) {
        Some(h)
    } else {
        None
    }
}

/// The headers that a response repeats of the request it answers, in the
/// order of the request.
pub open spec fn echoed(h: Seq<HeaderView>, tag: Seq<char>) -> Seq<HeaderView>
    decreases h.len(),
{
    if h.len() == 0 {
        Seq::empty()
    } else {
        match echo_of(h.last(), tag) {
            Some(x) => echoed(h.drop_last(), tag).push(x),
            None => echoed(h.drop_last(), tag),
        }
    }
}

/// What a header that may be absent holds.
pub open spec fn header_view(o: Option<Header>) -> Option<HeaderView> {
    match o {
        Some(h) => Some(h@),
        None => None,
    }
}

fn echo_header(h: &Header, tag: &str) -> (r: Option<Header>)
    ensures
        header_view(r) == echo_of(h@, tag@),
{
    if h.name.is("To") {
        match tag_of(h.value.as_str()) {
            Some(_) => Some(Header::new(h.name.as_str(), h.value.as_str())),
            None => {
                let mut value = chars_of(h.value.as_str());
                append_str(&mut value, ";tag=");
                append_str(&mut value, tag);
                Some(Header::new(h.name.as_str(), string_of(&value).as_str()))
            },
        }
    } else if h.name.is("Via") || h.name.is("From") || h.name.is("Call-ID") || h.name.is("CSeq") {
        Some(Header::new(h.name.as_str(), h.value.as_str()))
    } else {
        None
    }
}

/// The headers that a response repeats of a request with the headers
/// `headers`.
pub fn echo_headers(headers: &Vec<Header>, tag: &str) -> (r: Vec<Header>)
    ensures
        header_views(r@) == echoed(header_views(headers@), tag@),
{
    let mut out: Vec<Header> = Vec::new();
    let ghost all = header_views(headers@);
    let mut i: usize = 0;
    assert(all.take(0) =~= Seq::empty());
    assert(header_views(out@) =~= Seq::empty());
    while i < headers.len()
        invariant
            i <= headers.len(),
            all == header_views(headers@),
            header_views(out@) == echoed(all.take(i as int), tag@),
        decreases headers.len() - i,
    {
        proof {
            assert(all.take(i + 1).drop_last() =~= all.take(i as int));
            assert(all.take(i + 1).last() == headers@[i as int]@);
        }
        match echo_header(&headers[i], tag) {
            Some(h) => {
                let ghost before = header_views(out@);
                out.push(h);
                assert(header_views(out@) =~= before.push(h@));
            },
            None => {},
        }
        i += 1;
    }
    assert(all.take(all.len() as int) =~= all);
    out
}

/// The header that names the type of a body, if it has one.
pub open spec fn type_header(content_type: Option<Seq<char>>) -> Seq<HeaderView> {
    match content_type {
        Some(t) => seq![header("Content-Type"@, t)],
        None => Seq::empty(),
    }
}

/// A response with the headers `echo`, then `extra`, then `Content-Type`
/// where the body has a type, then `Content-Length`.
pub open spec fn response_on(
    status: u16,
    reason: Seq<char>,
    echo: Seq<HeaderView>,
    extra: Seq<HeaderView>,
    content_type: Option<Seq<char>>,
    body: Seq<u8>,
) -> ResponseView {
    ResponseView {
        version: "SIP/2.0"@,
        status,
        reason,
        headers: echo + extra + type_header(content_type) + seq![
            header("Content-Length"@, decimal(body.len())),
        ],
        body,
    }
}

/// A response without a body, with the canonical reason of its status.
pub open spec fn answer_on(status: u16, echo: Seq<HeaderView>, extra: Seq<HeaderView>) -> ResponseView {
    response_on(status, reason_of(status), echo, extra, None, Seq::empty())
}

fn push_headers(out: &mut Vec<Header>, more: &Vec<Header>)
    ensures
        header_views(final(out)@) == header_views(old(out)@) + header_views(more@),
{
    let mut i: usize = 0;
    assert(header_views(more@).take(0) =~= Seq::empty());
    assert(header_views(out@) + Seq::<HeaderView>::empty() =~= header_views(out@));
    while i < more.len()
        invariant
            i <= more.len(),
            header_views(out@) == header_views(old(out)@) + header_views(more@).take(i as int),
        decreases more.len() - i,
    {
        let ghost before = header_views(out@);
        out.push(Header::new(more[i].name.as_str(), more[i].value.as_str()));
        assert(header_views(out@) =~= before.push(more@[i as int]@));
        assert(header_views(more@).take(i + 1) =~= header_views(more@).take(i as int).push(
            more@[i as int]@,
        ));
        i += 1;
    }
    assert(header_views(more@).take(more.len() as int) =~= header_views(more@));
}

/// Builds a response from the headers it repeats, the headers it adds,
/// and its body.
pub fn respond(
    status: StatusCode,
    reason: &str,
    echo: &Vec<Header>,
    extra: &Vec<Header>,
    content_type: Option<&str>,
    body: Vec<u8>,
) -> (r: Response)
    ensures
        r@ == response_on(
            status.0,
            reason@,
            header_views(echo@),
            header_views(extra@),
            opt_str(content_type),
            body@,
        ),
{
    let mut headers: Vec<Header> = Vec::new();
    assert(header_views(headers@) =~= Seq::empty());
    push_headers(&mut headers, echo);
    push_headers(&mut headers, extra);
    match content_type {
        Some(t) => {
            let ghost before = header_views(headers@);
            headers.push(Header::new("Content-Type", t));
            assert(header_views(headers@) =~= before.push(header("Content-Type"@, t@)));
        },
        None => {},
    }
    let ghost before = header_views(headers@);
    headers.push(Header::new("Content-Length", decimal_string(body.len() as u64).as_str()));
    assert(header_views(headers@) =~= before.push(
        header("Content-Length"@, decimal(body@.len())),
    ));
    let mut r = Response::new(status).with_body(body);
    r.reason_phrase = reason.to_owned();
    r.headers = headers;
    assert(r@.headers =~= header_views(echo@) + header_views(extra@) + type_header(
        opt_str(content_type),
    ) + seq![header("Content-Length"@, decimal(body@.len()))]);
    r
}

/// Builds a response without a body, with the canonical reason of its
/// status.
pub fn answer(status: u16, echo: &Vec<Header>, extra: &Vec<Header>) -> (r: Response)
    ensures
        r@ == answer_on(status, header_views(echo@), header_views(extra@)),
{
    let code = StatusCode(status);
    let reason = code.reason_phrase();
    respond(code, reason, echo, extra, None, Vec::new())
}

} // verus!
