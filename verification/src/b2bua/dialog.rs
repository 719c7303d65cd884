//! Dialogs: their keys, and the requests that the B2BUA originates on a
//! leg.

use vstd::prelude::*;
use vstd::string::*;
use crate::b2bua::call_leg::{CallLeg, LegView};
use crate::b2bua::policy::{first_missing, required_headers};
use crate::numeral::{decimal, push_decimal};
use crate::sip::header::{header_value, HeaderView};
use crate::sip::message::{Request, RequestView};
use crate::sip::method::Method;
use crate::sip::uri::{Uri, UriView};
use crate::text::{
    append_str, chars_of, eq_ignore_case, find_first, find_from, opt_str, opt_text, scan,
    scan_class, str_eq, string_of, string_of_range, CharClass,
};

verus! {

/// The identifier of a dialog: the Call-ID, the tag of this side, and the
/// tag of the other side, which is not known before the dialog is
/// confirmed.
#[derive(Debug, Clone, PartialEq, Eq)]
pub struct DialogKey {
    pub call_id: String,
    pub local_tag: String,
    pub remote_tag: Option<String>,
}

/// The tag that a `From` or `To` value carries: what stands behind the
/// first `;tag=`, up to the next semicolon.
pub open spec fn tag_in(value: Seq<char>) -> Option<Seq<char>> {
    let i = find_from(value, ";tag="@, 0);
    if i < 0 {
        None
    } else {
        Some(value.subrange(i + 5, scan(value, CharClass::Except(';'), i + 5)))
    }
}

/// The tag that a `From` or `To` value carries.
pub fn tag_of(value: &str) -> (r: Option<String>)
    ensures
        match r {
            Some(t) => tag_in(value@) == Some(t@),
            None => tag_in(value@) is None,
        },
{
    let v = chars_of(value);
    let marker = chars_of(";tag=");
    proof {
        reveal_strlit(";tag=");
    }
    match find_first(&v, &marker, 0) {
        None => None,
        Some(i) => {
            let e = scan_class(&v, &CharClass::Except(';'), i + 5);
            Some(string_of_range(&v, i + 5, e))
        },
    }
}

impl DialogKey {
    /// The key of an early dialog: the tag of the other side is not known.
    pub fn new(call_id: &str, local_tag: &str) -> (r: Self)
        ensures
            r.call_id@ == call_id@,
            r.local_tag@ == local_tag@,
            r.remote_tag is None,
    {
        DialogKey { call_id: call_id.to_owned(), local_tag: local_tag.to_owned(), remote_tag: None }
    }

    /// This key with the dialog confirmed by the tag of the other side.
    pub fn confirm(self, remote_tag: &str) -> (r: Self)
        ensures
            r.call_id == self.call_id,
            r.local_tag == self.local_tag,
            opt_text(r.remote_tag) == Some(remote_tag@),
    {
        DialogKey {
            call_id: self.call_id,
            local_tag: self.local_tag,
            remote_tag: Some(remote_tag.to_owned()),
        }
    }

    /// Whether the dialog is confirmed.
    pub fn is_confirmed(&self) -> (b: bool)
        ensures
            b == self.remote_tag is Some,
    {
        self.remote_tag.is_some()
    }

    /// Whether a message with the given Call-ID and tags belongs to the
    /// dialog: the Call-ID and the tag of this side are those of the key,
    /// and the tag of the other side is that of the key once the dialog is
    /// confirmed.
    pub fn matches(&self, call_id: &str, local_tag: &str, remote_tag: Option<&str>) -> (b: bool)
        ensures
            b == (self.call_id@ == call_id@ && self.local_tag@ == local_tag@ && (match (
                opt_text(self.remote_tag),
                opt_str(remote_tag),
            ) {
                (Some(a), Some(b)) => a == b,
                (Some(a), None) => false,
                (None, _) => true,
            })),
    {
        if !str_eq(self.call_id.as_str(), call_id) || !str_eq(self.local_tag.as_str(), local_tag) {
            return false;
        }
        match (&self.remote_tag, remote_tag) {
            (Some(a), Some(b)) => str_eq(a.as_str(), b),
            (Some(a), None) => false,
            (None, _) => true,
        }
    }
}

/// The key of the dialog that a request received belongs to: its Call-ID,
/// the tag of its `To` as the tag of this side, and the tag of its `From`
/// as the tag of the other side. None without a Call-ID.
pub fn key_of_request(request: &Request) -> (r: Option<DialogKey>)
    ensures
        match r {
            Some(k) => header_value(request@.headers, "Call-ID"@) == Some(k.call_id@)
                && k.local_tag@ == (match header_value(request@.headers, "To"@) {
                Some(to) => match tag_in(to) {
                    Some(t) => t,
                    None => Seq::empty(),
                },
                None => Seq::empty(),
            }) && opt_text(k.remote_tag) == (match header_value(request@.headers, "From"@) {
                Some(from) => tag_in(from),
                None => None,
            }),
            None => header_value(request@.headers, "Call-ID"@) is None,
        },
{
    let call_id = match request.get_header_value("Call-ID") {
        Some(c) => c,
        None => {
            return None;
        },
    };
    let local_tag = match request.get_header_value("To") {
        Some(to) => match tag_of(to) {
            Some(t) => t,
            None => String::new(),
        },
        None => String::new(),
    };
    let remote_tag = match request.get_header_value("From") {
        Some(from) => tag_of(from),
        None => None,
    };
    Some(DialogKey { call_id: call_id.to_owned(), local_tag, remote_tag })
}

// ---------------------------------------------------------------------------
// Requests on a leg
// ---------------------------------------------------------------------------

/// The header with the given name and value.
pub open spec fn header(name: Seq<char>, value: Seq<char>) -> HeaderView {
    HeaderView { name, value }
}

/// The headers of a request that is originated on a leg: `Via`, `From`
/// with the tag of this side, `To`, `Call-ID`, `CSeq`, `Max-Forwards`,
/// `Content-Type` where there is a body of that type, and
/// `Content-Length`.
pub open spec fn leg_headers(
    leg: LegView,
    method: Seq<char>,
    via: Seq<char>,
    call_id: Seq<char>,
    cseq: u32,
    max_forwards: u32,
    content_type: Option<Seq<char>>,
    length: nat,
) -> Seq<HeaderView> {
    let head = seq![
        header("Via"@, via),
        header("From"@, leg.from_uri + ";tag="@ + leg.local_tag),
        header("To"@, leg.to_uri),
        header("Call-ID"@, call_id),
        header("CSeq"@, decimal(cseq as nat) + seq![' '] + method),
        header("Max-Forwards"@, decimal(max_forwards as nat)),
    ];
    match content_type {
        Some(t) => head.push(header("Content-Type"@, t)).push(
            header("Content-Length"@, decimal(length)),
        ),
        None => head.push(header("Content-Length"@, decimal(length))),
    }
}

/// The sequence number after `cseq`: one more, or the same once no more
/// can be counted.
pub open spec fn cseq_after(cseq: u32) -> u32 {
    if cseq < u32::MAX {
        (cseq + 1) as u32
    } else {
        cseq
    }
}

fn number_text(n: u64) -> (s: String)
    ensures
        s@ == decimal(n as nat),
{
    crate::numeral::decimal_string(n)
}

/// The request with the given method that is sent on a leg under the
/// sequence number `cseq`.
pub open spec fn leg_request(
    leg: LegView,
    method: Seq<char>,
    target: UriView,
    via: Seq<char>,
    call_id: Seq<char>,
    cseq: u32,
    max_forwards: u32,
    content_type: Option<Seq<char>>,
    body: Seq<u8>,
) -> RequestView {
    RequestView {
        method,
        uri: target,
        version: "SIP/2.0"@,
        headers: leg_headers(
            leg,
            method,
            via,
            call_id,
            cseq,
            max_forwards,
            content_type,
            body.len(),
        ),
        body,
    }
}

/// Builds a request on a leg under the sequence number `cseq`, with every
/// header that a request must have.
pub fn compose(
    leg: &CallLeg,
    method: Method,
    target: Uri,
    via: &str,
    call_id: &str,
    cseq: u32,
    max_forwards: u32,
    content_type: Option<&str>,
    body: Vec<u8>,
) -> (r: Request)
    ensures
        r@ == leg_request(
            leg@,
            method@,
            target@,
            via@,
            call_id@,
            cseq,
            max_forwards,
            opt_str(content_type),
            body@,
        ),
{
    let mut from: Vec<char> = Vec::new();
    append_str(&mut from, leg.from_uri.as_str());
    append_str(&mut from, ";tag=");
    append_str(&mut from, leg.local_tag.as_str());
    assert(from@ =~= leg@.from_uri + ";tag="@ + leg@.local_tag);
    let mut number: Vec<char> = Vec::new();
    push_decimal(&mut number, cseq as u64);
    number.push(' ');
    append_str(&mut number, method.as_str());
    assert(number@ =~= decimal(cseq as nat) + seq![' '] + method@);
    let length = number_text(body.len() as u64);
    let ghost method_view = method@;
    let ghost target_view = target@;
    let mut r = Request::new(method, target).with_header("Via", via).with_header(
        "From",
        string_of(&from).as_str(),
    ).with_header("To", leg.to_uri.as_str()).with_header("Call-ID", call_id).with_header(
        "CSeq",
        string_of(&number).as_str(),
    ).with_header("Max-Forwards", number_text(max_forwards as u64).as_str());
    match content_type {
        Some(t) => {
            r = r.with_header("Content-Type", t);
        },
        None => {},
    }
    r = r.with_header("Content-Length", length.as_str()).with_body(body);
    assert(r@.headers =~= leg_headers(
        leg@,
        method_view,
        via@,
        call_id@,
        cseq,
        max_forwards,
        opt_str(content_type),
        body@.len(),
    ));
    assert(r@.method == method_view);
    assert(r@.uri == target_view);
    r
}

/// Builds a request that the B2BUA originates on a leg, under the next
/// sequence number of the leg and with every header that a request must
/// have.
pub fn originate(
    leg: &mut CallLeg,
    method: Method,
    target: Uri,
    via: &str,
    call_id: &str,
    max_forwards: u32,
    content_type: Option<&str>,
    body: Vec<u8>,
) -> (r: Request)
    ensures
        final(leg)@ == (LegView { cseq: cseq_after(old(leg)@.cseq), ..old(leg)@ }),
        r@ == leg_request(
            old(leg)@,
            method@,
            target@,
            via@,
            call_id@,
            cseq_after(old(leg)@.cseq),
            max_forwards,
            opt_str(content_type),
            body@,
        ),
{
    let n = leg.next_cseq();
    let r = compose(leg, method, target, via, call_id, n, max_forwards, content_type, body);
    assert(leg_headers(
        leg@,
        method@,
        via@,
        call_id@,
        n,
        max_forwards,
        opt_str(content_type),
        body@.len(),
    ) =~= leg_headers(
        old(leg)@,
        method@,
        via@,
        call_id@,
        n,
        max_forwards,
        opt_str(content_type),
        body@.len(),
    ));
    r
}

/// A header is found where one stands under its name.
pub proof fn lemma_header_present(h: Seq<HeaderView>, name: Seq<char>, i: int)
    requires
        0 <= i < h.len(),
        eq_ignore_case(h[i].name, name),
    ensures
        header_value(h, name) is Some,
    decreases h.len(),
{
    if !eq_ignore_case(h[0].name, name) {
        assert(h.skip(1)[i - 1] == h[i]);
        lemma_header_present(h.skip(1), name, i - 1);
    }
}

/// A request that is originated on a leg lacks no required header.
pub proof fn lemma_originated_is_complete(
    leg: LegView,
    method: Seq<char>,
    via: Seq<char>,
    call_id: Seq<char>,
    cseq: u32,
    max_forwards: u32,
    content_type: Option<Seq<char>>,
    length: nat,
)
    ensures
        first_missing(
            leg_headers(leg, method, via, call_id, cseq, max_forwards, content_type, length),
            0,
        ) == required_headers().len(),
{
    let h = leg_headers(leg, method, via, call_id, cseq, max_forwards, content_type, length);
    lemma_header_present(h, "Via"@, 0);
    lemma_header_present(h, "From"@, 1);
    lemma_header_present(h, "To"@, 2);
    lemma_header_present(h, "Call-ID"@, 3);
    lemma_header_present(h, "CSeq"@, 4);
    lemma_header_present(h, "Max-Forwards"@, 5);
    lemma_header_present(h, "Content-Length"@, h.len() - 1);
    reveal_with_fuel(first_missing, 8);
}

} // verus!
