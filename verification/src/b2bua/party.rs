//! The parties of a call: what the B2BUA is on the network, and the URIs
//! under which the caller and the callee are reached.

use vstd::prelude::*;
use vstd::string::*;
use crate::routing::RouteDestination;
use crate::sip::header::{find_header, header_value, header_views, Header, HeaderView};
use crate::sip::uri::{parse_uri, Uri, UriView};
use crate::text::{
    append_str, chars_of, find_first, find_from, opt_str, scan, scan_class, slice_of, string_of,
    string_of_range, trim, trim_chars, CharClass,
};

verus! {

/// What the B2BUA is on the network.
#[derive(Debug, Clone)]
pub struct Endpoint {
    /// The host under which the B2BUA is addressed
    pub domain: String,
    /// The transport that its `Via` names: `UDP`, `TCP` or `TLS`
    pub transport: String,
    /// The host and port that its `Via` names
    pub sent_by: String,
    /// The connection of the descriptions it sends: `IN IP4` or `IN IP6`,
    /// and the address on which it takes media
    pub connection: String,
    /// The port on which it takes media
    pub rtp_port: u16,
    /// The `Max-Forwards` of the requests it originates
    pub max_forwards: u32,
}

/// What an endpoint holds.
pub struct EndpointView {
    pub domain: Seq<char>,
    pub transport: Seq<char>,
    pub sent_by: Seq<char>,
    pub connection: Seq<char>,
    pub rtp_port: u16,
    pub max_forwards: u32,
}

impl View for Endpoint {
    type V = EndpointView;

    open spec fn view(&self) -> EndpointView {
        EndpointView {
            domain: self.domain@,
            transport: self.transport@,
            sent_by: self.sent_by@,
            connection: self.connection@,
            rtp_port: self.rtp_port,
            max_forwards: self.max_forwards,
        }
    }
}

/// The `Via` of a request that the B2BUA originates in the transaction of
/// `branch`.
pub open spec fn via_text(e: EndpointView, branch: Seq<char>) -> Seq<char> {
    "SIP/2.0/"@ + e.transport + seq![' '] + e.sent_by + ";branch=z9hG4bK"@ + branch
}

impl Endpoint {
    /// An endpoint for UDP on port 5060 of `domain`, which takes media on
    /// port 30000 of the IPv4 address `address`.
    pub fn new(domain: &str, address: &str) -> (r: Self)
        ensures
            r@ == (EndpointView {
                domain: domain@,
                transport: "UDP"@,
                sent_by: domain@,
                connection: "IN IP4 "@ + address@,
                rtp_port: 30000,
                max_forwards: 70,
            }),
    {
        let mut connection = chars_of("IN IP4 ");
        append_str(&mut connection, address);
        Endpoint {
            domain: domain.to_owned(),
            transport: "UDP".to_owned(),
            sent_by: domain.to_owned(),
            connection: string_of(&connection),
            rtp_port: 30000,
            max_forwards: 70,
        }
    }

    /// The `Via` of a request in the transaction of `branch`.
    pub fn via(&self, branch: &str) -> (r: String)
        ensures
            r@ == via_text(self@, branch@),
    {
        let mut out = chars_of("SIP/2.0/");
        append_str(&mut out, self.transport.as_str());
        out.push(' ');
        append_str(&mut out, self.sent_by.as_str());
        append_str(&mut out, ";branch=z9hG4bK");
        append_str(&mut out, branch);
        assert(out@ =~= via_text(self@, branch@));
        string_of(&out)
    }
}

/// The text of the URI in a `From`, `To` or `Contact` value: what stands
/// between the angle brackets where there are any, else what stands before
/// the first semicolon, without the white space around it.
pub open spec fn addr_spec(value: Seq<char>) -> Seq<char> {
    let a = scan(value, CharClass::Except('<'), 0);
    if a < value.len() {
        value.subrange(a + 1, scan(value, CharClass::Except('>'), a + 1))
    } else {
        trim(value.subrange(0, scan(value, CharClass::Except(';'), 0)))
    }
}

/// The text of the URI in a `From`, `To` or `Contact` value.
pub fn address_of(value: &str) -> (r: String)
    ensures
        r@ == addr_spec(value@),
{
    let v = chars_of(value);
    let a = scan_class(&v, &CharClass::Except('<'), 0);
    if a < v.len() {
        let b = scan_class(&v, &CharClass::Except('>'), a + 1);
        string_of_range(&v, a + 1, b)
    } else {
        let e = scan_class(&v, &CharClass::Except(';'), 0);
        let head = slice_of(&v, 0, e);
        string_of(&trim_chars(&head))
    }
}

/// A `From` or `To` value without its tag and what follows the tag.
pub open spec fn untagged(value: Seq<char>) -> Seq<char> {
    let i = find_from(value, ";tag="@, 0);
    if i < 0 {
        value
    } else {
        value.subrange(0, i)
    }
}

/// A `From` or `To` value without its tag and what follows the tag.
pub fn without_tag(value: &str) -> (r: String)
    ensures
        r@ == untagged(value@),
{
    let v = chars_of(value);
    let marker = chars_of(";tag=");
    match find_first(&v, &marker, 0) {
        None => value.to_owned(),
        Some(i) => string_of_range(&v, 0, i),
    }
}

/// The URI `sip:host`, or `sip:user@host`.
pub open spec fn plain_uri(user: Option<Seq<char>>, host: Seq<char>) -> UriView {
    UriView { scheme: "sip"@, user, host, port: None, params: Seq::empty() }
}

fn plain(user: Option<&str>, host: &str) -> (r: Uri)
    ensures
        r@ == plain_uri(opt_str(user), host@),
{
    let r = Uri {
        scheme: "sip".to_owned(),
        user: match user {
            Some(u) => Some(u.to_owned()),
            None => None,
        },
        host: host.to_owned(),
        port: None,
        params: Vec::new(),
    };
    assert(r@.params =~= Seq::empty());
    r
}

/// The URI in a header value, if the value holds one.
pub open spec fn uri_in(value: Option<Seq<char>>) -> Option<UriView> {
    match value {
        Some(v) => parse_uri(addr_spec(v)),
        None => None,
    }
}

/// What a URI that may be absent holds.
pub open spec fn uri_view(o: Option<Uri>) -> Option<UriView> {
    match o {
        Some(u) => Some(u@),
        None => None,
    }
}

fn uri_of(headers: &Vec<Header>, name: &str) -> (r: Option<Uri>)
    ensures
        uri_view(r) == uri_in(header_value(header_views(headers@), name@)),
{
    match find_header(headers, name) {
        Some(h) => Uri::parse(address_of(h.value.as_str()).as_str()),
        None => None,
    }
}

/// The URI under which the caller is reached: that of its `Contact`, else
/// that of its `From`, else the domain of the B2BUA.
pub open spec fn caller_uri(headers: Seq<HeaderView>, domain: Seq<char>) -> UriView {
    match uri_in(header_value(headers, "Contact"@)) {
        Some(u) => u,
        None => match uri_in(header_value(headers, "From"@)) {
            Some(u) => u,
            None => plain_uri(None, domain),
        },
    }
}

/// The URI under which the caller is reached.
pub fn uri_of_caller(headers: &Vec<Header>, domain: &str) -> (r: Uri)
    ensures
        r@ == caller_uri(header_views(headers@), domain@),
{
    match uri_of(headers, "Contact") {
        Some(u) => u,
        None => match uri_of(headers, "From") {
            Some(u) => u,
            None => plain(None, domain),
        },
    }
}

/// The text `sip:host`, or `sip:user@host`.
pub open spec fn sip_text(user: Option<Seq<char>>, host: Seq<char>) -> Seq<char> {
    "sip:"@ + (match user {
        Some(u) => u + seq!['@'],
        None => Seq::empty(),
    }) + host
}

/// The URI of `user` at `host`, where `host` may name a port: what
/// `sip:user@host` reads as, or that user and host as they are where it
/// does not read as a URI.
pub open spec fn callee_uri(user: Option<Seq<char>>, host: Seq<char>) -> UriView {
    match parse_uri(sip_text(user, host)) {
        Some(u) => u,
        None => plain_uri(user, host),
    }
}

/// The URI of `user` at `host`.
pub fn uri_of_callee(user: Option<&str>, host: &str) -> (r: Uri)
    ensures
        r@ == callee_uri(opt_str(user), host@),
{
    let mut text = chars_of("sip:");
    match user {
        Some(u) => {
            append_str(&mut text, u);
            text.push('@');
        },
        None => {},
    }
    append_str(&mut text, host);
    assert(text@ =~= sip_text(opt_str(user), host@));
    match Uri::parse(string_of(&text).as_str()) {
        Some(u) => u,
        None => plain(user, host),
    }
}

/// Where the B leg of a call to `called` goes: the URI of the request, and
/// the target that the destination carries. An extension, a ring group and
/// a voicemail box are users of the B2BUA's domain; a trunk and a custom
/// destination are hosts, to which the called user is passed. None for a
/// hang-up.
pub open spec fn callee_of(
    destination: RouteDestination,
    called: Option<Seq<char>>,
    domain: Seq<char>,
) -> Option<(UriView, Seq<char>)> {
    match destination {
        RouteDestination::Extension(t) => Some((callee_uri(Some(t@), domain), t@)),
        RouteDestination::RingGroup(t) => Some((callee_uri(Some(t@), domain), t@)),
        RouteDestination::Voicemail(t) => Some((callee_uri(Some(t@), domain), t@)),
        RouteDestination::Trunk(t) => Some((callee_uri(called, t@), t@)),
        RouteDestination::Custom(t) => Some((callee_uri(called, t@), t@)),
        RouteDestination::Hangup => None,
    }
}

/// What a URI and a target that may be absent hold.
pub open spec fn target_view(o: Option<(Uri, String)>) -> Option<(UriView, Seq<char>)> {
    match o {
        Some((u, t)) => Some((u@, t@)),
        None => None,
    }
}

/// Where the B leg of a call to `called` goes.
pub fn callee_for(destination: &RouteDestination, called: Option<&str>, domain: &str) -> (r: Option<
    (Uri, String),
>)
    ensures
        target_view(r) == callee_of(*destination, opt_str(called), domain@),
{
    match destination {
        RouteDestination::Extension(t) => Some(
            (uri_of_callee(Some(t.as_str()), domain), t.clone()),
        ),
        RouteDestination::RingGroup(t) => Some(
            (uri_of_callee(Some(t.as_str()), domain), t.clone()),
        ),
        RouteDestination::Voicemail(t) => Some(
            (uri_of_callee(Some(t.as_str()), domain), t.clone()),
        ),
        RouteDestination::Trunk(t) => Some((uri_of_callee(called, t.as_str()), t.clone())),
        RouteDestination::Custom(t) => Some((uri_of_callee(called, t.as_str()), t.clone())),
        RouteDestination::Hangup => None,
    }
}

} // verus!
