//! What the B2BUA decides before it bridges a call: admission, refusals,
//! the plan for an INVITE, and timers.

use vstd::prelude::*;
use vstd::string::*;
use crate::acl::{manager_allows, AclManager, AclView};
use crate::b2bua::{call_id_header, reply};
use crate::ip::IpAddress;
use crate::media::codec::Codec;
use crate::media::sdp::{SdpSession, SdpView};
use crate::media::{negotiate, negotiated, CodecConfig};
use crate::routing::evaluator::{decision_of, RouteMatch};
use crate::routing::{RouteAction, RouteDestination};
use crate::sip::header::{header_value, HeaderView};
use crate::sip::message::{Message, MessageView, Response};
use crate::sip::response::StatusCode;
use crate::text::{chars_of, contains_text, has_text};

verus! {

/// The base retransmission interval T1, in milliseconds.
pub const T1_MS: u64 = 500;

/// The seconds without traffic after which a dialog is torn down, unless
/// configured otherwise.
pub const SESSION_EXPIRES_SECS: u32 = 1800;

/// The value of `Max-Forwards` on requests that are originated, unless
/// configured otherwise.
pub const MAX_FORWARDS: u32 = 70;

/// Why a request is turned away.
#[derive(Debug, Clone, Copy, PartialEq, Eq, Structural)]
pub enum Refusal {
    /// The ACL rejected the source
    AccessDenied,
    /// Credentials are asked for
    Unauthorized,
    /// Credentials are asked for on behalf of a proxy
    ProxyUnauthorized,
    /// A route rejects the call
    Forbidden,
    /// No route matches the call
    NoRoute,
    /// The offer shares no codec with the local set
    NotAcceptable,
    /// The B leg did not answer in time
    Timeout,
    /// The method is not served
    NotImplemented,
}

/// The status with which a refusal is answered.
pub open spec fn refusal_status(refusal: Refusal) -> u16 {
    match refusal {
        Refusal::AccessDenied => 403,
        Refusal::Unauthorized => 401,
        Refusal::ProxyUnauthorized => 407,
        Refusal::Forbidden => 403,
        Refusal::NoRoute => 404,
        Refusal::NotAcceptable => 488,
        Refusal::Timeout => 408,
        Refusal::NotImplemented => 501,
    }
}

impl Refusal {
    /// The status with which the refusal is answered.
    pub fn status(&self) -> (r: StatusCode)
        ensures
            r.0 == refusal_status(*self),
    {
        match self {
            Refusal::AccessDenied => StatusCode(403),
            Refusal::Unauthorized => StatusCode(401),
            Refusal::ProxyUnauthorized => StatusCode(407),
            Refusal::Forbidden => StatusCode(403),
            Refusal::NoRoute => StatusCode(404),
            Refusal::NotAcceptable => StatusCode(488),
            Refusal::Timeout => StatusCode(408),
            Refusal::NotImplemented => StatusCode(501),
        }
    }

    /// The response that tells the refusal to the caller of `call_id`.
    pub fn response(&self, call_id: &str) -> (m: Message)
        ensures
            m@ == reply(refusal_status(*self), seq![call_id_header(call_id@)]),
    {
        let r = Response::new(self.status()).with_header("Call-ID", call_id);
        assert(r@.headers =~= seq![call_id_header(call_id@)]);
        assert(r@.body =~= Seq::empty());
        Message::Response(r)
    }
}

/// Whether a source is turned away by the ACL named `acl`: it is, unless
/// the ACL allows it. A source that cannot be checked is turned away.
pub open spec fn screened(acls: Seq<AclView>, acl: Seq<char>, source: IpAddress) -> Option<Refusal> {
    if manager_allows(acls, acl, source) == Ok::<bool, crate::acl::AclError>(true) {
        None
    } else {
        Some(Refusal::AccessDenied)
    }
}

/// Checks a source against the ACL named `acl`.
pub fn screen(acls: &AclManager, acl: &str, source: IpAddress) -> (r: Option<Refusal>)
    ensures
        r == screened(acls@, acl@, source),
{
    match acls.is_allowed(acl, source) {
        Ok(true) => None,
        _ => Some(Refusal::AccessDenied),
    }
}

/// What is done with an INVITE.
#[derive(Debug, Clone)]
pub enum InvitePlan {
    /// Originate the B leg to the destination, with the description given.
    Forward { destination: RouteDestination, sdp: Option<SdpSession> },
    /// Answer the A leg with the refusal.
    Refuse { refusal: Refusal },
}

/// What an INVITE plan holds.
pub enum PlanView {
    Forward { destination: RouteDestination, sdp: Option<SdpView> },
    Refuse { refusal: Refusal },
}

impl View for InvitePlan {
    type V = PlanView;

    open spec fn view(&self) -> PlanView {
        match self {
            InvitePlan::Forward { destination, sdp } => PlanView::Forward {
                destination: *destination,
                sdp: match sdp {
                    Some(s) => Some(s@),
                    None => None,
                },
            },
            InvitePlan::Refuse { refusal } => PlanView::Refuse { refusal: *refusal },
        }
    }
}

/// What an offer that may be absent holds.
pub open spec fn offer_view(o: Option<&SdpSession>) -> Option<SdpView> {
    match o {
        Some(s) => Some(s@),
        None => None,
    }
}

/// The plan for an INVITE: without a route it is refused as not found; a
/// route that rejects refuses it; an offer that shares no codec with the
/// enabled set refuses it as not acceptable; else the B leg is originated
/// to the destination of the route, with the description negotiated from
/// the offer, if there is one.
pub open spec fn invite_plan(
    route: Option<(RouteDestination, RouteAction)>,
    offer: Option<SdpView>,
    codecs: Seq<Codec>,
    connection: Seq<char>,
    port: u16,
) -> PlanView {
    match route {
        None => PlanView::Refuse { refusal: Refusal::NoRoute },
        Some((destination, action)) => if action == RouteAction::Reject {
            PlanView::Refuse { refusal: Refusal::Forbidden }
        } else {
            match offer {
                None => PlanView::Forward { destination, sdp: None },
                Some(o) => match negotiated(o, codecs, connection, port) {
                    None => PlanView::Refuse { refusal: Refusal::NotAcceptable },
                    Some(answer) => PlanView::Forward { destination, sdp: Some(answer) },
                },
            }
        },
    }
}

/// Plans what is done with an INVITE, from the outcome of routing and the
/// offer it carries.
pub fn plan_invite(
    route: Option<RouteMatch>,
    offer: Option<&SdpSession>,
    codecs: &CodecConfig,
    connection: &str,
    port: u16,
) -> (r: InvitePlan)
    ensures
        r@ == invite_plan(
            decision_of(route),
            offer_view(offer),
            codecs.codecs@,
            connection@,
            port,
        ),
{
    match route {
        None => InvitePlan::Refuse { refusal: Refusal::NoRoute },
        Some(m) => {
            match m.action {
                RouteAction::Reject => {
                    return InvitePlan::Refuse { refusal: Refusal::Forbidden };
                },
                _ => {},
            }
            match offer {
                None => InvitePlan::Forward { destination: m.destination, sdp: None },
                Some(o) => match negotiate(o, codecs, connection, port) {
                    None => InvitePlan::Refuse { refusal: Refusal::NotAcceptable },
                    Some(answer) => InvitePlan::Forward {
                        destination: m.destination,
                        sdp: Some(answer),
                    },
                },
            }
        },
    }
}

/// Timer B, the time for which an INVITE may stay unanswered: 64 times T1,
/// in milliseconds; the largest number where that cannot be counted.
pub open spec fn timer_b(t1_ms: u64) -> u64 {
    if 64 * t1_ms <= u64::MAX {
        (64 * t1_ms) as u64
    } else {
        u64::MAX
    }
}

/// Timer B for the given T1.
pub fn timer_b_ms(t1_ms: u64) -> (r: u64)
    ensures
        r == timer_b(t1_ms),
{
    if t1_ms <= u64::MAX / 64 {
        64 * t1_ms
    } else {
        u64::MAX
    }
}

/// Whether a pending B leg has gone unanswered for Timer B, so that the A
/// leg is to be answered with `408`.
pub fn invite_timed_out(waited_ms: u64, t1_ms: u64) -> (b: bool)
    ensures
        b == (waited_ms >= timer_b(t1_ms)),
{
    waited_ms >= timer_b_ms(t1_ms)
}

/// Whether a dialog has been without traffic for `session_expires`
/// seconds, so that it is to be torn down.
pub fn session_expired(idle_secs: u64, session_expires: u32) -> (b: bool)
    ensures
        b == (idle_secs >= session_expires),
{
    idle_secs >= session_expires as u64
}

/// The headers that every message sent must have, in the order in which
/// they are asked for.
pub open spec fn required_headers() -> Seq<Seq<char>> {
    seq![
        "Via"@,
        "From"@,
        "To"@,
        "Call-ID"@,
        "CSeq"@,
        "Max-Forwards"@,
        "Content-Length"@,
    ]
}

/// The index in `required_headers` of the first that `headers` lack, at or
/// after `from`; their number where none is lacking.
pub open spec fn first_missing(headers: Seq<HeaderView>, from: int) -> int
    decreases required_headers().len() - from,
{
    if 0 <= from < required_headers().len() && header_value(headers, required_headers()[from])
        is Some {
        first_missing(headers, from + 1)
    } else {
        from
    }
}

/// The first required header that a message lacks; none where it has all:
/// `Via`, `From`, `To`, `Call-ID`, `CSeq`, `Max-Forwards`, `Content-Length`.
pub fn missing_header(message: &Message) -> (r: Option<&'static str>)
    ensures
        ({
            let headers = match message@ {
                MessageView::Request(q) => q.headers,
                MessageView::Response(p) => p.headers,
            };
            match r {
                Some(name) => 0 <= first_missing(headers, 0) < 7 && name@ == required_headers()[first_missing(
                    headers,
                    0,
                )],
                None => first_missing(headers, 0) == 7,
            }
        }),
{
    let headers = message.headers();
    let ghost hv = match message@ {
        MessageView::Request(q) => q.headers,
        MessageView::Response(p) => p.headers,
    };
    assert(hv == crate::sip::header::header_views(headers@));
    reveal_with_fuel(first_missing, 8);
    if crate::sip::header::find_header(headers, "Via").is_none() {
        Some("Via")
    } else if crate::sip::header::find_header(headers, "From").is_none() {
        Some("From")
    } else if crate::sip::header::find_header(headers, "To").is_none() {
        Some("To")
    } else if crate::sip::header::find_header(headers, "Call-ID").is_none() {
        Some("Call-ID")
    } else if crate::sip::header::find_header(headers, "CSeq").is_none() {
        Some("CSeq")
    } else if crate::sip::header::find_header(headers, "Max-Forwards").is_none() {
        Some("Max-Forwards")
    } else if crate::sip::header::find_header(headers, "Content-Length").is_none() {
        Some("Content-Length")
    } else {
        None
    }
}

/// Whether a `From` or `To` value carries a tag.
pub fn has_tag(value: &str) -> (b: bool)
    ensures
        b == contains_text(value@, ";tag="@),
{
    let v = chars_of(value);
    let t = chars_of(";tag=");
    has_text(&v, &t)
}

} // verus!
