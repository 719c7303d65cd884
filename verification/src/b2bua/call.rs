//! The calls that are bridged, and what each message does to them.
//!
//! A call has two dialogs, one with the caller (leg A) and one with the
//! callee (leg B), each with its own Call-ID, its own tag of this side and
//! its own sequence numbers. No request is passed on as it came: what is
//! sent on the other leg is built anew from the dialog of that leg.

use vstd::prelude::*;
use vstd::string::*;
use vstd::utf8::{decode_utf8, encode_utf8, valid_utf8};
use crate::b2bua::call_leg::LegView;
use crate::b2bua::dialog::{cseq_after, header, leg_request};
use crate::b2bua::party::{callee_of, caller_uri, untagged, via_text, EndpointView};
use crate::b2bua::policy::{invite_plan, refusal_status, PlanView};
use crate::b2bua::reply::{answer_on, echoed, response_on};
use crate::b2bua::session::{
    event_of_status, state_after, Session, SessionEvent, SessionState, SessionView,
};
use crate::ip::{IpAddress, SocketAddress};
use crate::media::codec::Codec;
use crate::media::sdp::{parse_sdp, sdp_text, SdpView};
use crate::media::negotiated;
use crate::routing::evaluator::{decision, ContextView};
use crate::routing::matcher::Moment;
use crate::routing::RouteRule;
use crate::sip::header::{header_value, header_views, Header, HeaderView};
use crate::sip::message::{Message, MessageView, RequestView, ResponseView};
use crate::sip::uri::{uri_text, Uri, UriView};
use crate::text::or_empty;

verus! {

// ---------------------------------------------------------------------------
// Calls
// ---------------------------------------------------------------------------

/// One side of a call.
#[derive(Debug, Clone, Copy, PartialEq, Eq, Structural)]
pub enum Side {
    /// Leg A, on which the call came
    Caller,
    /// Leg B, which the B2BUA originated
    Callee,
}

/// The random texts that a call draws when it is bridged.
#[derive(Debug, Clone)]
pub struct Fresh {
    /// The identifier of the session
    pub session: String,
    /// The Call-ID of leg B
    pub call_id: String,
    /// The tag of this side on leg A
    pub caller_tag: String,
    /// The tag of this side on leg B
    pub callee_tag: String,
    /// The branch of the transaction that is begun
    pub branch: String,
}

/// What the fresh texts are.
pub struct FreshView {
    pub session: Seq<char>,
    pub call_id: Seq<char>,
    pub caller_tag: Seq<char>,
    pub callee_tag: Seq<char>,
    pub branch: Seq<char>,
}

impl View for Fresh {
    type V = FreshView;

    open spec fn view(&self) -> FreshView {
        FreshView {
            session: self.session@,
            call_id: self.call_id@,
            caller_tag: self.caller_tag@,
            callee_tag: self.callee_tag@,
            branch: self.branch@,
        }
    }
}

/// A call that is bridged: the session with its two legs, and what ties
/// the legs to their dialogs.
#[derive(Debug, Clone)]
pub struct Call {
    /// The session, under the Call-ID of leg A
    pub session: Session,
    /// The Call-ID of leg B
    pub callee_call_id: String,
    /// The URI of requests to the caller
    pub caller_uri: Uri,
    /// The URI of requests to the callee
    pub callee_uri: Uri,
    /// The branch of the INVITE on leg B
    pub branch: String,
    /// The headers under which the INVITE of the caller is answered
    pub echo: Vec<Header>,
}

/// What a call holds.
pub struct CallView {
    pub session: SessionView,
    pub callee_call_id: Seq<char>,
    pub caller_uri: UriView,
    pub callee_uri: UriView,
    pub branch: Seq<char>,
    pub echo: Seq<HeaderView>,
}

impl View for Call {
    type V = CallView;

    open spec fn view(&self) -> CallView {
        CallView {
            session: self.session@,
            callee_call_id: self.callee_call_id@,
            caller_uri: self.caller_uri@,
            callee_uri: self.callee_uri@,
            branch: self.branch@,
            echo: header_views(self.echo@),
        }
    }
}

/// What the calls of a list hold, in order.
pub open spec fn call_views(c: Seq<Call>) -> Seq<CallView> {
    Seq::new(c.len(), |i: int| c[i]@)
}

/// What the B2BUA sends.
#[derive(Debug, Clone)]
pub enum Action {
    /// A message for the sender of the message that is handled
    Reply(Message),
    /// A message for the caller, at its address
    ToCaller { message: Message, address: SocketAddress },
    /// A message for the callee, at the target of its destination
    ToCallee { message: Message, target: String },
}

/// What an action holds.
pub enum ActionView {
    Reply(MessageView),
    ToCaller { message: MessageView, address: SocketAddress },
    ToCallee { message: MessageView, target: Seq<char> },
}

impl View for Action {
    type V = ActionView;

    open spec fn view(&self) -> ActionView {
        match self {
            Action::Reply(m) => ActionView::Reply(m@),
            Action::ToCaller { message, address } => ActionView::ToCaller {
                message: message@,
                address: *address,
            },
            Action::ToCallee { message, target } => ActionView::ToCallee {
                message: message@,
                target: target@,
            },
        }
    }
}

/// The message that an action sends.
pub open spec fn sent(a: ActionView) -> MessageView {
    match a {
        ActionView::Reply(m) => m,
        ActionView::ToCaller { message, address } => message,
        ActionView::ToCallee { message, target } => message,
    }
}

impl Action {
    /// The message that is sent.
    pub fn message(&self) -> (m: &Message)
        ensures
            m@ == sent(self@),
    {
        match self {
            Action::Reply(m) => m,
            Action::ToCaller { message, address } => message,
            Action::ToCallee { message, target } => message,
        }
    }
}

/// What the actions of a list hold, in order.
pub open spec fn action_views(a: Seq<Action>) -> Seq<ActionView> {
    Seq::new(a.len(), |i: int| a[i]@)
}

/// The calls after a message, and what is sent.
pub type Turn = (Seq<CallView>, Seq<ActionView>);

/// The text by which a call is found on a side: the Call-ID of the leg.
pub open spec fn call_id_on(call: CallView, side: Side) -> Seq<char> {
    match side {
        Side::Caller => call.session.call_id,
        Side::Callee => call.callee_call_id,
    }
}

/// The index at or after `from` of the call with the Call-ID `call_id` on
/// `side`, or the number of calls.
pub open spec fn index_on(calls: Seq<CallView>, side: Side, call_id: Seq<char>, from: int) -> int
    decreases calls.len() - from,
{
    if 0 <= from < calls.len() && call_id_on(calls[from], side) != call_id {
        index_on(calls, side, call_id, from + 1)
    } else {
        from
    }
}

/// The index at or after `from` of the call whose session has the
/// identifier `id`, or the number of calls.
pub open spec fn index_of_session(calls: Seq<CallView>, id: Seq<char>, from: int) -> int
    decreases calls.len() - from,
{
    if 0 <= from < calls.len() && calls[from].session.id != id {
        index_of_session(calls, id, from + 1)
    } else {
        from
    }
}

/// The call that a Call-ID belongs to, and the side on which it does: the
/// caller's side is looked at first.
pub open spec fn found(calls: Seq<CallView>, call_id: Seq<char>) -> Option<(int, Side)> {
    let a = index_on(calls, Side::Caller, call_id, 0);
    let b = index_on(calls, Side::Callee, call_id, 0);
    if 0 <= a < calls.len() {
        Some((a, Side::Caller))
    } else if 0 <= b < calls.len() {
        Some((b, Side::Callee))
    } else {
        None
    }
}

/// Whether the calls are apart: no two have the same Call-ID on leg A, the
/// same Call-ID on leg B or the same session, and no Call-ID of a leg A is
/// one of a leg B.
pub open spec fn apart(calls: Seq<CallView>) -> bool {
    &&& forall|i: int, j: int|
        0 <= i < j < calls.len() ==> calls[i].session.call_id != calls[j].session.call_id
            && calls[i].callee_call_id != calls[j].callee_call_id && calls[i].session.id
            != calls[j].session.id
    &&& forall|i: int, j: int|
        0 <= i < calls.len() && 0 <= j < calls.len() ==> calls[i].session.call_id
            != calls[j].callee_call_id
}

/// Whether a call is alive: it has both its legs, and it is not
/// terminated.
pub open spec fn alive(call: CallView) -> bool {
    call.session.a_leg is Some && call.session.b_leg is Some && call.session.state
        != SessionState::Terminated
}

/// Whether every call is alive. A call that terminates is removed.
pub open spec fn all_alive(calls: Seq<CallView>) -> bool {
    forall|i: int| 0 <= i < calls.len() ==> alive(#[trigger] calls[i])
}

// ---------------------------------------------------------------------------
// What is sent on a leg
// ---------------------------------------------------------------------------

/// The dialog of leg A as this side sends on it: the caller's `To` is
/// this side's `From`.
pub open spec fn toward_caller(a: LegView) -> LegView {
    LegView { from_uri: a.to_uri, to_uri: a.from_uri, ..a }
}

/// The leg opposite to `side`.
pub open spec fn opposite_leg(call: CallView, side: Side) -> Option<LegView> {
    match side {
        Side::Caller => call.session.b_leg,
        Side::Callee => call.session.a_leg,
    }
}

/// The request that is sent on the leg opposite to `from`, under the
/// sequence number `cseq` of that leg.
pub open spec fn passed_on(
    call: CallView,
    from: Side,
    leg: LegView,
    e: EndpointView,
    method: Seq<char>,
    cseq: u32,
    branch: Seq<char>,
    content_type: Option<Seq<char>>,
    body: Seq<u8>,
) -> ActionView {
    match from {
        Side::Caller => ActionView::ToCallee {
            message: MessageView::Request(
                leg_request(
                    leg,
                    method,
                    call.callee_uri,
                    via_text(e, branch),
                    call.callee_call_id,
                    cseq,
                    e.max_forwards,
                    content_type,
                    body,
                ),
            ),
            target: or_empty(leg.contact),
        },
        Side::Callee => ActionView::ToCaller {
            message: MessageView::Request(
                leg_request(
                    toward_caller(leg),
                    method,
                    call.caller_uri,
                    via_text(e, branch),
                    call.session.call_id,
                    cseq,
                    e.max_forwards,
                    content_type,
                    body,
                ),
            ),
            address: leg.remote_addr,
        },
    }
}

/// The call with `leg` as the leg opposite to `side`, in the state
/// `state`.
pub open spec fn with_opposite(call: CallView, side: Side, leg: LegView, state: SessionState) -> CallView {
    match side {
        Side::Caller => CallView {
            session: SessionView { b_leg: Some(leg), state, ..call.session },
            ..call
        },
        Side::Callee => CallView {
            session: SessionView { a_leg: Some(leg), state, ..call.session },
            ..call
        },
    }
}

/// The answer to the sender of a request: a response without a body that
/// repeats the dialog headers of the request.
pub open spec fn reply_to(request: RequestView, status: u16, tag: Seq<char>) -> ActionView {
    ActionView::Reply(
        MessageView::Response(answer_on(status, echoed(request.headers, tag), Seq::empty())),
    )
}

/// The headers that tell what the B2BUA can do.
pub open spec fn capabilities() -> Seq<HeaderView> {
    seq![
        header("Allow"@, "INVITE, ACK, BYE, CANCEL, OPTIONS, INFO"@),
        header("Accept"@, "application/sdp"@),
        header("Supported"@, "replaces, timer"@),
    ]
}

// ---------------------------------------------------------------------------
// Requests
// ---------------------------------------------------------------------------

/// The description that an INVITE offers: none where it has no body; an
/// error where its body is not a description.
pub open spec fn offer_of(body: Seq<u8>) -> Result<Option<SdpView>, ()> {
    if body.len() == 0 {
        Ok(None)
    } else if !valid_utf8(body) {
        Err(())
    } else {
        match parse_sdp(decode_utf8(body)) {
            Ok(d) => Ok(Some(d)),
            Err(_) => Err(()),
        }
    }
}

/// Where the B leg of an INVITE goes, and with which description; or the
/// status with which the INVITE is refused: `404` without a route, `403`
/// where the route rejects the call or hangs up, `488` where the offer
/// cannot be read or shares no codec with the enabled set.
pub open spec fn bridged(
    e: EndpointView,
    routes: Seq<RouteRule>,
    codecs: Seq<Codec>,
    request: RequestView,
    now: Moment,
) -> Result<(UriView, Seq<char>, Option<SdpView>), u16> {
    let context = ContextView {
        caller_id: or_empty(header_value(request.headers, "From"@)),
        destination: or_empty(request.uri.user),
    };
    let offer = offer_of(request.body);
    let plan = invite_plan(
        decision(routes, context, now),
        match offer {
            Ok(o) => o,
            Err(_) => None,
        },
        codecs,
        e.connection,
        e.rtp_port,
    );
    match plan {
        PlanView::Refuse { refusal } => Err(refusal_status(refusal)),
        PlanView::Forward { destination, sdp } => match callee_of(
            destination,
            request.uri.user,
            e.domain,
        ) {
            None => Err(403),
            Some((uri, target)) => if offer is Err {
                Err(488)
            } else {
                Ok((uri, target, sdp))
            },
        },
    }
}

/// Whether the fresh texts can be given to a new call with the Call-ID
/// `call_id`: the fresh Call-ID is not that one and belongs to no call,
/// and no session has the fresh identifier.
pub open spec fn usable(calls: Seq<CallView>, call_id: Seq<char>, fresh: FreshView) -> bool {
    fresh.call_id != call_id && found(calls, fresh.call_id) is None && index_of_session(
        calls,
        fresh.session,
        0,
    ) == calls.len()
}

/// The address of a party that has not been heard from.
pub open spec fn unknown_address() -> SocketAddress {
    SocketAddress { ip: IpAddress::V4(0), port: 0 }
}

/// The identity under which the caller is presented to the callee: the
/// `From` of the caller without its tag, or the domain of the B2BUA.
pub open spec fn presented(headers: Seq<HeaderView>, domain: Seq<char>) -> Seq<char> {
    match header_value(headers, "From"@) {
        Some(from) => untagged(from),
        None => "<sip:"@ + domain + seq!['>'],
    }
}

/// The leg A that an INVITE seeds.
pub open spec fn caller_leg(request: RequestView, source: SocketAddress, tag: Seq<char>) -> LegView {
    LegView {
        remote_addr: source,
        from_uri: or_empty(header_value(request.headers, "From"@)),
        to_uri: or_empty(header_value(request.headers, "To"@)),
        contact: header_value(request.headers, "Contact"@),
        sdp: None,
        local_tag: tag,
        cseq: 0,
    }
}

/// The leg B that is originated for an INVITE, before anything is sent on
/// it.
pub open spec fn callee_leg(
    request: RequestView,
    e: EndpointView,
    uri: UriView,
    target: Seq<char>,
    sdp: Option<SdpView>,
    tag: Seq<char>,
) -> LegView {
    LegView {
        remote_addr: unknown_address(),
        from_uri: presented(request.headers, e.domain),
        to_uri: seq!['<'] + uri_text(uri) + seq!['>'],
        contact: Some(target),
        sdp: match sdp {
            Some(d) => Some(sdp_text(d)),
            None => None,
        },
        local_tag: tag,
        cseq: 0,
    }
}

/// The body that carries a description.
pub open spec fn sdp_body(sdp: Option<SdpView>) -> Seq<u8> {
    match sdp {
        Some(d) => encode_utf8(sdp_text(d)),
        None => Seq::empty(),
    }
}

/// The type of the body that carries a description.
pub open spec fn sdp_type(sdp: Option<SdpView>) -> Option<Seq<char>> {
    match sdp {
        Some(_) => Some("application/sdp"@),
        None => None,
    }
}

/// The call that is created for an INVITE which is bridged to `uri` at
/// `target`, and the INVITE that is sent on its leg B: under the fresh
/// Call-ID and tag, with the sequence number 1 and the description `sdp`.
pub open spec fn opened(
    e: EndpointView,
    request: RequestView,
    call_id: Seq<char>,
    source: SocketAddress,
    fresh: FreshView,
    uri: UriView,
    target: Seq<char>,
    sdp: Option<SdpView>,
) -> (CallView, ActionView) {
    let leg = callee_leg(request, e, uri, target, sdp, fresh.callee_tag);
    let call = CallView {
        session: SessionView {
            id: fresh.session,
            call_id,
            state: SessionState::Initial,
            a_leg: Some(caller_leg(request, source, fresh.caller_tag)),
            b_leg: Some(LegView { cseq: 1, ..leg }),
        },
        callee_call_id: fresh.call_id,
        caller_uri: caller_uri(request.headers, e.domain),
        callee_uri: uri,
        branch: fresh.branch,
        echo: echoed(request.headers, fresh.caller_tag),
    };
    (
        call,
        passed_on(
            call,
            Side::Caller,
            leg,
            e,
            "INVITE"@,
            1,
            fresh.branch,
            sdp_type(sdp),
            sdp_body(sdp),
        ),
    )
}

/// INVITE. For a Call-ID that has a call, `100 Trying` and nothing else.
/// For a new Call-ID, `100 Trying`; then, where the call is bridged, a call
/// is created and the INVITE of leg B is sent, under a new Call-ID and a
/// new tag and with the description negotiated from the offer; where it is
/// refused, the refusal is answered and no call is created. Fresh texts
/// that are in use already refuse the call with `500`.
pub open spec fn on_invite(
    calls: Seq<CallView>,
    e: EndpointView,
    routes: Seq<RouteRule>,
    codecs: Seq<Codec>,
    request: RequestView,
    call_id: Seq<char>,
    source: SocketAddress,
    now: Moment,
    fresh: FreshView,
) -> Turn {
    let trying = reply_to(request, 100, fresh.caller_tag);
    if found(calls, call_id) is Some {
        (calls, seq![trying])
    } else {
        match bridged(e, routes, codecs, request, now) {
            Err(status) => (calls, seq![trying, reply_to(request, status, fresh.caller_tag)]),
            Ok((uri, target, sdp)) => if !usable(calls, call_id, fresh) {
                (calls, seq![trying, reply_to(request, 500, fresh.caller_tag)])
            } else {
                let (call, invite) = opened(e, request, call_id, source, fresh, uri, target, sdp);
                (calls.push(call), seq![trying, invite])
            },
        }
    }
}

/// ACK: for an established call it is sent on the opposite leg, under the
/// sequence number of the INVITE of that leg. Nothing is answered.
pub open spec fn on_ack(
    calls: Seq<CallView>,
    e: EndpointView,
    request: RequestView,
    call_id: Seq<char>,
    fresh: FreshView,
) -> Turn {
    match found(calls, call_id) {
        Some((i, side)) => match opposite_leg(calls[i], side) {
            Some(leg) => if calls[i].session.state == SessionState::Established {
                (
                    calls,
                    seq![
                        passed_on(
                            calls[i],
                            side,
                            leg,
                            e,
                            "ACK"@,
                            leg.cseq,
                            fresh.branch,
                            header_value(request.headers, "Content-Type"@),
                            request.body,
                        ),
                    ],
                )
            } else {
                (calls, Seq::empty())
            },
            None => (calls, Seq::empty()),
        },
        None => (calls, Seq::empty()),
    }
}

/// BYE: `200 OK` is answered. A call that is not being terminated yet
/// sends BYE on the opposite leg, under the next sequence number of that
/// leg, and is then being terminated; a call that is being terminated
/// already, or that has no opposite leg, is removed.
pub open spec fn on_bye(
    calls: Seq<CallView>,
    e: EndpointView,
    request: RequestView,
    call_id: Seq<char>,
    fresh: FreshView,
) -> Turn {
    let ok = reply_to(request, 200, fresh.caller_tag);
    match found(calls, call_id) {
        Some((i, side)) => match opposite_leg(calls[i], side) {
            Some(leg) => if calls[i].session.state == SessionState::Terminating {
                (calls.remove(i), seq![ok])
            } else {
                let n = cseq_after(leg.cseq);
                (
                    calls.update(
                        i,
                        with_opposite(
                            calls[i],
                            side,
                            LegView { cseq: n, ..leg },
                            SessionState::Terminating,
                        ),
                    ),
                    seq![
                        ok,
                        passed_on(
                            calls[i],
                            side,
                            leg,
                            e,
                            "BYE"@,
                            n,
                            fresh.branch,
                            None,
                            Seq::empty(),
                        ),
                    ],
                )
            },
            None => (calls.remove(i), seq![ok]),
        },
        None => (calls, seq![ok]),
    }
}

/// CANCEL: `200 OK` is answered. Where the caller cancels a call that is
/// not yet established, its INVITE is answered with `487 Request
/// Terminated`, CANCEL is sent on leg B in the transaction of the INVITE
/// of that leg, and the call is then being terminated.
pub open spec fn on_cancel(
    calls: Seq<CallView>,
    e: EndpointView,
    request: RequestView,
    call_id: Seq<char>,
    fresh: FreshView,
) -> Turn {
    let ok = reply_to(request, 200, fresh.caller_tag);
    match found(calls, call_id) {
        Some((i, Side::Caller)) => if calls[i].session.state == SessionState::Initial
            || calls[i].session.state == SessionState::Ringing {
            let ended = ActionView::Reply(
                MessageView::Response(answer_on(487, calls[i].echo, Seq::empty())),
            );
            match calls[i].session.b_leg {
                Some(leg) => (
                    calls.update(
                        i,
                        with_opposite(calls[i], Side::Caller, leg, SessionState::Terminating),
                    ),
                    seq![
                        ok,
                        ended,
                        passed_on(
                            calls[i],
                            Side::Caller,
                            leg,
                            e,
                            "CANCEL"@,
                            leg.cseq,
                            calls[i].branch,
                            None,
                            Seq::empty(),
                        ),
                    ],
                ),
                None => (calls.remove(i), seq![ok, ended]),
            }
        } else {
            (calls, seq![ok])
        },
        _ => (calls, seq![ok]),
    }
}

/// A request: OPTIONS is answered with `200 OK` and the capabilities; a
/// request without a Call-ID is answered with `400 Bad Request`, but for
/// ACK, which is never answered; INVITE, ACK, BYE and CANCEL are handled
/// as said above; every other method is answered with `501 Not
/// Implemented`.
pub open spec fn on_request(
    calls: Seq<CallView>,
    e: EndpointView,
    routes: Seq<RouteRule>,
    codecs: Seq<Codec>,
    request: RequestView,
    source: SocketAddress,
    now: Moment,
    fresh: FreshView,
) -> Turn {
    if request.method == "OPTIONS"@ {
        (
            calls,
            seq![
                ActionView::Reply(
                    MessageView::Response(
                        answer_on(200, echoed(request.headers, fresh.caller_tag), capabilities()),
                    ),
                ),
            ],
        )
    } else {
        match header_value(request.headers, "Call-ID"@) {
            None => if request.method == "ACK"@ {
                (calls, Seq::empty())
            } else {
                (calls, seq![reply_to(request, 400, fresh.caller_tag)])
            },
            Some(call_id) => if request.method == "INVITE"@ {
                on_invite(calls, e, routes, codecs, request, call_id, source, now, fresh)
            } else if request.method == "ACK"@ {
                on_ack(calls, e, request, call_id, fresh)
            } else if request.method == "BYE"@ {
                on_bye(calls, e, request, call_id, fresh)
            } else if request.method == "CANCEL"@ {
                on_cancel(calls, e, request, call_id, fresh)
            } else {
                (calls, seq![reply_to(request, 501, fresh.caller_tag)])
            },
        }
    }
}

// ---------------------------------------------------------------------------
// Responses
// ---------------------------------------------------------------------------

/// The body that the caller gets for a body of the callee: where the body
/// is a description that shares a codec with the enabled set, the
/// description that is negotiated from it, on the connection and port of
/// the B2BUA; else the body as it is.
pub open spec fn relayed_body(e: EndpointView, codecs: Seq<Codec>, body: Seq<u8>) -> Seq<u8> {
    match offer_of(body) {
        Ok(Some(d)) => match negotiated(d, codecs, e.connection, e.rtp_port) {
            Some(n) => encode_utf8(sdp_text(n)),
            None => body,
        },
        _ => body,
    }
}

/// The response for the caller that is paired with a response of the
/// callee: its status, reason and body type, with the body that the caller
/// gets for its body, under the headers with which the INVITE of the
/// caller is answered.
pub open spec fn relayed(
    call: CallView,
    e: EndpointView,
    codecs: Seq<Codec>,
    response: ResponseView,
) -> ResponseView {
    response_on(
        response.status,
        response.reason,
        call.echo,
        Seq::empty(),
        header_value(response.headers, "Content-Type"@),
        relayed_body(e, codecs, response.body),
    )
}

/// Leg B after a response was heard on it: the callee is at the address
/// from which the response came, and is addressed by the `To` of the
/// response, which carries its tag.
pub open spec fn heard(leg: LegView, response: ResponseView, source: SocketAddress) -> LegView {
    LegView {
        remote_addr: source,
        to_uri: match header_value(response.headers, "To"@) {
            Some(to) => to,
            None => leg.to_uri,
        },
        ..leg
    }
}

/// A response of the callee to the INVITE of leg B. `100 Trying` goes no
/// further. Every other response is paired with one for the caller. A
/// ringing moves the call to `Ringing` and an answer to `Established`; a
/// failure is acknowledged on leg B, and the call is removed.
pub open spec fn on_callee_response(
    calls: Seq<CallView>,
    e: EndpointView,
    codecs: Seq<Codec>,
    response: ResponseView,
    source: SocketAddress,
    i: int,
) -> Turn {
    let call = calls[i];
    match (call.session.a_leg, call.session.b_leg) {
        (Some(a), Some(b)) => {
            let relay = ActionView::ToCaller {
                message: MessageView::Response(relayed(call, e, codecs, response)),
                address: a.remote_addr,
            };
            if response.status == 100 {
                (calls, Seq::empty())
            } else {
                match event_of_status(response.status) {
                    Some(SessionEvent::Failed) => (
                        calls.remove(i),
                        seq![
                            relay,
                            passed_on(
                                call,
                                Side::Caller,
                                heard(b, response, source),
                                e,
                                "ACK"@,
                                b.cseq,
                                call.branch,
                                None,
                                Seq::empty(),
                            ),
                        ],
                    ),
                    Some(event) => (
                        calls.update(
                            i,
                            with_opposite(
                                call,
                                Side::Caller,
                                heard(b, response, source),
                                state_after(call.session.state, event),
                            ),
                        ),
                        seq![relay],
                    ),
                    None => (calls, seq![relay]),
                }
            }
        },
        _ => (calls, Seq::empty()),
    }
}

/// A response. One without a Call-ID, or with a Call-ID that has no call,
/// is dropped. A final response on a call that is being terminated
/// completes the teardown: the call is removed. On any other call, a
/// response of the caller is dropped, and a response of the callee is
/// handled as said above.
pub open spec fn on_response(
    calls: Seq<CallView>,
    e: EndpointView,
    codecs: Seq<Codec>,
    response: ResponseView,
    source: SocketAddress,
) -> Turn {
    match header_value(response.headers, "Call-ID"@) {
        None => (calls, Seq::empty()),
        Some(call_id) => match found(calls, call_id) {
            None => (calls, Seq::empty()),
            Some((i, side)) => if calls[i].session.state == SessionState::Terminating {
                if response.status >= 200 {
                    (calls.remove(i), Seq::empty())
                } else {
                    (calls, Seq::empty())
                }
            } else if side == Side::Callee {
                on_callee_response(calls, e, codecs, response, source, i)
            } else {
                (calls, Seq::empty())
            },
        },
    }
}

/// What a message does to the calls, and what is sent.
pub open spec fn dispatched(
    calls: Seq<CallView>,
    e: EndpointView,
    routes: Seq<RouteRule>,
    codecs: Seq<Codec>,
    message: MessageView,
    source: SocketAddress,
    now: Moment,
    fresh: FreshView,
) -> Turn {
    match message {
        MessageView::Request(request) => on_request(
            calls,
            e,
            routes,
            codecs,
            request,
            source,
            now,
            fresh,
        ),
        MessageView::Response(response) => on_response(calls, e, codecs, response, source),
    }
}

// ---------------------------------------------------------------------------
// Timers
// ---------------------------------------------------------------------------

/// What becomes of a call whose timer ran out. A call that is not yet
/// established was not answered in time: the caller is answered with `408
/// Request Timeout`, and CANCEL is sent on leg B. An established call was
/// without traffic for too long: BYE is sent on both legs. In every case
/// the call is removed.
pub open spec fn on_timeout(
    calls: Seq<CallView>,
    e: EndpointView,
    call_id: Seq<char>,
    fresh: FreshView,
) -> Turn {
    match found(calls, call_id) {
        Some((i, _)) => {
            let call = calls[i];
            match (call.session.a_leg, call.session.b_leg) {
                (Some(a), Some(b)) => if call.session.state == SessionState::Initial
                    || call.session.state == SessionState::Ringing {
                    (
                        calls.remove(i),
                        seq![
                            ActionView::ToCaller {
                                message: MessageView::Response(
                                    answer_on(408, call.echo, Seq::empty()),
                                ),
                                address: a.remote_addr,
                            },
                            passed_on(
                                call,
                                Side::Caller,
                                b,
                                e,
                                "CANCEL"@,
                                b.cseq,
                                call.branch,
                                None,
                                Seq::empty(),
                            ),
                        ],
                    )
                } else if call.session.state == SessionState::Established {
                    (
                        calls.remove(i),
                        seq![
                            passed_on(
                                call,
                                Side::Callee,
                                a,
                                e,
                                "BYE"@,
                                cseq_after(a.cseq),
                                fresh.branch,
                                None,
                                Seq::empty(),
                            ),
                            passed_on(
                                call,
                                Side::Caller,
                                b,
                                e,
                                "BYE"@,
                                cseq_after(b.cseq),
                                fresh.branch,
                                None,
                                Seq::empty(),
                            ),
                        ],
                    )
                } else {
                    (calls.remove(i), Seq::empty())
                },
                _ => (calls.remove(i), Seq::empty()),
            }
        },
        None => (calls, Seq::empty()),
    }
}

} // verus!
