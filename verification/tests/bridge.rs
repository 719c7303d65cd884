use rustalk::b2bua::bridge::{read_offer, Bridge};
use rustalk::b2bua::call::{Action, Fresh, Side};
use rustalk::b2bua::party::{address_of, uri_of_callee, uri_of_caller, without_tag, Endpoint};
use rustalk::b2bua::reply::echo_headers;
use rustalk::b2bua::policy::missing_header;
use rustalk::b2bua::session::SessionState;
use rustalk::ip::{IpAddress, SocketAddress};
use rustalk::media::sdp::SdpSession;
use rustalk::media::CodecConfig;
use rustalk::routing::matcher::{Moment, SystemTimeProvider};
use rustalk::routing::{RouteAction, RouteDestination, RouteRule, RoutingConfig};
use rustalk::sip::header::Header;
use rustalk::sip::message::{Message, Request, Response};
use rustalk::sip::parser::parse_message;

const OFFER: &str = "v=0\r\no=alice 1 1 IN IP4 198.51.100.7\r\ns=call\r\nc=IN IP4 198.51.100.7\r\nt=0 0\r\nm=audio 4000 RTP/AVP 0 8 120\r\na=rtpmap:0 PCMU/8000\r\na=rtpmap:8 PCMA/8000\r\na=rtpmap:120 VP8/90000\r\n";

fn caller() -> SocketAddress {
    SocketAddress { ip: IpAddress::V4(0xc633_6407), port: 5062 }
}

fn callee() -> SocketAddress {
    SocketAddress { ip: IpAddress::V4(0x0a00_0005), port: 5060 }
}

fn now() -> Moment {
    Moment { year: 2024, month: 1, day: 15, hour: 10, minute: 30, second: 0, weekday: 1 }
}

fn route(id: &str, priority: u32, pattern: &str, destination: RouteDestination, action: RouteAction) -> RouteRule {
    RouteRule {
        id: id.to_string(),
        name: format!("Route {}", id),
        description: None,
        pattern: pattern.to_string(),
        destination,
        enabled: true,
        priority,
        conditions: None,
        action,
        continue_on_match: false,
    }
}

fn bridge() -> Bridge {
    let mut routes = RoutingConfig::new();
    routes.add_route(route("trunk", 10, r"^2\d{3}$", RouteDestination::Trunk("10.0.0.5:5060".to_string()), RouteAction::Accept));
    routes.add_route(route("desk", 20, r"^3\d{3}$", RouteDestination::Extension("3000".to_string()), RouteAction::Accept));
    routes.add_route(route("barred", 30, r"^900", RouteDestination::Trunk("10.0.0.5".to_string()), RouteAction::Reject));
    routes.add_route(route("drop", 40, r"^666$", RouteDestination::Hangup, RouteAction::Accept));
    Bridge::new(Endpoint::new("sbc.example.com", "192.0.2.1"), routes, CodecConfig::new())
}

fn fresh(n: u32) -> Fresh {
    Fresh {
        session: format!("session-{}", n),
        call_id: format!("leg-b-{}", n),
        caller_tag: format!("ta{}", n),
        callee_tag: format!("tb{}", n),
        branch: format!("br{}", n),
    }
}

fn request(method: &str, user: &str, call_id: &str, cseq: u32, to_tag: &str, body: &str) -> Message {
    let content_type = if body.is_empty() { "" } else { "Content-Type: application/sdp\r\n" };
    let text = format!(
        "{m} sip:{u}@sbc.example.com SIP/2.0\r\nVia: SIP/2.0/UDP 198.51.100.7:5062;branch=z9hG4bKa{n}\r\nFrom: \"Alice\" <sip:alice@example.org>;tag=alice1\r\nTo: <sip:{u}@sbc.example.com>{t}\r\nCall-ID: {c}\r\nCSeq: {n} {m}\r\nContact: <sip:alice@198.51.100.7:5062>\r\nMax-Forwards: 70\r\nUser-Agent: phone\r\n{ct}Content-Length: {l}\r\n\r\n{b}",
        m = method,
        u = user,
        c = call_id,
        n = cseq,
        t = to_tag,
        ct = content_type,
        l = body.len(),
        b = body
    );
    parse_message(text.as_bytes()).unwrap()
}

fn response(status: u16, reason: &str, call_id: &str, cseq: &str, body: &str) -> Message {
    let content_type = if body.is_empty() { "" } else { "Content-Type: application/sdp\r\n" };
    let text = format!(
        "SIP/2.0 {s} {r}\r\nVia: SIP/2.0/UDP sbc.example.com;branch=z9hG4bKbr1\r\nFrom: \"Alice\" <sip:alice@example.org>;tag=tb1\r\nTo: <sip:2001@10.0.0.5:5060>;tag=bob9\r\nCall-ID: {c}\r\nCSeq: {q}\r\n{ct}Content-Length: {l}\r\n\r\n{b}",
        s = status,
        r = reason,
        c = call_id,
        q = cseq,
        ct = content_type,
        l = body.len(),
        b = body
    );
    parse_message(text.as_bytes()).unwrap()
}

fn header<'a>(headers: &'a [Header], name: &str) -> Option<&'a str> {
    headers.iter().find(|h| h.name.is(name)).map(|h| h.value.as_str())
}

fn names(headers: &[Header]) -> Vec<&str> {
    headers.iter().map(|h| h.name.as_str()).collect()
}

fn reply_of(action: &Action) -> &Response {
    match action {
        Action::Reply(Message::Response(r)) => r,
        other => panic!("not a reply: {:?}", other),
    }
}

fn to_callee(action: &Action) -> (&Request, &str) {
    match action {
        Action::ToCallee { message: Message::Request(r), target } => (r, target.as_str()),
        other => panic!("not a request for the callee: {:?}", other),
    }
}

fn state_of(bridge: &Bridge, call_id: &str) -> Option<SessionState> {
    bridge.find_call(call_id).map(|(call, _)| call.session.state())
}

/// A bridge with the call `call-1` from the caller to 2001, and its leg B
/// `leg-b-1`.
fn with_call() -> Bridge {
    let mut b = bridge();
    let actions = b.dispatch_with(&request("INVITE", "2001", "call-1", 1, "", OFFER), caller(), &now(), &fresh(1));
    assert_eq!(actions.len(), 2);
    b
}

fn established() -> Bridge {
    let mut b = with_call();
    let answer = "v=0\r\no=bob 2 2 IN IP4 10.0.0.5\r\ns=call\r\nc=IN IP4 10.0.0.5\r\nt=0 0\r\nm=audio 6000 RTP/AVP 0\r\na=rtpmap:0 PCMU/8000\r\n";
    let actions = b.dispatch_with(&response(200, "OK", "leg-b-1", "1 INVITE", answer), callee(), &now(), &fresh(2));
    assert_eq!(actions.len(), 1);
    b
}

#[test]
fn invite_is_answered_and_bridged() {
    let mut b = bridge();
    assert_eq!(b.call_count(), 0);
    let actions = b.dispatch_with(&request("INVITE", "2001", "call-1", 1, "", OFFER), caller(), &now(), &fresh(1));
    assert_eq!(actions.len(), 2);

    let trying = reply_of(&actions[0]);
    assert_eq!(trying.status_code.0, 100);
    assert_eq!(trying.reason_phrase, "Trying");
    assert_eq!(names(&trying.headers), vec!["Via", "From", "To", "Call-ID", "CSeq", "Content-Length"]);
    assert_eq!(header(&trying.headers, "Via"), Some("SIP/2.0/UDP 198.51.100.7:5062;branch=z9hG4bKa1"));
    assert_eq!(header(&trying.headers, "From"), Some("\"Alice\" <sip:alice@example.org>;tag=alice1"));
    assert_eq!(header(&trying.headers, "To"), Some("<sip:2001@sbc.example.com>;tag=ta1"));
    assert_eq!(header(&trying.headers, "Call-ID"), Some("call-1"));
    assert_eq!(header(&trying.headers, "CSeq"), Some("1 INVITE"));
    assert_eq!(header(&trying.headers, "Content-Length"), Some("0"));
    assert!(trying.body.is_empty());

    let (invite, target) = to_callee(&actions[1]);
    assert_eq!(target, "10.0.0.5:5060");
    assert_eq!(invite.method.as_str(), "INVITE");
    assert_eq!(invite.uri.to_string(), "sip:2001@10.0.0.5:5060");
    assert_eq!(invite.uri.port, Some(5060));
    assert_eq!(
        names(&invite.headers),
        vec!["Via", "From", "To", "Call-ID", "CSeq", "Max-Forwards", "Content-Type", "Content-Length"]
    );
    assert_eq!(header(&invite.headers, "Via"), Some("SIP/2.0/UDP sbc.example.com;branch=z9hG4bKbr1"));
    assert_eq!(header(&invite.headers, "From"), Some("\"Alice\" <sip:alice@example.org>;tag=tb1"));
    assert_eq!(header(&invite.headers, "To"), Some("<sip:2001@10.0.0.5:5060>"));
    assert_eq!(header(&invite.headers, "Call-ID"), Some("leg-b-1"));
    assert_eq!(header(&invite.headers, "CSeq"), Some("1 INVITE"));
    assert_eq!(header(&invite.headers, "Max-Forwards"), Some("70"));
    assert_eq!(header(&invite.headers, "Content-Type"), Some("application/sdp"));
    assert_eq!(header(&invite.headers, "Content-Length"), Some(invite.body.len().to_string().as_str()));
    assert_eq!(missing_header(actions[1].message()), None);

    // the description is built anew: the shared payload types in the
    // order of the offer, on the connection and port of the B2BUA
    let sdp = SdpSession::parse(std::str::from_utf8(&invite.body).unwrap()).unwrap();
    assert_eq!(sdp.connection.as_deref(), Some("IN IP4 192.0.2.1"));
    assert_eq!(sdp.media.len(), 1);
    assert_eq!(sdp.media[0].port, 30000);
    assert_eq!(sdp.media[0].protocol, "RTP/AVP");
    assert_eq!(sdp.media[0].formats, vec![0, 8]);

    assert_eq!(b.call_count(), 1);
    let (call, side) = b.find_call("call-1").unwrap();
    assert_eq!(side, Side::Caller);
    assert_eq!(call.session.state(), SessionState::Initial);
    assert_eq!(call.session.id().as_str(), "session-1");
    assert_eq!(call.callee_call_id, "leg-b-1");
    assert_eq!(call.branch, "br1");
    assert_eq!(call.caller_uri.to_string(), "sip:alice@198.51.100.7:5062");
    let a = call.session.a_leg().unwrap();
    assert_eq!(a.remote_addr, caller());
    assert_eq!(a.local_tag, "ta1");
    assert_eq!(a.cseq, 0);
    let leg = call.session.b_leg().unwrap();
    assert_eq!(leg.local_tag, "tb1");
    assert_eq!(leg.cseq, 1);
    assert_eq!(leg.contact.as_deref(), Some("10.0.0.5:5060"));
    let (same, side) = b.find_call("leg-b-1").unwrap();
    assert_eq!(side, Side::Callee);
    assert_eq!(same.session.call_id(), "call-1");
    assert!(b.find_call("leg-b-2").is_none());
}

#[test]
fn responses_of_the_callee_are_paired() {
    let mut b = with_call();

    // 100 Trying goes no further
    let actions = b.dispatch_with(&response(100, "Trying", "leg-b-1", "1 INVITE", ""), callee(), &now(), &fresh(2));
    assert!(actions.is_empty());
    assert_eq!(state_of(&b, "call-1"), Some(SessionState::Initial));

    let actions = b.dispatch_with(&response(180, "Ringing", "leg-b-1", "1 INVITE", ""), callee(), &now(), &fresh(2));
    assert_eq!(actions.len(), 1);
    match &actions[0] {
        Action::ToCaller { message: Message::Response(r), address } => {
            assert_eq!(*address, caller());
            assert_eq!(r.status_code.0, 180);
            assert_eq!(r.reason_phrase, "Ringing");
            assert_eq!(names(&r.headers), vec!["Via", "From", "To", "Call-ID", "CSeq", "Content-Length"]);
            assert_eq!(header(&r.headers, "Via"), Some("SIP/2.0/UDP 198.51.100.7:5062;branch=z9hG4bKa1"));
            assert_eq!(header(&r.headers, "To"), Some("<sip:2001@sbc.example.com>;tag=ta1"));
            assert_eq!(header(&r.headers, "Call-ID"), Some("call-1"));
            assert_eq!(header(&r.headers, "CSeq"), Some("1 INVITE"));
        }
        other => panic!("{:?}", other),
    }
    assert_eq!(state_of(&b, "call-1"), Some(SessionState::Ringing));

    let answer = "v=0\r\nc=IN IP4 10.0.0.5\r\nm=audio 6000 RTP/AVP 0\r\n";
    let actions = b.dispatch_with(&response(200, "Fine", "leg-b-1", "1 INVITE", answer), callee(), &now(), &fresh(2));
    assert_eq!(actions.len(), 1);
    match &actions[0] {
        Action::ToCaller { message: Message::Response(r), address } => {
            assert_eq!(*address, caller());
            assert_eq!(r.status_code.0, 200);
            assert_eq!(r.reason_phrase, "Fine");
            assert_eq!(
                names(&r.headers),
                vec!["Via", "From", "To", "Call-ID", "CSeq", "Content-Type", "Content-Length"]
            );
            assert_eq!(header(&r.headers, "Content-Type"), Some("application/sdp"));
            assert_eq!(header(&r.headers, "Content-Length"), Some(r.body.len().to_string().as_str()));
            // the description of the callee is not passed on as it came
            assert_eq!(
                std::str::from_utf8(&r.body).unwrap(),
                "v=0\r\no=\r\ns=\r\nc=IN IP4 192.0.2.1\r\nt=0 0\r\nm=audio 30000 RTP/AVP 0\r\na=rtpmap:0 PCMU/8000\r\n"
            );
        }
        other => panic!("{:?}", other),
    }
    let (call, _) = b.find_call("call-1").unwrap();
    assert_eq!(call.session.state(), SessionState::Established);
    let leg = call.session.b_leg().unwrap();
    assert_eq!(leg.remote_addr, callee());
    assert_eq!(leg.to_uri, "<sip:2001@10.0.0.5:5060>;tag=bob9");
    assert_eq!(leg.cseq, 1);

    // a body that is no description, or shares no codec, is passed on as it is
    for body in ["hello", "v=0\r\nm=audio 6000 RTP/AVP 120\r\n"] {
        let actions = b.dispatch_with(&response(200, "OK", "leg-b-1", "1 INVITE", body), callee(), &now(), &fresh(2));
        match &actions[0] {
            Action::ToCaller { message: Message::Response(r), .. } => {
                assert_eq!(&r.body[..], body.as_bytes());
                assert_eq!(header(&r.headers, "Content-Length"), Some(body.len().to_string().as_str()));
            }
            other => panic!("{:?}", other),
        }
    }

    // a response of the caller's side, or of no call, is dropped
    assert!(b.dispatch_with(&response(200, "OK", "call-1", "1 INVITE", ""), caller(), &now(), &fresh(2)).is_empty());
    assert!(b.dispatch_with(&response(200, "OK", "nobody", "1 INVITE", ""), callee(), &now(), &fresh(2)).is_empty());
    assert_eq!(state_of(&b, "call-1"), Some(SessionState::Established));
    assert_eq!(b.call_count(), 1);
}

#[test]
fn ack_and_bye_go_to_the_other_leg() {
    let mut b = established();

    let actions = b.dispatch_with(&request("ACK", "2001", "call-1", 1, ";tag=ta1", ""), caller(), &now(), &fresh(3));
    assert_eq!(actions.len(), 1);
    let (ack, target) = to_callee(&actions[0]);
    assert_eq!(target, "10.0.0.5:5060");
    assert_eq!(ack.method.as_str(), "ACK");
    assert_eq!(ack.uri.to_string(), "sip:2001@10.0.0.5:5060");
    assert_eq!(header(&ack.headers, "Via"), Some("SIP/2.0/UDP sbc.example.com;branch=z9hG4bKbr3"));
    assert_eq!(header(&ack.headers, "From"), Some("\"Alice\" <sip:alice@example.org>;tag=tb1"));
    assert_eq!(header(&ack.headers, "To"), Some("<sip:2001@10.0.0.5:5060>;tag=bob9"));
    assert_eq!(header(&ack.headers, "Call-ID"), Some("leg-b-1"));
    assert_eq!(header(&ack.headers, "CSeq"), Some("1 ACK"));
    assert_eq!(header(&ack.headers, "Content-Length"), Some("0"));
    assert_eq!(missing_header(actions[0].message()), None);
    assert_eq!(state_of(&b, "call-1"), Some(SessionState::Established));

    let actions = b.dispatch_with(&request("BYE", "2001", "call-1", 2, ";tag=ta1", ""), caller(), &now(), &fresh(4));
    assert_eq!(actions.len(), 2);
    let ok = reply_of(&actions[0]);
    assert_eq!(ok.status_code.0, 200);
    assert_eq!(header(&ok.headers, "To"), Some("<sip:2001@sbc.example.com>;tag=ta1"));
    assert_eq!(header(&ok.headers, "CSeq"), Some("2 BYE"));
    let (bye, target) = to_callee(&actions[1]);
    assert_eq!(target, "10.0.0.5:5060");
    assert_eq!(bye.method.as_str(), "BYE");
    assert_eq!(header(&bye.headers, "Call-ID"), Some("leg-b-1"));
    assert_eq!(header(&bye.headers, "CSeq"), Some("2 BYE"));
    assert_eq!(header(&bye.headers, "Via"), Some("SIP/2.0/UDP sbc.example.com;branch=z9hG4bKbr4"));
    assert_eq!(header(&bye.headers, "To"), Some("<sip:2001@10.0.0.5:5060>;tag=bob9"));
    assert_eq!(missing_header(actions[1].message()), None);
    assert_eq!(state_of(&b, "call-1"), Some(SessionState::Terminating));
    assert_eq!(b.find_call("call-1").unwrap().0.session.b_leg().unwrap().cseq, 2);

    // an ACK is passed on for an established call only
    assert!(b.dispatch_with(&request("ACK", "2001", "call-1", 1, ";tag=ta1", ""), caller(), &now(), &fresh(5)).is_empty());
    // a provisional response does not end the teardown; a final one does
    assert!(b.dispatch_with(&response(100, "Trying", "leg-b-1", "2 BYE", ""), callee(), &now(), &fresh(5)).is_empty());
    assert_eq!(b.call_count(), 1);
    assert!(b.dispatch_with(&response(200, "OK", "leg-b-1", "2 BYE", ""), callee(), &now(), &fresh(5)).is_empty());
    assert_eq!(b.call_count(), 0);
}

#[test]
fn the_callee_hangs_up() {
    let mut b = established();
    let bye = parse_message(
        b"BYE sip:alice@sbc.example.com SIP/2.0\r\nVia: SIP/2.0/UDP 10.0.0.5;branch=z9hG4bKb7\r\nFrom: <sip:2001@10.0.0.5:5060>;tag=bob9\r\nTo: \"Alice\" <sip:alice@example.org>;tag=tb1\r\nCall-ID: leg-b-1\r\nCSeq: 7 BYE\r\nContent-Length: 0\r\n\r\n",
    )
    .unwrap();
    let actions = b.dispatch_with(&bye, callee(), &now(), &fresh(6));
    assert_eq!(actions.len(), 2);
    let ok = reply_of(&actions[0]);
    assert_eq!(ok.status_code.0, 200);
    assert_eq!(header(&ok.headers, "To"), Some("\"Alice\" <sip:alice@example.org>;tag=tb1"));
    assert_eq!(header(&ok.headers, "Call-ID"), Some("leg-b-1"));
    match &actions[1] {
        Action::ToCaller { message: Message::Request(r), address } => {
            assert_eq!(*address, caller());
            assert_eq!(r.method.as_str(), "BYE");
            assert_eq!(r.uri.to_string(), "sip:alice@198.51.100.7:5062");
            assert_eq!(header(&r.headers, "From"), Some("<sip:2001@sbc.example.com>;tag=ta1"));
            assert_eq!(header(&r.headers, "To"), Some("\"Alice\" <sip:alice@example.org>;tag=alice1"));
            assert_eq!(header(&r.headers, "Call-ID"), Some("call-1"));
            assert_eq!(header(&r.headers, "CSeq"), Some("1 BYE"));
            assert_eq!(header(&r.headers, "Via"), Some("SIP/2.0/UDP sbc.example.com;branch=z9hG4bKbr6"));
            assert_eq!(missing_header(actions[1].message()), None);
        }
        other => panic!("{:?}", other),
    }
    let (call, side) = b.find_call("leg-b-1").unwrap();
    assert_eq!(side, Side::Callee);
    assert_eq!(call.session.state(), SessionState::Terminating);
    assert_eq!(call.session.a_leg().unwrap().cseq, 1);
    assert_eq!(call.session.b_leg().unwrap().cseq, 1);

    // the caller hangs up as well: both sides are done, the call is removed
    let actions = b.dispatch_with(&request("BYE", "2001", "call-1", 2, ";tag=ta1", ""), caller(), &now(), &fresh(7));
    assert_eq!(actions.len(), 1);
    assert_eq!(reply_of(&actions[0]).status_code.0, 200);
    assert_eq!(b.call_count(), 0);

    // BYE for no call is answered all the same
    let actions = b.dispatch_with(&request("BYE", "2001", "call-1", 3, ";tag=ta1", ""), caller(), &now(), &fresh(8));
    assert_eq!(actions.len(), 1);
    assert_eq!(reply_of(&actions[0]).status_code.0, 200);
}

#[test]
fn calls_that_are_refused() {
    let mut b = bridge();
    let cases: Vec<(&str, &str, u16, &str)> = vec![
        ("1000", OFFER, 404, "Not Found"),
        ("9001", OFFER, 403, "Forbidden"),
        ("666", OFFER, 403, "Forbidden"),
        ("2001", "v=0\r\nm=audio 4000 RTP/AVP 120\r\n", 488, "Not Acceptable Here"),
        ("2001", "v=0\r\nm=audio 70000 RTP/AVP 0\r\n", 488, "Not Acceptable Here"),
        ("1000", "v=0\r\nm=audio 70000 RTP/AVP 0\r\n", 404, "Not Found"),
    ];
    for (user, body, status, reason) in cases {
        let actions = b.dispatch_with(&request("INVITE", user, "call-1", 1, "", body), caller(), &now(), &fresh(1));
        assert_eq!(actions.len(), 2, "{}", user);
        assert_eq!(reply_of(&actions[0]).status_code.0, 100);
        let refusal = reply_of(&actions[1]);
        assert_eq!(refusal.status_code.0, status, "{}", user);
        assert_eq!(refusal.reason_phrase, reason);
        assert_eq!(header(&refusal.headers, "Call-ID"), Some("call-1"));
        assert_eq!(header(&refusal.headers, "To"), Some(format!("<sip:{}@sbc.example.com>;tag=ta1", user).as_str()));
        assert_eq!(b.call_count(), 0);
    }
    // a body that is no text is no offer
    let mut invite = match request("INVITE", "2001", "call-1", 1, "", "") {
        Message::Request(r) => r,
        _ => unreachable!(),
    };
    invite = invite.with_body(vec![0xff, 0xfe]);
    let actions = b.dispatch_with(&Message::Request(invite), caller(), &now(), &fresh(1));
    assert_eq!(reply_of(&actions[1]).status_code.0, 488);
    assert_eq!(b.call_count(), 0);
}

#[test]
fn an_invite_without_an_offer_is_bridged_without_a_description() {
    let mut b = bridge();
    let actions = b.dispatch_with(&request("INVITE", "3456", "call-9", 1, "", ""), caller(), &now(), &fresh(1));
    assert_eq!(actions.len(), 2);
    let (invite, target) = to_callee(&actions[1]);
    // an extension is a user of the B2BUA's domain
    assert_eq!(target, "3000");
    assert_eq!(invite.uri.to_string(), "sip:3000@sbc.example.com");
    assert_eq!(
        names(&invite.headers),
        vec!["Via", "From", "To", "Call-ID", "CSeq", "Max-Forwards", "Content-Length"]
    );
    assert_eq!(header(&invite.headers, "To"), Some("<sip:3000@sbc.example.com>"));
    assert_eq!(header(&invite.headers, "Content-Length"), Some("0"));
    assert!(invite.body.is_empty());
    assert_eq!(b.find_call("call-9").unwrap().0.session.b_leg().unwrap().sdp, None);
}

#[test]
fn cancel_ends_a_pending_call() {
    let mut b = with_call();
    b.dispatch_with(&response(180, "Ringing", "leg-b-1", "1 INVITE", ""), callee(), &now(), &fresh(2));
    let actions = b.dispatch_with(&request("CANCEL", "2001", "call-1", 1, "", ""), caller(), &now(), &fresh(3));
    assert_eq!(actions.len(), 3);
    let ok = reply_of(&actions[0]);
    assert_eq!(ok.status_code.0, 200);
    assert_eq!(header(&ok.headers, "CSeq"), Some("1 CANCEL"));
    let ended = reply_of(&actions[1]);
    assert_eq!(ended.status_code.0, 487);
    assert_eq!(ended.reason_phrase, "Request Terminated");
    assert_eq!(header(&ended.headers, "CSeq"), Some("1 INVITE"));
    assert_eq!(header(&ended.headers, "To"), Some("<sip:2001@sbc.example.com>;tag=ta1"));
    let (cancel, target) = to_callee(&actions[2]);
    assert_eq!(target, "10.0.0.5:5060");
    assert_eq!(cancel.method.as_str(), "CANCEL");
    assert_eq!(header(&cancel.headers, "CSeq"), Some("1 CANCEL"));
    assert_eq!(header(&cancel.headers, "Call-ID"), Some("leg-b-1"));
    // in the transaction of the INVITE of leg B
    assert_eq!(header(&cancel.headers, "Via"), Some("SIP/2.0/UDP sbc.example.com;branch=z9hG4bKbr1"));
    assert_eq!(missing_header(actions[2].message()), None);
    assert_eq!(state_of(&b, "call-1"), Some(SessionState::Terminating));
    assert_eq!(b.find_call("call-1").unwrap().0.session.b_leg().unwrap().cseq, 1);

    // responses of the callee are no longer paired; a final one ends the call
    assert!(b.dispatch_with(&response(180, "Ringing", "leg-b-1", "1 INVITE", ""), callee(), &now(), &fresh(4)).is_empty());
    assert_eq!(b.call_count(), 1);
    assert!(b.dispatch_with(&response(200, "OK", "leg-b-1", "1 CANCEL", ""), callee(), &now(), &fresh(4)).is_empty());
    assert_eq!(b.call_count(), 0);

    // CANCEL for an established call, for no call, or from the callee: 200 only
    let mut b = established();
    for (call_id, from) in [("call-1", caller()), ("nobody", caller()), ("leg-b-1", callee())] {
        let actions = b.dispatch_with(&request("CANCEL", "2001", call_id, 1, "", ""), from, &now(), &fresh(5));
        assert_eq!(actions.len(), 1);
        assert_eq!(reply_of(&actions[0]).status_code.0, 200);
        assert_eq!(state_of(&b, "call-1"), Some(SessionState::Established));
    }
}

#[test]
fn a_failure_of_the_callee_ends_the_call() {
    let mut b = with_call();
    let actions = b.dispatch_with(&response(486, "Busy Here", "leg-b-1", "1 INVITE", ""), callee(), &now(), &fresh(2));
    assert_eq!(actions.len(), 2);
    match &actions[0] {
        Action::ToCaller { message: Message::Response(r), address } => {
            assert_eq!(*address, caller());
            assert_eq!(r.status_code.0, 486);
            assert_eq!(r.reason_phrase, "Busy Here");
            assert_eq!(header(&r.headers, "Call-ID"), Some("call-1"));
        }
        other => panic!("{:?}", other),
    }
    let (ack, target) = to_callee(&actions[1]);
    assert_eq!(target, "10.0.0.5:5060");
    assert_eq!(ack.method.as_str(), "ACK");
    assert_eq!(header(&ack.headers, "CSeq"), Some("1 ACK"));
    assert_eq!(header(&ack.headers, "To"), Some("<sip:2001@10.0.0.5:5060>;tag=bob9"));
    assert_eq!(header(&ack.headers, "Via"), Some("SIP/2.0/UDP sbc.example.com;branch=z9hG4bKbr1"));
    assert_eq!(b.call_count(), 0);
    // the caller's ACK of the failure finds no call
    assert!(b.dispatch_with(&request("ACK", "2001", "call-1", 1, ";tag=ta1", ""), caller(), &now(), &fresh(3)).is_empty());
}

#[test]
fn requests_outside_a_call() {
    let mut b = with_call();
    let options = parse_message(
        b"OPTIONS sip:example.com SIP/2.0\r\nVia: SIP/2.0/UDP c:5060\r\nFrom: <sip:alice@example.com>\r\nTo: <sip:bob@example.com>\r\nCall-ID: abc123\r\nCSeq: 1 OPTIONS\r\nContent-Length: 0\r\n\r\n",
    )
    .unwrap();
    let actions = b.dispatch_with(&options, caller(), &now(), &fresh(2));
    assert_eq!(actions.len(), 1);
    let ok = reply_of(&actions[0]);
    assert_eq!(ok.status_code.0, 200);
    assert_eq!(ok.reason_phrase, "OK");
    assert_eq!(
        names(&ok.headers),
        vec!["Via", "From", "To", "Call-ID", "CSeq", "Allow", "Accept", "Supported", "Content-Length"]
    );
    assert_eq!(header(&ok.headers, "Call-ID"), Some("abc123"));
    assert_eq!(header(&ok.headers, "To"), Some("<sip:bob@example.com>;tag=ta2"));
    assert_eq!(header(&ok.headers, "Allow"), Some("INVITE, ACK, BYE, CANCEL, OPTIONS, INFO"));
    assert_eq!(header(&ok.headers, "Accept"), Some("application/sdp"));
    assert_eq!(header(&ok.headers, "Supported"), Some("replaces, timer"));

    for method in ["INFO", "REGISTER", "MESSAGE", "PUBLISH"] {
        let actions = b.dispatch_with(&request(method, "2001", "call-1", 5, "", ""), caller(), &now(), &fresh(2));
        assert_eq!(actions.len(), 1);
        let no = reply_of(&actions[0]);
        assert_eq!(no.status_code.0, 501);
        assert_eq!(no.reason_phrase, "Not Implemented");
        assert_eq!(header(&no.headers, "CSeq"), Some(format!("5 {}", method).as_str()));
    }

    // no Call-ID: 400, but for ACK, which is never answered, and OPTIONS
    for (method, status) in [("INVITE", Some(400)), ("BYE", Some(400)), ("CANCEL", Some(400)), ("INFO", Some(400)), ("ACK", None), ("OPTIONS", Some(200))] {
        let text = format!("{} sip:2001@sbc.example.com SIP/2.0\r\nVia: SIP/2.0/UDP c\r\nCSeq: 1 {}\r\n\r\n", method, method);
        let actions = b.dispatch_with(&parse_message(text.as_bytes()).unwrap(), caller(), &now(), &fresh(2));
        match status {
            Some(s) => {
                assert_eq!(actions.len(), 1);
                assert_eq!(reply_of(&actions[0]).status_code.0, s);
            }
            None => assert!(actions.is_empty()),
        }
    }
    let lost = parse_message(b"SIP/2.0 200 OK\r\nCSeq: 1 INVITE\r\n\r\n").unwrap();
    assert!(b.dispatch_with(&lost, callee(), &now(), &fresh(2)).is_empty());
    assert_eq!(b.call_count(), 1);
    assert_eq!(state_of(&b, "call-1"), Some(SessionState::Initial));
}

#[test]
fn calls_stay_apart() {
    let mut b = with_call();
    // the same INVITE again: 100 Trying, and no second call
    for from in [caller(), callee()] {
        let actions = b.dispatch_with(&request("INVITE", "2001", "call-1", 1, "", OFFER), from, &now(), &fresh(2));
        assert_eq!(actions.len(), 1);
        assert_eq!(reply_of(&actions[0]).status_code.0, 100);
        assert_eq!(b.call_count(), 1);
    }
    // an INVITE under the Call-ID of a leg B belongs to that call
    let actions = b.dispatch_with(&request("INVITE", "2001", "leg-b-1", 1, "", OFFER), callee(), &now(), &fresh(2));
    assert_eq!(actions.len(), 1);
    assert_eq!(b.call_count(), 1);

    // fresh texts that are in use refuse the call
    let used = [
        Fresh { session: "session-1".into(), ..fresh(2) },
        Fresh { call_id: "leg-b-1".into(), ..fresh(2) },
        Fresh { call_id: "call-1".into(), ..fresh(2) },
        Fresh { call_id: "call-2".into(), ..fresh(2) },
    ];
    for f in used {
        let actions = b.dispatch_with(&request("INVITE", "2002", "call-2", 1, "", OFFER), caller(), &now(), &f);
        assert_eq!(actions.len(), 2);
        assert_eq!(reply_of(&actions[1]).status_code.0, 500);
        assert_eq!(reply_of(&actions[1]).reason_phrase, "Server Internal Error");
        assert_eq!(b.call_count(), 1);
    }
    // tags and branches may repeat
    let f = Fresh { caller_tag: "ta1".into(), callee_tag: "tb1".into(), branch: "br1".into(), ..fresh(2) };
    assert_eq!(b.dispatch_with(&request("INVITE", "2002", "call-2", 1, "", OFFER), caller(), &now(), &f).len(), 2);
    assert_eq!(b.call_count(), 2);
    for n in 3..20 {
        let id = format!("call-{}", n);
        b.dispatch_with(&request("INVITE", "2002", &id, 1, "", OFFER), caller(), &now(), &fresh(n));
    }
    assert_eq!(b.call_count(), 19);
    let calls = b.calls_in_progress();
    for (i, x) in calls.iter().enumerate() {
        for (j, y) in calls.iter().enumerate() {
            assert_ne!(x.session.call_id(), y.callee_call_id);
            if i != j {
                assert_ne!(x.session.call_id(), y.session.call_id());
                assert_ne!(x.callee_call_id, y.callee_call_id);
                assert_ne!(x.session.id().as_str(), y.session.id().as_str());
            }
        }
    }
}

#[test]
fn timers_end_calls() {
    // a call that was not answered in time
    let mut b = with_call();
    let actions = b.time_out("call-1", &fresh(2));
    assert_eq!(actions.len(), 2);
    match &actions[0] {
        Action::ToCaller { message: Message::Response(r), address } => {
            assert_eq!(*address, caller());
            assert_eq!(r.status_code.0, 408);
            assert_eq!(r.reason_phrase, "Request Timeout");
            assert_eq!(header(&r.headers, "CSeq"), Some("1 INVITE"));
        }
        other => panic!("{:?}", other),
    }
    let (cancel, _) = to_callee(&actions[1]);
    assert_eq!(cancel.method.as_str(), "CANCEL");
    assert_eq!(header(&cancel.headers, "CSeq"), Some("1 CANCEL"));
    assert_eq!(header(&cancel.headers, "Via"), Some("SIP/2.0/UDP sbc.example.com;branch=z9hG4bKbr1"));
    assert_eq!(b.call_count(), 0);
    assert!(b.time_out("call-1", &fresh(2)).is_empty());

    // a dialog without traffic; found by the Call-ID of either leg
    let mut b = established();
    let actions = b.time_out("leg-b-1", &fresh(3));
    assert_eq!(actions.len(), 2);
    match &actions[0] {
        Action::ToCaller { message: Message::Request(r), address } => {
            assert_eq!(*address, caller());
            assert_eq!(r.method.as_str(), "BYE");
            assert_eq!(header(&r.headers, "Call-ID"), Some("call-1"));
            assert_eq!(header(&r.headers, "CSeq"), Some("1 BYE"));
        }
        other => panic!("{:?}", other),
    }
    let (bye, target) = to_callee(&actions[1]);
    assert_eq!(target, "10.0.0.5:5060");
    assert_eq!(bye.method.as_str(), "BYE");
    assert_eq!(header(&bye.headers, "Call-ID"), Some("leg-b-1"));
    assert_eq!(header(&bye.headers, "CSeq"), Some("2 BYE"));
    assert_eq!(b.call_count(), 0);

    // a teardown that was never answered
    let mut b = established();
    b.dispatch_with(&request("BYE", "2001", "call-1", 2, ";tag=ta1", ""), caller(), &now(), &fresh(4));
    assert_eq!(b.call_count(), 1);
    assert!(b.time_out("call-1", &fresh(5)).is_empty());
    assert_eq!(b.call_count(), 0);
}

#[test]
fn dispatch_draws_the_clock_and_fresh_texts() {
    let mut b = bridge();
    let actions = b.dispatch(&SystemTimeProvider, &request("INVITE", "2001", "call-1", 1, "", OFFER), caller());
    assert_eq!(actions.len(), 2);
    let (invite, _) = to_callee(&actions[1]);
    let call_id = header(&invite.headers, "Call-ID").unwrap().to_string();
    assert_eq!(call_id.len(), 36);
    assert_ne!(call_id, "call-1");
    assert_eq!(b.find_call(&call_id).unwrap().1, Side::Callee);
    let actions = b.dispatch(&SystemTimeProvider, &request("INVITE", "2001", "call-2", 1, "", OFFER), caller());
    let (second, _) = to_callee(&actions[1]);
    assert_ne!(header(&second.headers, "Call-ID"), Some(call_id.as_str()));
    assert_eq!(b.call_count(), 2);

    let mut routes = RoutingConfig::new();
    routes.add_route(route("all", 1, ".*", RouteDestination::Custom("sip.example.net".to_string()), RouteAction::Accept));
    b.set_routes(routes);
    b.set_codecs(CodecConfig::new());
    assert_eq!(b.routes().routes.len(), 1);
    assert_eq!(b.endpoint().domain, "sbc.example.com");
    assert_eq!(b.codecs().codecs.len(), CodecConfig::new().codecs.len());
    assert_eq!(b.call_count(), 2);
    let actions = b.dispatch(&SystemTimeProvider, &request("INVITE", "anyone", "call-3", 1, "", ""), caller());
    let (third, target) = to_callee(&actions[1]);
    assert_eq!(target, "sip.example.net");
    assert_eq!(third.uri.to_string(), "sip:anyone@sip.example.net");
}

#[test]
fn addresses_in_header_values() {
    assert_eq!(address_of("\"Alice\" <sip:alice@example.org>;tag=1"), "sip:alice@example.org");
    assert_eq!(address_of("<sip:a@b;x=1>;tag=2"), "sip:a@b;x=1");
    assert_eq!(address_of(" sip:a@b ;tag=2"), "sip:a@b");
    assert_eq!(address_of("sip:a@b"), "sip:a@b");
    assert_eq!(address_of("<sip:a@b"), "sip:a@b");
    assert_eq!(address_of("<>"), "");
    assert_eq!(address_of(""), "");
    assert_eq!(without_tag("<sip:a@b>;tag=9;x=1"), "<sip:a@b>");
    assert_eq!(without_tag("<sip:a@b>;x=1"), "<sip:a@b>;x=1");
    assert_eq!(without_tag(";tag="), "");

    assert_eq!(uri_of_callee(Some("2001"), "10.0.0.5:5060").port, Some(5060));
    assert_eq!(uri_of_callee(Some("2001"), "10.0.0.5").to_string(), "sip:2001@10.0.0.5");
    assert_eq!(uri_of_callee(None, "host").to_string(), "sip:host");
    // a host that does not read as one is kept as it is
    let odd = uri_of_callee(Some("u"), "not a host");
    assert_eq!(odd.host, "not a host");
    assert_eq!(odd.user.as_deref(), Some("u"));
    assert_eq!(odd.port, None);

    let contact = vec![Header::new("From", "<sip:f@x>;tag=1"), Header::new("contact", "C <sip:c@y:5070>")];
    assert_eq!(uri_of_caller(&contact, "d").to_string(), "sip:c@y:5070");
    let from = vec![Header::new("From", "<sip:f@x>;tag=1"), Header::new("Contact", "*")];
    assert_eq!(uri_of_caller(&from, "d").to_string(), "sip:f@x");
    assert_eq!(uri_of_caller(&vec![], "d").to_string(), "sip:d");

    let headers = vec![
        Header::new("via", "one"),
        Header::new("Route", "r"),
        Header::new("Via", "two"),
        Header::new("TO", "<sip:b@c>"),
        Header::new("To", "<sip:b@c>;tag=old"),
        Header::new("Cseq", "3 INVITE"),
    ];
    let echo = echo_headers(&headers, "new");
    assert_eq!(names(&echo), vec!["via", "Via", "TO", "To", "Cseq"]);
    assert_eq!(echo[2].value.as_str(), "<sip:b@c>;tag=new");
    assert_eq!(echo[3].value.as_str(), "<sip:b@c>;tag=old");

    assert!(matches!(read_offer(&vec![]), Ok(None)));
    assert!(matches!(read_offer(&OFFER.as_bytes().to_vec()), Ok(Some(_))));
    assert!(matches!(read_offer(&vec![0xff]), Err(())));
    assert!(matches!(read_offer(&b"m=audio x RTP/AVP 0\r\n".to_vec()), Err(())));
}
