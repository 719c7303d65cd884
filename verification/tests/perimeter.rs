use rustalk::acl::create_default_acls;
use rustalk::auth::AuthManager;
use rustalk::b2bua::call::Action;
use rustalk::b2bua::perimeter::{claimed_user, Perimeter};
use rustalk::ip::{IpAddress, SocketAddress};
use rustalk::sip::message::{Message, Response};
use rustalk::sip::parser::parse_message;

fn inside() -> SocketAddress {
    SocketAddress { ip: IpAddress::V4(0xc0a8_0101), port: 5060 }
}

fn outside() -> SocketAddress {
    SocketAddress { ip: IpAddress::V4(0x0808_0808), port: 5060 }
}

fn request(method: &str, authorization: Option<&str>) -> Message {
    let credentials = match authorization {
        Some(a) => format!("Authorization: {}\r\n", a),
        None => String::new(),
    };
    let text = format!(
        "{m} sip:bob@sbc.example.com SIP/2.0\r\nVia: SIP/2.0/UDP 192.168.1.1;branch=z9hG4bK1\r\nFrom: <sip:alice@example.org>;tag=a\r\nTo: <sip:bob@sbc.example.com>\r\nCall-ID: c1\r\nCSeq: 1 {m}\r\n{c}Content-Length: 0\r\n\r\n",
        m = method,
        c = credentials
    );
    parse_message(text.as_bytes()).unwrap()
}

fn response() -> Message {
    parse_message(b"SIP/2.0 200 OK\r\nCall-ID: c1\r\nCSeq: 1 INVITE\r\n\r\n").unwrap()
}

fn answer(r: Result<(), Vec<Action>>) -> Response {
    match r {
        Err(actions) => {
            assert_eq!(actions.len(), 1);
            match &actions[0] {
                Action::Reply(Message::Response(r)) => r.clone(),
                other => panic!("{:?}", other),
            }
        }
        Ok(()) => panic!("let in"),
    }
}

fn value<'a>(r: &'a Response, name: &str) -> Option<&'a str> {
    r.headers.iter().find(|h| h.name.is(name)).map(|h| h.value.as_str())
}

fn credentials(nonce: &str, password: &str, method: &str) -> String {
    let response = AuthManager::new("sbc.example.com")
        .calculate_response(
            "alice",
            password,
            method,
            "sip:bob@sbc.example.com",
            nonce,
            Some("00000001"),
            Some("c0ffee"),
            Some("auth"),
        )
        .unwrap();
    format!(
        "Digest username=\"alice\", realm=\"sbc.example.com\", nonce=\"{}\", uri=\"sip:bob@sbc.example.com\", response=\"{}\", algorithm=MD5, qop=auth, nc=00000001, cnonce=\"c0ffee\"",
        nonce, response
    )
}

#[test]
fn sources_are_screened() {
    let mut perimeter = Perimeter::new(create_default_acls(), Some("rfc1918".to_string()), "sbc.example.com", false);
    for method in ["INVITE", "BYE", "OPTIONS", "ACK"] {
        assert!(perimeter.pass_at(&request(method, None), inside(), None, 100, 7, "t").is_ok());
        let no = answer(perimeter.pass_at(&request(method, None), outside(), None, 100, 7, "t"));
        assert_eq!(no.status_code.0, 403);
        assert_eq!(no.reason_phrase, "Forbidden");
        assert_eq!(value(&no, "Call-ID"), Some("c1"));
        assert_eq!(value(&no, "To"), Some("<sip:bob@sbc.example.com>;tag=t"));
        assert_eq!(value(&no, "CSeq"), Some(format!("1 {}", method).as_str()));
    }
    // a response from outside is dropped
    assert!(perimeter.pass_at(&response(), inside(), None, 100, 7, "t").is_ok());
    assert!(matches!(perimeter.pass_at(&response(), outside(), None, 100, 7, "t"), Err(a) if a.is_empty()));
    // an ACL that is not there lets nobody in; no ACL lets everybody in
    let mut perimeter = Perimeter::new(create_default_acls(), Some("nowhere".to_string()), "r", false);
    assert_eq!(answer(perimeter.pass_at(&request("INVITE", None), inside(), None, 100, 7, "t")).status_code.0, 403);
    let mut perimeter = Perimeter::new(create_default_acls(), None, "r", false);
    assert!(perimeter.pass_at(&request("INVITE", None), outside(), None, 100, 7, "t").is_ok());
    assert!(perimeter.pass(&request("INVITE", None), outside(), None).is_ok());
    assert_eq!(perimeter.nonce_count(), 0);
}

#[test]
fn credentials_are_asked_for_and_serve_once() {
    let mut perimeter = Perimeter::new(create_default_acls(), None, "sbc.example.com", true);

    // what begins no call passes
    for method in ["BYE", "ACK", "CANCEL", "OPTIONS", "INFO"] {
        assert!(perimeter.pass_at(&request(method, None), outside(), None, 1000, 7, "t").is_ok());
    }
    assert!(perimeter.pass_at(&response(), outside(), None, 1000, 7, "t").is_ok());
    assert_eq!(perimeter.nonce_count(), 0);

    let ask = answer(perimeter.pass_at(&request("INVITE", None), outside(), Some("secret"), 1000, 0xabc, "t"));
    assert_eq!(ask.status_code.0, 401);
    assert_eq!(ask.reason_phrase, "Unauthorized");
    assert_eq!(
        value(&ask, "WWW-Authenticate"),
        Some("Digest realm=\"sbc.example.com\", nonce=\"3e8abc\", algorithm=MD5, qop=\"auth\"")
    );
    assert_eq!(value(&ask, "To"), Some("<sip:bob@sbc.example.com>;tag=t"));
    assert_eq!(value(&ask, "CSeq"), Some("1 INVITE"));
    assert_eq!(value(&ask, "Content-Length"), Some("0"));
    assert_eq!(perimeter.nonce_count(), 1);

    // the right response to the challenge passes, once
    let good = request("INVITE", Some(&credentials("3e8abc", "secret", "INVITE")));
    assert_eq!(claimed_user(&good).as_deref(), Some("alice"));
    assert!(perimeter.pass_at(&good, outside(), Some("secret"), 1010, 0xabd, "t").is_ok());
    assert_eq!(perimeter.nonce_count(), 1);
    let again = answer(perimeter.pass_at(&good, outside(), Some("secret"), 1011, 0xabe, "t"));
    assert_eq!(again.status_code.0, 401);
    assert_eq!(
        value(&again, "WWW-Authenticate"),
        Some("Digest realm=\"sbc.example.com\", nonce=\"3f3abe\", algorithm=MD5, qop=\"auth\"")
    );
    assert_eq!(perimeter.nonce_count(), 2);

    // a wrong password, a user without a password, another method, a nonce
    // that was never issued, a nonce that is too old
    let wrong = request("INVITE", Some(&credentials("3f3abe", "guess", "INVITE")));
    assert_eq!(answer(perimeter.pass_at(&wrong, outside(), Some("secret"), 1012, 1, "t")).status_code.0, 401);
    // the wrong response has used up the nonce
    let late = request("INVITE", Some(&credentials("3f3abe", "secret", "INVITE")));
    assert_eq!(answer(perimeter.pass_at(&late, outside(), Some("secret"), 1013, 2, "t")).status_code.0, 401);
    let unknown = request("INVITE", Some(&credentials("3f52", "secret", "INVITE")));
    assert_eq!(answer(perimeter.pass_at(&unknown, outside(), None, 1014, 3, "t")).status_code.0, 401);
    // without a password nothing was validated: the nonce is still good
    assert!(perimeter.pass_at(&unknown, outside(), Some("secret"), 1015, 4, "t").is_ok());
    let other = request("INVITE", Some(&credentials("3f63", "secret", "REGISTER")));
    assert_eq!(answer(perimeter.pass_at(&other, outside(), Some("secret"), 1016, 5, "t")).status_code.0, 401);
    let never = request("INVITE", Some(&credentials("feed", "secret", "INVITE")));
    assert_eq!(answer(perimeter.pass_at(&never, outside(), Some("secret"), 1017, 6, "t")).status_code.0, 401);
    let old = request("INVITE", Some(&credentials("3f96", "secret", "INVITE")));
    assert_eq!(answer(perimeter.pass_at(&old, outside(), Some("secret"), 1017 + 301, 7, "t")).status_code.0, 401);
    let unreadable = request("INVITE", Some("Basic YWxpY2U6c2VjcmV0"));
    assert_eq!(claimed_user(&unreadable), None);
    assert_eq!(answer(perimeter.pass_at(&unreadable, outside(), Some("secret"), 1400, 8, "t")).status_code.0, 401);
    assert_eq!(claimed_user(&request("INVITE", None)), None);
    assert_eq!(claimed_user(&response()), None);

    // the sweep drops what is older than five minutes
    let before = perimeter.nonce_count();
    assert!(before >= 8);
    perimeter.sweep_at(1400 + 300);
    assert_eq!(perimeter.nonce_count(), 1);
    perimeter.sweep_at(1400 + 301);
    assert_eq!(perimeter.nonce_count(), 0);
}

#[test]
fn challenges_are_drawn_at_the_perimeter() {
    let mut perimeter = Perimeter::new(create_default_acls(), Some("localhost".to_string()), "realm", true);
    let local = SocketAddress { ip: IpAddress::V4(0x7f00_0001), port: 5060 };
    let ask = answer(perimeter.pass(&request("INVITE", None), local, None));
    assert_eq!(ask.status_code.0, 401);
    let challenge = value(&ask, "WWW-Authenticate").unwrap().to_string();
    assert!(challenge.starts_with("Digest realm=\"realm\", nonce=\""));
    let nonce = challenge.split('"').nth(3).unwrap().to_string();
    let response = AuthManager::new("realm")
        .calculate_response("bob", "pw", "INVITE", "sip:x", &nonce, None, None, None)
        .unwrap();
    let header = format!(
        "Digest username=\"bob\", realm=\"realm\", nonce=\"{}\", uri=\"sip:x\", response=\"{}\"",
        nonce, response
    );
    let good = request("INVITE", Some(&header));
    assert_eq!(claimed_user(&good).as_deref(), Some("bob"));
    assert!(perimeter.pass(&good, local, Some("pw")).is_ok());
    assert!(perimeter.pass(&good, local, Some("pw")).is_err());
    assert_eq!(answer(perimeter.pass(&good, outside(), Some("pw"))).status_code.0, 403);
}
