use rustalk::sip::framing::{frame, Frame};
use rustalk::sip::header::{Header, HeaderName, HeaderValue};
use rustalk::sip::message::{Message, Request, Response};
use rustalk::sip::method::Method;
use rustalk::sip::parser::{parse_message, ParseError};
use rustalk::sip::response::StatusCode;
use rustalk::sip::uri::Uri;

#[test]
fn test_parse_options_request() {
    let msg = b"OPTIONS sip:example.com SIP/2.0\r\n\
                 Via: SIP/2.0/UDP client.example.com:5060\r\n\
                 From: <sip:alice@example.com>\r\n\
                 To: <sip:bob@example.com>\r\n\
                 Call-ID: abc123\r\n\
                 CSeq: 1 OPTIONS\r\n\
                 Content-Length: 0\r\n\
                 \r\n";

    let result = parse_message(msg);
    assert!(result.is_ok());

    let message = result.unwrap();
    assert!(message.is_request());

    let request = message.as_request().unwrap();
    assert_eq!(request.method, Method::Options);
    assert_eq!(request.uri.host, "example.com");
}

#[test]
fn test_parse_200_response() {
    let msg = b"SIP/2.0 200 OK\r\n\
                 Via: SIP/2.0/UDP server.example.com:5060\r\n\
                 From: <sip:alice@example.com>\r\n\
                 To: <sip:bob@example.com>\r\n\
                 Call-ID: abc123\r\n\
                 CSeq: 1 OPTIONS\r\n\
                 Content-Length: 0\r\n\
                 \r\n";

    let result = parse_message(msg);
    assert!(result.is_ok());

    let message = result.unwrap();
    assert!(message.is_response());

    let response = message.as_response().unwrap();
    assert_eq!(response.status_code, StatusCode(StatusCode::OK));
}

#[test]
fn parsed_request_holds_all_parts() {
    let msg = b"INVITE sips:bob@example.com:5061;transport=tls;lr SIP/2.0\r\n\
                Via: SIP/2.0/TLS c:5061\r\n\
                Call-ID: call-1\r\n\
                Content-Length: 4\r\n\
                \r\n\
                v=0\nignored";
    let message = parse_message(msg).unwrap();
    let request = message.as_request().unwrap();
    assert_eq!(request.method, Method::Invite);
    assert_eq!(request.uri.scheme, "sips");
    assert_eq!(request.uri.user, Some("bob".to_string()));
    assert_eq!(request.uri.host, "example.com");
    assert_eq!(request.uri.port, Some(5061));
    assert_eq!(
        request.uri.params,
        vec![
            ("transport".to_string(), Some("tls".to_string())),
            ("lr".to_string(), None)
        ]
    );
    assert_eq!(request.version, "SIP/2.0");
    assert_eq!(request.headers.len(), 3);
    assert_eq!(request.headers[0].name.as_str(), "Via");
    assert_eq!(request.headers[0].value.as_str(), "SIP/2.0/TLS c:5061");
    assert_eq!(request.get_header_value("call-id"), Some("call-1"));
    assert_eq!(&request.body[..], b"v=0\n");
}

#[test]
fn body_extends_to_the_tail_without_content_length() {
    let msg = b"BYE sip:example.com SIP/2.0\r\nCall-ID: x\r\n\r\nhello";
    let message = parse_message(msg).unwrap();
    assert_eq!(&message.body()[..], b"hello");
}

#[test]
fn header_lines_are_folded() {
    let msg = b"OPTIONS sip:example.com SIP/2.0\r\nSubject: first\r\n second\r\n\tthird  \r\nCall-ID: x\r\n\r\n";
    let message = parse_message(msg).unwrap();
    let request = message.as_request().unwrap();
    assert_eq!(request.headers.len(), 2);
    assert_eq!(request.get_header_value("Subject"), Some("first second third"));
}

#[test]
fn bare_line_feeds_are_accepted() {
    let msg = b"SIP/2.0 180 Ringing\nCall-ID: x\n\n";
    let message = parse_message(msg).unwrap();
    let response = message.as_response().unwrap();
    assert_eq!(response.status_code.0, 180);
    assert_eq!(response.reason_phrase, "Ringing");
    assert_eq!(response.get_header_value("Call-ID"), Some("x"));
}

#[test]
fn unknown_methods_parse() {
    let msg = b"PUBLISH sip:example.com SIP/2.0\r\n\r\n";
    let message = parse_message(msg).unwrap();
    let request = message.as_request().unwrap();
    assert_eq!(request.method, Method::Other("PUBLISH".to_string()));
    assert!(!request.method.is_known());
}

#[test]
fn parse_errors_tell_what_is_wrong() {
    assert_eq!(parse_message(b"\xff\xfe").unwrap_err(), ParseError::InvalidEncoding);
    assert_eq!(parse_message(b"OPTIONS sip:example.com SIP/2.0").unwrap_err(), ParseError::Truncated);
    assert_eq!(parse_message(b"").unwrap_err(), ParseError::Truncated);
    assert_eq!(parse_message(b"HELLO\r\n\r\n").unwrap_err(), ParseError::MalformedStartLine);
    assert_eq!(
        parse_message(b"OPTIONS sip:example.com SIP/3.0\r\n\r\n").unwrap_err(),
        ParseError::MalformedStartLine
    );
    assert_eq!(
        parse_message(b"OPTIONS sip:example.com:99999 SIP/2.0\r\n\r\n").unwrap_err(),
        ParseError::MalformedStartLine
    );
    assert_eq!(
        parse_message(b"OPTIONS sip:example.com SIP/2.0\r\nno colon here\r\n\r\n").unwrap_err(),
        ParseError::MalformedHeader
    );
    assert_eq!(
        parse_message(b"OPTIONS sip:example.com SIP/2.0\r\nCall-ID: x\r\n").unwrap_err(),
        ParseError::Truncated
    );
    assert_eq!(
        parse_message(b"OPTIONS sip:example.com SIP/2.0\r\nContent-Length: 10\r\n\r\nabc").unwrap_err(),
        ParseError::Truncated
    );
    assert_eq!(ParseError::Truncated.message(), "Invalid SIP message: truncated");
}

#[test]
fn request_serializes_to_wire_form() {
    let request = Request::new(
        Method::Invite,
        Uri::new("sip".to_string(), "example.com".to_string())
            .with_user("bob".to_string())
            .with_port(5060),
    )
    .with_header("Call-ID", "abc")
    .with_header("Content-Length", "2")
    .with_body(b"hi".to_vec());
    assert_eq!(
        request.to_bytes(),
        b"INVITE sip:bob@example.com:5060 SIP/2.0\r\nCall-ID: abc\r\nContent-Length: 2\r\n\r\nhi".to_vec()
    );
}

#[test]
fn response_serializes_to_wire_form() {
    let response = Response::new(StatusCode(404)).with_header("Call-ID", "abc");
    assert_eq!(response.reason_phrase, "Not Found");
    assert_eq!(
        response.to_bytes(),
        b"SIP/2.0 404 Not Found\r\nCall-ID: abc\r\n\r\n".to_vec()
    );
}

#[test]
fn parse_inverts_serialize() {
    let mut uri = Uri::new("sips".to_string(), "gw-1.example.com".to_string())
        .with_user("alice_1".to_string())
        .with_port(65535);
    uri.params.push(("transport".to_string(), Some("tls".to_string())));
    uri.params.push(("lr".to_string(), None));
    let request = Request::new(Method::Register, uri)
        .with_header("Via", "SIP/2.0/TLS host:5061;branch=z9hG4bK1")
        .with_header("X-Empty", "")
        .with_header("Content-Length", "5")
        .with_body(b"a\r\n\r\nb"[..5].to_vec());
    let bytes = request.to_bytes();
    let parsed = parse_message(&bytes).unwrap();
    let back = parsed.as_request().unwrap();
    assert_eq!(back.method, request.method);
    assert_eq!(back.uri, request.uri);
    assert_eq!(back.version, request.version);
    assert_eq!(back.headers.len(), request.headers.len());
    for i in 0..back.headers.len() {
        assert_eq!(back.headers[i].name, request.headers[i].name);
        assert_eq!(back.headers[i].value, request.headers[i].value);
    }
    assert_eq!(back.body, request.body);
    assert_eq!(parsed.to_bytes(), bytes);

    let response = Response::new(StatusCode(183))
        .with_header("Call-ID", "c1")
        .with_body("caf\u{e9}".as_bytes().to_vec());
    let bytes = response.to_bytes();
    let parsed = parse_message(&bytes).unwrap();
    let back = parsed.as_response().unwrap();
    assert_eq!(back.status_code, response.status_code);
    assert_eq!(back.reason_phrase, "Session Progress");
    assert_eq!(back.body, response.body);
    assert_eq!(parsed.to_bytes(), bytes);
}

#[test]
fn header_names_compare_without_case() {
    let request = Request::new(Method::Options, Uri::new("sip".to_string(), "h".to_string()))
        .with_header("Call-ID", "one")
        .with_header("call-id", "two");
    assert_eq!(request.get_header_value("CALL-ID"), Some("one"));
    assert_eq!(request.get_header("call-id").unwrap().name.as_str(), "Call-ID");
    assert!(request.get_header("Contact").is_none());
    let h = Header::new(HeaderName::VIA, "x");
    assert!(h.name.is("via"));
    assert_eq!(HeaderName::new("To").as_str(), "To");
    assert_eq!(HeaderValue::new("v").as_str(), "v");
}

#[test]
fn status_codes_have_classes_and_reasons() {
    assert!(StatusCode(100).is_provisional());
    assert!(StatusCode(199).is_provisional());
    assert!(!StatusCode(200).is_provisional());
    assert!(StatusCode(200).is_success());
    assert!(StatusCode(302).is_redirection());
    assert!(StatusCode(404).is_client_error());
    assert!(StatusCode(500).is_server_error());
    assert!(StatusCode(603).is_global_failure());
    assert!(!StatusCode(700).is_global_failure());
    assert_eq!(StatusCode(StatusCode::TRYING).reason_phrase(), "Trying");
    assert_eq!(StatusCode(488).reason_phrase(), "Not Acceptable Here");
    assert_eq!(StatusCode(504).reason_phrase(), "Server Time-out");
    assert_eq!(StatusCode(299).reason_phrase(), "Unknown");
    assert_eq!(StatusCode(486).to_string(), "486");
    assert_eq!(StatusCode::from(180), StatusCode(StatusCode::RINGING));
}

#[test]
fn methods_have_names() {
    assert_eq!(Method::Invite.as_str(), "INVITE");
    assert_eq!(Method::Message.to_string(), "MESSAGE");
    assert_eq!(Method::from_str("BYE"), Ok(Method::Bye));
    assert_eq!(Method::from_str("bye"), Err("Unknown SIP method: bye".to_string()));
    assert_eq!(Method::from_name("PRACK"), Method::Prack);
    assert_eq!(Method::from_name("FOO"), Method::Other("FOO".to_string()));
}

#[test]
fn uri_text_and_parse() {
    let mut uri = Uri::new("sip".to_string(), "example.com".to_string());
    assert_eq!(uri.to_string(), "sip:example.com");
    uri = uri.with_user("alice".to_string()).with_port(5060);
    uri.params.push(("transport".to_string(), Some("udp".to_string())));
    uri.params.push(("lr".to_string(), None));
    assert_eq!(uri.to_string(), "sip:alice@example.com:5060;transport=udp;lr");
    assert_eq!(Uri::parse("sip:alice@example.com:5060;transport=udp;lr"), Some(uri));
    assert_eq!(Uri::parse("sips:h").unwrap().scheme, "sips");
    assert_eq!(Uri::parse("http://example.com"), None);
    assert_eq!(Uri::parse("sip:"), None);
    assert_eq!(Uri::parse("sip:host:"), None);
    assert_eq!(Uri::parse("sip:host:70000"), None);
    assert_eq!(Uri::parse("sip:host;"), None);
    assert_eq!(Uri::parse("sip:host extra"), None);
}

#[test]
fn message_accessors() {
    let m = Message::Response(Response::new(StatusCode(200)).with_header("A", "b"));
    assert!(m.is_response());
    assert!(!m.is_request());
    assert!(m.as_request().is_none());
    assert_eq!(m.headers().len(), 1);
    assert!(m.body().is_empty());
}

#[test]
fn frames_on_a_stream() {
    let one = b"OPTIONS sip:example.com SIP/2.0\r\nCall-ID: a\r\nContent-Length: 5\r\n\r\nhello";
    let head = one.len() - 5;
    assert_eq!(frame(b""), Frame::Incomplete);
    assert_eq!(frame(b"\n"), Frame::Incomplete);
    assert_eq!(frame(&one[..10]), Frame::Incomplete);
    assert_eq!(frame(&one[..head - 1]), Frame::Incomplete);
    // the head is whole, the body is not
    assert_eq!(frame(&one[..head]), Frame::Incomplete);
    assert_eq!(frame(&one[..head + 4]), Frame::Incomplete);
    assert_eq!(frame(one), Frame::Complete(one.len()));
    // what follows belongs to the next message
    let mut two = one.to_vec();
    two.extend_from_slice(b"BYE sip:example.com SIP/2.0\r\n\r\n");
    assert_eq!(frame(&two), Frame::Complete(one.len()));
    assert_eq!(frame(&two[one.len()..]), Frame::Complete(two.len() - one.len()));
    // without Content-Length there is no body on a stream
    assert_eq!(frame(b"SIP/2.0 200 OK\n\nrest"), Frame::Complete(16));
    assert_eq!(frame(b"\n\n"), Frame::Invalid(ParseError::MalformedStartLine));
    assert_eq!(frame(b"\r\n\r\n"), Frame::Invalid(ParseError::MalformedStartLine));
    assert_eq!(frame(b"HELLO\r\n\r\n"), Frame::Invalid(ParseError::MalformedStartLine));
    assert_eq!(
        frame(b"BYE sip:h SIP/2.0\r\nbad line\r\n\r\n"),
        Frame::Invalid(ParseError::MalformedHeader)
    );
    assert_eq!(frame(b"BYE sip:h SIP/2.0\r\nX: \xff\r\n\r\n"), Frame::Invalid(ParseError::InvalidEncoding));
    let message = parse_message(&two[..one.len()]).unwrap();
    assert_eq!(&message.body()[..], b"hello");
}

#[test]
fn bodies_are_opaque_bytes() {
    // a body of one byte that is no UTF-8
    let request = Request::new(Method::Options, Uri::new("sip".to_string(), "example.com".to_string()))
        .with_header("Call-ID", "abc123")
        .with_header("Content-Length", "1")
        .with_body(vec![0xff]);
    let bytes = request.to_bytes();
    let parsed = parse_message(&bytes).unwrap();
    let back = parsed.as_request().unwrap();
    assert_eq!(back.method, Method::Options);
    assert_eq!(back.uri, request.uri);
    assert_eq!(back.headers.len(), 2);
    assert_eq!(back.headers[1].value.as_str(), "1");
    assert_eq!(&back.body[..], &[0xff]);
    assert_eq!(parsed.to_bytes(), bytes);

    // every byte, behind a head with text beyond ASCII; and bytes that
    // start as UTF-8 and then stop to be
    let all: Vec<u8> = (0u8..=255).collect();
    let cut = vec![b'a', 0xc3, 0xa9, 0xe2, 0x82, b'\n', b'\n', 0x80];
    for body in [all, cut, vec![0xc3], vec![]] {
        let response = Response::new(StatusCode(200))
            .with_header("Subject", "caf\u{e9} \u{1f600}")
            .with_header("Content-Length", &body.len().to_string())
            .with_body(body.clone());
        let bytes = response.to_bytes();
        let parsed = parse_message(&bytes).unwrap();
        let back = parsed.as_response().unwrap();
        assert_eq!(back.headers[0].value.as_str(), "caf\u{e9} \u{1f600}");
        assert_eq!(&back.body[..], &body[..]);
        assert_eq!(parsed.to_bytes(), bytes);
    }

    // without a length the body is all that follows; with one it is cut
    let parsed = parse_message(b"BYE sip:h SIP/2.0\r\nX: 1\r\n\r\n\xff\xfe\x00").unwrap();
    assert_eq!(&parsed.body()[..], b"\xff\xfe\x00");
    let parsed = parse_message(b"BYE sip:h SIP/2.0\r\nContent-Length: 2\r\n\r\n\xff\xfe\x00").unwrap();
    assert_eq!(&parsed.body()[..], b"\xff\xfe");
    assert_eq!(
        parse_message(b"BYE sip:h SIP/2.0\r\nContent-Length: 4\r\n\r\n\xff\xfe\x00").unwrap_err(),
        ParseError::Truncated
    );

    // the head must be UTF-8
    assert_eq!(parse_message(b"BYE sip:h SIP/2.0\r\nX: \xff\r\n\r\n").unwrap_err(), ParseError::InvalidEncoding);
    assert_eq!(parse_message(b"BYE sip:h SIP/2.0\r\n\xffX: 1\r\n\r\n").unwrap_err(), ParseError::InvalidEncoding);
    assert_eq!(parse_message(b"BYE sip:\xff SIP/2.0\r\n\r\n").unwrap_err(), ParseError::InvalidEncoding);
    assert_eq!(parse_message(b"BYE sip:h SIP/2.0\r\nX: 1\r\n\xc3").unwrap_err(), ParseError::InvalidEncoding);
    // what is wrong before the bytes stop to be UTF-8 is told as it is
    assert_eq!(parse_message(b"HELLO\r\n\r\n\xff").unwrap_err(), ParseError::MalformedStartLine);
    assert_eq!(parse_message(b"BYE sip:h SIP/2.0\r\nbad line\r\nX: \xff\r\n\r\n").unwrap_err(), ParseError::MalformedHeader);
    assert_eq!(parse_message(b"BYE sip:h SIP/2.0\r\nX: 1\r\n").unwrap_err(), ParseError::Truncated);
}

#[test]
fn via_holds_its_parts() {
    let via = rustalk::sip::Via {
        protocol: "SIP/2.0/UDP".to_string(),
        sent_by: rustalk::ip::SocketAddress { ip: rustalk::ip::IpAddress::V4(0x0a00_0001), port: 5060 },
        branch: "z9hG4bK776asdhds".to_string(),
        params: vec![("rport".to_string(), None), ("received".to_string(), Some("10.0.0.1".to_string()))],
    };
    let copy = via.clone();
    assert_eq!(copy.protocol, "SIP/2.0/UDP");
    assert_eq!(copy.sent_by.port, 5060);
    assert_eq!(copy.branch, via.branch);
    assert_eq!(copy.params, via.params);
}
