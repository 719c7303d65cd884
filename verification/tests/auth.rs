use rustalk::auth::{
    constant_time_eq, parse_auth_params, AuthError, AuthManager, DigestChallenge, DigestResponse,
};

#[test]
fn test_generate_challenge() {
    let mut auth = AuthManager::new("rustalk.local");
    let challenge = auth.generate_challenge();

    assert_eq!(challenge.realm, "rustalk.local");
    assert!(!challenge.nonce.is_empty());
    assert_eq!(challenge.algorithm, "MD5");
    assert_eq!(challenge.qop, Some("auth".to_string()));
}

#[test]
fn test_format_challenge() {
    let challenge = DigestChallenge {
        realm: "test.com".to_string(),
        nonce: "abc123".to_string(),
        algorithm: "MD5".to_string(),
        qop: Some("auth".to_string()),
    };

    let formatted = AuthManager::format_challenge(&challenge);
    assert!(formatted.contains("realm=\"test.com\""));
    assert!(formatted.contains("nonce=\"abc123\""));
    assert!(formatted.contains("qop=\"auth\""));
}

#[test]
fn test_parse_authorization() {
    let header = r#"Digest username="alice", realm="test.com", nonce="abc123", uri="sip:test.com", response="6629fae49393a05397450978507c4ef1""#;

    let response = AuthManager::parse_authorization(header).unwrap();
    assert_eq!(response.username, "alice");
    assert_eq!(response.realm, "test.com");
    assert_eq!(response.nonce, "abc123");
    assert_eq!(response.uri, "sip:test.com");
}

fn response_for(auth: &AuthManager, challenge: &DigestChallenge) -> DigestResponse {
    let password = "secret123";
    let username = "alice";
    let method = "REGISTER";
    let uri = "sip:rustalk.local";
    let response = auth
        .calculate_response(
            username,
            password,
            method,
            uri,
            &challenge.nonce,
            Some("00000001"),
            Some("xyz789"),
            Some("auth"),
        )
        .unwrap();
    DigestResponse {
        username: username.to_string(),
        realm: challenge.realm.clone(),
        nonce: challenge.nonce.clone(),
        uri: uri.to_string(),
        response,
        algorithm: Some("MD5".to_string()),
        qop: Some("auth".to_string()),
        nc: Some("00000001".to_string()),
        cnonce: Some("xyz789".to_string()),
    }
}

#[test]
fn test_validate_response() {
    let mut auth = AuthManager::new("rustalk.local");
    let challenge = auth.generate_challenge();
    let digest_response = response_for(&auth, &challenge);

    assert!(auth
        .validate_response(&digest_response, "secret123", "REGISTER")
        .unwrap());
}

#[test]
fn test_nonce_reuse_prevention() {
    let mut auth = AuthManager::new("rustalk.local");
    let challenge = auth.generate_challenge();
    let digest_response = response_for(&auth, &challenge);

    // First use should succeed
    assert!(auth
        .validate_response(&digest_response, "secret123", "REGISTER")
        .is_ok());

    // Second use with same nonce should fail (replay attack prevention)
    assert!(auth
        .validate_response(&digest_response, "secret123", "REGISTER")
        .is_err());
}

#[test]
fn test_cleanup_nonces() {
    let mut auth = AuthManager::new("rustalk.local");

    // Generate some challenges
    auth.generate_challenge();
    auth.generate_challenge();

    assert_eq!(auth.nonce_count(), 2);

    // Cleanup should not remove recent nonces
    auth.cleanup_nonces();
    assert_eq!(auth.nonce_count(), 2);
}

#[test]
fn digest_follows_rfc_2617() {
    // the example of RFC 2617, section 3.5
    let auth = AuthManager::new("testrealm@host.com");
    let r = auth
        .calculate_response(
            "Mufasa",
            "Circle Of Life",
            "GET",
            "/dir/index.html",
            "dcd98b7102dd2f0e8b11d0f600bfb0c093",
            Some("00000001"),
            Some("0a4f113b"),
            Some("auth"),
        )
        .unwrap();
    assert_eq!(r, "6629fae49393a05397450978507c4ef1");
    // without qop: MD5(HA1:nonce:HA2)
    let r = auth
        .calculate_response(
            "Mufasa",
            "Circle Of Life",
            "GET",
            "/dir/index.html",
            "dcd98b7102dd2f0e8b11d0f600bfb0c093",
            None,
            None,
            None,
        )
        .unwrap();
    assert_eq!(r, "670fd8c2df070c60b045671b8b24ff02");
    assert_eq!(
        auth.calculate_response("u", "p", "GET", "/", "n", None, Some("c"), Some("auth")),
        Err(AuthError::MissingNc)
    );
    assert_eq!(
        auth.calculate_response("u", "p", "GET", "/", "n", Some("1"), None, Some("auth")),
        Err(AuthError::MissingCnonce)
    );
}

#[test]
fn nonce_is_hex_of_time_and_random() {
    let mut auth = AuthManager::new("r");
    let c = auth.issue_challenge(0x65a0_0000, 0xdead_beef_0000_0001);
    assert_eq!(c.nonce, "65a00000deadbeef00000001");
    let c = auth.issue_challenge(0, 0);
    assert_eq!(c.nonce, "00");
    assert_eq!(auth.nonce_count(), 2);
    // issuing a nonce again replaces its entry
    let c2 = auth.issue_challenge(0, 0);
    assert_eq!(c2.nonce, c.nonce);
    assert_eq!(auth.nonce_count(), 2);
    assert_eq!(auth.realm(), "r");
}

#[test]
fn validation_checks_nonce_age_and_use() {
    let mut auth = AuthManager::new("rustalk.local");
    let challenge = auth.issue_challenge(1000, 42);
    let good = response_for(&auth, &challenge);

    let mut unknown = good.clone();
    unknown.nonce = "nope".to_string();
    assert_eq!(
        auth.validate_response_at(&unknown, "secret123", "REGISTER", 1000),
        Err(AuthError::InvalidNonce)
    );
    // 301 seconds later: stale, and the nonce is not consumed
    assert_eq!(
        auth.validate_response_at(&good, "secret123", "REGISTER", 1301),
        Err(AuthError::NonceExpired)
    );
    // a wrong password is a verdict, and consumes the nonce
    assert_eq!(auth.validate_response_at(&good, "wrong", "REGISTER", 1300), Ok(false));
    assert_eq!(
        auth.validate_response_at(&good, "secret123", "REGISTER", 1300),
        Err(AuthError::NonceUsed)
    );

    let challenge = auth.issue_challenge(2000, 43);
    let good = response_for(&auth, &challenge);
    // exactly 300 seconds: still valid; a clock that went back: valid
    assert_eq!(auth.validate_response_at(&good, "secret123", "REGISTER", 2300), Ok(true));
    assert_eq!(
        auth.validate_response_at(&good, "secret123", "REGISTER", 2300),
        Err(AuthError::NonceUsed)
    );
    let challenge = auth.issue_challenge(3000, 44);
    let good = response_for(&auth, &challenge);
    assert_eq!(auth.validate_response_at(&good, "secret123", "REGISTER", 2999), Ok(true));

    // qop=auth without nc: the nonce is consumed all the same
    let challenge = auth.issue_challenge(4000, 45);
    let mut bad = response_for(&auth, &challenge);
    bad.nc = None;
    assert_eq!(
        auth.validate_response_at(&bad, "secret123", "REGISTER", 4000),
        Err(AuthError::MissingNc)
    );
    assert_eq!(
        auth.validate_response_at(&bad, "secret123", "REGISTER", 4000),
        Err(AuthError::NonceUsed)
    );
}

#[test]
fn sweep_drops_old_nonces() {
    let mut auth = AuthManager::new("r");
    auth.issue_challenge(100, 1);
    auth.issue_challenge(200, 2);
    auth.issue_challenge(401, 3);
    auth.cleanup_nonces_at(400);
    assert_eq!(auth.nonce_count(), 3);
    auth.cleanup_nonces_at(401);
    assert_eq!(auth.nonce_count(), 2);
    auth.cleanup_nonces_at(701);
    assert_eq!(auth.nonce_count(), 1);
    auth.cleanup_nonces_at(702);
    assert_eq!(auth.nonce_count(), 0);
}

#[test]
fn challenge_text_is_exact() {
    let mut challenge = DigestChallenge {
        realm: "test.com".to_string(),
        nonce: "abc123".to_string(),
        algorithm: "MD5".to_string(),
        qop: Some("auth".to_string()),
    };
    assert_eq!(
        AuthManager::format_challenge(&challenge),
        r#"Digest realm="test.com", nonce="abc123", algorithm=MD5, qop="auth""#
    );
    challenge.qop = None;
    assert_eq!(
        AuthManager::format_challenge(&challenge),
        r#"Digest realm="test.com", nonce="abc123", algorithm=MD5"#
    );
}

#[test]
fn authorization_parameters() {
    let p = parse_auth_params(r#" a = "x y" ,b=2, novalue, c="unterminated, d="", a=last, e=""#);
    let got: Vec<(&str, &str)> = p.iter().map(|(k, v)| (k.as_str(), v.as_str())).collect();
    assert_eq!(
        got,
        vec![
            ("a", "x y"),
            ("b", "2"),
            ("c", "\"unterminated"),
            ("d", ""),
            ("a", "last"),
            ("e", "\"")
        ]
    );
    let header = r#"Digest username="u", realm="r", nonce="n", uri="sip:x", response="h", qop=auth, nc=00000001, cnonce="c", algorithm=MD5, username="v""#;
    let r = AuthManager::parse_authorization(header).unwrap();
    assert_eq!(r.username, "v");
    assert_eq!(r.response, "h");
    assert_eq!(r.qop, Some("auth".to_string()));
    assert_eq!(r.nc, Some("00000001".to_string()));
    assert_eq!(r.cnonce, Some("c".to_string()));
    assert_eq!(r.algorithm, Some("MD5".to_string()));
    let e = |h: &str| AuthManager::parse_authorization(h).unwrap_err();
    assert_eq!(e("Basic abc"), AuthError::NotDigest);
    assert_eq!(e("Digest"), AuthError::NotDigest);
    assert_eq!(e("Digest realm=r"), AuthError::MissingUsername);
    assert_eq!(e("Digest username=u"), AuthError::MissingRealm);
    assert_eq!(e("Digest username=u, realm=r"), AuthError::MissingNonce);
    assert_eq!(e("Digest username=u, realm=r, nonce=n"), AuthError::MissingUri);
    assert_eq!(e("Digest username=u, realm=r, nonce=n, uri=x"), AuthError::MissingResponse);
    assert_eq!(AuthError::NonceUsed.message(), "Nonce already used");
}

#[test]
fn constant_time_comparison() {
    assert!(constant_time_eq("", ""));
    assert!(constant_time_eq("abc", "abc"));
    assert!(!constant_time_eq("abc", "abd"));
    assert!(!constant_time_eq("abc", "ab"));
    assert!(!constant_time_eq("\u{100}", "\u{200}"));
}
