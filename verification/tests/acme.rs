use rustalk::acme::client::{
    advance, poll_authorization, poll_order, start, AcmeClient, AcmeConfig, AcmeFailure,
    IssuanceRegistry,
    AuthorizationStatus, OrderStatus, Phase, Report,
};
use rustalk::acme::save::{first_step, is_final, next_step, SaveStep};
use rustalk::acme::storage::{
    assemble_facts, days_until, dns_names, parse_certificate_info, renewal_due, serial_string,
    CertError, CertificateState, CertificateStorage,
};
use rustalk::acme::validation::{dns_txt_value, ChallengeSetup, ChallengeType, ChallengeValidator};
use rustalk::acme::{CertificateInfo, CertificateStatus};

#[test]
fn test_acme_config_default() {
    let config = AcmeConfig::default();
    assert_eq!(config.http_challenge_port, 80);
    assert!(!config.use_staging);
}

#[test]
fn test_acme_client_creation() {
    let config = AcmeConfig {
        email: "test@example.com".to_string(),
        cert_dir: "/tmp/test_certs".to_string(),
        account_dir: "/tmp/test_acme".to_string(),
        use_staging: true,
        http_challenge_port: 8080,
    };

    let result = AcmeClient::new(config);
    assert!(result.is_ok());
    let client = result.unwrap();
    assert_eq!(client.storage().cert_dir(), "/tmp/test_certs");
    assert_eq!(client.directory_url(), "https://acme-staging-v02.api.letsencrypt.org/directory");
    assert_eq!(client.contact(), "mailto:test@example.com");
    assert_eq!(client.account_path(), "/tmp/test_acme/account.json");
    assert_eq!(client.config().http_challenge_port, 8080);
    let production = AcmeClient::new(AcmeConfig::default()).unwrap();
    assert_eq!(production.directory_url(), "https://acme-v02.api.letsencrypt.org/directory");
}

#[test]
fn test_storage_paths() {
    let storage = CertificateStorage::new("/tmp/test_certs".to_string()).unwrap();

    let cert_path = storage.cert_path("example.com");
    assert!(cert_path.contains("example.com.pem"));

    let key_path = storage.key_path("example.com");
    assert!(key_path.contains("example.com-key.pem"));
}

#[test]
fn test_http_challenge_setup() {
    let mut validator = ChallengeValidator::new(ChallengeType::Http01, 8080);
    let result = validator.setup("example.com", "test_token", "test_key_auth");
    assert!(matches!(result, ChallengeSetup::Http { .. }));

    let key_auth = validator.get_key_authorization("test_token");
    assert_eq!(key_auth, Some("test_key_auth".to_string()));
}

#[test]
fn test_challenge_cleanup() {
    let mut validator = ChallengeValidator::new(ChallengeType::Http01, 8080);
    validator.setup("example.com", "test_token", "test_key_auth");

    validator.cleanup("example.com", "test_token");

    let key_auth = validator.get_key_authorization("test_token");
    assert_eq!(key_auth, None);
}

#[test]
fn certificate_status_by_days() {
    assert_eq!(CertificateState::of(45), CertificateState::Valid);
    assert_eq!(CertificateState::of(15), CertificateState::ExpiringSoon);
    assert_eq!(CertificateState::of(-2), CertificateState::Expired);
    assert_eq!(CertificateState::of(31), CertificateState::Valid);
    assert_eq!(CertificateState::of(30), CertificateState::ExpiringSoon);
    assert_eq!(CertificateState::of(1), CertificateState::ExpiringSoon);
    assert_eq!(CertificateState::of(0), CertificateState::Expired);
    assert_eq!(CertificateState::Valid.as_str(), "valid");
    assert_eq!(CertificateState::ExpiringSoon.as_str(), "expiring_soon");
    assert_eq!(CertificateState::Expired.as_str(), "expired");
    assert!(!renewal_due(45));
    assert!(!renewal_due(30));
    assert!(renewal_due(29));
    assert!(renewal_due(-2));
    assert!(AcmeClient::check_renewal_needed(15));
    assert!(!AcmeClient::check_renewal_needed(30));
}

#[test]
fn days_until_expiry_are_whole_days() {
    let now = 1_700_000_000;
    assert_eq!(days_until(now, now + 45 * 86400), 45);
    assert_eq!(days_until(now, now + 45 * 86400 + 86399), 45);
    assert_eq!(days_until(now, now + 86399), 0);
    assert_eq!(days_until(now, now), 0);
    assert_eq!(days_until(now, now - 1), 0);
    assert_eq!(days_until(now, now - 86400), -1);
    assert_eq!(days_until(now, now - 2 * 86400 - 5), -2);
    assert_eq!(days_until(i64::MIN, i64::MAX), 213503982334601);
    assert_eq!(days_until(i64::MAX, i64::MIN), -213503982334601);
}

#[test]
fn storage_layout() {
    let storage = CertificateStorage::new("/etc/rustalk/certs".to_string()).unwrap();
    assert_eq!(storage.cert_path("sbc.example.com"), "/etc/rustalk/certs/sbc.example.com.pem");
    assert_eq!(storage.key_path("sbc.example.com"), "/etc/rustalk/certs/sbc.example.com-key.pem");
    assert_eq!(
        CertificateStorage::backup_path("/etc/rustalk/certs/sbc.example.com.pem"),
        "/etc/rustalk/certs/sbc.example.com.pem.backup"
    );
    assert_eq!(
        CertificateStorage::certificate_domain("sbc.example.com.pem"),
        Some("sbc.example.com".to_string())
    );
    assert_eq!(CertificateStorage::certificate_domain(".pem"), Some("".to_string()));
    assert_eq!(CertificateStorage::certificate_domain("sbc.example.com-key.pem"), None);
    assert_eq!(CertificateStorage::certificate_domain("sbc.example.com.pem.backup"), None);
    assert_eq!(CertificateStorage::certificate_domain("account.json"), None);
    assert_eq!(CertificateStorage::certificate_domain("pem"), None);
}

#[test]
fn certificate_facts_are_assembled() {
    let now = 1_700_000_000;
    let (domains, expires, days, serial) = assemble_facts(
        vec!["a.example.com".to_string(), "b.example.com".to_string()],
        Some("cn.example.com".to_string()),
        now + 15 * 86400,
        Some("Tue, 29 Nov 2023 22:13:20 +0000".to_string()),
        "0A1B".to_string(),
        now,
    );
    assert_eq!(domains, vec!["a.example.com", "b.example.com"]);
    assert_eq!(expires, "Tue, 29 Nov 2023 22:13:20 +0000");
    assert_eq!(days, 15);
    assert_eq!(serial, "0A1B");
    // without SAN names the Common Name stands in
    let (domains, expires, days, _) =
        assemble_facts(vec![], Some("cn.example.com".to_string()), now - 2 * 86400, None, String::new(), now);
    assert_eq!(domains, vec!["cn.example.com"]);
    assert_eq!(expires, "Unknown");
    assert_eq!(days, -2);
    let (domains, _, _, _) = assemble_facts(vec![], None, now, None, String::new(), now);
    assert!(domains.is_empty());
}

#[test]
fn certificates_are_read_from_pem() {
    assert_eq!(parse_certificate_info("", 0).unwrap_err(), CertError::NoCertificate);
    assert_eq!(parse_certificate_info("not a pem", 0).unwrap_err(), CertError::NoCertificate);
    let garbage = "-----BEGIN CERTIFICATE-----\nAAAA\n-----END CERTIFICATE-----\n";
    assert_eq!(parse_certificate_info(garbage, 0).unwrap_err(), CertError::InvalidCertificate);
    assert_eq!(CertError::NoCertificate.message(), "No certificate found in PEM");
    // a section that cannot be read is told apart from a text without one
    let unreadable = "-----BEGIN CERTIFICATE-----\n!!!!\n-----END CERTIFICATE-----\n";
    assert_eq!(parse_certificate_info(unreadable, 0).unwrap_err(), CertError::MalformedPem);
    assert_eq!(CertError::MalformedPem.message(), "Failed to read PEM");
    assert_eq!(CertError::InvalidCertificate.message(), "Failed to parse certificate");

    let params = rcgen::CertificateParams::new(vec![
        "sbc.example.com".to_string(),
        "alt.example.com".to_string(),
    ])
    .unwrap();
    let key = rcgen::KeyPair::generate().unwrap();
    let cert = params.self_signed(&key).unwrap();
    let pem = cert.pem();
    // rcgen's default validity ends at 4096-01-01
    let not_after = 67_090_464_000i64 + 86400 * 366;
    let (domains, expires, days, serial) = parse_certificate_info(&pem, 1_700_000_000).unwrap();
    assert_eq!(domains, vec!["sbc.example.com", "alt.example.com"]);
    assert!(expires.contains("4096"), "{}", expires);
    assert!(days > 700_000 && days == days_until(1_700_000_000, 1_700_000_000 + days * 86400));
    assert!(not_after > 0);
    assert!(!serial.is_empty());
    assert!(serial.chars().all(|c| c.is_ascii_hexdigit() && !c.is_ascii_lowercase()));
    let storage = CertificateStorage::new("/certs".to_string()).unwrap();
    let info: CertificateInfo = storage.certificate_info("sbc.example.com", &pem, 1_700_000_000).unwrap();
    assert_eq!(info.domain, "sbc.example.com");
    assert_eq!(info.domains, domains);
    assert_eq!(info.cert_path, "/certs/sbc.example.com.pem");
    assert_eq!(info.key_path, "/certs/sbc.example.com-key.pem");
    assert_eq!(info.days_until_expiry, days);
    let status = CertificateStatus::of(&info);
    assert!(status.exists);
    assert!(!status.needs_renewal);
    assert_eq!(status.days_until_expiry, Some(days));
    assert_eq!(status.state(), Some(CertificateState::Valid));
    let none = CertificateStatus::default();
    assert!(!none.exists);
    assert_eq!(none.state(), None);
}

#[test]
fn challenges() {
    assert_eq!(dns_txt_value("token.thumbprint"), "61rBZ_4knHblO0MNoxFsXZ_eTFUHum0B6IVRbhvUn5I");
    let mut dns = ChallengeValidator::new(ChallengeType::Dns01, 80);
    match dns.setup("example.com", "token", "token.thumbprint") {
        ChallengeSetup::Dns { name, value } => {
            assert_eq!(name, "_acme-challenge.example.com");
            assert_eq!(value, "61rBZ_4knHblO0MNoxFsXZ_eTFUHum0B6IVRbhvUn5I");
        }
        other => panic!("unexpected {:?}", other),
    }
    assert_eq!(dns.get_key_authorization("token"), None);
    dns.cleanup("example.com", "token");

    let mut http = ChallengeValidator::new(ChallengeType::Http01, 8080);
    assert_eq!(http.challenge_type(), ChallengeType::Http01);
    assert_eq!(http.http_port(), 8080);
    match http.setup("example.com", "tok1", "tok1.print") {
        ChallengeSetup::Http { path } => assert_eq!(path, "/.well-known/acme-challenge/tok1"),
        other => panic!("unexpected {:?}", other),
    }
    http.setup("example.com", "tok2", "tok2.print");
    http.setup("example.com", "tok1", "tok1.again");
    assert_eq!(http.respond("/.well-known/acme-challenge/tok1"), Some("tok1.again".to_string()));
    assert_eq!(http.respond("/.well-known/acme-challenge/tok2"), Some("tok2.print".to_string()));
    assert_eq!(http.respond("/.well-known/acme-challenge/tok3"), None);
    assert_eq!(http.respond("/.well-known/acme-challenge/"), None);
    assert_eq!(http.respond("/other/tok1"), None);
    http.cleanup("example.com", "tok1");
    assert_eq!(http.respond("/.well-known/acme-challenge/tok1"), None);
    assert_eq!(http.get_key_authorization("tok2"), Some("tok2.print".to_string()));
    assert_eq!(ChallengeType::Http01.as_str(), "http-01");
    assert_eq!(ChallengeType::from_name("dns-01"), Some(ChallengeType::Dns01));
    assert_eq!(ChallengeType::from_name("tls-alpn-01"), None);
}

#[test]
fn issuance_runs_through_its_phases() {
    assert_eq!(start(0), Phase::Failed { failure: AcmeFailure::NoDomains });
    let mut phase = start(2);
    assert_eq!(phase, Phase::Account);
    let reports = [
        Report::Done,
        Report::Authorizations { count: 2 },
        Report::Done,
        Report::Authorization { status: AuthorizationStatus::Pending },
        Report::Authorization { status: AuthorizationStatus::Valid },
        Report::Done,
        Report::Done,
        Report::Authorization { status: AuthorizationStatus::Valid },
        Report::Done,
        Report::Done,
        Report::Order { status: OrderStatus::Processing },
        Report::Order { status: OrderStatus::Valid },
        Report::Done,
        Report::Done,
    ];
    let expected = [
        Phase::Order,
        Phase::Challenge { index: 0 },
        Phase::PollAuthorization { index: 0, polls: 0 },
        Phase::PollAuthorization { index: 0, polls: 1 },
        Phase::Cleanup { index: 0 },
        Phase::Challenge { index: 1 },
        Phase::PollAuthorization { index: 1, polls: 0 },
        Phase::Cleanup { index: 1 },
        Phase::Finalize,
        Phase::PollOrder { polls: 0 },
        Phase::PollOrder { polls: 1 },
        Phase::Download,
        Phase::Save,
        Phase::Done,
    ];
    for (report, next) in reports.iter().zip(expected.iter()) {
        phase = advance(phase, *report, 2);
        assert_eq!(phase, *next);
    }
    assert_eq!(advance(Phase::Done, Report::Error, 2), Phase::Done);
}

#[test]
fn issuance_failures() {
    let failed = |failure| Phase::Failed { failure };
    assert_eq!(advance(Phase::Account, Report::Error, 1), failed(AcmeFailure::Account));
    assert_eq!(advance(Phase::Order, Report::Error, 1), failed(AcmeFailure::Order));
    assert_eq!(advance(Phase::Order, Report::Authorizations { count: 0 }, 0), Phase::Finalize);
    assert_eq!(
        advance(Phase::Challenge { index: 0 }, Report::NoChallenge, 1),
        failed(AcmeFailure::NoChallenge)
    );
    assert_eq!(advance(Phase::Challenge { index: 0 }, Report::Error, 1), failed(AcmeFailure::Server));
    assert_eq!(
        poll_authorization(0, 3, AuthorizationStatus::Invalid),
        Phase::Abort { index: 0, failure: AcmeFailure::AuthorizationInvalid }
    );
    assert_eq!(
        poll_authorization(0, 29, AuthorizationStatus::Pending),
        Phase::PollAuthorization { index: 0, polls: 30 }
    );
    assert_eq!(
        poll_authorization(0, 30, AuthorizationStatus::Pending),
        Phase::Abort { index: 0, failure: AcmeFailure::AuthorizationTimeout }
    );
    assert_eq!(
        poll_authorization(0, 30, AuthorizationStatus::Other),
        Phase::Abort { index: 0, failure: AcmeFailure::AuthorizationTimeout }
    );
    assert_eq!(poll_authorization(2, 30, AuthorizationStatus::Valid), Phase::Cleanup { index: 2 });
    assert_eq!(
        advance(
            Phase::Abort { index: 0, failure: AcmeFailure::AuthorizationTimeout },
            Report::Done,
            1
        ),
        failed(AcmeFailure::AuthorizationTimeout)
    );
    assert_eq!(advance(Phase::Finalize, Report::Error, 1), failed(AcmeFailure::Finalize));
    assert_eq!(poll_order(0, OrderStatus::Invalid), failed(AcmeFailure::OrderInvalid));
    assert_eq!(poll_order(29, OrderStatus::Ready), Phase::PollOrder { polls: 30 });
    assert_eq!(poll_order(30, OrderStatus::Pending), failed(AcmeFailure::OrderTimeout));
    assert_eq!(poll_order(30, OrderStatus::Valid), Phase::Download);
    assert_eq!(advance(Phase::PollOrder { polls: 0 }, Report::Done, 1), failed(AcmeFailure::Server));
    assert_eq!(advance(Phase::Download, Report::NoCertificate, 1), failed(AcmeFailure::NoCertificate));
    assert_eq!(advance(Phase::Save, Report::Error, 1), failed(AcmeFailure::Storage));
    assert_eq!(
        advance(failed(AcmeFailure::Storage), Report::Done, 1),
        failed(AcmeFailure::Storage)
    );
    assert_eq!(AcmeFailure::OrderTimeout.message(), "Certificate issuance timeout");
    // a pending authorization is polled 31 times, then given up
    let mut phase = Phase::PollAuthorization { index: 0, polls: 0 };
    let mut polls = 0;
    while let Phase::PollAuthorization { .. } = phase {
        phase = advance(phase, Report::Authorization { status: AuthorizationStatus::Pending }, 1);
        polls += 1;
    }
    assert_eq!(polls, 31);
    assert_eq!(phase, Phase::Abort { index: 0, failure: AcmeFailure::AuthorizationTimeout });
}

#[test]
fn a_save_is_whole_or_leaves_nothing() {
    // every step succeeds
    let mut step = first_step();
    let mut actions = vec![];
    while !is_final(step) {
        actions.push(step);
        step = next_step(step, true);
    }
    assert_eq!(step, SaveStep::Saved);
    assert_eq!(
        actions,
        vec![
            SaveStep::CreateDir,
            SaveStep::BackupCert,
            SaveStep::BackupKey,
            SaveStep::WriteCert,
            SaveStep::WriteKey,
            SaveStep::RestrictKey
        ]
    );
    // a failure before the first write ends the save, and removes nothing:
    // the files of the prior version stay where they are
    for failing in [SaveStep::CreateDir, SaveStep::BackupCert, SaveStep::BackupKey] {
        let mut step = first_step();
        let mut done = vec![];
        while !is_final(step) {
            done.push(step);
            step = next_step(step, step != failing);
        }
        assert_eq!(step, SaveStep::Failed);
        assert_eq!(done.last(), Some(&failing));
        assert!(!done.contains(&SaveStep::RemoveCert) && !done.contains(&SaveStep::RemoveKey));
        assert!(!done.contains(&SaveStep::WriteCert) && !done.contains(&SaveStep::WriteKey));
    }
    // a failure from the first write on removes both files
    for failing in [SaveStep::WriteCert, SaveStep::WriteKey, SaveStep::RestrictKey] {
        let mut step = first_step();
        let mut done = vec![];
        while !is_final(step) {
            done.push(step);
            step = next_step(step, step != failing);
        }
        assert_eq!(step, SaveStep::Failed);
        let n = done.len();
        assert_eq!(&done[n - 2..], &[SaveStep::RemoveCert, SaveStep::RemoveKey]);
        assert_eq!(done[n - 3], failing);
        // both backups were made before anything is removed
        assert_eq!(&done[..3], &[SaveStep::CreateDir, SaveStep::BackupCert, SaveStep::BackupKey]);
    }
    assert_eq!(next_step(SaveStep::RemoveCert, false), SaveStep::Broken);
    assert_eq!(next_step(SaveStep::RemoveKey, false), SaveStep::Broken);
    assert_eq!(next_step(SaveStep::Saved, false), SaveStep::Saved);
    assert_eq!(next_step(SaveStep::Failed, true), SaveStep::Failed);
    assert_eq!(next_step(SaveStep::Broken, true), SaveStep::Broken);
}

#[test]
fn one_issuance_for_a_domain_at_a_time() {
    let mut running = IssuanceRegistry::new();
    assert!(!running.is_active("a.example.com"));
    assert!(running.begin("a.example.com"));
    assert!(running.is_active("a.example.com"));
    assert!(!running.begin("a.example.com"));
    assert!(running.begin("b.example.com"));
    running.finish("a.example.com");
    assert!(!running.is_active("a.example.com"));
    assert!(running.is_active("b.example.com"));
    assert!(running.begin("a.example.com"));
    running.finish("c.example.com");
    assert!(running.is_active("a.example.com"));
    assert!(!IssuanceRegistry::default().is_active(""));
}

#[test]
fn domains_are_the_dns_names_or_the_common_name() {
    // general names of other kinds are left out, and the order is kept
    let mut params = rcgen::CertificateParams::new(vec!["one.example.com".to_string()]).unwrap();
    params.subject_alt_names.push(rcgen::SanType::IpAddress("192.0.2.7".parse().unwrap()));
    params.subject_alt_names.push(rcgen::SanType::DnsName("two.example.com".try_into().unwrap()));
    params.subject_alt_names.push(rcgen::SanType::Rfc822Name("ops@example.com".try_into().unwrap()));
    params.distinguished_name.push(rcgen::DnType::CommonName, "cn.example.com");
    let key = rcgen::KeyPair::generate().unwrap();
    let pem = params.self_signed(&key).unwrap().pem();
    let (domains, _, _, _) = parse_certificate_info(&pem, 0).unwrap();
    assert_eq!(domains, vec!["one.example.com", "two.example.com"]);

    // without a DNS name the Common Name stands alone
    let mut params = rcgen::CertificateParams::new(Vec::<String>::new()).unwrap();
    params.subject_alt_names.push(rcgen::SanType::IpAddress("192.0.2.7".parse().unwrap()));
    params.distinguished_name.push(rcgen::DnType::CommonName, "cn.example.com");
    let pem = params.self_signed(&key).unwrap().pem();
    let (domains, _, _, _) = parse_certificate_info(&pem, 0).unwrap();
    assert_eq!(domains, vec!["cn.example.com"]);

    // without the extension too
    let mut params = rcgen::CertificateParams::new(Vec::<String>::new()).unwrap();
    params.distinguished_name.push(rcgen::DnType::CommonName, "only.example.com");
    let pem = params.self_signed(&key).unwrap().pem();
    let (domains, _, _, _) = parse_certificate_info(&pem, 0).unwrap();
    assert_eq!(domains, vec!["only.example.com"]);

    assert_eq!(
        dns_names(Ok(Some(vec![None, Some("a".to_string()), None, Some("b".to_string())]))),
        vec!["a", "b"]
    );
    assert!(dns_names(Ok(Some(vec![None]))).is_empty());
    assert!(dns_names(Ok(None)).is_empty());
    assert!(dns_names(Err(())).is_empty());
}

#[test]
fn serial_numbers_are_written_in_upper_case_hexadecimal() {
    assert_eq!(serial_string(&vec![]), "0");
    assert_eq!(serial_string(&vec![0, 0]), "0");
    assert_eq!(serial_string(&vec![0x00, 0x0f]), "F");
    assert_eq!(serial_string(&vec![0x10]), "10");
    assert_eq!(serial_string(&vec![0xff]), "FF");
    assert_eq!(serial_string(&vec![0x0a, 0xbc, 0x01]), "ABC01");
    assert_eq!(serial_string(&vec![0x00, 0x80, 0x00, 0x09]), "800009");
    assert_eq!(serial_string(&vec![0x01, 0x23, 0x45, 0x67, 0x89, 0xab, 0xcd, 0xef]), "123456789ABCDEF");

    let mut params = rcgen::CertificateParams::new(vec!["s.example.com".to_string()]).unwrap();
    params.serial_number = Some(rcgen::SerialNumber::from_slice(&[0x0a, 0xbc, 0x01, 0x00]));
    let key = rcgen::KeyPair::generate().unwrap();
    let pem = params.self_signed(&key).unwrap().pem();
    let (_, _, _, serial) = parse_certificate_info(&pem, 0).unwrap();
    assert_eq!(serial, "ABC0100");
}
