use rcgen::generate_simple_self_signed;
use std::time::Duration;
use weaver_server::cert::acme::{
    choose_challenge, map_instant_acme_error, AccountStep, AcmeEngine, AcmeError, ChallengeKind,
    Failover, FailoverStep,
    IssuedCertificate, UpstreamError,
};
use weaver_server::cert::challenge::{
    acme_identifier_oid, acme_identifier_value, tls_alpn_01_extension, ChallengeRegistry,
};
use weaver_server::cert::clock::{
    format_unix_timestamp, unix_timestamp, Clock, MockClock, SystemClock,
};
use weaver_server::cert::keys::{
    challenge_key, create_tls_alpn_01_certified_key, parse_certified_key, served_key,
    ChallengeKeyError,
};
use weaver_server::cert::manager::{
    follower_result, renewal_delay_secs, renewal_failure, CachedCert, CertManager, EnsureStep,
    IssuanceOutcome, LoadedKey, RenewError, RenewalRow, MAX_ORDERS,
};
use weaver_server::cert::order::{
    CsrFailure, OfferedChallenges, OrderEvent, OrderPhase, OrderSession, SigningRequest,
};
use weaver_server::cert::pem::{
    certificate_chain, chain_validity, gather_chain, validity_of_sections,
};
use weaver_server::cert::providers::{
    find_provider, format_providers_table, providers, requires_eab, resolve_directory_url,
};
use weaver_server::cert::renewal::{compute_backoff, compute_backoff_secs, should_renew};
use weaver_server::cert::resolver::{
    default_hold_timeout, CertResolver, ClientHello, HandshakeWaiter, Resolution,
};
use weaver_server::cert::state::CertState;
use weaver_server::cert::validity::{days_from_civil, parse_cert_validity, parse_time, read_tlv};
use weaver_server::config::Config;
use weaver_server::net::{IpAddress, SocketAddress};

fn pem_pair(name: &str) -> (String, String) {
    let made = generate_simple_self_signed(vec![name.to_string()]).unwrap();
    (made.cert.pem(), made.signing_key.serialize_pem())
}

fn config(provider: &str) -> Config {
    let any = IpAddress::V6([0; 8]);
    Config {
        root_domain: "example.com".into(),
        admin_email: "admin@example.com".into(),
        acme_provider: provider.into(),
        listen_http: SocketAddress { ip: any, port: 80 },
        listen_https: SocketAddress { ip: any, port: 443 },
        control_socket: "/run/weaver/control.sock".into(),
        acme_directory: None,
        acme_eab_kid: None,
        acme_eab_hmac: None,
        acme_root_ca_pem: None,
        acme_fallback_providers: Vec::new(),
    }
}

fn issued(name: &str) -> IssuedCertificate {
    IssuedCertificate {
        name: name.into(),
        cert_pem: "cert".into(),
        key_pem: "key".into(),
        not_before: 1,
        not_after: 2,
        directory: "dir".into(),
    }
}

#[test]
fn test_parse_validity() {
    let cert = generate_simple_self_signed(vec!["example.com".to_string()]).unwrap();
    let der = cert.cert.der();
    let (nb, na) = parse_cert_validity(der).unwrap();
    assert!(na > nb);
    assert!(na - nb > 86400 * 300);
}

#[test]
fn test_format_unix_timestamp() {
    assert_eq!(format_unix_timestamp(0), "1970-01-01 00:00:00 UTC");
    let ts = 20711 * 86400 + 18 * 3600 + 5 * 60 + 2;
    assert_eq!(format_unix_timestamp(ts), "2026-09-15 18:05:02 UTC");
}

#[test]
fn test_should_renew_at_one_third() {
    let nb = 1_000_000;
    let na = 1_090_000;

    assert!(!should_renew(nb, na, 1_050_000));
    assert!(should_renew(nb, na, 1_060_000));
    assert!(should_renew(nb, na, 1_070_000));
    assert!(should_renew(nb, na, 1_100_000));
}

#[test]
fn test_compute_backoff_exponential() {
    assert_eq!(compute_backoff(1, None), Duration::from_secs(3600));
    assert_eq!(compute_backoff(2, None), Duration::from_secs(7200));
    assert_eq!(compute_backoff(3, None), Duration::from_secs(14400));
    assert_eq!(compute_backoff(4, None), Duration::from_secs(28800));
    assert_eq!(compute_backoff(5, None), Duration::from_secs(57600));
    assert_eq!(compute_backoff(6, None), Duration::from_secs(86400));
    assert_eq!(compute_backoff(10, None), Duration::from_secs(86400));

    assert_eq!(compute_backoff(1, Some(10000)), Duration::from_secs(10000));
}

#[test]
fn timestamps_before_the_epoch_and_leap_days() {
    assert_eq!(format_unix_timestamp(-1), "1969-12-31 23:59:59 UTC");
    assert_eq!(format_unix_timestamp(951782400), "2000-02-29 00:00:00 UTC");
    assert_eq!(days_from_civil(1970, 1, 1), 0);
    assert_eq!(days_from_civil(2000, 3, 1), days_from_civil(2000, 2, 29) + 1);
}

#[test]
fn clocks() {
    let mut clock = MockClock::new(5);
    assert_eq!(clock.now_unix(), 5);
    clock.advance(10);
    assert_eq!(clock.now_unix(), 15);
    clock.set(-3);
    assert_eq!(clock.now_unix(), -3);
    assert_eq!(unix_timestamp(None), 0);
    assert_eq!(unix_timestamp(Some(7)), 7);
    assert!(SystemClock.now_unix() > 1_500_000_000);
}

#[test]
fn renewal_edges() {
    assert!(should_renew(0, 90, 90));
    assert!(!should_renew(0, 90, 59));
    assert!(should_renew(0, 90, 60));
    assert_eq!(compute_backoff_secs(0, None), 3600);
    assert!(compute_backoff_secs(3, None) <= compute_backoff_secs(4, None));
}

#[test]
fn provider_catalog() {
    assert_eq!(providers()[0].id, "letsencrypt");
    assert!(find_provider("LetsEncrypt").is_some());
    assert!(find_provider("nobody").is_none());
    assert!(requires_eab("google"));
    assert!(requires_eab("ZEROSSL"));
    assert!(!requires_eab("letsencrypt"));
    assert_eq!(
        resolve_directory_url("letsencrypt", None).as_deref(),
        Some("https://acme-v02.api.letsencrypt.org/directory")
    );
    assert_eq!(
        resolve_directory_url("custom", Some("https://ca/dir")).as_deref(),
        Some("https://ca/dir")
    );
    assert_eq!(resolve_directory_url("custom", None), None);
    assert!(format_providers_table()
        .starts_with("| id | directory | EAB | quota (2026) | how to get credentials |\n"));
}

#[test]
fn asn1_elements() {
    assert_eq!(
        read_tlv(&[0x04, 0x02, 1, 2, 9]),
        Ok((0x04, &[1u8, 2][..], &[9u8][..]))
    );
    assert_eq!(
        read_tlv(&[0x04, 0x81, 0x01, 7]),
        Ok((0x04, &[7u8][..], &[][..]))
    );
    assert!(read_tlv(&[0x04]).is_err());
    assert!(read_tlv(&[0x04, 0x05, 1]).is_err());
}

#[test]
fn asn1_times() {
    assert_eq!(parse_time(b"700101000000Z", 0x17), Ok(0));
    assert_eq!(parse_time(b"19700101000001Z", 0x18), Ok(1));
    assert_eq!(parse_time(b"490101000000Z", 0x17), Ok(2493072000));
    assert!(parse_time(b"50", 0x17).is_err());
    assert!(parse_time(b"700101000000Z", 0x30).is_err());
    assert!(parse_time(&[0xff, 0xfe], 0x17).is_err());
}

#[test]
fn pem_chains() {
    let (cert, _) = pem_pair("example.com");
    let two = format!("{cert}{cert}");
    let chain = certificate_chain(&two).unwrap();
    assert_eq!(chain.len(), 2);
    assert_eq!(chain[0], chain[1]);
    let (nb, na) = chain_validity(&cert).unwrap();
    assert_eq!(parse_cert_validity(&chain[0]), Ok((nb, na)));
    assert_eq!(
        certificate_chain(""),
        Err("No certificates found in cert_pem".to_string())
    );
    assert_eq!(
        gather_chain(vec![Ok(vec![1]), Err("bad".to_string())]),
        Err("bad".to_string())
    );
    assert_eq!(gather_chain(vec![Ok(vec![1])]), Ok(vec![vec![1]]));
    assert!(validity_of_sections(&vec![Err("bad".to_string())]).is_err());
}

#[test]
fn certified_keys() {
    let (cert, key) = pem_pair("example.com");
    let parsed = parse_certified_key(&cert, &key).unwrap();
    assert_eq!(
        parsed.cert[0].as_ref(),
        certificate_chain(&cert).unwrap()[0].as_slice()
    );
    assert_eq!(
        parse_certified_key("", &key).err(),
        Some("No certificates found in cert_pem".to_string())
    );
    assert!(parse_certified_key(&cert, "no key").is_err());
    assert!(parse_certified_key(&cert, &cert).is_err());
}

#[test]
fn signing_requests_name_the_host() {
    let order = OrderSession::start("a.example.com", "https://ca/dir", true);
    let made = order.signing_request().expect("a request");
    let mut names = vec![0x30, 0x1b, 0x06, 0x03, 0x55, 0x1d, 0x11, 0x01, 0x01, 0xff];
    names.extend([0x04, 0x11, 0x30, 0x0f, 0x82, 0x0d]);
    names.extend(b"a.example.com");
    assert!(stands_in(&names, &made.csr));
    assert!(made.key_pem.contains("PRIVATE KEY"));
    let order = OrderSession::start("h\u{e9}llo.example", "https://ca/dir", true);
    assert!(matches!(
        order.signing_request(),
        Err(CsrFailure::Params(_))
    ));
}

#[test]
fn addresses_are_named_by_their_octets() {
    let Ok(key) = create_tls_alpn_01_certified_key("127.0.0.1", "token.thumbprint") else {
        panic!("no key was made");
    };
    let mut names = vec![0x30, 0x0f, 0x06, 0x03, 0x55, 0x1d, 0x11];
    names.extend([0x04, 0x08, 0x30, 0x06, 0x87, 0x04, 127, 0, 0, 1]);
    assert!(stands_in(&names, key.cert[0].as_ref()));
    for (host, octets) in [
        (
            "2001:dB8::1",
            [0x20, 0x01, 0x0d, 0xb8, 0, 0, 0, 0, 0, 0, 0, 0, 0, 0, 0, 1],
        ),
        (
            "::ffff:1.2.3.4",
            [0, 0, 0, 0, 0, 0, 0, 0, 0, 0, 0xff, 0xff, 1, 2, 3, 4],
        ),
        (
            "1:2:3:4:5:6:7:89ab",
            [0, 1, 0, 2, 0, 3, 0, 4, 0, 5, 0, 6, 0, 7, 0x89, 0xab],
        ),
    ] {
        let order = OrderSession::start(host, "https://ca/dir", true);
        let made = order.signing_request().expect("a request");
        let mut names = vec![0x30, 0x1e, 0x06, 0x03, 0x55, 0x1d, 0x11, 0x01, 0x01, 0xff];
        names.extend([0x04, 0x14, 0x30, 0x12, 0x87, 0x10]);
        names.extend(octets);
        assert!(stands_in(&names, &made.csr), "{host}");
    }
}

#[test]
fn long_names_have_long_lengths() {
    for (len, lengths) in [
        (200, [vec![0x81, 0xd9], vec![0x81, 0xce], vec![0x81, 0xcb], vec![0x81, 0xc8]]),
        (
            300,
            [
                vec![0x82, 0x01, 0x40],
                vec![0x82, 0x01, 0x34],
                vec![0x82, 0x01, 0x30],
                vec![0x82, 0x01, 0x2c],
            ],
        ),
    ] {
        let host = "a".repeat(len);
        let order = OrderSession::start(&host, "https://ca/dir", true);
        let made = order.signing_request().expect("a request");
        let mut names = vec![0x30];
        names.extend(&lengths[0]);
        names.extend([0x06, 0x03, 0x55, 0x1d, 0x11, 0x01, 0x01, 0xff, 0x04]);
        names.extend(&lengths[1]);
        names.push(0x30);
        names.extend(&lengths[2]);
        names.push(0x82);
        names.extend(&lengths[3]);
        names.extend(host.as_bytes());
        assert!(stands_in(&names, &made.csr), "{len}");
    }
}

#[test]
fn challenge_key_outcomes() {
    assert!(matches!(
        challenge_key(Err(rcgen::Error::KeyGenerationUnavailable)),
        Err(ChallengeKeyError::Certificate(
            rcgen::Error::KeyGenerationUnavailable
        ))
    ));
    match challenge_key(Ok(Err("no signer".to_string()))) {
        Err(ChallengeKeyError::Key(why)) => assert_eq!(why, "no signer"),
        _ => panic!("the key cannot be used"),
    }
    let made = create_tls_alpn_01_certified_key("tunnel.example.com", "token.thumbprint");
    let Ok(key) = made else {
        panic!("no key was made");
    };
    let chain = key.cert.clone();
    match challenge_key(Ok(Ok((*key).clone()))) {
        Ok(shared) => assert_eq!(shared.cert, chain),
        Err(_) => panic!("the key was refused"),
    }
}

#[test]
fn challenge_certificates() {
    let made = create_tls_alpn_01_certified_key("tunnel.example.com", "token.thumbprint");
    assert!(made.is_ok());
    if let Ok(key) = made {
        assert_eq!(key.cert.len(), 1);
        let der = key.cert[0].as_ref();
        let value = tls_alpn_01_extension("token.thumbprint");
        assert_eq!(value.len(), 34);
        assert_eq!(&value[..2], &[0x04, 0x20]);
        assert!(der.windows(34).any(|w| w == value.as_slice()));
        let mut names = vec![0x30, 0x1d, 0x06, 0x03, 0x55, 0x1d, 0x11];
        names.extend([0x04, 0x16, 0x30, 0x14, 0x82, 0x12]);
        names.extend(b"tunnel.example.com");
        assert!(stands_in(&names, der));
    }
    assert!(matches!(
        create_tls_alpn_01_certified_key("h\u{e9}llo.example", "t"),
        Err(ChallengeKeyError::Certificate(_))
    ));
    assert_eq!(acme_identifier_oid(), vec![1, 3, 6, 1, 5, 5, 7, 1, 31]);
    assert_eq!(acme_identifier_value(&vec![7; 32])[2..], vec![7; 32][..]);
}

#[test]
fn sha256_is_the_real_one() {
    assert_eq!(
        tls_alpn_01_extension("")[2..10].to_vec(),
        vec![0xe3, 0xb0, 0xc4, 0x42, 0x98, 0xfc, 0x1c, 0x14]
    );
}

#[test]
fn challenges_answer_until_removed() {
    let mut reg: ChallengeRegistry<u8> = ChallengeRegistry::new();
    reg.register_http_01("tok".into(), "tok.thumb".into());
    assert_eq!(reg.get_http_01("tok").as_deref(), Some("tok.thumb"));
    reg.remove_http_01("tok");
    assert_eq!(reg.get_http_01("tok"), None);
    reg.register_tls_alpn_01("A.Example.com".into(), 3);
    assert_eq!(reg.get_tls_alpn_01("a.example.COM"), Some(&3));
    reg.remove_tls_alpn_01("A.EXAMPLE.com");
    assert_eq!(reg.get_tls_alpn_01("a.example.com"), None);
}

#[test]
fn cert_states() {
    let issued = CertState::Issued { not_after: 9 };
    assert!(issued.is_issued());
    assert_eq!(issued.not_after(), Some(9));
    assert_eq!(issued.label(), "issued");
    assert_eq!(CertState::OrderInProgress.label(), "ordering");
    assert_eq!(CertState::Pending.label(), "pending");
    let failed = CertState::Failed {
        error: "no".into(),
        next_retry: 4,
    };
    assert_eq!(failed.label(), "failed");
    assert_eq!(failed.not_after(), None);
    let renewing = CertState::Renewing { not_after: 3 };
    assert_eq!(renewing.label(), "renewing");
    assert_eq!(renewing.not_after(), Some(3));
    assert!(issued.same(&issued.clone()));
    assert!(!issued.same(&renewing));
}

#[test]
fn resolver_serves_only_valid_certificates() {
    let mut r: CertResolver<u8> = CertResolver::new("example.com");
    let challenges: ChallengeRegistry<u8> = ChallengeRegistry::new();
    assert!(r.is_placeholder("example.com", 10));
    r.insert_cert_with_expiry("Example.com", 1, 100);
    assert!(!r.is_placeholder("EXAMPLE.com", 99));
    assert!(r.is_placeholder("example.com", 100));
    let hello = ClientHello {
        alpn: Vec::new(),
        server_name: Some("example.com"),
    };
    assert!(matches!(
        r.resolve(&hello, &challenges, 50),
        Resolution::Serve(&1)
    ));
    assert!(matches!(
        r.resolve(&hello, &challenges, 100),
        Resolution::Reject
    ));
    r.mark_ordering("example.com");
    assert!(matches!(
        r.resolve(&hello, &challenges, 100),
        Resolution::Hold
    ));
    assert!(r.clear_ordering("example.com"));
    assert!(!r.is_ordering("example.com"));
    let nameless = ClientHello {
        alpn: Vec::new(),
        server_name: None,
    };
    assert!(matches!(
        r.resolve(&nameless, &challenges, 50),
        Resolution::Reject
    ));
}

#[test]
fn resolver_answers_challenges() {
    let r: CertResolver<u8> = CertResolver::new("example.com");
    let mut challenges: ChallengeRegistry<u8> = ChallengeRegistry::new();
    challenges.register_tls_alpn_01("example.com".into(), 9);
    let hello = ClientHello {
        alpn: vec![b"acme-tls/1".to_vec()],
        server_name: Some("example.com"),
    };
    assert!(matches!(
        r.resolve(&hello, &challenges, 0),
        Resolution::Challenge(&9)
    ));
}

#[test]
fn leaf_expiry_of_an_inserted_certificate() {
    let (cert, _) = pem_pair("example.com");
    let leaf = certificate_chain(&cert).unwrap().remove(0);
    let (_, not_after) = parse_cert_validity(&leaf).unwrap();
    let mut r: CertResolver<u8> = CertResolver::new("example.com");
    r.insert_cert("example.com", 1, Some(&leaf));
    assert_eq!(r.valid_certificate("example.com", not_after - 1), Some(&1));
    assert_eq!(r.valid_certificate("example.com", not_after), None);
}

#[test]
fn handshake_waiter() {
    let mut w = HandshakeWaiter::new();
    assert_eq!(w.wait_timeout(4, 10), Some(6));
    assert_eq!(w.wait_timeout(10, 10), None);
    w.notify();
    assert_eq!(w.wait_timeout(0, 10), None);
    assert_eq!(default_hold_timeout(), Duration::from_secs(30));
}

#[test]
fn upstream_errors_are_classified() {
    let limited = map_instant_acme_error(UpstreamError::Problem {
        kind: Some("urn:ietf:params:acme:error:rateLimited".into()),
        detail: Some("slow".into()),
        status: Some(400),
    });
    assert!(limited.is_rate_limited());
    let too_many = map_instant_acme_error(UpstreamError::Problem {
        kind: None,
        detail: None,
        status: Some(429),
    });
    assert!(too_many.is_rate_limited());
    let down = map_instant_acme_error(UpstreamError::Problem {
        kind: None,
        detail: Some("down".into()),
        status: Some(503),
    });
    assert!(down.is_server_error());
    assert_eq!(down.message(), "ACME server error (Some(503)): down");
    let other = map_instant_acme_error(UpstreamError::Other("x".into()));
    assert_eq!(other.message(), "ACME failure: x");
    assert_eq!(
        AcmeError::AllProvidersFailed("last".into()).message(),
        "All ACME providers failed. Last error: last"
    );
    assert_eq!(
        AcmeError::RateLimited {
            detail: "d".into(),
            retry_after_secs: Some(5)
        }
        .message(),
        "ACME rate limited: d (retry after Some(5)s)"
    );
}

#[test]
fn directories_fail_over_in_order() {
    let mut c = config("letsencrypt");
    c.acme_fallback_providers = vec!["buypass".into(), "nobody".into()];
    let list = AcmeEngine::new(c).resolve_directory_list();
    assert_eq!(list.len(), 2);
    assert_eq!(list[0].0, "letsencrypt");
    assert_eq!(list[1].0, "buypass");

    let mut failover = Failover::start(list).unwrap();
    assert_eq!(failover.current().0, "letsencrypt");
    let step = failover.after(Err(AcmeError::ServerError {
        status: Some(500),
        detail: "down".into(),
    }));
    assert!(matches!(step, FailoverStep::TryNext));
    assert_eq!(failover.current().0, "buypass");
    assert!(matches!(
        failover.after(Ok(issued("a"))),
        FailoverStep::Issued(_)
    ));
    assert!(Failover::start(Vec::new()).is_err());
}

#[test]
fn fatal_errors_do_not_fail_over() {
    let list = AcmeEngine::new(config("letsencrypt")).resolve_directory_list();
    let mut failover = Failover::start(list).unwrap();
    assert!(matches!(
        failover.after(Err(AcmeError::Other("bad key".into()))),
        FailoverStep::Failed(_)
    ));
}

#[test]
fn external_account_binding() {
    let mut c = config("google");
    assert!(AcmeEngine::new(c.clone()).prepare_eab("google").is_err());
    c.acme_eab_kid = Some("kid".into());
    c.acme_eab_hmac = Some("aGVsbG8".into());
    let key = AcmeEngine::new(c.clone())
        .prepare_eab("google")
        .unwrap()
        .unwrap();
    assert_eq!(key.kid, "kid");
    assert_eq!(key.hmac, b"hello".to_vec());
    c.acme_eab_hmac = Some("aGVsbG8=".into());
    let padded = AcmeEngine::new(c.clone())
        .prepare_eab("google")
        .unwrap()
        .unwrap();
    assert_eq!(padded.hmac, b"hello".to_vec());
    c.acme_eab_hmac = Some("-_-_".into());
    let url = AcmeEngine::new(c.clone())
        .prepare_eab("google")
        .unwrap()
        .unwrap();
    assert_eq!(url.hmac, vec![0xfb, 0xff, 0xbf]);
    c.acme_eab_hmac = Some("+/+/".into());
    let standard = AcmeEngine::new(c.clone())
        .prepare_eab("google")
        .unwrap()
        .unwrap();
    assert_eq!(standard.hmac, vec![0xfb, 0xff, 0xbf]);
    c.acme_eab_hmac = Some("-_8=".into());
    let url_padded = AcmeEngine::new(c.clone())
        .prepare_eab("google")
        .unwrap()
        .unwrap();
    assert_eq!(url_padded.hmac, vec![0xfb, 0xff]);
    c.acme_eab_hmac = Some("!!".into());
    assert!(AcmeEngine::new(c).prepare_eab("google").is_err());
    assert!(AcmeEngine::new(config("letsencrypt"))
        .prepare_eab("letsencrypt")
        .unwrap()
        .is_none());
    assert_eq!(
        AcmeEngine::new(config("letsencrypt")).contact(),
        "mailto:admin@example.com"
    );
}

#[test]
fn accounts_are_restored_or_created() {
    assert!(matches!(
        AcmeEngine::account_step(false, None),
        AccountStep::Create
    ));
    assert!(matches!(
        AcmeEngine::account_step(true, None),
        AccountStep::Restore
    ));
    assert!(matches!(
        AcmeEngine::account_step(true, Some(true)),
        AccountStep::UseRestored
    ));
    assert!(matches!(
        AcmeEngine::account_step(true, Some(false)),
        AccountStep::Create
    ));
}

#[test]
fn challenge_choice() {
    assert_eq!(
        choose_challenge(true, true, true),
        Some(ChallengeKind::Http01)
    );
    assert_eq!(
        choose_challenge(false, true, true),
        Some(ChallengeKind::TlsAlpn01)
    );
    assert_eq!(
        choose_challenge(false, true, false),
        Some(ChallengeKind::Http01)
    );
    assert_eq!(choose_challenge(true, false, false), None);
}

#[test]
fn an_order_from_account_to_certificate() {
    let (cert, _) = pem_pair("a.example.com");
    let mut reg: ChallengeRegistry<u8> = ChallengeRegistry::new();
    let mut s = OrderSession::start("a.example.com", "https://ca/dir", true);
    assert_eq!(s.phase(), OrderPhase::Account);
    s.step(OrderEvent::Account(Ok(())), &mut reg).unwrap();
    let request = SigningRequest {
        key_pem: "key".into(),
        csr: vec![0x30, 0x00],
    };
    s.step(OrderEvent::Request(Ok(request)), &mut reg).unwrap();
    assert_eq!(s.csr(), &[0x30, 0x00]);
    s.step(OrderEvent::Accepted(Ok(())), &mut reg).unwrap();
    s.step(
        OrderEvent::Authorization(Ok(Some(OfferedChallenges {
            http: true,
            alpn: true,
        }))),
        &mut reg,
    )
    .unwrap();
    assert_eq!(s.phase(), OrderPhase::Challenge(ChallengeKind::Http01));
    s.step(
        OrderEvent::HttpChallenge {
            token: "tok".into(),
            key_authorization: "tok.thumb".into(),
        },
        &mut reg,
    )
    .unwrap();
    assert_eq!(reg.get_http_01("tok").as_deref(), Some("tok.thumb"));
    s.step(OrderEvent::Accepted(Ok(())), &mut reg).unwrap();
    s.step(OrderEvent::Authorization(Ok(None)), &mut reg)
        .unwrap();
    s.step(OrderEvent::Accepted(Ok(())), &mut reg).unwrap();
    assert_eq!(reg.get_http_01("tok"), None);
    s.step(OrderEvent::Accepted(Ok(())), &mut reg).unwrap();
    s.step(OrderEvent::Certificate(Ok(cert.clone())), &mut reg)
        .unwrap();
    s.step(OrderEvent::Saved(Ok(())), &mut reg).unwrap();
    assert_eq!(s.phase(), OrderPhase::Issued);
    let made = s.certificate();
    assert_eq!(made.cert_pem, cert);
    assert_eq!(made.key_pem, "key");
    assert!(made.not_before < made.not_after);
}

#[test]
fn an_order_fails_where_a_step_fails() {
    let mut reg: ChallengeRegistry<u8> = ChallengeRegistry::new();
    let mut s = OrderSession::start("a.example.com", "https://ca/dir", true);
    s.step(OrderEvent::Account(Ok(())), &mut reg).unwrap();
    let err = s
        .step(
            OrderEvent::Request(Err(CsrFailure::Params("no".into()))),
            &mut reg,
        )
        .unwrap_err();
    assert!(err.message().contains("no"));
    assert_eq!(s.phase(), OrderPhase::Failed);
}

#[test]
fn manager_orders_back_off_and_recover() {
    let mut m: CertManager<u8> = CertManager::new("example.com");
    assert!(matches!(m.ensure("A.example.com", 0), EnsureStep::Lead(_)));
    assert!(matches!(m.ensure("a.example.com", 0), EnsureStep::Follow));
    assert!(m.status("a.example.com").same(&CertState::OrderInProgress));
    let report = m.end_issuance(
        "a.example.com",
        IssuanceOutcome::Failed(AcmeError::Other("down".into())),
        100,
    );
    assert!(report.result.is_err());
    assert_eq!(m.failure_count("a.example.com"), 1);
    assert!(m.status("a.example.com").same(&CertState::Failed {
        error: "ACME failure: down".into(),
        next_retry: 3700,
    }));
    let _ = m.ensure("a.example.com", 4000);
    let report = m.end_issuance(
        "a.example.com",
        IssuanceOutcome::Issued {
            loaded: LoadedKey { key: 7, leaf: None },
            not_after: 9000,
        },
        4100,
    );
    assert!(report.result.is_ok());
    assert_eq!(m.failure_count("a.example.com"), 0);
    assert!(m
        .status("a.example.com")
        .same(&CertState::Issued { not_after: 9000 }));
}

#[test]
fn unreadable_issued_keys_are_reported() {
    let mut m: CertManager<u8> = CertManager::new("example.com");
    let _ = m.ensure("a.example.com", 0);
    let report = m.end_issuance(
        "a.example.com",
        IssuanceOutcome::Unreadable("bad pem".into()),
        1,
    );
    assert_eq!(
        report.result.unwrap_err().message(),
        "ACME failure: Failed to parse issued key: bad pem"
    );
    assert!(report.wake);
    assert!(matches!(report.followers, Some(Err(_))));
    assert!(matches!(m.ensure("a.example.com", 2), EnsureStep::Lead(_)));
}

#[test]
fn order_slots_are_limited() {
    let mut m: CertManager<u8> = CertManager::new("example.com");
    for _ in 0..MAX_ORDERS {
        assert!(m.start_order());
    }
    assert!(!m.start_order());
    m.finish_order();
    assert_eq!(m.orders_in_flight(), MAX_ORDERS - 1);
    assert!(m.start_order());
}

#[test]
fn restart_loads_what_is_valid() {
    let mut m: CertManager<u8> = CertManager::new("example.com");
    m.init(
        vec![
            CachedCert {
                name: "a.example.com".into(),
                not_after: 1000,
                last_active_at: Some(1),
                loaded: Some(LoadedKey { key: 1, leaf: None }),
            },
            CachedCert {
                name: "b.example.com".into(),
                not_after: 10,
                last_active_at: None,
                loaded: Some(LoadedKey { key: 2, leaf: None }),
            },
        ],
        100,
    );
    assert!(m.tracks("a.example.com"));
    assert!(!m.tracks("b.example.com"));
    assert_eq!(m.root_cert_status(), "pending");
    assert_eq!(
        m.spawn_eager_order_if_pending().as_deref(),
        Some("example.com")
    );
}

#[test]
fn renewals_are_refused_with_reasons() {
    let mut m: CertManager<u8> = CertManager::new("example.com");
    assert!(matches!(
        m.renew_hostname("x.example.com", false, Ok(false), 0),
        Err(RenewError::NotFound(_))
    ));
    assert!(matches!(
        m.renew_hostname("x.example.com", false, Err("db".into()), 0),
        Err(RenewError::Store(_))
    ));
    m.set_state(
        "x.example.com",
        CertState::Failed {
            error: "e".into(),
            next_retry: 50,
        },
    );
    assert!(matches!(
        m.renew_hostname("x.example.com", false, Ok(true), 10),
        Err(RenewError::RateLimited { retry_at: 50, .. })
    ));
    assert!(m.renew_hostname("x.example.com", true, Ok(true), 10).is_ok());
    for _ in 0..MAX_ORDERS {
        m.start_order();
    }
    assert!(matches!(
        m.renew_hostname("x.example.com", false, Ok(true), 60),
        Err(RenewError::CapacityExceeded)
    ));
}

#[test]
fn renewal_of_all_and_of_eligible_rows() {
    let mut m: CertManager<u8> = CertManager::new("example.com");
    m.set_state("a.example.com", CertState::Issued { not_after: 900 });
    m.set_active("a.example.com", true);
    m.set_state("b.example.com", CertState::Issued { not_after: 900 });
    let r = m
        .renew_all(false, &vec!["c.example.com".to_string()], 10)
        .unwrap();
    assert!(r.renewed.contains(&"example.com".to_string()));
    assert!(r.renewed.contains(&"a.example.com".to_string()));
    assert!(r.skipped_inactive.contains(&"b.example.com".to_string()));
    assert!(r.skipped_inactive.contains(&"c.example.com".to_string()));

    let mut m: CertManager<u8> = CertManager::new("example.com");
    m.set_active("a.example.com", true);
    let row = RenewalRow {
        name: "a.example.com".into(),
        not_before: 0,
        not_after: 90,
        last_active_at: None,
    };
    assert!(m.renew_eligible(&row, 10).is_none());
    let due = m.renew_eligible(&row, 70).expect("a renewal");
    assert_eq!(due.hostname, "a.example.com");
    assert_eq!(due.notify, None);
    assert!(m
        .status("a.example.com")
        .same(&CertState::Renewing { not_after: 90 }));
    // The root is reported before its order, also where its certificate has expired.
    let root = RenewalRow {
        name: "Example.com".into(),
        ..row
    };
    for now in [70, 95] {
        let due = m.renew_eligible(&root, now).expect("a renewal");
        assert_eq!(due.hostname, "example.com");
        assert_eq!(due.notify, Some("renewing"));
    }
}

#[test]
fn manager_counts_and_lists() {
    let mut m: CertManager<u8> = CertManager::new("example.com");
    m.set_state("a.example.com", CertState::Issued { not_after: 5 });
    m.set_active("A.example.com", true);
    m.set_state("b.example.com", CertState::OrderInProgress);
    m.set_active("b.example.com", true);
    let stored = vec!["c.example.com".to_string()];
    let names = m.known_names(&stored);
    assert!(names.contains(&"c.example.com".to_string()));
    let counts = m.cert_counts(&stored);
    assert_eq!(counts.issued, 1);
    assert_eq!(counts.ordering, 1);
    assert_eq!(m.list_states().len(), 2);
    assert_eq!(m.take_state_changes().len(), 2);
    assert_eq!(m.take_state_changes().len(), 0);
    assert!(m.is_active("a.EXAMPLE.com"));
}

#[test]
fn followers_share_the_result() {
    assert!(follower_result(Some(Ok(()))).is_ok());
    assert_eq!(
        follower_result(Some(Err("e".into()))).unwrap_err().message(),
        "ACME failure: e"
    );
    assert!(follower_result(None).is_err());
    assert!(renewal_failure("a", &AcmeError::Other("x".into())).contains("x"));
}

#[test]
fn expired_certificates_are_due() {
    assert!(should_renew(100, 10, 20));
    assert!(should_renew(100, 10, 10));
    assert!(!should_renew(0, 90, 59));
}

#[test]
fn exhausted_directories_fail_together() {
    let list = AcmeEngine::new(config("letsencrypt")).resolve_directory_list();
    let mut failover = Failover::start(list).unwrap();
    let limited = AcmeError::RateLimited {
        detail: "slow down".into(),
        retry_after_secs: None,
    };
    match failover.after(Err(limited)) {
        FailoverStep::Failed(e) => assert_eq!(
            e.message(),
            "All ACME providers failed. Last error: ACME rate limited: slow down (retry after Nones)"
        ),
        _ => panic!("another directory was tried"),
    }
}

#[test]
fn inactive_hostnames_are_not_renewed() {
    let mut m: CertManager<u8> = CertManager::new("example.com");
    let row = RenewalRow {
        name: "A.example.com".into(),
        not_before: 0,
        not_after: 90,
        last_active_at: Some(5),
    };
    let due = m.renew_eligible(&row, 70).expect("a renewal");
    assert_eq!(due.hostname, "a.example.com");
    assert_eq!(due.notify, None);
    m.set_active("a.example.com", true);
    assert_eq!(
        m.take_activity_changes(),
        vec![("a.example.com".to_string(), true)]
    );
    m.set_active("A.example.com", false);
    assert!(m.renew_eligible(&row, 70).is_none());
    assert_eq!(
        m.take_activity_changes(),
        vec![("a.example.com".to_string(), false)]
    );
    assert!(m.take_activity_changes().is_empty());
    assert!(m.renew_eligible(&row, 70).is_none());
    m.set_active("a.example.com", true);
    let due = m.renew_eligible(&row, 70).expect("a renewal");
    assert_eq!(due.hostname, "a.example.com");
    assert_eq!(due.notify, None);
}

#[test]
fn formatted_times_read_back() {
    for ts in [0i64, 951_782_399, 951_782_400, 1_700_000_000, 253_402_300_799] {
        let mut text: String = format_unix_timestamp(ts)
            .chars()
            .filter(|c| c.is_ascii_digit())
            .collect();
        text.push('Z');
        assert_eq!(text.len(), 15);
        assert_eq!(parse_time(text.as_bytes(), 0x18), Ok(ts));
    }
}

#[test]
fn challenge_paths_are_answered() {
    let mut reg: ChallengeRegistry<u8> = ChallengeRegistry::new();
    reg.register_http_01("tok".into(), "tok.thumb".into());
    assert_eq!(
        reg.answer_to("/.well-known/acme-challenge/tok").as_deref(),
        Some("tok.thumb")
    );
    assert_eq!(reg.answer_to("/.well-known/acme-challenge/other"), None);
    assert_eq!(reg.answer_to("/tok"), None);
    assert_eq!(reg.answer_to("tok"), None);
}

#[test]
fn served_key_outcomes() {
    assert_eq!(
        served_key(Err("no chain".to_string())).err(),
        Some("no chain".to_string())
    );
    assert_eq!(
        served_key(Ok(Err("no signer".to_string()))).err(),
        Some("no signer".to_string())
    );
    let (cert, key) = pem_pair("example.com");
    let parsed = parse_certified_key(&cert, &key).expect("a key");
    let chain = parsed.cert.clone();
    let shared = served_key(Ok(Ok((*parsed).clone()))).expect("the same key");
    assert_eq!(shared.cert, chain);
}

#[test]
fn renewal_runs_are_spread() {
    assert_eq!(renewal_delay_secs(0), 43_200);
    assert_eq!(renewal_delay_secs(599), 43_799);
    assert_eq!(renewal_delay_secs(601), 43_201);
}

fn public_of(key: &rustls::sign::CertifiedKey) -> Vec<u8> {
    key.key.public_key().expect("a public key").as_ref().to_vec()
}

fn stands_in(part: &[u8], whole: &[u8]) -> bool {
    whole.windows(part.len()).any(|w| w == part)
}

#[test]
fn keys_belong_to_their_certificates() {
    let (cert, key) = pem_pair("example.com");
    let (other_cert, other_key) = pem_pair("example.com");
    let parsed = parse_certified_key(&cert, &key).expect("a key");
    let other = parse_certified_key(&other_cert, &other_key).expect("a key");
    assert!(stands_in(&public_of(&parsed), parsed.cert[0].as_ref()));
    assert!(!stands_in(&public_of(&other), parsed.cert[0].as_ref()));
    // The text of the key decides, also where the certificate's text holds one.
    let both = format!("{cert}{other_key}");
    let mixed = parse_certified_key(&both, &key).expect("a key");
    assert_eq!(public_of(&mixed), public_of(&parsed));

    let Ok(challenge) = create_tls_alpn_01_certified_key("a.example.com", "token.thumb") else {
        panic!("no key was made");
    };
    let der = challenge.cert[0].as_ref();
    assert!(stands_in(&public_of(&challenge), der));
    let mut extension = vec![0x06, 0x08, 0x2b, 0x06, 0x01, 0x05, 0x05, 0x07, 0x01, 0x1f];
    extension.extend([0x01, 0x01, 0xff, 0x04, 0x22]);
    extension.extend(tls_alpn_01_extension("token.thumb"));
    assert!(stands_in(&extension, der));

    let order = OrderSession::start("a.example.com", "https://ca/dir", true);
    let made = order.signing_request().expect("a request");
    let signer = parse_certified_key(&cert, &made.key_pem).expect("a readable key");
    assert!(stands_in(&public_of(&signer), &made.csr));
}
