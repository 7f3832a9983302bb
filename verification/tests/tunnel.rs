use http::HeaderMap;
use weaver_server::cert::manager::CertManager;
use weaver_server::cert::resolver::CertResolver;
use weaver_server::cert::state::CertState;
use weaver_server::edge::host::{HttpVersion, RequestParts};
use weaver_server::edge::https::{
    bad_gateway, handle_https_request, is_ip_literal, EdgeRequest, EdgeResponse, EdgeStep,
    HttpsEdgeConfig, Page,
};
use weaver_server::net::IpAddress;
use weaver_server::tunnel::exchange::{
    Exchange, HeadStep, Pump, SendOutcome, DOWN_HIGH_WATER, DOWN_LOW_WATER, UP_HIGH_WATER,
};
use weaver_server::tunnel::identity::{derive_hostname, Identity};
use weaver_server::tunnel::proxy::{
    clean_headers, forward_head, head_meaning, hop_by_hop, prepare_request, upgrade_kind,
    visitor_address, visitor_response, visitor_trailers, HeadMeaning, HttpResponseHead, ProxyError,
    UpgradeKind, VisitorRequest,
};
use weaver_server::tunnel::registry::{refused, RefusalCode, TunnelRegistry};
use weaver_server::tunnel::relay::{
    cert_status, CertStatus, CertWatch, FirstStep, MessagePlace, RegisteredStep, Registration,
    RelayHandler,
};

fn identity() -> Identity {
    Identity {
        person: "poc".into(),
        machine: "laptop".into(),
    }
}

fn header(name: &str, value: &str) -> (String, Vec<u8>) {
    (name.to_string(), value.as_bytes().to_vec())
}

fn visitor(headers: Vec<(String, Vec<u8>)>) -> VisitorRequest {
    VisitorRequest {
        method: "GET".into(),
        version: HttpVersion::Http11,
        headers,
        protocol: None,
        path_and_query: Some("/a?b".into()),
        path: "/a".into(),
    }
}

fn value_of(headers: &[(String, Vec<u8>)], name: &str) -> Option<String> {
    headers
        .iter()
        .find(|(n, _)| n == name)
        .map(|(_, v)| String::from_utf8_lossy(v).to_string())
}

fn request(method: &str, host: &str, path: &str) -> EdgeRequest {
    EdgeRequest {
        method: method.into(),
        extended_connect: false,
        parts: RequestParts {
            host_lines: vec![host.as_bytes().to_vec()],
            authority: None,
            version: HttpVersion::Http11,
        },
        path: path.into(),
        target: path.into(),
        websocket_protocol: None,
        websocket_key: None,
    }
}

fn header_text(headers: &HeaderMap, name: &str) -> Option<String> {
    headers
        .get(name)
        .map(|v| v.to_str().unwrap().to_string())
}

fn plain(step: EdgeStep) -> EdgeResponse {
    match step {
        EdgeStep::Answer(r) => r,
        _ => panic!("expected an answer"),
    }
}

fn bare_config<'a>() -> HttpsEdgeConfig<'a, u8, u8> {
    HttpsEdgeConfig {
        root_domain: "example.com",
        cert_resolver: None,
        tunnel_registry: None,
    }
}

#[test]
fn registry_routes_and_evicts() {
    let mut reg: TunnelRegistry<u8> = TunnelRegistry::new("example.com".into());
    let mut m: CertManager<u8> = CertManager::new("example.com");
    let (id, superseded, _) = reg.register_connection("key", &mut m);
    assert_eq!((id, superseded), (1, None));
    let host = reg
        .register_service("key", id, "Web", true, Some(&identity()), 7)
        .unwrap();
    assert_eq!(host, "web.laptop.poc.example.com");
    assert_eq!(reg.lookup("WEB.laptop.poc.example.com").unwrap().channel, 7);
    assert!(matches!(
        reg.register_service("key", id, "web", true, Some(&identity()), 8),
        Err(RefusalCode::AlreadyRegistered)
    ));
    assert!(matches!(
        reg.register_service("key", id, "-", false, Some(&identity()), 8),
        Err(RefusalCode::InvalidName)
    ));
    assert!(matches!(
        reg.register_service("key", id, "api", true, None, 8),
        Err(RefusalCode::Unauthorized)
    ));
    let (next, superseded, evicted) = reg.register_connection("key", &mut m);
    assert_eq!((next, superseded), (2, Some(1)));
    assert_eq!(evicted, vec![host.clone()]);
    assert!(reg.lookup(&host).is_none());
    let again = reg
        .register_service("key", next, "web", true, Some(&identity()), 9)
        .unwrap();
    assert_eq!(
        reg.unregister_connection("key", id, &mut m),
        Vec::<String>::new()
    );
    assert!(reg.lookup(&again).is_some());
    assert!(!reg.unregister_service("other", &again, &mut m));
    assert!(reg.unregister_service("key", &again, &mut m));
    assert!(reg.lookup(&again).is_none());
}

#[test]
fn refusals_explain_themselves() {
    assert_eq!(
        refused(&RefusalCode::AlreadyRegistered, "web"),
        "Service 'web' is already registered"
    );
    assert_eq!(
        refused(&RefusalCode::InvalidName, "-"),
        "Service '-' is not a valid DNS label"
    );
    assert_eq!(
        refused(&RefusalCode::Unauthorized, "web"),
        "Unauthorized client identity"
    );
    assert_eq!(
        refused(&RefusalCode::UnsupportedVersion { min: 1, max: 3 }, "web"),
        "unsupported application protocol version (relay accepts 1..=3)"
    );
    assert_eq!(refused(&RefusalCode::Other("why".into()), "web"), "why");
}

#[test]
fn forwarded_heads() {
    let req = visitor(vec![
        header("accept", "*/*"),
        header("connection", "keep-alive"),
        header("x-forwarded-for", "1.2.3.4"),
        header("te", "trailers"),
    ]);
    let head = forward_head(&req, "9.9.9.9", "web.example.com", "unused");
    assert_eq!(head.method, "GET");
    assert_eq!(head.scheme, "https");
    assert_eq!(head.authority, "web.example.com");
    assert_eq!(head.path, "/a?b");
    assert_eq!(value_of(&head.headers, "accept").as_deref(), Some("*/*"));
    assert_eq!(value_of(&head.headers, "connection"), None);
    assert_eq!(
        value_of(&head.headers, "x-forwarded-for").as_deref(),
        Some("9.9.9.9")
    );
    assert_eq!(
        value_of(&head.headers, "x-forwarded-proto").as_deref(),
        Some("https")
    );
    assert!(hop_by_hop("connection"));
    assert!(!hop_by_hop("accept"));
    assert_eq!(clean_headers(&vec![header("keep-alive", "1")]).len(), 0);
}

#[test]
fn websocket_requests_are_upgrades() {
    let req = visitor(vec![
        header("connection", "Upgrade"),
        header("upgrade", "websocket"),
        header("sec-websocket-key", "k"),
    ]);
    assert!(matches!(upgrade_kind(&req), Some(UpgradeKind::Http1(p)) if p == "websocket"));
    let mut h2 = visitor(Vec::new());
    h2.method = "CONNECT".into();
    h2.version = HttpVersion::Http2;
    h2.protocol = Some("websocket".into());
    assert!(matches!(
        upgrade_kind(&h2),
        Some(UpgradeKind::ExtendedConnect(p)) if p == "websocket"
    ));
    let a = prepare_request(&h2, "9.9.9.9", "web.example.com");
    let b = prepare_request(&h2, "9.9.9.9", "web.example.com");
    assert_eq!(a.method, "GET");
    let key_a = value_of(&a.headers, "sec-websocket-key").unwrap();
    let key_b = value_of(&b.headers, "sec-websocket-key").unwrap();
    assert_eq!(key_a.len(), 24);
    assert_ne!(key_a, key_b);
}

#[test]
fn mapped_addresses_are_shown_as_ipv4() {
    let mapped = IpAddress::V6([0, 0, 0, 0, 0, 0xffff, 0x0102, 0x0304]);
    assert_eq!(visitor_address(mapped), IpAddress::V4([1, 2, 3, 4]));
    let plain = IpAddress::V6([0x2001, 0, 0, 0, 0, 0, 0, 1]);
    assert_eq!(visitor_address(plain), plain);
}

#[test]
fn response_heads() {
    assert_eq!(head_meaning(103, false), HeadMeaning::Interim);
    assert_eq!(head_meaning(101, false), HeadMeaning::Interim);
    assert_eq!(head_meaning(101, true), HeadMeaning::Switching);
    assert_eq!(head_meaning(204, true), HeadMeaning::Final);
    let head = HttpResponseHead {
        status: 101,
        headers: vec![
            header("upgrade", "websocket"),
            header("bad name", "x"),
            header("x-ok", "1"),
            ("x-bad".to_string(), vec![0]),
        ],
    };
    let h1 = visitor_response(&head, HeadMeaning::Switching, false);
    assert_eq!(h1.status, 101);
    assert_eq!(h1.headers.len(), 2);
    let h2 = visitor_response(&head, HeadMeaning::Switching, true);
    assert_eq!(h2.status, 200);
    assert_eq!(h2.headers.len(), 1);
    let odd = HttpResponseHead {
        status: 42,
        headers: Vec::new(),
    };
    assert_eq!(
        visitor_response(&odd, HeadMeaning::Final, false).status,
        500
    );
    assert_eq!(
        visitor_trailers(&vec![header("x-sum", "1"), header("", "2")]).len(),
        1
    );
}

#[test]
fn proxy_errors_have_messages() {
    assert_eq!(
        ProxyError::OriginUnreachable.message(),
        "origin unreachable"
    );
    assert_eq!(ProxyError::Reset.message(), "tunnel stream reset");
    assert_eq!(
        ProxyError::ConnectionClosed.message(),
        "tunnel connection terminated"
    );
    assert_eq!(
        ProxyError::Codec("x".into()).message(),
        "protocol codec error: x"
    );
    assert_eq!(ProxyError::Mux("x".into()).message(), "multiplexer error: x");
}

#[test]
fn request_bodies_wait_for_credit() {
    let mut x: Exchange<u32, u32> = Exchange::new(false, false);
    for i in 0..UP_HIGH_WATER {
        assert!(!x.is_reader_parked());
        x.queue_body(i as u32);
        let resumed = x.settle_reader();
        assert_eq!(resumed, i + 1 < UP_HIGH_WATER);
    }
    assert!(x.is_reader_parked());
    assert_eq!(x.next_body(), Some(&0));
    assert!(x.body_sent(SendOutcome::Sent));
    assert_eq!(x.next_body(), Some(&1));
    assert!(!x.body_sent(SendOutcome::WouldBlock));
    let end = x.drain_end();
    assert!(end.resume);
    assert!(!end.finish);
    assert!(!x.body_sent(SendOutcome::Failed));
    assert_eq!(x.next_body(), None);
    x.end_body();
    assert!(x.drain_end().finish);
}

#[test]
fn responses_wait_for_the_visitor() {
    let mut x: Exchange<u32, u32> = Exchange::new(false, false);
    assert!(x.awaits_head());
    assert!(matches!(
        x.on_response_head(Ok(HttpResponseHead {
            status: 103,
            headers: Vec::new()
        })),
        HeadStep::Interim
    ));
    assert!(matches!(
        x.on_response_head(Ok(HttpResponseHead {
            status: 200,
            headers: Vec::new()
        })),
        HeadStep::Respond(_)
    ));
    for i in 0..DOWN_HIGH_WATER {
        assert!(x.may_read());
        x.queue_down(i as u32);
    }
    assert!(!x.may_read());
    let mut handed = 0;
    while !x.may_read() {
        assert!(matches!(x.pump_down(), Pump::Send(f) if f == handed));
        assert!(matches!(x.pump_down(), Pump::Idle));
        x.forwarded();
        handed += 1;
    }
    assert_eq!(handed as usize, DOWN_HIGH_WATER - DOWN_LOW_WATER + 1);
    assert!(!x.client_finished());
    while let Pump::Send(f) = x.pump_down() {
        assert_eq!(f, handed);
        handed += 1;
        x.forwarded();
    }
    assert_eq!(handed as usize, DOWN_HIGH_WATER);
    assert!(matches!(x.pump_down(), Pump::Fin));
}

#[test]
fn upgrades_become_pipes() {
    let mut x: Exchange<u32, u32> = Exchange::new(true, true);
    assert!(matches!(
        x.on_response_head(Ok(HttpResponseHead {
            status: 101,
            headers: Vec::new()
        })),
        HeadStep::Switch(r) if r.status == 200
    ));
    x.end_body();
    assert!(!x.drain_end().finish);
    x.end_pipe();
    assert!(x.drain_end().finish);
    let mut bad: Exchange<u32, u32> = Exchange::new(false, false);
    assert!(matches!(
        bad.on_response_head(Err("junk".into())),
        HeadStep::Unreadable(ProxyError::Codec(e)) if e == "junk"
    ));
    bad.queue_down(1);
    assert!(matches!(bad.pump_down(), Pump::Idle));
}

#[test]
fn leases_follow_their_streams() {
    let mut reg: TunnelRegistry<u8> = TunnelRegistry::new("example.com".into());
    let mut m: CertManager<u8> = CertManager::new("example.com");
    let mut h: RelayHandler<u32, u32> = RelayHandler::new();
    let ask = |invalid| {
        Some(Registration {
            service: "web".to_string(),
            invalid,
        })
    };
    assert!(matches!(h.on_first_message(1, ask(None)), FirstStep::Reset));
    let (id, _) = h.on_authenticated("key", &mut reg, &mut m);
    assert!(matches!(h.on_first_message(1, None), FirstStep::Reset));
    assert!(matches!(
        h.on_first_message(1, ask(Some(RefusalCode::InvalidName))),
        FirstStep::Refuse { message, .. } if message == "Service 'web' is not a valid DNS label"
    ));
    assert_eq!(h.message_place(1), MessagePlace::First);
    assert!(matches!(
        h.on_first_message(1, ask(None)),
        FirstStep::Register { key, conn_id, .. } if key == "key" && conn_id == id
    ));
    assert_eq!(h.message_place(1), MessagePlace::AfterControl);
    assert!(!h.is_registered(1));
    let outcome = reg.register_service("key", id, "web", true, Some(&identity()), 1);
    let host = match h.on_registered(1, "key", "web", outcome, &mut reg, &mut m) {
        RegisteredStep::Registered { hostname } => hostname,
        _ => panic!("expected a registration"),
    };
    assert!(h.is_registered(1));
    assert!(h.release_lease(1, &mut reg, &mut m));
    assert!(reg.lookup(&host).is_none());
    assert!(!h.is_registered(1));
}

#[test]
fn a_stream_closed_early_is_never_registered() {
    let mut reg: TunnelRegistry<u8> = TunnelRegistry::new("example.com".into());
    let mut m: CertManager<u8> = CertManager::new("example.com");
    let mut h: RelayHandler<u32, u32> = RelayHandler::new();
    let (id, _) = h.on_authenticated("key", &mut reg, &mut m);
    let _ = h.on_first_message(
        4,
        Some(Registration {
            service: "web".into(),
            invalid: None,
        }),
    );
    let end = h.on_finished(4, &mut reg, &mut m);
    assert!(!end.finish);
    let outcome = reg.register_service("key", id, "web", true, Some(&identity()), 1);
    let host = outcome.as_ref().unwrap().clone();
    assert!(matches!(
        h.on_registered(4, "key", "web", outcome, &mut reg, &mut m),
        RegisteredStep::Gone
    ));
    assert!(reg.lookup(&host).is_none());
    h.on_closed(&mut reg, &mut m);
    assert_eq!(reg.register_connection("key", &mut m).1, None);
}

#[test]
fn refused_registrations_end_their_lease() {
    let mut reg: TunnelRegistry<u8> = TunnelRegistry::new("example.com".into());
    let mut m: CertManager<u8> = CertManager::new("example.com");
    let mut h: RelayHandler<u32, u32> = RelayHandler::new();
    let _ = h.on_authenticated("key", &mut reg, &mut m);
    let _ = h.on_first_message(
        2,
        Some(Registration {
            service: "web".into(),
            invalid: None,
        }),
    );
    assert!(matches!(
        h.on_registered(2, "key", "web", Err(RefusalCode::Unauthorized), &mut reg, &mut m),
        RegisteredStep::Refuse { message, .. } if message == "Unauthorized client identity"
    ));
    assert_eq!(h.message_place(2), MessagePlace::First);
}

#[test]
fn exchanges_end_on_finish_and_reset() {
    let mut reg: TunnelRegistry<u8> = TunnelRegistry::new("example.com".into());
    let mut m: CertManager<u8> = CertManager::new("example.com");
    let mut h: RelayHandler<u32, u32> = RelayHandler::new();
    h.open_visitor_stream(6, false, false);
    h.open_visitor_stream(8, false, false);
    assert_eq!(h.message_place(6), MessagePlace::Response);
    assert!(h.may_read(6));
    assert!(!h.may_read(7));
    let end = h.on_reset(6, true, &mut reg, &mut m);
    assert!(matches!(end.error, Some(ProxyError::OriginUnreachable)));
    let end = h.on_reset(8, false, &mut reg, &mut m);
    assert!(matches!(end.error, Some(ProxyError::Reset)));
    let end = h.on_reset(8, false, &mut reg, &mut m);
    assert!(end.error.is_none());

    h.open_visitor_stream(10, false, false);
    let mut x = h.take_exchange(10).unwrap();
    let _ = x.on_response_head(Ok(HttpResponseHead {
        status: 200,
        headers: Vec::new(),
    }));
    x.queue_down(5);
    h.put_exchange(10, x);
    let _ = h.on_finished(10, &mut reg, &mut m);
    assert!(matches!(h.pump_down(10), Pump::Send(5)));
    let mut x = h.take_exchange(10).unwrap();
    x.forwarded();
    h.put_exchange(10, x);
    assert!(matches!(h.pump_down(10), Pump::Fin));
    assert!(h.take_exchange(10).is_none());
}

#[test]
fn certificate_watch_sends_changes_only() {
    let (mut w, first) = CertWatch::start("a".into(), CertState::Pending);
    assert_eq!(first, CertStatus::Pending);
    assert_eq!(w.on_change("b", CertState::OrderInProgress), None);
    assert_eq!(
        w.on_change("a", CertState::OrderInProgress),
        Some(CertStatus::OrderInProgress)
    );
    assert_eq!(w.on_change("a", CertState::OrderInProgress), None);
    assert_eq!(
        w.resync(CertState::Issued { not_after: 1 }),
        Some(CertStatus::Issued)
    );
    assert_eq!(w.resync(CertState::Issued { not_after: 1 }), None);
    assert_eq!(
        cert_status(&CertState::Renewing { not_after: 1 }),
        CertStatus::Renewing
    );
    assert_eq!(
        cert_status(&CertState::Failed {
            error: "e".into(),
            next_retry: 1
        }),
        CertStatus::Failed
    );
}

#[test]
fn ip_literals() {
    for yes in [
        "1.2.3.4",
        "[::1]",
        "::",
        "::1",
        "1::",
        "1:2:3:4:5:6:7:8",
        "1:2:3:4:5:6:7::",
        "::ffff:1.2.3.4",
        "1:2:3:4:5:6:1.2.3.4",
        "[2001:db8::1]",
        "fe80::A",
    ] {
        assert!(is_ip_literal(yes), "{yes}");
    }
    for no in [
        "",
        "example.com",
        "1.2.3",
        "1.2.3.4.5",
        "01.2.3.4",
        "256.1.1.1",
        "1:2:3:4:5:6:7",
        "1:2:3:4:5:6:7:8:9",
        "1::2::3",
        ":::",
        "12345::",
        "1.2.3.4::",
        "[::1",
        "g::",
        "1:2:3:4:5:6:7:8::",
        "+1.2.3.4",
    ] {
        assert!(!is_ip_literal(no), "{no}");
    }
}

#[test]
fn edge_refuses_what_is_not_for_it() {
    let config = bare_config();
    let r = plain(handle_https_request(
        &request("CONNECT", "example.com", "/"),
        &config,
        Some("example.com"),
        0,
    ));
    assert_eq!(r.status, 405);
    assert_eq!(
        header_text(&r.headers, "allow").as_deref(),
        Some("GET, POST, PUT, PATCH, DELETE, HEAD, OPTIONS")
    );
    assert_eq!(
        header_text(&r.headers, "x-frame-options").as_deref(),
        Some("DENY")
    );
    let r = plain(handle_https_request(
        &request("GET", "a b", "/"),
        &config,
        Some("example.com"),
        0,
    ));
    assert_eq!(r.status, 400);
    assert_eq!(
        header_text(&r.headers, "connection").as_deref(),
        Some("close")
    );
    for (host, sni) in [
        ("1.2.3.4", Some("1.2.3.4")),
        ("example.com", None),
        ("example.com", Some("other.com")),
        ("other.com", Some("other.com")),
        ("notexample.com", Some("notexample.com")),
    ] {
        let r = plain(handle_https_request(
            &request("GET", host, "/"),
            &config,
            sni,
            0,
        ));
        assert_eq!(r.status, 421, "{host}");
        assert_eq!(r.headers.len(), 0);
        assert!(matches!(r.page, Page::Plain("421 Misdirected Request\n")));
    }
}

#[test]
fn edge_serves_the_root_domain() {
    let config = bare_config();
    let sni = Some("EXAMPLE.com");
    let r = plain(handle_https_request(
        &request("GET", "example.com:443", "/"),
        &config,
        sni,
        0,
    ));
    assert_eq!(r.status, 200);
    assert!(matches!(r.page, Page::Welcome));
    let r = plain(handle_https_request(
        &request("GET", "example.com", "/healthz"),
        &config,
        sni,
        0,
    ));
    assert!(matches!(r.page, Page::Plain("ok\n")));
    assert_eq!(
        header_text(&r.headers, "content-type").as_deref(),
        Some("text/html; charset=utf-8")
    );
    let r = plain(handle_https_request(
        &request("POST", "example.com", "/"),
        &config,
        sni,
        0,
    ));
    assert_eq!(r.status, 404);
}

#[test]
fn edge_upgrades_tunnel_clients() {
    let config = bare_config();
    let sni = Some("example.com");
    let mut req = request("POST", "example.com", "/_weaver/connect");
    assert_eq!(
        plain(handle_https_request(&req, &config, sni, 0)).status,
        405
    );
    req.method = "GET".into();
    let r = plain(handle_https_request(&req, &config, sni, 0));
    assert!(matches!(
        r.page,
        Page::Plain("400 Bad Request: Sec-WebSocket-Protocol must be weaver-mux-v1\n")
    ));
    req.websocket_protocol = Some("weaver-mux-v1".into());
    let r = plain(handle_https_request(&req, &config, sni, 0));
    assert!(matches!(
        r.page,
        Page::Plain("400 Bad Request: Missing Sec-WebSocket-Key\n")
    ));
    req.websocket_key = Some("dGhlIHNhbXBsZSBub25jZQ==".into());
    match handle_https_request(&req, &config, sni, 0) {
        EdgeStep::Upgrade(r) => {
            assert_eq!(r.status, 101);
            assert_eq!(
                header_text(&r.headers, "sec-websocket-accept").as_deref(),
                Some("s3pPLMBiTxaQ9kYGzzhZRbK+xOo=")
            );
            assert_eq!(
                header_text(&r.headers, "sec-websocket-protocol").as_deref(),
                Some("weaver-mux-v1")
            );
            assert_eq!(
                header_text(&r.headers, "upgrade").as_deref(),
                Some("websocket")
            );
        }
        _ => panic!("expected an upgrade"),
    }
}

#[test]
fn edge_forwards_to_tunnels() {
    let mut reg: TunnelRegistry<u8> = TunnelRegistry::new("example.com".into());
    let mut m: CertManager<u8> = CertManager::new("example.com");
    let (id, _, _) = reg.register_connection("key", &mut m);
    let host = reg
        .register_service("key", id, "web", true, Some(&identity()), 7)
        .unwrap();
    let mut resolver: CertResolver<u8> = CertResolver::new("example.com");
    resolver.insert_cert_with_expiry(&host, 1, 1000);
    let config = HttpsEdgeConfig {
        root_domain: "example.com",
        cert_resolver: Some(&resolver),
        tunnel_registry: Some(&reg),
    };
    match handle_https_request(&request("GET", &host, "/page"), &config, Some(&host), 10) {
        EdgeStep::Forward {
            hostname,
            include_hsts,
            ..
        } => {
            assert_eq!(hostname, host);
            assert!(include_hsts);
        }
        _ => panic!("expected a forward"),
    }
    let blocked = plain(handle_https_request(
        &request("GET", &host, "/.env"),
        &config,
        Some(&host),
        10,
    ));
    assert_eq!(blocked.status, 403);
    assert_eq!(
        header_text(&blocked.headers, "x-weaver-blocked").as_deref(),
        Some("dotfile")
    );
    assert_eq!(
        header_text(&blocked.headers, "strict-transport-security").as_deref(),
        Some("max-age=31536000; includeSubDomains")
    );
    let missing = plain(handle_https_request(
        &request("GET", "x.example.com", "/"),
        &config,
        Some("x.example.com"),
        10,
    ));
    assert_eq!(missing.status, 404);
    assert!(matches!(missing.page, Page::NoTunnel));
    let failed = bad_gateway("x.example.com", false);
    assert_eq!(failed.status, 502);
    assert!(matches!(failed.page, Page::BadGateway(h) if h == "x.example.com"));
    assert!(failed.headers.get("strict-transport-security").is_none());
}

#[test]
fn hostnames_are_in_lower_case() {
    let id = Identity {
        person: "Poc".into(),
        machine: "Laptop".into(),
    };
    assert_eq!(
        derive_hostname("Web", &id, "Example.COM"),
        "web.laptop.poc.example.com"
    );
}

#[test]
fn response_frames_come_out_in_order() {
    let mut x: Exchange<u32, u32> = Exchange::new(false, false);
    let head = HttpResponseHead {
        status: 200,
        headers: Vec::new(),
    };
    assert!(matches!(
        x.on_response_head(Ok(head)),
        HeadStep::Respond(_)
    ));
    let mut seen = Vec::new();
    for n in 0..5 {
        x.queue_down(n);
        if n % 2 == 0 {
            if let Pump::Send(frame) = x.pump_down() {
                seen.push(frame);
            }
            x.forwarded();
        }
    }
    while let Pump::Send(frame) = x.pump_down() {
        seen.push(frame);
        x.forwarded();
    }
    assert_eq!(seen, vec![0, 1, 2, 3, 4]);
}

#[test]
fn connections_get_their_own_numbers() {
    let mut m: CertManager<u8> = CertManager::new("example.com");
    let mut registry: TunnelRegistry<u8> = TunnelRegistry::new("example.com".into());
    let (first, _, _) = registry.register_connection("key", &mut m);
    let (second, superseded, _) = registry.register_connection("key", &mut m);
    assert_ne!(first, second);
    assert_eq!(superseded, Some(first));
    let host = registry
        .register_service("key", second, "web", true, Some(&identity()), 7)
        .expect("a hostname");
    assert!(registry.unregister_connection("key", first, &mut m).is_empty());
    assert!(registry.lookup(&host).is_some());
    assert_eq!(
        registry.unregister_connection("key", second, &mut m),
        vec![host.clone()]
    );
    assert!(registry.lookup(&host).is_none());
}
