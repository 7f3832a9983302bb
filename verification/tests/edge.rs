use http::{Request, Version};
use weaver_server::assets::{apply_security_headers, NO_TUNNEL_HTML, WELCOME_HTML};
use weaver_server::edge::cleartext::{
    extract_host_name, format_target_host, redirect_to_https, HttpEdgeConfig, PERMANENT_REDIRECT,
};
use weaver_server::edge::host::{
    parse_host_value, request_host, HostError, HttpVersion, RequestParts,
};
use weaver_server::edge::tls::{
    alpn_protocols, certificate_names, create_self_signed_server_config, edge_config,
    served_protocols, TlsError,
};
use weaver_server::edge::waf::{
    inspect, inspect_decoded, path_of_target, percent_decode, percent_decode_lossy, Verdict,
};
use weaver_server::tunnel::identity::{derive_hostname, Identity};

fn parts(req: &Request<()>) -> RequestParts {
    RequestParts {
        host_lines: req
            .headers()
            .get_all("host")
            .iter()
            .map(|v| v.as_bytes().to_vec())
            .collect(),
        authority: req.uri().authority().map(|a| a.as_str().to_string()),
        version: if req.version() == Version::HTTP_2 {
            HttpVersion::Http2
        } else {
            HttpVersion::Http11
        },
    }
}

fn h1(host_lines: &[&str]) -> RequestParts {
    let mut b = Request::builder().uri("/").version(Version::HTTP_11);
    for h in host_lines {
        b = b.header("host", *h);
    }
    parts(&b.body(()).unwrap())
}

fn get(p: &str) -> Option<Verdict> {
    inspect("GET", p)
}

#[test]
fn test_assets_embedded_and_non_empty() {
    assert!(WELCOME_HTML.contains("Tunnel Weaver"));
    assert!(NO_TUNNEL_HTML.contains("No Such Tunnel"));
}

#[test]
fn test_apply_security_headers() {
    let mut resp = http::Response::builder()
        .status(http::StatusCode::OK)
        .body(())
        .unwrap();
    apply_security_headers(resp.headers_mut(), false);

    assert_eq!(
        resp.headers().get(http::header::CONTENT_TYPE).unwrap(),
        "text/html; charset=utf-8"
    );
    assert_eq!(
        resp.headers()
            .get(http::header::CONTENT_SECURITY_POLICY)
            .unwrap(),
        "default-src 'none'; style-src 'unsafe-inline'; frame-ancestors 'none'; base-uri 'none'; form-action 'none'"
    );
    assert_eq!(
        resp.headers()
            .get(http::header::X_CONTENT_TYPE_OPTIONS)
            .unwrap(),
        "nosniff"
    );
    assert_eq!(
        resp.headers().get(http::header::X_FRAME_OPTIONS).unwrap(),
        "DENY"
    );
    assert_eq!(
        resp.headers().get(http::header::REFERRER_POLICY).unwrap(),
        "no-referrer"
    );
    assert!(resp
        .headers()
        .get(http::header::STRICT_TRANSPORT_SECURITY)
        .is_none());

    let mut resp_hsts = http::Response::builder()
        .status(http::StatusCode::OK)
        .body(())
        .unwrap();
    apply_security_headers(resp_hsts.headers_mut(), true);
    assert_eq!(
        resp_hsts
            .headers()
            .get(http::header::STRICT_TRANSPORT_SECURITY)
            .unwrap(),
        "max-age=31536000; includeSubDomains"
    );
}

#[test]
fn security_headers_replace_and_repeat() {
    let mut headers = http::HeaderMap::new();
    headers.insert("content-type", http::HeaderValue::from_static("text/plain"));
    headers.insert("x-own", http::HeaderValue::from_static("kept"));
    apply_security_headers(&mut headers, true);
    let once = headers.clone();
    apply_security_headers(&mut headers, true);
    assert_eq!(once, headers);
    assert_eq!(headers.get("x-own").unwrap(), "kept");
    assert_eq!(
        headers.get("content-type").unwrap(),
        "text/html; charset=utf-8"
    );
}

#[test]
fn well_formed_hosts() {
    assert_eq!(
        parse_host_value(b"example.com").as_deref(),
        Some("example.com")
    );
    assert_eq!(
        parse_host_value(b"example.com:8443").as_deref(),
        Some("example.com")
    );
    assert_eq!(
        parse_host_value(b"a-b_c.Example.COM").as_deref(),
        Some("a-b_c.Example.COM")
    );
    assert_eq!(
        parse_host_value(b"127.0.0.1:80").as_deref(),
        Some("127.0.0.1")
    );
    assert_eq!(parse_host_value(b"[::1]").as_deref(), Some("[::1]"));
    assert_eq!(
        parse_host_value(b"[2001:db8::1]:443").as_deref(),
        Some("[2001:db8::1]")
    );
}

#[test]
fn malformed_hosts() {
    for bad in [
        &b""[..],
        b" ",
        b"example.com, other.example.com",
        b"example.com,other",
        b"user@example.com",
        b"example.com/path",
        b"example.com:",
        b"example.com:abc",
        b"example.com:123456",
        b"exa mple.com",
        b"example.com\t",
        b"%65xample.com",
        b"[::1",
        b"[::1]x",
        b"[]",
        b"[zz]",
        b"\x00",
    ] {
        assert_eq!(
            parse_host_value(bad),
            None,
            "{:?} should be rejected",
            String::from_utf8_lossy(bad)
        );
    }
}

#[test]
fn h1_single_host_is_accepted() {
    assert_eq!(
        request_host(&h1(&["example.com:443"])).unwrap(),
        "example.com"
    );
}

#[test]
fn h1_missing_host_is_missing() {
    assert_eq!(request_host(&h1(&[])), Err(HostError::Missing));
}

#[test]
fn h1_duplicate_host_is_rejected_even_when_identical() {
    assert_eq!(
        request_host(&h1(&["example.com", "example.com"])),
        Err(HostError::Duplicate)
    );
    assert_eq!(
        request_host(&h1(&["example.com", "other.example.com"])),
        Err(HostError::Duplicate)
    );
}

#[test]
fn h1_invalid_host_is_rejected() {
    assert_eq!(request_host(&h1(&[""])), Err(HostError::Invalid));
    assert_eq!(
        request_host(&h1(&["a.com, b.com"])),
        Err(HostError::Invalid)
    );
    assert_eq!(request_host(&h1(&["user@a.com"])), Err(HostError::Invalid));
}

#[test]
fn h1_absolute_form_authority_wins_over_host() {
    let req = Request::builder()
        .uri("http://target.example.com/x")
        .version(Version::HTTP_11)
        .header("host", "other.example.com")
        .body(())
        .unwrap();
    assert_eq!(request_host(&parts(&req)).unwrap(), "target.example.com");
}

#[test]
fn h2_authority_without_host_is_accepted() {
    let req = Request::builder()
        .uri("https://example.com/")
        .version(Version::HTTP_2)
        .body(())
        .unwrap();
    assert_eq!(request_host(&parts(&req)).unwrap(), "example.com");
}

#[test]
fn h2_host_agreeing_with_authority_is_accepted() {
    let req = Request::builder()
        .uri("https://example.com/")
        .version(Version::HTTP_2)
        .header("host", "EXAMPLE.com:443")
        .body(())
        .unwrap();
    assert_eq!(request_host(&parts(&req)).unwrap(), "example.com");
}

#[test]
fn h2_host_disagreeing_with_authority_is_rejected() {
    let req = Request::builder()
        .uri("https://example.com/")
        .version(Version::HTTP_2)
        .header("host", "other.example.com")
        .body(())
        .unwrap();
    assert_eq!(request_host(&parts(&req)), Err(HostError::Mismatch));
}

#[test]
fn test_format_target_host() {
    assert_eq!(
        format_target_host("example.com", "example.com", 443),
        "example.com"
    );
    assert_eq!(
        format_target_host("example.com", "example.com", 8443),
        "example.com:8443"
    );
    assert_eq!(
        format_target_host("example.com:8080", "example.com", 8443),
        "example.com:8443"
    );
    assert_eq!(
        format_target_host("localhost:8080", "foo.localhost", 8443),
        "foo.localhost:8443"
    );
    assert_eq!(
        format_target_host("127.0.0.1:8080", "foo.localhost", 8443),
        "foo.localhost:8443"
    );
    assert_eq!(
        format_target_host("[::1]:8080", "foo.localhost", 8443),
        "foo.localhost:8443"
    );
    assert_eq!(
        format_target_host("localhost", "foo.localhost:9443", 8443),
        "foo.localhost:9443"
    );
}

#[test]
fn self_signed_names_are_ascii() {
    assert!(matches!(
        create_self_signed_server_config("h\u{e9}llo.example"),
        Err(TlsError::Rcgen(_))
    ));
    assert!(create_self_signed_server_config("127.0.0.1").is_ok());
}

/// The certificates that a configuration presents to a visitor.
fn presented(config: &rustls::ServerConfig) -> Vec<Vec<u8>> {
    let provider = std::sync::Arc::new(rustls::crypto::ring::default_provider());
    let visitor = rustls::ClientConfig::builder_with_provider(provider)
        .with_safe_default_protocol_versions()
        .unwrap()
        .with_root_certificates(rustls::RootCertStore::empty())
        .with_no_client_auth();
    let name = rustls::pki_types::ServerName::try_from("example.com").unwrap();
    let mut visitor =
        rustls::ClientConnection::new(std::sync::Arc::new(visitor), name).unwrap();
    let mut hello: Vec<u8> = Vec::new();
    visitor.write_tls(&mut hello).unwrap();
    let mut acceptor = rustls::server::Acceptor::default();
    acceptor.read_tls(&mut hello.as_slice()).unwrap();
    let Ok(Some(accepted)) = acceptor.accept() else {
        panic!("the visitor was not understood");
    };
    let key = config.cert_resolver.resolve(accepted.client_hello());
    let mut chain = Vec::new();
    for cert in &key.expect("a certificate").cert {
        chain.push(cert.as_ref().to_vec());
    }
    chain
}

#[test]
fn self_signed_certificates_name_the_root_and_its_subdomains() {
    let Ok(config) = create_self_signed_server_config("example.com") else {
        panic!("no configuration was made");
    };
    let chain = presented(&config);
    assert_eq!(chain.len(), 1);
    let mut names = vec![0x30, 0x25, 0x06, 0x03, 0x55, 0x1d, 0x11];
    names.extend([0x04, 0x1e, 0x30, 0x1c, 0x82, 0x0b]);
    names.extend(b"example.com");
    names.extend([0x82, 0x0d]);
    names.extend(b"*.example.com");
    assert!(chain[0].windows(names.len()).any(|w| w == names.as_slice()));
    let Ok(config) = create_self_signed_server_config("127.0.0.1") else {
        panic!("no configuration was made");
    };
    let mut names = vec![0x30, 0x13, 0x87, 0x04, 127, 0, 0, 1, 0x82, 0x0b];
    names.extend(b"*.127.0.0.1");
    assert!(presented(&config)[0].windows(names.len()).any(|w| w == names.as_slice()));
}

#[test]
fn edge_config_outcomes() {
    assert!(matches!(
        edge_config(Err(rcgen::Error::KeyGenerationUnavailable)),
        Err(TlsError::Rcgen(rcgen::Error::KeyGenerationUnavailable))
    ));
    assert!(matches!(
        edge_config(Ok(Err(rustls::Error::NoCertificatesPresented))),
        Err(TlsError::Rustls(rustls::Error::NoCertificatesPresented))
    ));
    let Ok(made) = create_self_signed_server_config("example.com") else {
        panic!("no configuration was made");
    };
    let mut plain = (*made).clone();
    plain.alpn_protocols = Vec::new();
    match edge_config(Ok(Ok(plain))) {
        Ok(config) => assert_eq!(config.alpn_protocols, alpn_protocols()),
        Err(_) => panic!("the configuration was refused"),
    }
}

#[test]
fn test_create_self_signed_server_config() {
    let config = create_self_signed_server_config("example.com");
    assert!(config.is_ok());
    if let Ok(config) = config {
        assert_eq!(
            config.alpn_protocols,
            vec![b"h2".to_vec(), b"http/1.1".to_vec()]
        );
    }
}

#[test]
fn blocks_the_scanner_playbook() {
    for p in [
        "/.env",
        "/.env.backup",
        "/.env.production",
        "/config/.env",
        "/api/.env",
        "/.git/HEAD",
        "/.git/config",
        "/.DS_Store",
        "/.vscode/sftp.json",
        "/.ssh/id_rsa",
    ] {
        assert_eq!(get(p), Some(Verdict::Dotfile), "{p}");
    }
    for p in [
        "/../.env",
        "/%2e%2e%2f%2eenv",
        "/a/%252e%252e/b",
        "/x/..%2f..%2fetc/passwd",
    ] {
        assert!(
            matches!(get(p), Some(Verdict::Traversal) | Some(Verdict::Dotfile)),
            "{p}: {:?}",
            get(p)
        );
    }
    for p in [
        "/index.php~",
        "/config.php.bak",
        "/app.old",
        "/settings.py.swp",
    ] {
        assert_eq!(get(p), Some(Verdict::Leftover), "{p}");
    }
    for p in [
        "/dump.sql",
        "/backup.sql.gz",
        "/db.sqlite3",
        "/server.key",
        "/cert.pem",
    ] {
        assert_eq!(get(p), Some(Verdict::SecretMaterial), "{p}");
    }
    for p in [
        "/phpmyadmin/",
        "/info.php",
        "/telescope/requests",
        "/actuator/env",
        "/env",
        "/env/",
        "/@vite/env",
        "/v2/_catalog",
        "/server-status",
        "/trace.axd",
        "/___proxy_subdomain_whm/login",
        "/ecp/Current/exporttool/x.application",
        "/config.json",
    ] {
        assert_eq!(get(p), Some(Verdict::DebugEndpoint), "{p}");
    }
    assert_eq!(get("/a%00b"), Some(Verdict::Malformed));
    assert_eq!(inspect("TRACE", "/"), Some(Verdict::Trace));
}

#[test]
fn leaves_legitimate_apps_alone() {
    for p in [
        "/",
        "/index.html",
        "/api/users?id=1",
        "/login",
        "/about",
        "/graphql",
        "/static/app.js",
        "/assets/logo.svg",
        "/.well-known/security.txt",
        "/.well-known/acme-challenge/token",
        "/docs/config.md",
        "/downloads/report.pdf",
        "/v2/items",
        "/environment",
        "/api/env",
        "/api/config",
        "/blog/my.post.with.dots",
        "/files/photo.jpeg",
    ] {
        assert_eq!(get(p), None, "{p}");
    }
    assert_eq!(get("/x/.well-known/y"), Some(Verdict::Dotfile));
    assert_eq!(get("/search?q=.env"), None);
    assert_eq!(inspect("POST", "/api/graphql"), None);
    assert_eq!(inspect("OPTIONS", "/"), None);
}

#[test]
fn hostname_derivation() {
    let id = Identity {
        person: "Poc".into(),
        machine: "Laptop".into(),
    };
    assert_eq!(
        derive_hostname("Web", &id, "example.com"),
        "web.laptop.poc.example.com"
    );
}

#[test]
fn percent_decoding_is_lossy_on_invalid_text() {
    assert_eq!(percent_decode_lossy("/a%2Fb"), "/a/b");
    assert_eq!(percent_decode_lossy("/a%zz%2"), "/a%zz%2");
    assert_eq!(percent_decode_lossy("%ff"), "\u{fffd}");
    assert_eq!(percent_decode_lossy("%c3%a9"), "\u{e9}");
    assert_eq!(percent_decode(b"%41%4"), b"A%4".to_vec());
}

#[test]
fn verdict_ignores_query_case_and_separator() {
    assert_eq!(get("/.env?x=1"), get("/.env"));
    assert_eq!(get("/.ENV"), Some(Verdict::Dotfile));
    assert_eq!(get("/a\\..\\b"), Some(Verdict::Traversal));
    assert_eq!(path_of_target("/a?b#c"), "/a");
    assert_eq!(path_of_target("/a#b?c"), "/a");
    assert_eq!(inspect_decoded("/plain"), None);
}

#[test]
fn verdict_tokens() {
    for (v, s) in [
        (Verdict::Dotfile, "dotfile"),
        (Verdict::Traversal, "traversal"),
        (Verdict::Leftover, "leftover"),
        (Verdict::SecretMaterial, "secret-material"),
        (Verdict::DebugEndpoint, "debug-endpoint"),
        (Verdict::Malformed, "malformed"),
        (Verdict::Trace, "trace"),
    ] {
        assert_eq!(v.as_str(), s);
    }
}

#[test]
fn redirect_keeps_the_path() {
    let config = HttpEdgeConfig {
        root_domain: "example.com".into(),
        https_port: 443,
    };
    let r = redirect_to_https(
        Some("www.example.com:80"),
        None,
        Some("/a?b=c"),
        &config,
    );
    assert_eq!(r.status, PERMANENT_REDIRECT);
    assert_eq!(r.location, "https://www.example.com/a?b=c");
    assert_eq!(extract_host_name(" [::1]:80 "), "[::1]");
}

#[test]
fn self_signed_names_and_protocols() {
    assert_eq!(
        certificate_names("example.com"),
        vec!["example.com".to_string(), "*.example.com".to_string()]
    );
    assert_eq!(
        alpn_protocols(),
        vec![b"h2".to_vec(), b"http/1.1".to_vec()]
    );
}

#[test]
fn escapes_are_seen_through() {
    let path = "/.Git/config";
    let escape = |s: &str| -> String { s.bytes().map(|b| format!("%{b:02X}")).collect() };
    let once = escape(path);
    let twice = escape(&once);
    assert_eq!(percent_decode_lossy(&once), path);
    assert_eq!(percent_decode_lossy(&once.to_lowercase()), path);
    assert_eq!(percent_decode_lossy("caf\u{e9} au lait"), "caf\u{e9} au lait");
    assert_eq!(inspect("GET", path), Some(Verdict::Dotfile));
    assert_eq!(inspect("GET", &once), Some(Verdict::Dotfile));
    assert_eq!(inspect("GET", &twice), Some(Verdict::Dotfile));
    assert_eq!(inspect("GET", &path.to_ascii_uppercase()), Some(Verdict::Dotfile));
    assert_eq!(
        inspect("GET", "/%2e%2e/a?b#c"),
        inspect("GET", "/%2E%2E/A")
    );
    assert_eq!(inspect("GET", "/a?x=1"), inspect("GET", "/a"));
}

#[test]
fn redirects_are_empty() {
    let config = HttpEdgeConfig {
        root_domain: "example.com".into(),
        https_port: 443,
    };
    let r = redirect_to_https(Some("[2001:db8::1]:80"), None, Some("/p?q"), &config);
    assert_eq!(r.location, "https://[2001:db8::1]/p?q");
    let other = redirect_to_https(Some("[2001:db8::1]:8080"), None, Some("/p?q"), &config);
    assert_eq!(other.location, r.location);
    assert_eq!(r.content_length, 0);
    assert!(r.body.is_empty());
}

#[test]
fn other_headers_keep_their_values() {
    let mut headers = http::HeaderMap::new();
    headers.insert("strict-transport-security", "max-age=1".parse().unwrap());
    headers.append("x-frame-options", "ALLOW".parse().unwrap());
    headers.append("x-frame-options", "SAMEORIGIN".parse().unwrap());
    headers.insert("etag", "abc".parse().unwrap());
    apply_security_headers(&mut headers, false);
    assert_eq!(headers["strict-transport-security"], "max-age=1");
    assert_eq!(headers["etag"], "abc");
    assert_eq!(headers.get_all("x-frame-options").iter().count(), 1);
    assert_eq!(headers["x-frame-options"], "DENY");
    apply_security_headers(&mut headers, true);
    assert_eq!(
        headers["strict-transport-security"],
        "max-age=31536000; includeSubDomains"
    );
}

#[test]
fn bytes_that_are_no_text_do_not_hide_a_path() {
    for path in ["/%FF/.git/head", "/a%C3/..%2f", "/%ff%fe.SQL", "/caf%C3%A9/x"] {
        assert_eq!(inspect("GET", path), inspect("GET", &path.to_ascii_uppercase()));
        assert_eq!(inspect("GET", path), inspect("GET", &path.to_ascii_lowercase()));
    }
    assert_eq!(inspect("GET", "/%FF/.git/head"), Some(Verdict::Dotfile));
    assert_eq!(inspect("GET", "/%ff%fe.SQL"), Some(Verdict::SecretMaterial));
    assert_eq!(inspect("GET", "/.%ff"), Some(Verdict::Dotfile));
    assert_eq!(inspect("GET", "/caf%C3%A9/x"), None);
}

#[test]
fn challenges_have_a_protocol() {
    let mut expected = alpn_protocols();
    expected.push(b"acme-tls/1".to_vec());
    assert_eq!(served_protocols(), expected);
}
