use weaver_server::config::ConfigError;
use weaver_server::names::{add_name, NameMap};
use weaver_server::net::{is_ip, is_v4, is_v6, IpAddress, Standing};
use weaver_server::notify::{
    notify, notify_ready, notify_ready_with_cert_status, notify_stopping, NotifyTarget,
};
use weaver_server::number::{
    decimal_of, hex_string, hexadecimal_of, padded_of, parse_failure, parse_unsigned,
    signed_decimal_of, wide_decimal_of,
};
use weaver_server::server::lifecycle::{
    config_failure, listener_failure, warns_about_root, ServerError, ServerStage, EX_CONFIG,
};
use weaver_server::server::listener::{
    plan_listeners, Inheritance, ListenPlan, ListenerError, Role,
};
use weaver_server::text::{
    contains, ends_with, join_path, lowered, precedes, same_ignoring_case, split, starts_with,
    trim, trim_trailing, words,
};

#[test]
fn notifications() {
    assert!(notify_ready(None).is_none());
    assert!(notify_ready(Some(Vec::new())).is_none());
    let n = notify_ready(Some(b"/run/notify".to_vec())).unwrap();
    assert_eq!(n.target, NotifyTarget::Path(b"/run/notify".to_vec()));
    assert_eq!(
        n.message,
        "READY=1\nSTATUS=listening; certificate: pending\n"
    );
    let n = notify_stopping(Some(b"@name".to_vec())).unwrap();
    assert_eq!(n.target, NotifyTarget::Abstract(b"name".to_vec()));
    assert_eq!(n.message, "STOPPING=1\n");
    let n = notify_ready_with_cert_status("issued", Some(b"/x".to_vec())).unwrap();
    assert!(n.message.contains("certificate: issued\n"));
    assert_eq!(notify("S", Some(b"/x".to_vec())).unwrap().message, "S");
}

#[test]
fn socket_activation() {
    assert_eq!(plan_listeners(None, None, 1), Ok(ListenPlan::Bind));
    assert_eq!(
        plan_listeners(Some("2"), Some("9"), 1),
        Ok(ListenPlan::Bind)
    );
    assert_eq!(
        plan_listeners(Some("2"), Some("1"), 1),
        Ok(ListenPlan::Inherit)
    );
    assert_eq!(
        plan_listeners(Some("2"), Some("junk"), 1),
        Ok(ListenPlan::Inherit)
    );
    assert_eq!(
        plan_listeners(Some("3"), None, 1),
        Err(ListenerError::Activation(
            "Expected exactly 2 sockets in LISTEN_FDS matching HTTP and HTTPS, got 3".into()
        ))
    );
    for bad in ["", "x", "-1", "+", "1x", "99999999999999999999", "99999999999999999999x"] {
        let expected = bad.parse::<usize>().unwrap_err().to_string();
        assert_eq!(
            plan_listeners(Some(bad), None, 1).unwrap_err().message(),
            format!("Socket activation error: Invalid LISTEN_FDS '{bad}': {expected}")
        );
    }
}

#[test]
fn inherited_sockets_get_their_roles() {
    let mut i = Inheritance::new(80, 443);
    assert_eq!(i.take(3, 443), Ok(Role::Https));
    assert!(i.finish().is_err());
    assert_eq!(
        i.take(4, 443).unwrap_err().message(),
        "Socket activation error: Inherited socket fd 4 bound to port 443 matches neither HTTP port 80 nor HTTPS port 443"
    );
    assert_eq!(i.take(4, 80), Ok(Role::Http));
    assert_eq!(i.finish(), Ok((4, 3)));
    let mut same = Inheritance::new(80, 80);
    assert_eq!(same.take(3, 80), Ok(Role::Http));
    assert_eq!(same.take(4, 80), Ok(Role::Https));
}

#[test]
fn startup_failures() {
    let e = config_failure(ConfigError::MissingKeys(vec!["a".into(), "b".into()]));
    assert_eq!(e.report(), "Configuration missing required keys: a, b");
    assert_eq!(e.exit_code(), EX_CONFIG);
    let e = config_failure(ConfigError::ValidationFailed(vec!["x".into(), "y".into()]));
    assert_eq!(e.report(), "Configuration validation failed: x; y");
    let e = config_failure(ConfigError::DeserializationFailed("bad".into()));
    assert_eq!(e.exit_code(), EX_CONFIG);
    let e = config_failure(ConfigError::Store("gone".into()));
    assert_eq!(e.report(), "Store error: Invalid path: gone");
    assert_eq!(e.exit_code(), 1);
    let e = listener_failure(ListenerError::Bind {
        addr: "[::]:80".into(),
        source: "in use".into(),
    });
    assert_eq!(e.message(), "Failed to bind [::]:80: in use");
    let e = listener_failure(ListenerError::Activation("x".into()));
    assert_eq!(e.message(), "Socket activation error: x");
    assert_eq!(e.report(), "Socket activation failed: x");
    assert_eq!(
        ServerError::Tls("x".into()).message(),
        "TLS configuration error: x"
    );
    assert!(warns_about_root(0, false, false));
    assert!(!warns_about_root(0, true, false));
    assert!(!warns_about_root(1, false, false));
}

#[test]
fn server_stages() {
    let mut stage = ServerStage::OpenStore;
    let mut n = 0;
    while stage != ServerStage::Done {
        stage = stage.step(None).unwrap();
        n += 1;
    }
    assert_eq!(n, 14);
    assert_eq!(
        ServerStage::InitCertificates.step(Some("x")).unwrap_err(),
        ServerError::Activation("Failed to initialize CertManager: x".into())
    );
    assert_eq!(
        ServerStage::BindControl.step(Some("x")).unwrap_err(),
        ServerError::Activation("Failed to bind control socket: x".into())
    );
    assert_eq!(
        ServerStage::OpenStore.step(Some("x")).unwrap_err(),
        ServerError::Store("x".into())
    );
    assert_eq!(
        ServerStage::ConfigureTls.step(Some("x")).unwrap_err(),
        ServerError::Tls("x".into())
    );
    assert_eq!(
        ServerStage::NotifyReady.step(Some("x")),
        Ok(ServerStage::OrderRootCertificate)
    );
}

#[test]
fn ip_addresses_in_text() {
    for (segments, text) in [
        ([0; 8], "::"),
        ([0, 0, 0, 0, 0, 0, 0, 1], "::1"),
        ([1, 0, 0, 0, 0, 0, 0, 0], "1::"),
        ([1, 0, 2, 0, 0, 3, 0, 0], "1:0:2::3:0:0"),
        ([1, 0, 2, 3, 4, 5, 6, 7], "1:0:2:3:4:5:6:7"),
        ([0x2001, 0xdb8, 0, 0, 1, 0, 0, 1], "2001:db8::1:0:0:1"),
        ([0, 0, 0, 0, 0, 0xffff, 0x0102, 0x03ff], "::ffff:1.2.3.255"),
    ] {
        let ip = IpAddress::V6(segments);
        assert_eq!(ip.to_text(), text);
        assert!(is_v6(text));
    }
    assert_eq!(IpAddress::V4([1, 20, 0, 255]).to_text(), "1.20.0.255");
    assert!(is_v4("1.20.0.255") && is_ip("1.20.0.255") && !is_v6("1.20.0.255"));
    assert_eq!(
        IpAddress::V4([255; 4]).standing(&IpAddress::V6([0; 8])),
        Standing::Before
    );
    assert_eq!(
        IpAddress::V6([0, 0, 0, 0, 0, 0, 0, 2]).standing(&IpAddress::V6([0, 0, 0, 0, 0, 0, 0, 1])),
        Standing::After
    );
}

#[test]
fn numbers_in_text() {
    assert_eq!(decimal_of(0), "0");
    assert_eq!(decimal_of(u64::MAX), u64::MAX.to_string());
    assert_eq!(wide_decimal_of(u128::MAX), u128::MAX.to_string());
    assert_eq!(signed_decimal_of(i64::MIN), i64::MIN.to_string());
    assert_eq!(padded_of(7, 2), "07");
    assert_eq!(hexadecimal_of(0xbeef), "beef");
    assert_eq!(hex_string(&[0, 255, 16]), "00ff10");
    assert_eq!(parse_unsigned("+42", 100), Some(42));
    assert_eq!(parse_unsigned("101", 100), None);
    assert_eq!(parse_unsigned("", 100), None);
    assert_eq!(
        parse_failure("300", 255),
        "300".parse::<u8>().unwrap_err().to_string()
    );
}

#[test]
fn texts() {
    assert_eq!(trim(" \t\u{a0}x y\u{2003}\n"), " \t\u{a0}x y\u{2003}\n".trim());
    assert_eq!(trim_trailing("a//", '/'), "a");
    assert_eq!(words(" a  b\tc \n"), vec!["a", "b", "c"]);
    assert_eq!(split("a,,b", ','), vec!["a", "", "b"]);
    assert_eq!(lowered("ABC\u{c9}"), "abc\u{c9}");
    assert!(same_ignoring_case("aB", "Ab"));
    assert!(starts_with("abc", "ab") && ends_with("abc", "bc") && contains("abc", "b"));
    assert!(precedes("a", "ab") && precedes("ab", "b") && !precedes("b", "b"));
    assert_eq!(join_path("/a", "b"), "/a/b");
    assert_eq!(join_path("/a/", "b"), "/a/b");
    assert_eq!(join_path("", "b"), "b");
}

#[test]
fn name_maps_hold_the_last_value() {
    let mut m: NameMap<u8> = NameMap::new();
    m.insert("b", 2);
    m.insert("a", 1);
    m.insert("b", 3);
    assert_eq!(m.len(), 2);
    assert_eq!(m.get("a"), Some(&1));
    assert_eq!((m.name_at(0), *m.value_at(0)), ("b", 3));
    assert_eq!(m.get("b"), Some(&3));
    assert_eq!(m.remove("b"), Some(3));
    assert!(!m.contains("b"));
    let mut list = Vec::new();
    for name in ["b", "a", "b"] {
        add_name(&mut list, name);
    }
    assert_eq!(list, vec!["a", "b"]);
}
