use weaver_server::cert::manager::{CertManager, RenewError};
use weaver_server::cert::state::CertState;
use weaver_server::config::{check_stored, join, Config, ConfigError};
use weaver_server::control::client::{
    backup_lines, backup_request, cert_detail_rows, cert_list_header, cert_list_row,
    cert_renew_request, cert_status_request, cert_wait_request, connect_failure, days_left_cell,
    event_row, format_age, format_bytes, format_uptime, raw_answer, raw_renewal, renewal_lines,
    request, status_lines, styled_state_cell, unexpected_answer, wait_line, wait_read, ConnectFailure, Tone, WaitRead,
};
use weaver_server::control::protocol::{
    BackupResponse, CertEventSummary, CertSummary, ErrorResponse, ListenersInfo, RenewResponse,
};
use weaver_server::control::server::{
    backup_response, detail, dispatch, invalid_request, listed_certificates, listed_names,
    parse_verb, read_request, renew_one, renewal_error, shutdown_response, status_response,
    subject, summarize, ControlAction, RequestLine, ServerFacts, Verb, WaitSession, WaitSignal, WaitStep,
};
use weaver_server::net::{IpAddress, SocketAddress};
use weaver_server::store::migration::{
    checksum_text, compute_checksum, plan_migrations, AppliedMigration, Migration, MigrationError,
};
use weaver_server::store::records::{
    event_summary, needs_activity_update, parse_identifier, sort_records, to_cert_record,
    to_full_cert_record, CertEventRecord, CertRecord, CertificateRow, DomainRow, Identifier,
};
use weaver_server::store::schema::{down, up, SchemaStep, TableId};
use weaver_server::store::settings::{config_with_field, object_with_member};

fn refused(line: &str) -> String {
    match read_request(line) {
        RequestLine::Refused(e) => {
            assert!(!e.ok);
            e.error
        }
        _ => panic!("expected a refusal"),
    }
}

fn shown(spans: &[weaver_server::control::client::Span]) -> String {
    spans.iter().map(|s| s.text.as_str()).collect()
}

fn row(id: i32, domain_id: i32, not_after: i64) -> CertificateRow {
    CertificateRow {
        id,
        domain_id,
        cert_pem: "cert".into(),
        key_pem: "key".into(),
        not_before: 1,
        not_after,
        issuer: Some("CA".into()),
        directory: "dir".into(),
        obtained_at: 2,
    }
}

fn config() -> Config {
    let any = IpAddress::V6([0; 8]);
    Config {
        root_domain: "example.com".into(),
        admin_email: "admin@example.com".into(),
        acme_provider: "letsencrypt".into(),
        listen_http: SocketAddress { ip: any, port: 80 },
        listen_https: SocketAddress { ip: any, port: 443 },
        control_socket: "/run/weaver/control.sock".into(),
        acme_directory: None,
        acme_eab_kid: None,
        acme_eab_hmac: None,
        acme_root_ca_pem: None,
        acme_fallback_providers: Vec::new(),
    }
}

#[test]
fn request_lines() {
    assert!(matches!(read_request("  \n"), RequestLine::Blank));
    assert_eq!(refused("{"), "Malformed JSON request");
    assert_eq!(
        refused("{\"v\":2,\"cmd\":\"status\"}"),
        "Unsupported protocol version: expected 1"
    );
    assert_eq!(refused("{\"v\":1}"), "Missing or invalid 'cmd' field");
    assert_eq!(refused("{\"v\":1,\"cmd\":7}"), "Missing or invalid 'cmd' field");
    assert_eq!(
        refused("{\"v\":1,\"cmd\":\"dance\"}"),
        "Unknown command 'dance'"
    );
    assert!(matches!(
        read_request(" {\"v\":1,\"cmd\":\"cert.status\"} "),
        RequestLine::Request(Verb::CertStatus)
    ));
    assert_eq!(parse_verb("shutdown"), Some(Verb::Shutdown));
    assert_eq!(parse_verb("Shutdown"), None);
    assert_eq!(
        invalid_request("bad").error,
        "Invalid request format: bad"
    );
}

#[test]
fn requests_are_dispatched() {
    let mut req = request("cert.status");
    assert_eq!(req.v, 1);
    assert!(matches!(
        dispatch(Verb::CertStatus, &req, "example.com"),
        ControlAction::ListCertificates { only_best: true }
    ));
    let every = cert_status_request(None, None, true);
    assert!(matches!(
        dispatch(Verb::CertStatus, &every, "example.com"),
        ControlAction::ListCertificates { only_best: false }
    ));
    req.name = Some("root".into());
    assert!(matches!(
        dispatch(Verb::CertStatus, &req, "example.com"),
        ControlAction::CertificateDetail { target, limit: 10 } if target == "example.com"
    ));
    let wait = cert_wait_request(Some("A.example.com".into()), Some(5));
    assert!(matches!(
        dispatch(Verb::CertWait, &wait, "example.com"),
        ControlAction::Wait { target, timeout_s: 5 } if target == "a.example.com"
    ));
    let all = cert_renew_request(None, true, true);
    assert!(matches!(
        dispatch(Verb::CertRenew, &all, "example.com"),
        ControlAction::RenewAll { force: true }
    ));
    let one = cert_renew_request(None, false, false);
    assert!(matches!(
        dispatch(Verb::CertRenew, &one, "example.com"),
        ControlAction::Renew { target, force: false } if target == "example.com"
    ));
    let backup = backup_request("/tmp/x".into());
    assert!(matches!(
        dispatch(Verb::Backup, &backup, "example.com"),
        ControlAction::Backup { path } if path == "/tmp/x"
    ));
    assert!(matches!(
        dispatch(Verb::Backup, &request("backup"), "example.com"),
        ControlAction::Refuse(e) if e.error == "Missing target backup path"
    ));
    assert!(matches!(
        dispatch(Verb::Shutdown, &request("shutdown"), "example.com"),
        ControlAction::Shutdown
    ));
    assert!(matches!(
        dispatch(Verb::Status, &request("status"), "example.com"),
        ControlAction::Status
    ));
    let named = cert_status_request(Some("x".into()), Some(3), false);
    assert_eq!(named.limit, Some(3));
}

#[test]
fn status_and_listing() {
    let mut m: CertManager<u8> = CertManager::new("example.com");
    m.set_state("a.example.com", CertState::Issued { not_after: 50 });
    m.set_active("a.example.com", true);
    let facts = ServerFacts {
        version: "1.0".into(),
        uptime: 5,
        pid: 9,
        root_domain: "example.com".into(),
        listeners: ListenersInfo {
            http: "[::]:80".into(),
            https: "[::]:443".into(),
        },
        db_file: Some("/var/lib/weaver/weaver.db".into()),
        db_url: "sqlite://x".into(),
        db_size: Some(2048),
        schema_version: Some(1),
        control_socket: "/run/weaver/control.sock".into(),
    };
    let stored = vec!["b.example.com".to_string()];
    let status = status_response(facts, &m, &stored);
    assert!(status.ok);
    assert_eq!(status.root_cert, "pending");
    assert_eq!(status.cert_counts.issued, 1);
    assert_eq!(status.db_path, "/var/lib/weaver/weaver.db");
    let names = listed_names(&m, &stored);
    assert!(names.contains(&"a.example.com".to_string()));
    assert!(names.contains(&"b.example.com".to_string()));
    let lines = status_lines(&status, 1);
    assert!(shown(&lines[0]).contains("v1.0 (protocol v1)"));
    let s = summarize(&m, "a.example.com", &None, None);
    assert_eq!(s.state, "issued");
    assert!(s.active);
    assert_eq!(s.not_after, Some(50));
}

#[test]
fn certificate_details() {
    let mut m: CertManager<u8> = CertManager::new("example.com");
    assert!(detail(&m, "letsencrypt", "x.example.com".into(), None, Vec::new()).is_err());
    m.set_state("x.example.com", CertState::Issued { not_after: 50 });
    let d = detail(&m, "letsencrypt", "x.example.com".into(), None, Vec::new()).unwrap();
    assert_eq!(d.provider, "letsencrypt");
    assert!(d.ok);
    let rows = cert_detail_rows(&d, 10);
    assert_eq!(rows[0].0, "State");
    assert_eq!(rows[0].1.text, "● issued");
}

fn record(id: i32, name: &str, not_after: i64) -> CertRecord {
    let domain = DomainRow {
        id: 1,
        name: name.into(),
        last_active_at: None,
    };
    to_cert_record(row(id, 1, not_after), Some(domain))
}

#[test]
fn every_certificate_can_be_listed() {
    let mut m: CertManager<u8> = CertManager::new("example.com");
    m.set_state("z.example.com", CertState::OrderInProgress);
    let rows = |records: Vec<CertRecord>| -> Vec<(String, Option<usize>)> {
        listed_certificates(&m, &records)
            .into_iter()
            .map(|r| (r.name, r.record))
            .collect()
    };
    let best = vec![record(7, "b.example.com", 90), record(3, "example.com", 80)];
    assert_eq!(
        rows(best),
        vec![
            ("example.com".to_string(), Some(1)),
            ("b.example.com".to_string(), Some(0)),
            ("z.example.com".to_string(), None),
        ]
    );
    let all = vec![
        record(7, "B.example.com", 90),
        record(5, "b.example.com", 60),
    ];
    assert_eq!(
        rows(all),
        vec![
            ("example.com".to_string(), None),
            ("b.example.com".to_string(), Some(0)),
            ("b.example.com".to_string(), Some(1)),
            ("z.example.com".to_string(), None),
        ]
    );
}

#[test]
fn certificates_have_their_id() {
    let m: CertManager<u8> = CertManager::new("example.com");
    let held = Some(record(7, "B.example.com", 90));
    assert_eq!(subject("7".into(), &held), "b.example.com");
    assert_eq!(subject("7".into(), &None), "7");
    let s = summarize(&m, "b.example.com", &held, None);
    assert_eq!((s.cert_id, s.not_after), (Some(7), Some(90)));
    assert_eq!(summarize(&m, "example.com", &None, None).cert_id, None);
    let d = detail(&m, "letsencrypt", "b.example.com".into(), held, Vec::new()).unwrap();
    assert_eq!(d.cert_id, Some(7));
    assert!(cert_detail_rows(&d, 10)
        .iter()
        .any(|(label, cell)| *label == "Certificate ID" && cell.text == "7"));
    let d = detail(&m, "letsencrypt", "example.com".into(), None, Vec::new()).unwrap();
    assert_eq!(d.cert_id, None);
}

#[test]
fn waits_end_on_issued_failed_or_timeout() {
    let mut m: CertManager<u8> = CertManager::new("example.com");
    assert!(WaitSession::start(&m, "x.example.com".into(), false, 5).is_err());
    m.set_state("x.example.com", CertState::OrderInProgress);
    let (w, first) = WaitSession::start(&m, "x.example.com".into(), false, 5).unwrap();
    assert!(matches!(first, WaitStep::Send(e) if e.state == "ordering"));
    assert!(matches!(
        w.on_signal(WaitSignal::Change("y".into(), CertState::Pending)),
        WaitStep::Ignore
    ));
    assert!(matches!(
        w.on_signal(WaitSignal::Change(
            "x.example.com".into(),
            CertState::Issued { not_after: 3 }
        )),
        WaitStep::SendLast(e) if e.state == "issued"
    ));
    assert!(matches!(
        w.on_signal(WaitSignal::Change(
            "x.example.com".into(),
            CertState::Failed {
                error: "no".into(),
                next_retry: 1
            }
        )),
        WaitStep::SendLast(e) if e.error.as_deref() == Some("no")
    ));
    assert!(matches!(
        w.on_signal(WaitSignal::TimedOut),
        WaitStep::GiveUp(_)
    ));
    assert!(matches!(w.on_signal(WaitSignal::Closed), WaitStep::End));
    assert_eq!(w.remaining_nanos(6_000_000_000), None);
    assert_eq!(w.remaining_nanos(1_000_000_000), Some(4_000_000_000));
}

#[test]
fn renewals_and_backups_are_answered() {
    let mut m: CertManager<u8> = CertManager::new("example.com");
    let (name, r) = renew_one(&mut m, "example.com".into(), false, Ok(true), 5).unwrap();
    assert_eq!(name, "example.com");
    assert_eq!(r.renewed, vec!["example.com".to_string()]);
    assert!(!renewal_error(&RenewError::CapacityExceeded).ok);
    assert_eq!(
        backup_response("/tmp/b".into(), Ok(Some(7))).unwrap().size,
        7
    );
    assert_eq!(backup_response("/tmp/b".into(), Ok(None)).unwrap().size, 0);
    assert!(backup_response("/tmp/b".into(), Err("disk".into()))
        .unwrap_err()
        .error
        .contains("disk"));
    assert!(shutdown_response().ok);
    assert_eq!(ErrorResponse::new("x".into()).error, "x");
}

#[test]
fn sizes_times_and_ages() {
    assert_eq!(format_bytes(0), "0 B");
    assert_eq!(format_bytes(1023), "1023 B");
    assert_eq!(format_bytes(1024), "1.0 KB");
    assert_eq!(format_bytes(1536), "1.5 KB");
    assert_eq!(format_bytes(1024 * 1024), "1.0 MB");
    assert_eq!(format_bytes(5 * 1024 * 1024 * 1024), "5.0 GB");
    for n in [1100u64, 1177, 99_999, 1_048_575, 7_654_321, 3_221_225_472] {
        let expected = if n < 1024 * 1024 {
            format!("{:.1} KB", n as f64 / 1024.0)
        } else if n < 1024 * 1024 * 1024 {
            format!("{:.1} MB", n as f64 / (1024.0 * 1024.0))
        } else {
            format!("{:.1} GB", n as f64 / (1024.0 * 1024.0 * 1024.0))
        };
        assert_eq!(format_bytes(n), expected);
    }
    assert_eq!(format_uptime(59), "59s");
    assert_eq!(format_uptime(3661), "1h 1m 1s");
    assert_eq!(format_uptime(90061), "1d 1h 1m 1s");
    assert_eq!(format_age(100, 70), "30s ago");
    assert_eq!(format_age(10_000, 0), "2h ago");
    assert_eq!(format_age(200_000, 0), "2d ago");
}

#[test]
fn cells_and_rows() {
    assert_eq!(styled_state_cell("failed").tone, Tone::RedBold);
    assert_eq!(days_left_cell(None, 0).text, "-");
    assert_eq!(days_left_cell(Some(5), 10).text, "expired");
    assert_eq!(days_left_cell(Some(86400 * 40), 0).text, "40d");
    assert_eq!(cert_list_header(true)[0], "CERT-ID");
    assert_eq!(cert_list_header(false)[0], "NAME");
    let cert = CertSummary {
        name: "example.com".into(),
        state: "issued".into(),
        not_after: Some(86400 * 40),
        active: true,
        last_event: None,
        cert_id: None,
    };
    let row = cert_list_row(&cert, true, false, 0);
    assert_eq!(row[0].text, "★ example.com");
    assert_eq!(row.len(), 5);
    let e = CertEventSummary {
        id: 1,
        at: 0,
        kind: "issued".into(),
        detail: Some("ok".into()),
    };
    assert!(shown(&event_row(&e)).contains("1970-01-01 00:00:00 UTC"));
}

#[test]
fn answers_are_read() {
    assert_eq!(raw_answer("{\"ok\":true}"), 0);
    assert_eq!(raw_answer("{\"ok\":false}"), 1);
    assert_eq!(raw_answer("junk"), 1);
    assert_eq!(unexpected_answer("{\"error\":\"no\"}"), "no");
    assert_eq!(unexpected_answer("junk"), "junk");
    let issued = wait_line("{\"name\":\"a\",\"state\":\"issued\"}", false);
    assert_eq!(issued.exit, Some(0));
    assert_eq!(
        shown(&issued.shown.unwrap()),
        "✓ Certificate 'a' -> issued (valid)"
    );
    let failed = wait_line("{\"state\":\"failed\",\"error\":\"e\"}", false);
    assert_eq!(failed.exit, Some(4));
    assert_eq!(failed.error.as_deref(), Some("Issuance failed: e"));
    let refused = wait_line("{\"ok\":false}", false);
    assert_eq!(refused.exit, Some(1));
    assert_eq!(refused.error.as_deref(), Some("Wait error"));
    assert_eq!(wait_line("{\"state\":\"ordering\"}", true).exit, None);
    let (code, hosts) = raw_renewal("{\"ok\":true,\"renewed\":[\"a\",\"b\"]}", true);
    assert_eq!(code, 0);
    assert_eq!(hosts, vec!["a".to_string(), "b".to_string()]);
}

#[test]
fn renewal_and_backup_lines() {
    let r = RenewResponse {
        ok: true,
        renewed: vec!["a".into()],
        status: "queued".into(),
        skipped_inactive: vec!["b".into()],
    };
    let lines = renewal_lines(&r);
    assert!(lines.iter().any(|l| shown(l).contains('a')));
    let b = BackupResponse {
        ok: true,
        path: "/tmp/b".into(),
        size: 1024,
    };
    assert!(backup_lines(&b).iter().any(|l| shown(l).contains("/tmp/b")));
}

#[test]
fn connection_failures_give_hints() {
    let (lines, code) = connect_failure(&ConnectFailure::Unreachable, "/run/x");
    assert_eq!(
        lines[0],
        "Error: Cannot connect to control socket at /run/x"
    );
    assert_eq!(code, 3);
    let (lines, _) = connect_failure(&ConnectFailure::PermissionDenied, "/run/x");
    assert_eq!(lines[1], "Hint: run with sudo or join group 'weaver'");
    let (lines, _) = connect_failure(&ConnectFailure::Other("odd".into()), "/run/x");
    assert_eq!(
        lines[0],
        "Error: Failed to connect to control socket at /run/x: odd"
    );
}

#[test]
fn stored_configurations_are_checked() {
    assert!(matches!(
        check_stored(None),
        Some(ConfigError::MissingKeys(k)) if k.len() == 6
    ));
    assert!(matches!(
        check_stored(Some("{")),
        Some(ConfigError::DeserializationFailed(_))
    ));
    assert!(matches!(
        check_stored(Some("[]")),
        Some(ConfigError::DeserializationFailed(e)) if e == "root JSON is not an object"
    ));
    let partial = "{\"root_domain\":\"a\",\"admin_email\":null,\"acme_provider\":\"x\",\
                   \"listen_http\":\"[::]:80\",\"listen_https\":\"[::]:443\"}";
    match check_stored(Some(partial)) {
        Some(ConfigError::MissingKeys(k)) => assert_eq!(
            k,
            vec!["admin_email".to_string(), "control_socket".to_string()]
        ),
        _ => panic!("expected missing keys"),
    }
}

#[test]
fn configurations_are_validated() {
    assert!(config().validate().is_ok());
    let mut c = config();
    c.root_domain = " ".into();
    c.admin_email = "nobody".into();
    c.acme_provider = "Google".into();
    match c.validate() {
        Err(ConfigError::ValidationFailed(issues)) => assert_eq!(
            issues,
            vec![
                "root_domain must not be empty".to_string(),
                "admin_email 'nobody' is not a valid email address".to_string(),
                "acme_provider 'google' requires acme_eab_kid".to_string(),
                "acme_provider 'google' requires acme_eab_hmac".to_string(),
            ]
        ),
        _ => panic!("expected issues"),
    }
    let mut custom = config();
    custom.acme_provider = "custom".into();
    assert!(custom.validate().is_err());
    custom.acme_directory = Some("https://ca".into());
    assert!(custom.validate().is_ok());
    assert_eq!(join(&vec!["a".to_string(), "b".to_string()], ", "), "a, b");
    assert!(ConfigError::Store("db".into()).message().contains("db"));
}

#[test]
fn settings_keep_other_members() {
    assert_eq!(
        config_with_field(Some("{\"a\":1,\"b\":{\"c\":[true]}}"), "a", "2"),
        "{\"a\":2,\"b\":{\"c\":[true]}}"
    );
    assert_eq!(config_with_field(None, "k", "plain text"), "{\"k\":\"plain text\"}");
    assert_eq!(config_with_field(Some("junk"), "k", "7"), "{\"k\":7}");
    let mut object = serde_json::Map::new();
    object.insert("c".into(), serde_json::Value::from(1));
    assert_eq!(
        object_with_member(object, "b", serde_json::Value::Null),
        "{\"b\":null,\"c\":1}"
    );
}

#[test]
fn certificate_records() {
    let domain = || DomainRow {
        id: 4,
        name: "a.example.com".into(),
        last_active_at: Some(9),
    };
    let r = to_cert_record(row(1, 4, 50), Some(domain()));
    assert_eq!(r.name, "a.example.com");
    assert_eq!(r.last_active_at, Some(9));
    let full = to_full_cert_record(row(1, 4, 50), None);
    assert_eq!(full.name, "");
    assert_eq!(full.cert_pem, "cert");
    let e = event_summary(CertEventRecord {
        id: 3,
        name: "a".into(),
        at: 7,
        kind: "issued".into(),
        detail: None,
    });
    assert_eq!((e.id, e.at), (3, 7));
    let sorted = sort_records(vec![
        to_cert_record(row(1, 4, 50), Some(domain())),
        to_cert_record(row(2, 4, 90), Some(domain())),
    ]);
    assert_eq!(sorted[0].id, 2);
}

#[test]
fn activity_and_identifiers() {
    assert!(!needs_activity_update(Some(1), None));
    assert!(!needs_activity_update(Some(1), Some(1)));
    assert!(needs_activity_update(None, Some(1)));
    assert!(needs_activity_update(Some(1), Some(2)));
    assert!(matches!(parse_identifier("42"), Identifier::Id(42)));
    assert!(matches!(parse_identifier("-7"), Identifier::Id(-7)));
    assert!(matches!(
        parse_identifier("A.Example.com"),
        Identifier::Name(n) if n == "a.example.com"
    ));
    assert!(matches!(
        parse_identifier("99999999999"),
        Identifier::Name(_)
    ));
}

#[test]
fn checksums_and_migrations() {
    assert_eq!(
        compute_checksum("abc"),
        "ba7816bf8f01cfea414140de5dae2223b00361a396177a9cb410ff61f20015ad"
    );
    assert_eq!(checksum_text(&vec![0x0f, 0xa0]), "0fa0");
    let list = || {
        vec![
            Migration {
                version: 1,
                name: "one",
                sql: "a",
            },
            Migration {
                version: 2,
                name: "two",
                sql: "b",
            },
        ]
    };
    let done = |version: u32, sql: &str| AppliedMigration {
        version,
        name: "n".into(),
        checksum: compute_checksum(sql),
    };
    let pending = plan_migrations(&list(), &vec![done(1, "a")]).unwrap();
    assert_eq!(pending.len(), 1);
    assert_eq!(pending[0].version, 2);
    assert_eq!(
        plan_migrations(&list(), &vec![done(1, "a"), done(2, "b")])
            .unwrap()
            .len(),
        0
    );
    assert!(matches!(
        plan_migrations(&list(), &vec![done(1, "x")]),
        Err(MigrationError::ChecksumMismatch { version: 1, .. })
    ));
    assert!(matches!(
        plan_migrations(
            &list(),
            &vec![done(1, "a"), done(2, "b"), done(3, "c")]
        ),
        Err(MigrationError::NewerSchema {
            db_version: 3,
            binary_version: 2
        })
    ));
    let gap = vec![Migration {
        version: 2,
        name: "two",
        sql: "b",
    }];
    assert!(matches!(
        plan_migrations(&gap, &Vec::new()),
        Err(MigrationError::InvalidMigrationSequence(_))
    ));
}

#[test]
fn schema_steps() {
    let steps = up();
    assert!(matches!(&steps[0], SchemaStep::CreateTable(t) if t.id == TableId::Config));
    let tables = steps
        .iter()
        .filter(|s| matches!(s, SchemaStep::CreateTable(_)))
        .count();
    assert_eq!(tables, 9);
    assert_eq!(down().len(), 9);
    assert_eq!(down()[8], TableId::Config);
    assert_eq!(TableId::AcmeAccount.name(), "acme_account");
}

#[test]
fn waiting_ends_with_the_stream() {
    assert_eq!(wait_read(&WaitRead::End, false).exit, Some(0));
    let failed = wait_read(&WaitRead::Failed("reset".into()), true);
    assert_eq!(failed.exit, Some(1));
    assert_eq!(
        failed.error.as_deref(),
        Some("Failed reading from control socket: reset")
    );
    assert_eq!(wait_read(&WaitRead::Line(" \n".into()), false).exit, None);
    let issued = WaitRead::Line("{\"ok\":true,\"name\":\"a\",\"state\":\"issued\"}\n".into());
    assert_eq!(wait_read(&issued, true).exit, Some(0));
    let bad = WaitRead::Line("{\"state\":\"failed\",\"error\":\"no\"}\n".into());
    let verdict = wait_read(&bad, false);
    assert_eq!(verdict.exit, Some(4));
    assert_eq!(verdict.error.as_deref(), Some("Issuance failed: no"));
}
