use weaver_server::cli::{
    configured, effective_provider, hmac_source, parse_listen_addr, path_or, uninstall_options,
    validate_cert_name, version_text, CertCommands, ConfigureArgs, HmacSource, ListenArg,
    SetupArgs, UninstallArgs, DEFAULT_DB,
};
use weaver_server::net::{IpAddress, SocketAddress};
use weaver_server::setup::dns::{
    generate_random_hex, probe_domain, resolve_failure, unique_ips, DnsProbeResult,
};
use weaver_server::setup::flow::{
    is_up_to_date, registration_directory, system_probe, SetupStage,
};
use weaver_server::setup::gather::{check_headless, prompt_of, Ask, Field, GatherSession};
use weaver_server::setup::install::{
    account_directory, any_address, needs_binary, needs_units, state_directory, temporary_name, unit_files,
    useradd_args, InstallAction, InstallEvent, InstallFault, InstallSession,
};
use weaver_server::setup::interactive::{
    piped_secret, plan_confirmed, plan_lines, prompt_answer, provider_choice, provider_menu,
    says_yes, validate_email, validate_fqdn, Echo, GatheredConfig, Key, MaskedInput,
};
use weaver_server::setup::note::{Mark, Note};
use weaver_server::setup::planner::{
    is_public_ip, plan_setup, same_addresses, ExistingInstall, Plan, PlanAbort, PortReachability,
    SystemProbe,
};
use weaver_server::setup::preflight::{is_supported_arch, is_systemd_present};
use weaver_server::setup::privilege::{
    elevated_exit, elevation, is_root, setup_elevation_args, uninstall_elevation_args, Elevation,
};
use weaver_server::setup::reachability::{
    bind_failure, challenge_of, find_listening_inodes, find_occupying_process, judge_probe,
    probe_payload, respond, target_of, without_probing, PortCheck, ProbeOutcome, ProcessEntry,
};
use weaver_server::setup::uninstall::{
    uninstall_next, uninstall_opening, UninstallAction, UninstallEvent, UninstallOptions,
};
use weaver_server::setup::units::{
    render_service_unit, render_socket_unit, ServiceUnitParams, SOCKET_UNIT_TEMPLATE,
};
use weaver_server::setup::verify::{
    closing_summary, curl_args, failure_guidance, judge_https, HttpsOutcome, VerifyAction,
    VerifyEvent, VerifySession, ACTIVATION_TRIES,
};

const PUBLIC: IpAddress = IpAddress::V4([8, 8, 8, 8]);

fn probe() -> SystemProbe {
    SystemProbe {
        systemd_present: true,
        supported_arch: true,
        target_domain: "example.com".into(),
        existing_install: None,
        root_ips: vec![PUBLIC],
        probe_ips: vec![PUBLIC, PUBLIC],
        port_80: PortReachability::ReachedSelf,
        port_443: PortReachability::ReachedSelf,
        is_headless: false,
        confirmed_domain_change: false,
        skip_reachability_check: false,
        db_path: "/var/lib/weaver/weaver.db".into(),
        user: "weaver".into(),
        prefix: "/usr/local/bin".into(),
        acme_provider: "letsencrypt".into(),
        has_eab: false,
    }
}

fn plan() -> Plan {
    plan_setup(&probe()).unwrap()
}

fn gathered() -> GatheredConfig {
    GatheredConfig {
        root_domain: "example.com".into(),
        admin_email: "a@example.com".into(),
        acme_provider: "letsencrypt".into(),
        acme_directory: None,
        acme_eab_kid: None,
        acme_eab_hmac: None,
        acme_root_ca_path: None,
        db_path: "/var/lib/weaver/weaver.db".into(),
        user: "weaver".into(),
        prefix: "/usr/local/bin".into(),
        skip_reachability_check: true,
    }
}

fn args() -> SetupArgs {
    SetupArgs {
        root_domain: None,
        email: None,
        acme_provider: "letsencrypt".into(),
        acme_directory: None,
        acme_eab_kid: None,
        acme_eab_hmac: None,
        acme_eab_hmac_file: None,
        acme_root_ca: None,
        headless: false,
        skip_reachability_check: false,
        user: "weaver".into(),
        prefix: "/usr/local/bin".into(),
        no_prompt_values: false,
    }
}

fn texts(notes: &[Note]) -> Vec<String> {
    notes.iter().map(|n| n.text.clone()).collect()
}

#[test]
fn plans_and_aborts() {
    let p = plan();
    assert_eq!(p.root_domain, "example.com");
    assert!(!p.is_upgrade);
    let abort = |change: &dyn Fn(&mut SystemProbe)| {
        let mut x = probe();
        change(&mut x);
        plan_setup(&x).unwrap_err().message()
    };
    assert_eq!(
        abort(&|x| x.systemd_present = false),
        "the server component supports systemd Linux only"
    );
    assert_eq!(
        abort(&|x| x.supported_arch = false),
        "unsupported target platform: Linux x86_64 or aarch64 required"
    );
    assert_eq!(
        abort(&|x| x.existing_install = Some(ExistingInstall {
            root_domain: "old.com".into()
        })),
        "already installed for domain 'old.com', but target is 'example.com'; confirmation required"
    );
    assert_eq!(
        abort(&|x| x.root_ips = Vec::new()),
        "DNS resolution failed for 'example.com': no A or AAAA records found"
    );
    assert_eq!(
        abort(&|x| x.probe_ips = vec![IpAddress::V4([1, 1, 1, 1])]),
        "DNS mismatch: 'example.com' and 'probe-<random>.example.com' resolve to different IP address sets"
    );
    let private = vec![
        IpAddress::V6([0xfe80, 0, 0, 0, 0, 0, 0, 1]),
        IpAddress::V4([192, 168, 0, 9]),
        IpAddress::V4([10, 0, 0, 1]),
    ];
    assert_eq!(
        abort(&|x| {
            x.root_ips = private.clone();
            x.probe_ips = private.clone();
        }),
        "DNS resolved to non-public IP address 10.0.0.1; public DNS records are required"
    );
    assert_eq!(
        abort(&|x| x.port_80 = PortReachability::Failed("no".into())),
        "port 80 reachability check failed: no"
    );
    assert_eq!(
        abort(&|x| x.port_443 = PortReachability::Skipped),
        "port 443 reachability check failed: reachability was not performed"
    );
    let mut skipped = probe();
    skipped.port_80 = PortReachability::Skipped;
    skipped.skip_reachability_check = true;
    skipped.existing_install = Some(ExistingInstall {
        root_domain: "old.com".into(),
    });
    skipped.is_headless = true;
    let p = plan_setup(&skipped).unwrap();
    assert!(p.is_upgrade && p.reachability_skipped);
    assert!(matches!(
        plan_setup(&SystemProbe {
            root_ips: vec![IpAddress::V4([127, 0, 0, 1])],
            probe_ips: vec![IpAddress::V4([127, 0, 0, 1])],
            ..probe()
        }),
        Err(PlanAbort::NonPublicIp(IpAddress::V4([127, 0, 0, 1])))
    ));
}

#[test]
fn public_addresses() {
    for no in [
        [127, 0, 0, 1],
        [10, 1, 1, 1],
        [172, 16, 0, 1],
        [172, 31, 0, 1],
        [192, 168, 1, 1],
        [169, 254, 1, 1],
        [255, 255, 255, 255],
        [0, 0, 0, 0],
        [192, 0, 2, 1],
        [198, 51, 100, 1],
        [203, 0, 113, 1],
        [100, 64, 0, 1],
        [100, 127, 0, 1],
        [198, 18, 0, 1],
        [198, 19, 0, 1],
    ] {
        assert!(!is_public_ip(&IpAddress::V4(no)), "{no:?}");
        let [a, b, c, d] = no.map(u16::from);
        let mapped = [0, 0, 0, 0, 0, 0xffff, a * 256 + b, c * 256 + d];
        assert!(!is_public_ip(&IpAddress::V6(mapped)));
    }
    for yes in [
        [8, 8, 8, 8],
        [172, 32, 0, 1],
        [100, 128, 0, 1],
        [198, 20, 0, 1],
    ] {
        assert!(is_public_ip(&IpAddress::V4(yes)));
    }
    for no in [
        [0, 0, 0, 0, 0, 0, 0, 0],
        [0, 0, 0, 0, 0, 0, 0, 1],
        [0xfc00, 0, 0, 0, 0, 0, 0, 1],
        [0xfdff, 0, 0, 0, 0, 0, 0, 1],
        [0xfe80, 0, 0, 0, 0, 0, 0, 1],
        [0xfebf, 0, 0, 0, 0, 0, 0, 1],
        [0x2001, 0xdb8, 0, 0, 0, 0, 0, 1],
    ] {
        assert!(!is_public_ip(&IpAddress::V6(no)));
    }
    assert!(is_public_ip(&IpAddress::V6([0x2606, 0, 0, 0, 0, 0, 0, 1])));
    assert!(same_addresses(
        &vec![PUBLIC, PUBLIC],
        &vec![PUBLIC]
    ));
}

#[test]
fn addresses_are_sorted_and_unique() {
    let a = IpAddress::V4([1, 2, 3, 4]);
    let b = IpAddress::V4([1, 2, 4, 0]);
    let c = IpAddress::V6([0; 8]);
    assert_eq!(unique_ips(&vec![c, b, a, b, c]), vec![a, b, c]);
}

#[test]
fn probe_names() {
    assert_eq!(
        generate_random_hex(2, Some(vec![0xab, 0x01]), 0, 0),
        "ab01"
    );
    let fallback = generate_random_hex(34, None, 5, 6);
    assert_eq!(fallback.len(), 68);
    assert_eq!(fallback[..4], fallback[64..]);
    assert_ne!(fallback, generate_random_hex(34, None, 5, 7));
    assert_eq!(probe_domain("ab", "example.com"), "probe-ab.example.com");
    assert_eq!(
        resolve_failure("example.com", "nx"),
        "failed to resolve 'example.com': nx"
    );
}

#[test]
fn platforms() {
    assert!(is_supported_arch("linux", "x86_64"));
    assert!(is_supported_arch("linux", "aarch64"));
    assert!(!is_supported_arch("macos", "aarch64"));
    assert!(!is_supported_arch("linux", "arm"));
    assert!(is_systemd_present(true, &vec![false, true]));
    assert!(!is_systemd_present(true, &vec![false]));
    assert!(!is_systemd_present(false, &vec![true]));
}

#[test]
fn units_are_rendered() {
    assert_eq!(render_socket_unit(), SOCKET_UNIT_TEMPLATE);
    assert!(render_socket_unit().contains("ListenStream=[::]:443\n"));
    let unit = render_service_unit(&ServiceUnitParams {
        prefix: "/opt/bin//",
        db_path: "/data/w.db",
        user: "relay",
    });
    assert!(unit.contains("User=relay\nGroup=relay\n"));
    assert!(unit.contains("ExecStart=/opt/bin/weaver-server run --db /data/w.db\nRestart=always\n"));
    assert!(unit.starts_with("# weaver-server.service\n[Unit]\n"));
    assert!(unit.ends_with("[Install]\nWantedBy=multi-user.target\n"));
    assert_eq!(ServiceUnitParams::default().user, "weaver");
}

#[test]
fn domains_and_addresses_are_validated() {
    for yes in ["example.com", " a.b.example.com. ", "x-1.io", "a.b.."] {
        assert!(validate_fqdn(yes), "{yes}");
    }
    for no in [
        "", "com", ".", "-a.com", "a-.com", "a..b", "a_b.com", "a b.com", "\u{e9}.com", ".com",
    ] {
        assert!(!validate_fqdn(no), "{no}");
    }
    assert!(!validate_fqdn(&format!("{}.com", "a".repeat(64))));
    assert!(validate_fqdn(&format!("{}.com", "a".repeat(63))));
    assert!(!validate_fqdn(&"a.".repeat(130)));
    for yes in ["a@b.c", " me@example.com "] {
        assert!(validate_email(yes), "{yes}");
    }
    for no in ["a", "a@b", "@b.c", "a@", "a@.b", "a@b.", "a@b@c.d", ""] {
        assert!(!validate_email(no), "{no}");
    }
}

#[test]
fn answers_and_secrets() {
    assert_eq!(prompt_answer(" x \n", None), "x");
    assert_eq!(prompt_answer(" \n", Some("d")), "d");
    assert_eq!(prompt_answer("\n", None), "");
    assert!(says_yes("Y") && says_yes("yes") && !says_yes("yep"));
    assert_eq!(piped_secret(" s \r\n\n"), " s ");
    let mut input = MaskedInput::new();
    assert_eq!(input.press(Key::Backspace), Echo::Nothing);
    assert_eq!(input.press(Key::Char('a')), Echo::Star);
    assert_eq!(input.press(Key::Char('b')), Echo::Star);
    assert_eq!(input.press(Key::Backspace), Echo::Erase);
    assert_eq!(input.press(Key::Other), Echo::Nothing);
    assert_eq!(input.press(Key::Interrupt), Echo::Quit);
    assert_eq!(input.press(Key::Enter), Echo::Done);
    assert_eq!(input.text(), "a");
}

#[test]
fn provider_menu_and_choice() {
    assert_eq!(provider_menu().len(), 6);
    assert_eq!(provider_menu()[1][1].text, "Let's Encrypt (default)");
    assert_eq!(provider_choice(" 1 "), Some("letsencrypt"));
    assert_eq!(provider_choice("google"), Some("google"));
    assert_eq!(provider_choice("3"), Some("zerossl"));
    assert_eq!(provider_choice("4"), Some("buypass"));
    assert_eq!(provider_choice("custom"), Some("custom"));
    assert_eq!(provider_choice("6"), None);
}

#[test]
fn plans_are_shown_and_confirmed() {
    let lines: Vec<String> = plan_lines(&gathered())
        .iter()
        .map(|l| l.iter().map(|s| s.text.as_str()).collect())
        .collect();
    assert!(lines.contains(&"  Binary Path: /usr/local/bin/weaver-server".to_string()));
    assert!(lines.contains(&"  EAB Account: none".to_string()));
    assert!(!lines.iter().any(|l| l.contains("Directory:")));
    assert!(plan_confirmed(true, None));
    assert!(plan_confirmed(false, Some("YES")));
    assert!(!plan_confirmed(false, Some("n")));
    assert!(!plan_confirmed(false, None));
}

#[test]
fn elevation_decisions() {
    assert!(is_root(0) && !is_root(1000));
    assert_eq!(elevation(true, true, false), Elevation::Ready);
    assert_eq!(elevation(false, true, false), Elevation::Refused);
    assert_eq!(elevation(false, true, true), Elevation::Sudo);
    assert_eq!(elevation(false, false, false), Elevation::Sudo);
    assert_eq!(elevated_exit(None), 1);
    assert_eq!(elevated_exit(Some(7)), 7);
    let v = setup_elevation_args("/exe", &gathered(), true);
    assert_eq!(v[0], "-n");
    assert_eq!(v[1], "/exe");
    assert_eq!(v[2], "setup");
    assert!(v.contains(&"--skip-reachability-check".to_string()));
    assert_eq!(v.last().unwrap(), "--no-prompt-values");
    let mut g = gathered();
    g.acme_eab_kid = Some("kid".into());
    let v = setup_elevation_args("/exe", &g, false);
    assert_eq!(v[0], "/exe");
    let at = v.iter().position(|a| a == "--acme-eab-kid").unwrap();
    assert_eq!(v[at + 1], "kid");
    let o = UninstallOptions {
        prefix: "/p".into(),
        db_path: "/d".into(),
        user: "u".into(),
        purge: true,
        headless: false,
    };
    assert_eq!(
        uninstall_elevation_args("/exe", &o),
        ["/exe", "uninstall", "--prefix", "/p", "--db", "/d", "--user", "u", "--purge"]
            .map(String::from)
            .to_vec()
    );
}

#[test]
fn listening_sockets_are_found() {
    let table = "  sl  local_address rem_address   st tx_queue rx_queue tr tm->when retrnsmt   uid  timeout inode\n   0: 00000000:0050 00000000:0000 0A 00000000:00000000 00:00000000 00000000     0        0 12345 1 x\n   1: 0100007F:0050 00000000:0000 01 00000000:00000000 00:00000000 00000000     0        0 777 1 x\n   2: 00000000:01BB 00000000:0000 0A 00000000:00000000 00:00000000 00000000     0        0 888 1 x\n";
    let tables = vec![table.to_string()];
    assert_eq!(find_listening_inodes(80, &tables), vec![12345]);
    assert_eq!(find_listening_inodes(443, &tables), vec![888]);
    assert_eq!(find_listening_inodes(22, &tables), Vec::<u64>::new());
    let entry = |name: Option<&str>, link: &str, command: Option<&str>| ProcessEntry {
        name: name.map(String::from),
        links: vec!["/dev/null".into(), link.into()],
        command: command.map(String::from),
    };
    let entries = vec![
        entry(Some("self"), "socket:[12345]", None),
        entry(Some("17"), "socket:[1]", Some("other\n")),
        entry(Some("42"), "socket:[12345]", Some("nginx\n")),
    ];
    assert_eq!(
        find_occupying_process(80, &tables, &entries),
        Some((42, "nginx".to_string()))
    );
    assert_eq!(
        find_occupying_process(443, &tables, &vec![entry(Some("9"), "socket:[888]", None)]),
        Some((9, "unknown".to_string()))
    );
    assert_eq!(find_occupying_process(22, &tables, &entries), None);
    assert_eq!(
        find_occupying_process(
            443,
            &tables,
            &vec![entry(None, "x", None), entry(Some("9"), "socket:[888]", None)]
        ),
        None
    );
    assert_eq!(
        bind_failure(80, Some((42, "nginx".into())), "in use"),
        "port 80 is occupied by PID 42 ('nginx')"
    );
    assert_eq!(
        bind_failure(80, None, "in use"),
        "port 80 cannot be bound: in use"
    );
}

#[test]
fn probes_are_judged() {
    let challenge = challenge_of("ab");
    assert_eq!(challenge, "weaver-reachability-ab");
    let answer = respond(&probe_payload(&challenge), &challenge).unwrap();
    assert_eq!(answer, "WEAVER-CONFIRM weaver-reachability-ab\r\n");
    assert_eq!(respond("hello", &challenge), None);
    let target = target_of(&PUBLIC, 80);
    assert_eq!(target, "8.8.8.8:80");
    assert_eq!(
        target_of(&IpAddress::V6([0x2606, 0, 0, 0, 0, 0, 0, 1]), 443),
        "[2606::1]:443"
    );
    let judge = |o: ProbeOutcome| judge_probe(&o, &target, &challenge);
    assert_eq!(judge(ProbeOutcome::Answer(answer)), Ok(()));
    for (outcome, why) in [
        (
            ProbeOutcome::ConnectFailed("e".into()),
            "connection refused/failed to 8.8.8.8:80: e",
        ),
        (
            ProbeOutcome::ConnectTimeout,
            "connection timed out to 8.8.8.8:80",
        ),
        (
            ProbeOutcome::SendFailed("e".into()),
            "failed to send challenge probe to 8.8.8.8:80: e",
        ),
        (
            ProbeOutcome::ReadFailed("e".into()),
            "failed to read challenge response from 8.8.8.8:80: e",
        ),
        (
            ProbeOutcome::ReadTimeout,
            "timed out waiting for challenge response from 8.8.8.8:80",
        ),
        (
            ProbeOutcome::Answer("no".into()),
            "response from 8.8.8.8:80 did not contain valid self-challenge confirmation",
        ),
    ] {
        assert_eq!(judge(outcome), Err(why.to_string()));
    }
}

#[test]
fn ports_are_checked_in_order() {
    assert!(matches!(
        without_probing(0, None, None),
        Some((PortReachability::Failed(a), PortReachability::Failed(b)))
            if a == "no public IPs provided" && b == a
    ));
    assert!(matches!(
        without_probing(1, Some("busy"), None),
        Some((PortReachability::Failed(a), PortReachability::Failed(b)))
            if a == "failed to bind port 80: busy" && b == "skipped due to port 80 bind failure"
    ));
    assert!(matches!(
        without_probing(1, None, Some("busy")),
        Some((PortReachability::Failed(a), PortReachability::Failed(b)))
            if a == "skipped due to port 443 bind failure" && b == "failed to bind port 443: busy"
    ));
    assert!(without_probing(1, None, None).is_none());
    let mut check = PortCheck::new(3);
    assert_eq!(check.next(), Some(0));
    check.take(Ok(()));
    assert_eq!(check.next(), Some(1));
    check.take(Err("down".into()));
    assert_eq!(check.next(), None);
    assert_eq!(check.result(), PortReachability::Failed("down".into()));
    let mut check = PortCheck::new(1);
    check.take(Ok(()));
    assert_eq!(check.result(), PortReachability::ReachedSelf);
}

#[test]
fn uninstall_preserves_by_default() {
    let mut o = UninstallOptions {
        prefix: "/p/".into(),
        db_path: "/d/w.db".into(),
        user: "u".into(),
        purge: false,
        headless: false,
    };
    assert_eq!(uninstall_opening().len(), 2);
    let mut action = UninstallAction::DisableUnits;
    let mut said = Vec::new();
    while action != UninstallAction::Finish {
        let event = match action {
            UninstallAction::CheckBinary => UninstallEvent::Exists(true),
            UninstallAction::RemoveBinary => UninstallEvent::Removed(None),
            _ => UninstallEvent::Done,
        };
        let (next, notes) = uninstall_next(action, &event, &o, "/d");
        assert!(!matches!(
            next,
            UninstallAction::RemoveState | UninstallAction::RemoveUser
        ));
        said.extend(texts(&notes));
        action = next;
    }
    assert_eq!(
        said,
        vec![
            "Systemd units removed",
            "Binary removed from /p/weaver-server",
            "Data directory preserved at /d",
            "System user 'u' preserved",
        ]
    );
    o.purge = true;
    let (next, notes) = uninstall_next(
        UninstallAction::CheckBinary,
        &UninstallEvent::Exists(false),
        &o,
        "/d",
    );
    assert_eq!(next, UninstallAction::AskPurge);
    assert_eq!(notes[0].text, "Binary not present at /p/weaver-server");
    assert_eq!(notes[1].mark, Mark::Alarm);
    let (next, _) = uninstall_next(
        UninstallAction::AskPurge,
        &UninstallEvent::Answer(Some("y".into())),
        &o,
        "/d",
    );
    assert_eq!(next, UninstallAction::CheckState);
    let (next, notes) = uninstall_next(
        UninstallAction::AskPurge,
        &UninstallEvent::Answer(None),
        &o,
        "/d",
    );
    assert_eq!(next, UninstallAction::Finish);
    assert_eq!(
        notes[0].text,
        "Purge cancelled by user. Data preserved at /d"
    );
    let (_, notes) = uninstall_next(
        UninstallAction::RemoveState,
        &UninstallEvent::Removed(Some("busy".into())),
        &o,
        "/d",
    );
    assert_eq!(notes[0].text, "Failed to remove state directory /d: busy");
    let (next, notes) = uninstall_next(
        UninstallAction::RemoveUser,
        &UninstallEvent::Succeeded(true),
        &o,
        "/d",
    );
    assert_eq!(next, UninstallAction::RemoveGroup);
    assert_eq!(notes[0].text, "User 'u' removed");
}

fn install(
    events: &dyn Fn(InstallAction) -> InstallEvent,
    g: &GatheredConfig,
) -> Result<(bool, Vec<InstallAction>), String> {
    let (mut s, opening) = InstallSession::new();
    assert_eq!(texts(&opening), vec!["Executing installation..."]);
    let p = plan();
    let mut done = Vec::new();
    while s.action() != InstallAction::Finish {
        done.push(s.action());
        s.step(events(s.action()), &p, g, true, "/var/lib/weaver")?;
    }
    let r = s.result(&p);
    assert_eq!(r.binary_path, "/usr/local/bin/weaver-server");
    let config = s.config(g);
    assert_eq!(config.listen_http, any_address(80));
    assert_eq!(config.root_domain, "example.com");
    Ok((r.changed, done))
}

#[test]
fn a_fresh_installation_changes_the_host() {
    let fresh = |a: InstallAction| match a {
        InstallAction::CheckGroup
        | InstallAction::CheckUser
        | InstallAction::CheckState
        | InstallAction::CheckService => InstallEvent::Found(false),
        InstallAction::CheckUserGroup => InstallEvent::Found(true),
        InstallAction::CreateUser { in_group } => {
            assert!(in_group);
            InstallEvent::Ran {
                success: true,
                code: Some(0),
            }
        }
        InstallAction::EnableUnits => InstallEvent::Ran {
            success: true,
            code: Some(0),
        },
        InstallAction::ReadBinaries => InstallEvent::Binaries {
            current: Some(vec![1]),
            installed: None,
        },
        InstallAction::ReadRootCa => InstallEvent::RootCa("PEM".into()),
        InstallAction::ReadUnits => InstallEvent::Units {
            socket: None,
            service: None,
        },
        _ => InstallEvent::Done,
    };
    let mut g = gathered();
    g.acme_root_ca_path = Some("/ca.pem".into());
    let (changed, done) = install(&fresh, &g).unwrap();
    assert!(changed);
    assert!(done.contains(&InstallAction::WriteUnits));
    assert!(done.contains(&InstallAction::ReadRootCa));
    assert!(done.contains(&InstallAction::SaveAccount));
}

#[test]
fn a_repeated_installation_changes_nothing() {
    let (socket, service) = unit_files(&plan());
    let again = |a: InstallAction| match a {
        InstallAction::CheckGroup
        | InstallAction::CheckUser
        | InstallAction::CheckState
        | InstallAction::CheckService => InstallEvent::Found(true),
        InstallAction::EnableUnits => InstallEvent::Ran {
            success: true,
            code: Some(0),
        },
        InstallAction::ReadBinaries => InstallEvent::Binaries {
            current: Some(vec![1, 2]),
            installed: Some(vec![1, 2]),
        },
        InstallAction::ReadUnits => InstallEvent::Units {
            socket: Some(socket.clone()),
            service: Some(service.clone()),
        },
        _ => InstallEvent::Done,
    };
    let (changed, done) = install(&again, &gathered()).unwrap();
    assert!(!changed);
    assert!(done.contains(&InstallAction::StopService));
    assert!(!done.contains(&InstallAction::InstallBinary));
}

#[test]
fn installation_failures_are_explained() {
    let fail = |fault: InstallFault| {
        let (mut s, _) = InstallSession::new();
        let mut g = gathered();
        g.acme_root_ca_path = Some("/ca.pem".into());
        s.step(
            InstallEvent::Failed {
                fault,
                cause: "why".into(),
            },
            &plan(),
            &g,
            false,
            "/d",
        )
        .unwrap_err()
    };
    for (fault, text) in [
        (InstallFault::RunUseradd, "failed to execute useradd: why"),
        (InstallFault::FindCurrentExe, "cannot determine current exe: why"),
        (InstallFault::CreatePrefix, "failed to create prefix directory: why"),
        (InstallFault::CopyBinary, "failed to copy binary to temp path: why"),
        (InstallFault::ReadBinaryMetadata, "failed to read metadata: why"),
        (
            InstallFault::SetBinaryPermissions,
            "failed to set binary permissions: why",
        ),
        (InstallFault::RenameBinary, "failed to rename binary atomically: why"),
        (InstallFault::CreateStateDir, "failed to create state directory: why"),
        (
            InstallFault::ReadStateMetadata,
            "failed to read state dir metadata: why",
        ),
        (
            InstallFault::SetStatePermissions,
            "failed to set state dir permissions: why",
        ),
        (InstallFault::OpenDatabase, "failed to open database: why"),
        (InstallFault::ReadRootCa, "failed to read root CA at /ca.pem: why"),
        (InstallFault::SaveConfig, "failed to save config: why"),
        (
            InstallFault::SaveAccount,
            "failed to store pre-registered ACME credentials: why",
        ),
        (InstallFault::WriteSocketUnit, "failed to write socket unit: why"),
        (InstallFault::WriteServiceUnit, "failed to write service unit: why"),
        (InstallFault::RunEnable, "failed to enable and start services: why"),
    ] {
        assert_eq!(fail(fault), text);
    }
    let broken = |a: InstallAction| match a {
        InstallAction::CreateUser { .. } => InstallEvent::Ran {
            success: false,
            code: None,
        },
        _ => InstallEvent::Found(false),
    };
    assert_eq!(
        install(&broken, &gathered()).unwrap_err(),
        "useradd failed with exit code: None"
    );
    let coded = |a: InstallAction| match a {
        InstallAction::CreateUser { .. } => InstallEvent::Ran {
            success: false,
            code: Some(9),
        },
        _ => InstallEvent::Found(false),
    };
    assert_eq!(
        install(&coded, &gathered()).unwrap_err(),
        "useradd failed with exit code: Some(9)"
    );
}

#[test]
fn installation_helpers() {
    assert!(needs_binary(&Some(vec![1]), &Some(vec![2])));
    assert!(!needs_binary(&Some(vec![1]), &Some(vec![1])));
    assert!(needs_binary(&None, &None));
    assert!(needs_units(&None, &None, &plan()));
    assert_eq!(temporary_name(7), "weaver-server.tmp.7");
    assert_eq!(useradd_args("u", true).len(), 7);
    assert_eq!(useradd_args("u", false).last().unwrap(), "u");
    assert_eq!(
        account_directory(Some("https://x"), "letsencrypt").as_deref(),
        Some("https://x")
    );
    assert_eq!(
        account_directory(None, "letsencrypt").as_deref(),
        Some("https://acme-v02.api.letsencrypt.org/directory")
    );
    assert_eq!(account_directory(None, "nobody"), None);
}

#[test]
fn deployments_are_verified() {
    let (mut s, opening) = VerifySession::new();
    assert_eq!(opening.len(), 2);
    let down = VerifyEvent::Units {
        socket: true,
        service: false,
    };
    s.step(&down, "example.com").unwrap();
    assert_eq!(s.action(), VerifyAction::Pause);
    s.step(&VerifyEvent::Paused, "example.com").unwrap();
    let notes = s
        .step(
            &VerifyEvent::Units {
                socket: true,
                service: true,
            },
            "example.com",
        )
        .unwrap();
    assert_eq!(notes[0].text, "Services active and running");
    let failure = s
        .step(&VerifyEvent::Certificate(4), "example.com")
        .unwrap_err();
    assert!(failure.notes.is_empty());
    assert_eq!(
        failure.message,
        "certificate issuance failed or timed out for 'example.com'"
    );
    s.step(&VerifyEvent::Certificate(0), "example.com").unwrap();
    s.step(&VerifyEvent::Https(HttpsOutcome::NoClient), "example.com")
        .unwrap();
    assert_eq!(s.action(), VerifyAction::Finish);

    let (mut s, _) = VerifySession::new();
    for _ in 0..ACTIVATION_TRIES - 1 {
        s.step(&down, "x").unwrap();
        s.step(&VerifyEvent::Paused, "x").unwrap();
    }
    s.step(&down, "x").unwrap();
    let failure = s.step(&VerifyEvent::Paused, "x").unwrap_err();
    assert_eq!(failure.notes.len(), 1);
    assert_eq!(failure.notes[0].mark, Mark::Missed);
    assert_eq!(failure.notes[0].text, "Services failed to activate");
    assert_eq!(
        failure.message,
        "weaver-server systemd units did not become active"
    );
}

#[test]
fn https_outcomes() {
    let say = |o: HttpsOutcome| judge_https(&o, "example.com").text;
    assert_eq!(
        say(HttpsOutcome::Succeeded("200\n".into())),
        "HTTPS GET https://example.com/ succeeded (HTTP 200)"
    );
    assert!(say(HttpsOutcome::Failed("SSL problem".into())).contains("staging/Pebble"));
    assert_eq!(
        say(HttpsOutcome::Failed(" timeout ".into())),
        "HTTPS request warning: timeout"
    );
    assert_eq!(
        say(HttpsOutcome::NoClient),
        "curl command not found, skipping local HTTPS check"
    );
    assert_eq!(curl_args("example.com")[7], "https://example.com/");
    assert_eq!(failure_guidance().len(), 6);
    assert_eq!(closing_summary("example.com")[4][3].text, "https://example.com");
}

#[test]
fn gathering_asks_until_answers_are_valid() {
    let mut s = GatherSession::new(&args(), None);
    s.begin().unwrap();
    assert_eq!(s.ask(), Ask::RootDomain);
    assert!(s.answer("nope").unwrap().is_some());
    assert_eq!(s.ask(), Ask::RootDomain);
    assert!(s.answer("example.com").unwrap().is_none());
    assert_eq!(s.answer("x").unwrap(), Some("Invalid email address."));
    s.answer("a@example.com").unwrap();
    assert_eq!(s.ask(), Ask::Provider);
    assert!(s.answer("9").unwrap().is_some());
    s.answer("2").unwrap();
    assert_eq!(s.ask(), Ask::EabKid);
    s.answer("kid").unwrap();
    s.answer("hmac").unwrap();
    assert_eq!(s.ask(), Ask::Nothing);
    let g = s.finish(&args(), "/d").unwrap();
    assert_eq!(g.acme_provider, "google");
    assert_eq!(g.acme_eab_kid.as_deref(), Some("kid"));
    assert_eq!(g.acme_eab_hmac.as_deref(), Some("hmac"));
}

#[test]
fn gathering_a_custom_provider() {
    let mut a = args();
    a.root_domain = Some("example.com".into());
    a.email = Some("a@example.com".into());
    let mut s = GatherSession::new(&a, None);
    s.begin().unwrap();
    s.answer("custom").unwrap();
    assert_eq!(s.ask(), Ask::Directory);
    s.answer("https://ca/dir").unwrap();
    assert_eq!(s.ask(), Ask::NeedsEab);
    s.answer("n").unwrap();
    assert_eq!(s.ask(), Ask::RootCa);
    s.answer("").unwrap();
    let g = s.finish(&a, "/d").unwrap();
    assert_eq!(g.acme_directory.as_deref(), Some("https://ca/dir"));
    assert_eq!(g.acme_root_ca_path, None);

    let mut s = GatherSession::new(&a, None);
    s.begin().unwrap();
    s.answer("5").unwrap();
    s.answer("https://ca/dir").unwrap();
    s.answer("yes").unwrap();
    s.answer("kid").unwrap();
    s.answer("hmac").unwrap();
    assert_eq!(s.ask(), Ask::RootCa);
    s.answer("/ca.pem").unwrap();
    assert_eq!(
        s.finish(&a, "/d").unwrap().acme_root_ca_path.as_deref(),
        Some("/ca.pem")
    );
}

#[test]
fn gathering_from_arguments() {
    let mut a = args();
    a.root_domain = Some("bad".into());
    assert_eq!(
        GatherSession::new(&a, None).begin().unwrap_err(),
        "Error: Invalid root domain 'bad'. Must be a valid FQDN."
    );
    a.root_domain = Some("example.com".into());
    a.email = Some("bad".into());
    assert_eq!(
        GatherSession::new(&a, None).begin().unwrap_err(),
        "Error: Invalid email 'bad'."
    );
    a.email = Some("a@example.com".into());
    a.acme_directory = Some("https://ca".into());
    let mut s = GatherSession::new(&a, Some("h".into()));
    s.begin().unwrap();
    assert_eq!(s.ask(), Ask::Nothing);
    assert_eq!(s.provider(), "custom");
    assert!(GatherSession::new(&args(), None)
        .finish(&args(), "/d")
        .is_none());
    assert_eq!(prompt_of(Ask::Provider), ("Select provider", Some("1")));
}

#[test]
fn headless_arguments() {
    let mut a = args();
    let problem = |a: &SetupArgs| {
        GatherSession::new(a, None)
            .check_headless()
            .err()
            .unwrap_or_default()
    };
    assert_eq!(
        problem(&a),
        "Error: Missing required option --root-domain in headless mode"
    );
    a.root_domain = Some("example.com".into());
    assert_eq!(
        problem(&a),
        "Error: Missing required option --email in headless mode"
    );
    a.email = Some("a@example.com".into());
    assert_eq!(problem(&a), "");
    a.acme_provider = "zerossl".into();
    assert_eq!(
        problem(&a),
        "Error: Provider 'zerossl' requires both --acme-eab-kid and --acme-eab-hmac in headless mode"
    );
    assert_eq!(
        check_headless(
            &Some("example.com".into()),
            &Some("a@b.c".into()),
            "google",
            false,
            "EAB KID and EAB HMAC"
        )
        .unwrap_err(),
        "Error: Provider 'google' requires both EAB KID and EAB HMAC in headless mode"
    );
}

#[test]
fn setup_stages() {
    assert_eq!(SetupStage::first(true), SetupStage::CheckSystemd);
    assert_eq!(SetupStage::first(false), SetupStage::Confirm);
    let mut stage = SetupStage::Confirm;
    let mut n = 0;
    while stage != SetupStage::Finish {
        stage = stage.step(None, "").unwrap();
        n += 1;
    }
    assert_eq!(n, 12);
    let exit = |s: SetupStage| s.step(Some("why"), "https://ca").unwrap_err();
    assert_eq!(exit(SetupStage::Confirm).code, 0);
    assert_eq!(exit(SetupStage::Elevate).code, 2);
    assert_eq!(
        exit(SetupStage::ProbeDns).message,
        "DNS verification failed: why"
    );
    assert_eq!(
        exit(SetupStage::MakePlan).message,
        "Setup cannot proceed: why"
    );
    assert_eq!(
        exit(SetupStage::ReadRootCa).message,
        "Error reading root CA file: why"
    );
    assert_eq!(
        exit(SetupStage::RegisterAccount).message,
        "Failed to validate ACME credentials against https://ca: why"
    );
    assert!(exit(SetupStage::Install).guidance);
    assert_eq!(
        exit(SetupStage::Verify).message,
        "Deployment verification failed: why"
    );
    assert_eq!(exit(SetupStage::CheckSystemd).code, 1);
    assert_eq!(exit(SetupStage::CheckPlatform).code, 1);
    assert_eq!(
        SetupStage::CheckReachability.step(Some("why"), ""),
        Ok(SetupStage::MakePlan)
    );
    assert!(is_up_to_date(false, true) && !is_up_to_date(true, true));
    assert_eq!(
        registration_directory(&None, "nobody"),
        "https://acme-v02.api.letsencrypt.org/directory"
    );
    assert_eq!(
        registration_directory(&Some("https://ca".into()), "google"),
        "https://ca"
    );
}

#[test]
fn probes_for_the_planner() {
    let p = system_probe(
        &gathered(),
        None,
        DnsProbeResult {
            root_ips: vec![PUBLIC],
            probe_domain: "probe-x.example.com".into(),
            probe_ips: vec![PUBLIC],
        },
        PortReachability::Skipped,
        PortReachability::Skipped,
        true,
    );
    assert!(plan_setup(&p).is_ok());
}

#[test]
fn command_line_decisions() {
    assert_eq!(parse_listen_addr(" 8080 "), ListenArg::Port(8080));
    assert_eq!(parse_listen_addr(":443"), ListenArg::Port(443));
    assert_eq!(
        parse_listen_addr("0.0.0.0:80"),
        ListenArg::Address("0.0.0.0:80".into())
    );
    assert_eq!(
        parse_listen_addr("70000"),
        ListenArg::Address("70000".into())
    );
    assert!(validate_cert_name(&None).is_ok());
    assert!(validate_cert_name(&Some("root".into())).is_ok());
    assert!(validate_cert_name(&Some("a.b".into())).is_ok());
    assert_eq!(
        validate_cert_name(&Some("ab".into())).unwrap_err(),
        "Error: Invalid hostname 'ab'. Must be a fully qualified domain name (containing '.') or 'root'."
    );
    assert!(CertCommands::Wait {
        name: Some("ab".into()),
        timeout: None,
        json: false
    }
    .check()
    .is_err());
    assert_eq!(path_or(None, DEFAULT_DB), "/var/lib/weaver/weaver.db");
    assert_eq!(path_or(Some("/x".into()), DEFAULT_DB), "/x");
    assert_eq!(version_text("1.2", 3), "1.2 (protocol v3)");
    assert_eq!(effective_provider("letsencrypt", true), "custom");
    assert_eq!(effective_provider("google", true), "google");
    assert_eq!(
        hmac_source(&Some("h".into()), &Some("f".into())),
        HmacSource::Given("h".into())
    );
    assert_eq!(
        hmac_source(&None, &Some("f".into())),
        HmacSource::File("f".into())
    );
    assert_eq!(hmac_source(&None, &None), HmacSource::Absent);
    let o = uninstall_options(
        UninstallArgs {
            prefix: "/p".into(),
            user: "u".into(),
            purge: true,
            headless: false,
        },
        "/d".into(),
    );
    assert!(o.purge && o.db_path == "/d");
}

#[test]
fn configurations_from_arguments() {
    let listen = SocketAddress {
        ip: IpAddress::V4([0, 0, 0, 0]),
        port: 8080,
    };
    let c = configured(
        ConfigureArgs {
            root_domain: None,
            email: None,
            acme_provider: "letsencrypt".into(),
            listen_http: listen,
            listen_https: listen,
            control_socket: "/c".into(),
            acme_directory: Some("https://ca".into()),
            acme_eab_kid: None,
            acme_eab_hmac: None,
            acme_eab_hmac_file: None,
            acme_root_ca: None,
            headless: true,
        },
        "example.com".into(),
        "a@b.c".into(),
        Some("h".into()),
        None,
    );
    assert_eq!(c.acme_provider, "custom");
    assert_eq!(c.listen_http, listen);
    assert_eq!(c.acme_eab_hmac.as_deref(), Some("h"));
}

#[test]
fn configured_values_are_checked() {
    assert_eq!(Field::RootDomain.given(&None), Ok(None));
    assert_eq!(
        Field::RootDomain.given(&Some("example.com".into())),
        Ok(Some("example.com".into()))
    );
    assert_eq!(
        Field::RootDomain.given(&Some("com".into())),
        Err("Error: Invalid root domain 'com'. Must be a valid FQDN.".into())
    );
    assert_eq!(
        Field::Email.given(&Some("x".into())),
        Err("Error: Invalid email 'x'.".into())
    );
    assert_eq!(Field::Email.prompt(), "Admin email");
    assert_eq!(Field::Email.complaint("a@b.c"), None);
    assert_eq!(
        Field::Email.complaint("a"),
        Some("Invalid email. Please provide a valid email address.")
    );
    assert!(Field::RootDomain.complaint("com").is_some());
}

#[test]
fn unit_lines_are_single() {
    let unit = render_service_unit(&ServiceUnitParams {
        prefix: "/opt/",
        db_path: "/d/w.db",
        user: "relay",
    });
    let default = render_service_unit(&ServiceUnitParams::default());
    let lines: Vec<&str> = unit.split('\n').collect();
    for line in [
        "User=relay",
        "Group=relay",
        "ExecStart=/opt/weaver-server run --db /d/w.db",
    ] {
        assert_eq!(lines.iter().filter(|l| **l == line).count(), 1);
    }
    let same = lines
        .iter()
        .zip(default.split('\n'))
        .filter(|(a, b)| **a == *b)
        .count();
    assert_eq!(same, lines.len() - 3);
    assert_eq!(default.split('\n').count(), lines.len());
}

#[test]
fn state_directories() {
    assert_eq!(state_directory(Some("/data")), "/data");
    assert_eq!(state_directory(None), "/var/lib/weaver");
}
