//! What the setup command promises.
use super::dns::{probe_domain, resolve_failure, unique_ips, DnsProbeResult};
use super::flow::{is_up_to_date, registration_directory, system_probe, SetupExit, SetupStage};
use super::interactive::{
    piped_secret, plan_confirmed, prompt_answer, provider_choice, says_yes, validate_email,
    validate_fqdn, Echo, GatheredConfig, Key, MaskedInput,
};
use super::note::{self, Mark, Note};
use super::planner::{
    self, is_public_ip, plan_setup, ExistingInstall, Plan, PlanAbort, PortReachability, SystemProbe,
};
use super::preflight::{detect_existing_install, is_supported_arch, is_systemd_present};
use super::privilege::{
    elevated_exit, elevation, is_root, setup_elevation_args, uninstall_elevation_args, Elevation,
};
use super::reachability::{
    bind_failure, challenge_of, find_listening_inodes, judge_probe, probe_payload, respond,
    target_of, without_probing, PortCheck, ProbeOutcome,
};
use super::uninstall::{
    uninstall_next, uninstall_opening, UninstallAction, UninstallEvent, UninstallOptions,
};
use super::verify::{
    curl_args, judge_https, HttpsOutcome, VerifyEvent, VerifyFailure, VerifySession,
};
use crate::cert::providers::resolve_directory_url;
use crate::config::Config;
use crate::net::{self, IpAddress, IpFacts};
use crate::number;
use crate::text;
use vstd::prelude::*;

verus! {

/// The address as one number.
pub open spec fn number_of(o: Seq<u8>) -> int {
    ((o[0] * 256 + o[1]) * 256 + o[2]) * 256 + o[3]
}

/// The address is in one of the networks that are not public: loopback, private, link-local,
/// documentation, shared, benchmarking, or the first or last address of all.
pub open spec fn is_reserved(n: int) -> bool {
    ||| 0x7f00_0000 <= n <= 0x7fff_ffff
    ||| 0x0a00_0000 <= n <= 0x0aff_ffff
    ||| 0xac10_0000 <= n <= 0xac1f_ffff
    ||| 0xc0a8_0000 <= n <= 0xc0a8_ffff
    ||| 0xa9fe_0000 <= n <= 0xa9fe_ffff
    ||| 0xc000_0200 <= n <= 0xc000_02ff
    ||| 0xc633_6400 <= n <= 0xc633_64ff
    ||| 0xcb00_7100 <= n <= 0xcb00_71ff
    ||| 0x6440_0000 <= n <= 0x647f_ffff
    ||| 0xc612_0000 <= n <= 0xc613_ffff
    ||| n == 0
    ||| n == 0xffff_ffff
}

/// An address is public exactly where it is in none of the reserved networks; an IPv4 address
/// in IPv6 form counts as the IPv4 address.
pub proof fn public_addresses_are_these(ip: &IpAddress, r: bool)
    requires
        call_ensures(is_public_ip, (ip,), r),
    ensures
        ip@ matches IpFacts::V4(o) ==> r == !is_reserved(number_of(o)),
        ip@ matches IpFacts::V6(s) ==> {
            let low = s[0] == 0 && s[1] == 0 && s[2] == 0 && s[3] == 0 && s[4] == 0;
            let mapped = low && s[5] == 0xffff;
            let n = s[6] * 65536 + s[7];
            &&& mapped ==> r == !is_reserved(n)
            &&& !mapped ==> (r <==> {
                &&& !(low && s[5] == 0 && (n == 0 || n == 1))
                &&& !(0xfc00 <= s[0] <= 0xfdff)
                &&& !(0xfe80 <= s[0] <= 0xfebf)
                &&& !(s[0] == 0x2001 && s[1] == 0x0db8)
            })
        },
{
    match ip@ {
        IpFacts::V4(o) => {
            assert(o.len() == 4);
        },
        IpFacts::V6(s) => {
            assert(s.len() == 8);
            let o = net::mapped_octets(s);
            assert(o[0] == s[6] / 256 && o[1] == s[6] % 256 && o[2] == s[7] / 256 && o[3] == s[7]
                % 256);
            assert(number_of(o) == s[6] * 65536 + s[7]);
        },
    }
}

/// The port was reached from outside.
pub open spec fn reached(p: PortReachability) -> bool {
    p is ReachedSelf
}

/// Why a port does not count as reached.
pub open spec fn is_why(p: PortReachability, why: Seq<char>) -> bool {
    &&& p matches PortReachability::Failed(e) ==> why == e@
    &&& p is Skipped ==> why == "reachability was not performed"@
}

/// A setup is planned exactly where systemd runs a supported platform, no other domain is
/// installed unless that is confirmed or nobody can be asked, the domain and its probe
/// resolve to the same public addresses, and both ports were reached or need not be. The
/// first of these that fails is the reason that is given.
pub proof fn setups_are_planned(p: &SystemProbe, r: Result<Plan, PlanAbort>)
    requires
        call_ensures(plan_setup, (p,), r),
    ensures
        ({
            let a = p.root_set();
            let b = p.probe_set();
            let other = (p.existing_install matches Some(e) && e.root_domain@ != p.target_domain@)
                && !p.is_headless && !p.confirmed_domain_change;
            let same = forall|ip: IpFacts| #[trigger] a.contains(ip) <==> b.contains(ip);
            let open = forall|ip: IpFacts| #[trigger] a.contains(ip) ==> planner::is_public(ip);
            let host = p.systemd_present && p.supported_arch && !other;
            let named = host && p.root_ips@.len() > 0;
            let ready = named && same && open;
            let skip = p.skip_reachability_check;
            &&& r is Ok <==> ready && (skip || (reached(p.port_80) && reached(p.port_443)))
            &&& (r matches Err(PlanAbort::SystemdNotSupported)) <==> !p.systemd_present
            &&& (r matches Err(PlanAbort::UnsupportedArchitecture)) <==> p.systemd_present
                && !p.supported_arch
            &&& (r matches Err(PlanAbort::DomainMismatch { .. })) <==> p.systemd_present
                && p.supported_arch && other
            &&& (r matches Err(PlanAbort::DnsEmpty(_))) <==> host && p.root_ips@.len() == 0
            &&& (r matches Err(PlanAbort::DnsSetMismatch { .. })) <==> named && !same
            &&& (r matches Err(PlanAbort::NonPublicIp(_))) <==> named && same && !open
            &&& (r matches Err(PlanAbort::Port80NotReachable(_))) <==> ready && !skip && !reached(
                p.port_80,
            )
            &&& (r matches Err(PlanAbort::Port443NotReachable(_))) <==> ready && !skip && reached(
                p.port_80,
            ) && !reached(p.port_443)
            &&& r matches Err(PlanAbort::DomainMismatch { existing, target }) ==> existing@
                == p.existing_install->0.root_domain@ && target@ == p.target_domain@
            &&& r matches Err(PlanAbort::DnsEmpty(d)) ==> d@ == p.target_domain@
            &&& r matches Err(PlanAbort::DnsSetMismatch { root, probe }) ==> root@
                == p.target_domain@ && probe@ == "probe-<random>."@ + p.target_domain@
            &&& r matches Err(PlanAbort::NonPublicIp(ip)) ==> a.contains(ip@)
                && !planner::is_public(ip@)
            &&& r matches Err(PlanAbort::Port80NotReachable(e)) ==> is_why(p.port_80, e@)
            &&& r matches Err(PlanAbort::Port443NotReachable(e)) ==> is_why(p.port_443, e@)
            &&& r matches Ok(plan) ==> {
                &&& plan.root_domain@ == p.target_domain@
                &&& plan.db_path@ == p.db_path@
                &&& plan.user@ == p.user@
                &&& plan.prefix@ == p.prefix@
                &&& plan.acme_provider@ == p.acme_provider@
                &&& plan.has_eab == p.has_eab
                &&& plan.is_upgrade == p.existing_install is Some
                &&& plan.reachability_skipped == skip
            }
        }),
{
    let a = p.root_set();
    let b = p.probe_set();
    if forall|ip: IpFacts| #[trigger] a.contains(ip) <==> b.contains(ip) {
        assert(a =~= b);
    }
}

/// Each reason not to set up is told in words.
pub proof fn aborted_setups_are_explained(e: &PlanAbort, r: String, ip: String)
    requires
        call_ensures(PlanAbort::message, (e,), r),
        *e matches PlanAbort::NonPublicIp(a) ==> call_ensures(IpAddress::to_text, (&a,), ip),
    ensures
        *e is SystemdNotSupported ==> r@ == "the server component supports systemd Linux only"@,
        *e is UnsupportedArchitecture ==> r@
            == "unsupported target platform: Linux x86_64 or aarch64 required"@,
        *e matches PlanAbort::DomainMismatch { existing, target } ==> r@
            == "already installed for domain '"@ + existing@ + "', but target is '"@ + target@
            + "'; confirmation required"@,
        *e matches PlanAbort::DnsEmpty(d) ==> r@ == "DNS resolution failed for '"@ + d@
            + "': no A or AAAA records found"@,
        *e matches PlanAbort::DnsSetMismatch { root, probe } ==> r@ == "DNS mismatch: '"@ + root@
            + "' and '"@ + probe@ + "' resolve to different IP address sets"@,
        *e is NonPublicIp ==> r@ == "DNS resolved to non-public IP address "@ + ip@
            + "; public DNS records are required"@,
        *e matches PlanAbort::Port80NotReachable(why) ==> r@
            == "port 80 reachability check failed: "@ + why@,
        *e matches PlanAbort::Port443NotReachable(why) ==> r@
            == "port 443 reachability check failed: "@ + why@,
{
}

/// The user with number zero is root. Anyone else goes on under `sudo`, unless nobody can be
/// asked for a password that is needed.
pub proof fn privileges_are_needed(
    euid: u32,
    root: bool,
    headless: bool,
    passwordless: bool,
    r: Elevation,
    code: Option<i32>,
    exit: i32,
)
    requires
        call_ensures(is_root, (euid,), root),
        call_ensures(elevation, (root, headless, passwordless), r),
        call_ensures(elevated_exit, (code,), exit),
    ensures
        euid == 0 <==> r is Ready,
        euid != 0 && headless && !passwordless <==> r is Refused,
        euid != 0 && (!headless || passwordless) <==> r is Sudo,
        code is Some ==> code == Some(exit),
        code is None ==> exit == 1,
{
}

/// The text, where it is wanted.
pub open spec fn wanted(b: bool, name: Seq<char>) -> Seq<Seq<char>> {
    if b {
        seq![name]
    } else {
        seq![]
    }
}

/// The option with its value, where it has one.
pub open spec fn with_value(name: Seq<char>, value: Option<String>) -> Seq<Seq<char>> {
    match value {
        Some(v) => seq![name, v@],
        None => seq![],
    }
}

/// A setup or an uninstallation that goes on under `sudo` is handed everything that was
/// gathered.
pub proof fn answers_are_handed_on(
    exe: &str,
    c: &GatheredConfig,
    headless: bool,
    r: Vec<String>,
    o: &UninstallOptions,
    q: Vec<String>,
)
    requires
        call_ensures(setup_elevation_args, (exe, c, headless), r),
        call_ensures(uninstall_elevation_args, (exe, o), q),
    ensures
        text::texts(r@) == wanted(headless, "-n"@) + seq![
            exe@,
            "setup"@,
            "--root-domain"@,
            c.root_domain@,
            "--email"@,
            c.admin_email@,
            "--acme-provider"@,
            c.acme_provider@,
            "--db"@,
            c.db_path@,
            "--user"@,
            c.user@,
            "--prefix"@,
            c.prefix@,
        ] + with_value("--acme-directory"@, c.acme_directory) + with_value(
            "--acme-eab-kid"@,
            c.acme_eab_kid,
        ) + with_value("--acme-eab-hmac"@, c.acme_eab_hmac) + with_value(
            "--acme-root-ca"@,
            c.acme_root_ca_path,
        ) + wanted(c.skip_reachability_check, "--skip-reachability-check"@) + wanted(
            headless,
            "--headless"@,
        ) + seq!["--no-prompt-values"@],
        text::texts(q@) == wanted(o.headless, "-n"@) + seq![
            exe@,
            "uninstall"@,
            "--prefix"@,
            o.prefix@,
            "--db"@,
            o.db_path@,
            "--user"@,
            o.user@,
        ] + wanted(o.purge, "--purge"@) + wanted(o.headless, "--headless"@),
{
}

/// The host will do with systemd running and `systemctl` at hand, on Linux with one of two
/// architectures; what is installed is known by its domain.
pub proof fn hosts_are_checked(
    dir: bool,
    found: &Vec<bool>,
    systemd: bool,
    os: &str,
    arch: &str,
    supported: bool,
    stored: Option<&Config>,
    existing: Option<ExistingInstall>,
)
    requires
        call_ensures(is_systemd_present, (dir, found), systemd),
        call_ensures(is_supported_arch, (os, arch), supported),
        call_ensures(detect_existing_install, (stored,), existing),
    ensures
        systemd <==> dir && exists|i: int| 0 <= i < found@.len() && #[trigger] found@[i],
        supported <==> os@ == "linux"@ && (arch@ == "x86_64"@ || arch@ == "aarch64"@),
        existing is Some <==> stored is Some,
        existing matches Some(e) ==> e.root_domain@ == stored->0.root_domain@,
{
    if exists|i: int| 0 <= i < found@.len() && #[trigger] found@[i] {
        let i = choose|i: int| 0 <= i < found@.len() && #[trigger] found@[i];
        assert(found@[i] == true);
        assert(found@.contains(true));
    }
    if found@.contains(true) {
        let i = choose|i: int| 0 <= i < found@.len() && found@[i] == true;
        assert(found@[i]);
    }
}

/// The names that are resolved, and what a failure says.
pub proof fn names_are_resolved(
    token: &str,
    root: &str,
    r: String,
    domain: &str,
    cause: &str,
    f: String,
    ips: &Vec<IpAddress>,
    unique: Vec<IpAddress>,
    ip: IpFacts,
)
    requires
        call_ensures(probe_domain, (token, root), r),
        call_ensures(resolve_failure, (domain, cause), f),
        call_ensures(unique_ips, (ips,), unique),
    ensures
        r@ == "probe-"@ + token@ + "."@ + root@,
        f@ == "failed to resolve '"@ + domain@ + "': "@ + cause@,
        net::addresses(unique@).contains(ip) <==> net::addresses(ips@).contains(ip),
        net::addresses(unique@).no_duplicates(),
{
    super::dns::ascending_addresses_are_distinct(net::addresses(unique@));
    assert(net::addresses(unique@).to_set().contains(ip) == net::addresses(unique@).contains(ip));
    assert(net::addresses(ips@).to_set().contains(ip) == net::addresses(ips@).contains(ip));
}

/// The label of a domain name: one to 63 letters, digits and hyphens, none of them a hyphen
/// at either end.
pub open spec fn is_good_label(p: Seq<char>) -> bool {
    &&& 1 <= p.len() <= 63
    &&& p[0] != '-' && p[p.len() - 1] != '-'
    &&& forall|i: int|
        0 <= i < p.len() ==> {
            ||| 'a' <= #[trigger] p[i] <= 'z'
            ||| 'A' <= p[i] <= 'Z'
            ||| '0' <= p[i] <= '9'
            ||| p[i] == '-'
        }
}

/// A domain name has two or more labels and at most 253 characters, apart from white space
/// around it and dots at its end.
pub proof fn domain_names_are_these(
    domain: &str,
    r: bool,
    trimmed: &str,
    name: &str,
    labels: Vec<String>,
)
    requires
        call_ensures(validate_fqdn, (domain,), r),
        call_ensures(text::trim, (domain,), trimmed),
        call_ensures(text::trim_trailing, (trimmed, '.'), name),
        call_ensures(text::split, (name, '.'), labels),
    ensures
        r <==> {
            &&& 1 <= name@.len() <= 253
            &&& labels@.len() >= 2
            &&& forall|i: int| 0 <= i < labels@.len() ==> is_good_label((#[trigger] labels@[i])@)
        },
{
    let all = text::texts(labels@);
    assert(all.len() == labels@.len());
    assert forall|i: int| 0 <= i < labels@.len() implies super::interactive::is_label(all[i])
        == is_good_label((#[trigger] labels@[i])@) by {
        let p = all[i];
        assert(p == labels@[i]@);
        if super::interactive::is_label(p) {
            assert forall|k: int| 0 <= k < p.len() implies ('a' <= #[trigger] p[k] <= 'z' || 'A'
                <= p[k] <= 'Z' || '0' <= p[k] <= '9' || p[k] == '-') by {
                assert(super::interactive::is_label_char(p[k]));
            }
        }
    }
    if forall|i: int| 0 <= i < labels@.len() ==> is_good_label((#[trigger] labels@[i])@) {
        assert forall|i: int| 0 <= i < all.len() implies super::interactive::is_label(
            #[trigger] all[i],
        ) by {
            assert(is_good_label(labels@[i]@));
        }
    }
    if forall|i: int| 0 <= i < all.len() ==> super::interactive::is_label(#[trigger] all[i]) {
        assert forall|i: int| 0 <= i < labels@.len() implies is_good_label(
            (#[trigger] labels@[i])@,
        ) by {
            assert(super::interactive::is_label(all[i]));
        }
    }
}

/// An address has one at sign with something on either side, and a dot on its right that is
/// at neither end.
pub proof fn email_addresses_are_these(email: &str, r: bool, trimmed: &str, parts: Vec<String>)
    requires
        call_ensures(validate_email, (email,), r),
        call_ensures(text::trim, (email,), trimmed),
        call_ensures(text::split, (trimmed, '@'), parts),
    ensures
        r <==> {
            &&& parts@.len() == 2
            &&& parts@[0]@.len() > 0
            &&& parts@[1]@.len() > 0
            &&& parts@[1]@[0] != '.'
            &&& parts@[1]@[parts@[1]@.len() - 1] != '.'
            &&& exists|i: int| 0 <= i < parts@[1]@.len() && #[trigger] parts@[1]@[i] == '.'
        },
{
    let all = text::texts(parts@);
    assert(all.len() == parts@.len());
    if parts@.len() == 2 {
        assert(all[0] == parts@[0]@ && all[1] == parts@[1]@);
        let d = parts@[1]@;
        if d.contains('.') {
            let i = choose|i: int| 0 <= i < d.len() && d[i] == '.';
            assert(parts@[1]@[i] == '.');
        }
    }
}

/// An answer is what was typed without the white space around it, and the default where
/// nothing was; yes is `y` or `yes` in any case.
pub proof fn answers_are_read(
    line: &str,
    default: Option<&str>,
    r: String,
    trimmed: &str,
    answer: &str,
    lower: String,
    yes: bool,
    headless: bool,
    given: Option<&str>,
    confirmed: bool,
)
    requires
        call_ensures(prompt_answer, (line, default), r),
        call_ensures(text::trim, (line,), trimmed),
        call_ensures(says_yes, (answer,), yes),
        call_ensures(text::lowered, (answer,), lower),
        call_ensures(plan_confirmed, (headless, given), confirmed),
        given matches Some(g) ==> g@ == answer@,
    ensures
        trimmed@.len() > 0 || default is None ==> r@ == trimmed@,
        trimmed@.len() == 0 ==> (default matches Some(d) ==> r@ == d@),
        yes <==> lower@ == "y"@ || lower@ == "yes"@,
        confirmed <==> headless || (given is Some && yes),
{
}

proof fn line_end_is_cut(s: Seq<char>) -> (n: int)
    ensures
        0 <= n <= s.len(),
        super::interactive::without_line_end(s) == s.subrange(0, n),
        forall|i: int| n <= i < s.len() ==> #[trigger] s[i] == '\r' || s[i] == '\n',
        n > 0 ==> s[n - 1] != '\r' && s[n - 1] != '\n',
    decreases s.len(),
{
    if s.len() > 0 && (s.last() == '\r' || s.last() == '\n') {
        let rest = s.drop_last();
        let n = line_end_is_cut(rest);
        assert(rest.subrange(0, n) =~= s.subrange(0, n));
        assert forall|i: int| n <= i < s.len() implies #[trigger] s[i] == '\r' || s[i] == '\n' by {
            if i < s.len() - 1 {
                assert(rest[i] == '\r' || rest[i] == '\n');
            }
        }
        n
    } else {
        assert(s.subrange(0, s.len() as int) =~= s);
        s.len() as int
    }
}

/// A secret that was not typed is the line without its end, and nothing else is cut off.
pub proof fn secrets_are_read(line: &str, r: String) -> (n: int)
    requires
        call_ensures(piped_secret, (line,), r),
    ensures
        0 <= n <= line@.len(),
        r@ == line@.subrange(0, n),
        forall|i: int| n <= i < line@.len() ==> #[trigger] line@[i] == '\r' || line@[i] == '\n',
        r@.len() > 0 ==> r@.last() != '\r' && r@.last() != '\n',
{
    let n = line_end_is_cut(line@);
    n
}

/// A secret that is typed grows by each character and loses the last one by the backspace
/// key; nothing else changes it.
pub proof fn secrets_are_typed(m: &mut MaskedInput, key: Key, r: Echo)
    requires
        call_ensures(MaskedInput::press, (m, key), r),
    ensures
        key matches Key::Char(c) ==> final(m)@ == old(m)@.push(c) && r is Star,
        key is Backspace && old(m)@.len() > 0 ==> final(m)@ == old(m)@.drop_last() && r is Erase,
        key is Backspace && old(m)@.len() == 0 ==> final(m)@ == old(m)@ && r is Nothing,
        key is Enter ==> final(m)@ == old(m)@ && r is Done,
        key is Interrupt ==> final(m)@ == old(m)@ && r is Quit,
        key is Other ==> final(m)@ == old(m)@ && r is Nothing,
{
}

/// A provider is chosen by its number in the menu or by its name.
pub proof fn providers_are_chosen(choice: &str, c: &str, r: Option<&'static str>)
    requires
        call_ensures(provider_choice, (choice,), r),
        call_ensures(text::trim, (choice,), c),
    ensures
        c@ == "1"@ || c@ == "letsencrypt"@ ==> r is Some && r->0@ == "letsencrypt"@,
        c@ == "2"@ || c@ == "google"@ ==> r is Some && r->0@ == "google"@,
        c@ == "3"@ || c@ == "zerossl"@ ==> r is Some && r->0@ == "zerossl"@,
        c@ == "4"@ || c@ == "buypass"@ ==> r is Some && r->0@ == "buypass"@,
        c@ == "5"@ || c@ == "custom"@ ==> r is Some && r->0@ == "custom"@,
        r is Some ==> c@ == r->0@ || c@ == "1"@ || c@ == "2"@ || c@ == "3"@ || c@ == "4"@ || c@
            == "5"@,
{
    reveal_strlit("1");
    reveal_strlit("2");
    reveal_strlit("3");
    reveal_strlit("4");
    reveal_strlit("5");
    reveal_strlit("letsencrypt");
    reveal_strlit("google");
    reveal_strlit("zerossl");
    reveal_strlit("buypass");
    reveal_strlit("custom");
    assert("1"@[0] == '1' && "2"@[0] == '2' && "3"@[0] == '3' && "4"@[0] == '4' && "5"@[0] == '5');
    assert("letsencrypt"@[0] == 'l' && "google"@[0] == 'g' && "zerossl"@[0] == 'z');
    assert("buypass"@[0] == 'b' && "custom"@[0] == 'c');
}

/// The setup goes through these stages in this order; forwarded answers skip the first two.
/// A stage that fails ends it with these codes and words, except for the search for an
/// existing installation and the check of the ports, which only inform the plan.
pub proof fn setups_go_through_stages(
    forwarded: bool,
    first: SetupStage,
    stage: SetupStage,
    failure: Option<&str>,
    directory: &str,
    r: Result<SetupStage, SetupExit>,
)
    requires
        call_ensures(SetupStage::first, (forwarded,), first),
        call_ensures(SetupStage::step, (stage, failure, directory), r),
    ensures
        forwarded ==> first is CheckSystemd,
        !forwarded ==> first is Confirm,
        r is Ok <==> failure is None || stage is DetectExisting || stage is CheckReachability
            || stage is Finish,
        r matches Ok(next) ==> {
            &&& stage is Confirm ==> next is Elevate
            &&& stage is Elevate ==> next is CheckSystemd
            &&& stage is CheckSystemd ==> next is CheckPlatform
            &&& stage is CheckPlatform ==> next is DetectExisting
            &&& stage is DetectExisting ==> next is ProbeDns
            &&& stage is ProbeDns ==> next is CheckReachability
            &&& stage is CheckReachability ==> next is MakePlan
            &&& stage is MakePlan ==> next is ReadRootCa
            &&& stage is ReadRootCa ==> next is RegisterAccount
            &&& stage is RegisterAccount ==> next is Install
            &&& stage is Install ==> next is Verify
            &&& stage is Verify ==> next is Finish
            &&& stage is Finish ==> next is Finish
        },
        r matches Err(e) ==> {
            let cause = failure->0@;
            &&& stage is Confirm <==> e.code == 0
            &&& stage is Elevate <==> e.code == 2
            &&& !(stage is Confirm || stage is Elevate) <==> e.code == 1
            &&& stage is Install || stage is Verify <==> e.guidance
            &&& stage is Confirm ==> e.message@ == "Setup cancelled by user."@
            &&& stage is Elevate ==> e.message@ == cause
            &&& stage is CheckSystemd ==> e.message@
                == "the server component supports systemd Linux only"@
            &&& stage is CheckPlatform ==> e.message@
                == "unsupported target platform: Linux x86_64 or aarch64 required"@
            &&& stage is ProbeDns ==> e.message@ == "DNS verification failed: "@ + cause
            &&& stage is MakePlan ==> e.message@ == "Setup cannot proceed: "@ + cause
            &&& stage is ReadRootCa ==> e.message@ == "Error reading root CA file: "@ + cause
            &&& stage is RegisterAccount ==> e.message@
                == "Failed to validate ACME credentials against "@ + directory@ + ": "@ + cause
            &&& stage is Install ==> e.message@ == "Installation failed: "@ + cause
            &&& stage is Verify ==> e.message@ == "Deployment verification failed: "@ + cause
        },
{
}

/// What is known at the time of the plan: what was gathered, found and probed. Nothing is
/// confirmed by then, and there is a binding where its key is given.
pub proof fn probes_tell_what_was_found(
    g: &GatheredConfig,
    existing: Option<ExistingInstall>,
    dns: DnsProbeResult,
    port_80: PortReachability,
    port_443: PortReachability,
    headless: bool,
    r: SystemProbe,
    changed: bool,
    upgrade: bool,
    fresh: bool,
)
    requires
        call_ensures(system_probe, (g, existing, dns, port_80, port_443, headless), r),
        call_ensures(is_up_to_date, (changed, upgrade), fresh),
    ensures
        r.systemd_present && r.supported_arch,
        r.target_domain@ == g.root_domain@,
        r.existing_install == existing,
        r.root_ips@ == dns.root_ips@,
        r.probe_ips@ == dns.probe_ips@,
        r.port_80 == port_80,
        r.port_443 == port_443,
        r.is_headless == headless,
        !r.confirmed_domain_change,
        r.skip_reachability_check == g.skip_reachability_check,
        r.db_path@ == g.db_path@,
        r.user@ == g.user@,
        r.prefix@ == g.prefix@,
        r.acme_provider@ == g.acme_provider@,
        r.has_eab <==> g.acme_eab_kid is Some,
        fresh <==> upgrade && !changed,
{
}

/// The account is registered with the given directory, or else that of the provider, or else
/// that of Let's Encrypt.
pub proof fn accounts_have_a_directory(
    directory: &Option<String>,
    provider: &str,
    r: String,
    known: Option<String>,
)
    requires
        call_ensures(registration_directory, (directory, provider), r),
        call_ensures(resolve_directory_url, (provider, None::<&str>), known),
    ensures
        *directory matches Some(d) ==> r@ == d@,
        directory is None ==> (known matches Some(k) ==> r@ == k@),
        directory is None && known is None ==> r@
            == "https://acme-v02.api.letsencrypt.org/directory"@,
{
}

/// The note says the text under the mark.
pub open spec fn says(n: Note, mark: Mark, words: Seq<char>) -> bool {
    n.mark == mark && n.text@ == words
}

proof fn notes_are_seen(v: Seq<Note>, i: int)
    requires
        0 <= i < v.len(),
    ensures
        note::notes_of(v).len() == v.len(),
        note::notes_of(v)[i] == v[i]@,
{
}

/// The HTTPS request never fails the setup: it is told that it succeeded, that the
/// certificate is not trusted here, what else went wrong, or that it was not made.
pub proof fn https_is_judged(
    outcome: &HttpsOutcome,
    domain: &str,
    r: Note,
    printed: &str,
    trimmed: &str,
    certificate: bool,
    ssl: bool,
)
    requires
        call_ensures(judge_https, (outcome, domain), r),
        *outcome matches HttpsOutcome::Succeeded(s) ==> printed@ == s@,
        *outcome matches HttpsOutcome::Failed(s) ==> printed@ == s@,
        call_ensures(text::trim, (printed,), trimmed),
        call_ensures(text::contains, (printed, "certificate"), certificate),
        call_ensures(text::contains, (printed, "SSL"), ssl),
    ensures
        *outcome is Succeeded ==> says(
            r,
            Mark::Done,
            "HTTPS GET https://"@ + domain@ + "/ succeeded (HTTP "@ + trimmed@ + ")"@,
        ),
        *outcome is Failed && (certificate || ssl) ==> says(
            r,
            Mark::Warning,
            "HTTPS endpoint reached; certificate verification failed against system roots (expected for staging/Pebble environments)"@,
        ),
        *outcome is Failed && !certificate && !ssl ==> says(
            r,
            Mark::Warning,
            "HTTPS request warning: "@ + trimmed@,
        ),
        *outcome is NoClient ==> says(
            r,
            Mark::Quiet,
            "curl command not found, skipping local HTTPS check"@,
        ),
{
}

/// A verification begins with the units, which are looked at up to thirty times.
pub proof fn verifications_begin(r: (VerifySession, Vec<Note>))
    requires
        call_ensures(VerifySession::new, (), r),
    ensures
        r.0@.action is CheckUnits && r.0@.tries_left == 30,
        r.1@.len() == 2,
        says(r.1@[0], Mark::Heading, "Verifying deployment..."@),
        says(r.1@[1], Mark::Busy, "Verifying service activation..."@),
{
    notes_are_seen(r.1@, 0);
    notes_are_seen(r.1@, 1);
}

/// A verification waits for both units, then for the certificate, then tries HTTPS. It fails
/// where the units are not active after the last look, or where no certificate is issued,
/// and nowhere else.
pub proof fn verifications_go_on(
    s: &mut VerifySession,
    event: &VerifyEvent,
    domain: &str,
    r: Result<Vec<Note>, VerifyFailure>,
)
    requires
        call_ensures(VerifySession::step, (s, event, domain), r),
    ensures
        ({
            let a = old(s)@;
            let b = final(s)@;
            let up = *event matches VerifyEvent::Units { socket, service } && socket && service;
            let issued = *event matches VerifyEvent::Certificate(code) && code == 0;
            &&& r is Err <==> (a.action is Pause && a.tries_left == 0) || (
            a.action is AwaitCertificate && !issued)
            &&& r is Err ==> b == a
            &&& r matches Err(e) ==> {
                &&& a.action is Pause ==> e.message@
                    == "weaver-server systemd units did not become active"@ && e.notes@.len() == 1
                    && says(e.notes@[0], Mark::Missed, "Services failed to activate"@)
                &&& a.action is AwaitCertificate ==> e.message@
                    == "certificate issuance failed or timed out for '"@ + domain@ + "'"@
                    && e.notes@.len() == 0
            }
            &&& r matches Ok(notes) ==> {
                &&& a.action is CheckUnits && up ==> b.action is AwaitCertificate && notes@.len() == 2
                    && says(notes@[0], Mark::Done, "Services active and running"@) && says(
                    notes@[1],
                    Mark::Busy,
                    "Waiting for certificate issuance for '"@ + domain@ + "' (timeout: 300s)..."@,
                )
                &&& a.action is CheckUnits && !up ==> b.action is Pause && notes@.len() == 0 && (
                a.tries_left > 0 ==> b.tries_left == a.tries_left - 1) && (a.tries_left == 0
                    ==> b.tries_left == 0)
                &&& a.action is Pause ==> b.action is CheckUnits && b.tries_left == a.tries_left
                    && notes@.len() == 0
                &&& a.action is AwaitCertificate ==> b.action is CheckHttps && notes@.len() == 1
                    && says(
                    notes@[0],
                    Mark::Busy,
                    "Testing HTTPS GET https://"@ + domain@ + "/..."@,
                )
                &&& a.action is CheckHttps ==> b.action is Finish
                &&& a.action is Finish ==> b.action is Finish && notes@.len() == 0
            }
        }),
{
    if let Ok(notes) = r {
        assert(note::notes_of(notes@).len() == notes@.len());
        if notes@.len() > 0 {
            notes_are_seen(notes@, 0);
        }
        if notes@.len() > 1 {
            notes_are_seen(notes@, 1);
        }
    }
    if let Err(e) = r {
        assert(note::notes_of(e.notes@).len() == e.notes@.len());
        if e.notes@.len() > 0 {
            notes_are_seen(e.notes@, 0);
        }
    }
}

/// The root page is requested over HTTPS, and only the status code is printed.
pub proof fn the_root_page_is_requested(domain: &str, r: Vec<String>)
    requires
        call_ensures(curl_args, (domain,), r),
    ensures
        text::texts(r@) == seq![
            "--fail"@,
            "--silent"@,
            "--show-error"@,
            "-o"@,
            "/dev/null"@,
            "-w"@,
            "%{http_code}"@,
            "https://"@ + domain@ + "/"@,
        ],
{
}

/// An uninstallation removes the units and the binary. It goes on to the data only where that
/// is to be purged, and where somebody can be asked, only after a yes; then the state
/// directory, the user and the group go.
pub proof fn data_is_purged_only_where_asked(
    action: UninstallAction,
    event: &UninstallEvent,
    o: &UninstallOptions,
    dir: &str,
    r: (UninstallAction, Vec<Note>),
    answer: &str,
    yes: bool,
)
    requires
        call_ensures(uninstall_next, (action, event, o, dir), r),
        *event matches UninstallEvent::Answer(Some(a)) ==> answer@ == a@ && call_ensures(
            says_yes,
            (answer,),
            yes,
        ),
    ensures
        ({
            let next = r.0;
            let there = *event matches UninstallEvent::Exists(b) && b;
            let agreed = (*event matches UninstallEvent::Answer(Some(_))) && yes;
            let past = action is RemoveBinary || (action is CheckBinary && !there);
            &&& action is DisableUnits ==> next is RemoveUnits
            &&& action is RemoveUnits ==> next is ReloadUnits
            &&& action is ReloadUnits ==> next is CheckBinary
            &&& action is CheckBinary && there ==> next is RemoveBinary
            &&& past && !o.purge ==> next is Finish
            &&& past && o.purge && o.headless ==> next is CheckState
            &&& past && o.purge && !o.headless ==> next is AskPurge
            &&& action is AskPurge && agreed ==> next is CheckState
            &&& action is AskPurge && !agreed ==> next is Finish
            &&& action is CheckState && there ==> next is RemoveState
            &&& action is CheckState && !there ==> next is RemoveUser
            &&& action is RemoveState ==> next is RemoveUser
            &&& action is RemoveUser ==> next is RemoveGroup
            &&& action is RemoveGroup || action is Finish ==> next is Finish
        }),
{
}

/// What an uninstallation says of each step.
pub proof fn uninstallations_are_told(
    action: UninstallAction,
    event: &UninstallEvent,
    o: &UninstallOptions,
    dir: &str,
    r: (UninstallAction, Vec<Note>),
    prefix: &str,
    binary: String,
    opening: Vec<Note>,
)
    requires
        call_ensures(uninstall_next, (action, event, o, dir), r),
        prefix@ == o.prefix@,
        call_ensures(text::join_path, (prefix, "weaver-server"), binary),
        call_ensures(uninstall_opening, (), opening),
    ensures
        ({
            let v = r.1@;
            let there = *event matches UninstallEvent::Exists(b) && b;
            let failed = *event matches UninstallEvent::Removed(Some(_));
            let gone = *event matches UninstallEvent::Succeeded(b) && b;
            let past = action is RemoveBinary || (action is CheckBinary && !there);
            &&& opening@.len() == 2
            &&& says(opening@[0], Mark::Heading, "Uninstalling Weaver Server..."@)
            &&& says(opening@[1], Mark::Busy, "Stopping and disabling systemd units..."@)
            &&& action is ReloadUnits ==> v.len() == 1 && says(
                v[0],
                Mark::Done,
                "Systemd units removed"@,
            )
            &&& past ==> v.len() > 0
            &&& action is CheckBinary && !there ==> says(
                v[0],
                Mark::Quiet,
                "Binary not present at "@ + binary@,
            )
            &&& action is RemoveBinary && !failed ==> says(
                v[0],
                Mark::Done,
                "Binary removed from "@ + binary@,
            )
            &&& action is RemoveBinary ==> (*event matches UninstallEvent::Removed(Some(e)) ==> says(
                v[0],
                Mark::Failed,
                "Failed to remove binary at "@ + binary@ + ": "@ + e@,
            ))
            &&& past && !o.purge ==> v.len() == 3 && says(
                v[1],
                Mark::Quiet,
                "Data directory preserved at "@ + dir@,
            ) && says(v[2], Mark::Quiet, "System user '"@ + o.user@ + "' preserved"@)
            &&& past && o.purge ==> v.len() == 4 && says(
                v[1],
                Mark::Alarm,
                "Warning: --purge specified"@,
            ) && says(
                v[2],
                Mark::Bare,
                "  This will permanently delete the state directory ("@ + dir@
                    + ") and delete user '"@ + o.user@ + "'."@,
            )
            &&& action is AskPurge && r.0 is Finish ==> v.len() == 1 && says(
                v[0],
                Mark::Busy,
                "Purge cancelled by user. Data preserved at "@ + dir@,
            )
            &&& action is RemoveState && !failed ==> v.len() == 1 && says(
                v[0],
                Mark::Done,
                "State directory purged ("@ + dir@ + ")"@,
            )
            &&& action is RemoveState ==> (*event matches UninstallEvent::Removed(Some(e)) ==> says(
                v[0],
                Mark::Failed,
                "Failed to remove state directory "@ + dir@ + ": "@ + e@,
            ))
            &&& action is RemoveUser && gone ==> v.len() == 1 && says(
                v[0],
                Mark::Done,
                "User '"@ + o.user@ + "' removed"@,
            )
            &&& action is RemoveUser && !gone ==> v.len() == 1 && says(
                v[0],
                Mark::Quiet,
                "User '"@ + o.user@ + "' was not removed or does not exist"@,
            )
        }),
{
    let v = r.1@;
    assert(note::notes_of(v).len() == v.len());
    assert(note::notes_of(opening@).len() == opening@.len());
    notes_are_seen(opening@, 0);
    notes_are_seen(opening@, 1);
    if v.len() > 0 {
        notes_are_seen(v, 0);
    }
    if v.len() > 1 {
        notes_are_seen(v, 1);
    }
    if v.len() > 2 {
        notes_are_seen(v, 2);
    }
}

/// The machine that gets its own challenge confirms it, and a confirmation of another is no
/// success; every failure names the target.
pub proof fn machines_confirm_their_challenge(
    token: &str,
    challenge: String,
    c: &str,
    payload: String,
    message: &str,
    answer: Option<String>,
    outcome: &ProbeOutcome,
    target: &str,
    r: Result<(), String>,
    asked: bool,
)
    requires
        call_ensures(challenge_of, (token,), challenge),
        c@ == challenge@,
        call_ensures(probe_payload, (c,), payload),
        call_ensures(respond, (message, c), answer),
        call_ensures(text::contains, (message, c), asked),
        call_ensures(judge_probe, (outcome, target, c), r),
    ensures
        challenge@ == "weaver-reachability-"@ + token@,
        payload@ == "WEAVER-PROBE "@ + challenge@ + "\r\n"@,
        answer is Some <==> asked,
        answer matches Some(a) ==> a@ == "WEAVER-CONFIRM "@ + challenge@ + "\r\n"@,
        r is Ok <==> (*outcome matches ProbeOutcome::Answer(a) && text::has(
            a@,
            "WEAVER-CONFIRM "@ + challenge@,
        )),
        r matches Err(e) ==> {
            &&& *outcome matches ProbeOutcome::ConnectFailed(w) ==> e@
                == "connection refused/failed to "@ + target@ + ": "@ + w@
            &&& *outcome is ConnectTimeout ==> e@ == "connection timed out to "@ + target@
            &&& *outcome matches ProbeOutcome::SendFailed(w) ==> e@
                == "failed to send challenge probe to "@ + target@ + ": "@ + w@
            &&& *outcome matches ProbeOutcome::ReadFailed(w) ==> e@
                == "failed to read challenge response from "@ + target@ + ": "@ + w@
            &&& *outcome is ReadTimeout ==> e@ == "timed out waiting for challenge response from "@
                + target@
            &&& *outcome is Answer ==> e@ == "response from "@ + target@
                + " did not contain valid self-challenge confirmation"@
        },
{
}

/// Where there is no address, or a port cannot be bound, nothing is probed and both ports
/// count as failed; otherwise they are probed.
pub proof fn ports_are_bound_first(
    addresses: usize,
    bind_80: Option<&str>,
    bind_443: Option<&str>,
    r: Option<(PortReachability, PortReachability)>,
    port: u16,
    occupant: Option<(u32, String)>,
    cause: &str,
    why: String,
)
    requires
        call_ensures(without_probing, (addresses, bind_80, bind_443), r),
        call_ensures(bind_failure, (port, occupant, cause), why),
    ensures
        r is None <==> addresses > 0 && bind_80 is None && bind_443 is None,
        r matches Some(pair) ==> {
            &&& pair.0 matches PortReachability::Failed(x)
            &&& pair.1 matches PortReachability::Failed(y)
            &&& addresses == 0 ==> x@ == "no public IPs provided"@ && y@ == "no public IPs provided"@
            &&& addresses > 0 ==> (bind_80 matches Some(e) ==> x@ == "failed to bind port 80: "@ + e@
                && y@ == "skipped due to port 80 bind failure"@)
            &&& addresses > 0 && bind_80 is None ==> (bind_443 matches Some(e) ==> x@
                == "skipped due to port 443 bind failure"@ && y@ == "failed to bind port 443: "@
                + e@)
        },
        occupant matches Some(p) ==> why@ == "port "@ + number::decimal(port as nat)
            + " is occupied by PID "@ + number::decimal(p.0 as nat) + " ('"@ + p.1@ + "')"@,
        occupant is None ==> why@ == "port "@ + number::decimal(port as nat) + " cannot be bound: "@
            + cause@,
{
}

/// The addresses of a port are probed one after the other until one fails; the port is
/// reached where none does.
pub proof fn addresses_are_probed_in_turn(
    c: &mut PortCheck,
    outcome: Result<(), String>,
    addresses: usize,
    fresh: PortCheck,
    done: PortCheck,
    next: Option<usize>,
    r: PortReachability,
)
    requires
        call_ensures(PortCheck::take, (c, outcome), ()),
        call_ensures(PortCheck::new, (addresses,), fresh),
        call_ensures(PortCheck::next, (&done,), next),
        next is None ==> call_ensures(PortCheck::result, (done,), r),
    ensures
        fresh@.addresses == addresses && fresh@.done == 0 && fresh@.failure is None,
        final(c)@.addresses == old(c)@.addresses,
        final(c)@.done == old(c)@.done + 1,
        outcome is Ok ==> final(c)@.failure is None,
        outcome matches Err(e) ==> final(c)@.failure == Some(e@),
        next is Some <==> done@.failure is None && done@.done < done@.addresses,
        next matches Some(i) ==> i == done@.done,
        next is None ==> (r is ReachedSelf <==> done@.failure is None),
        next is None ==> (r matches PortReachability::Failed(e) ==> done@.failure == Some(e@)),
        next is None ==> !(r is Skipped),
{
}

/// The line tells that a socket listens on the port, and its inode.
pub open spec fn tells_listener(line: Seq<char>, port: Seq<char>, inode: nat) -> bool {
    let w = text::words_of(line);
    &&& w.len() >= 10
    &&& w[3] == "0A"@
    &&& exists|front: Seq<char>| w[1] == #[trigger] (front + ":"@) + port
    &&& number::parsed_unsigned(w[9], u64::MAX as nat) == Some(inode)
}

proof fn suffix_is_behind(s: Seq<char>, p: Seq<char>)
    ensures
        (":"@ + p).is_suffix_of(s) <==> exists|front: Seq<char>| s == #[trigger] (front + ":"@) + p,
{
    let t = ":"@ + p;
    if t.is_suffix_of(s) {
        let front = s.subrange(0, s.len() - t.len());
        assert(s =~= (front + ":"@) + p) by {
            assert(s =~= front + s.subrange(s.len() - t.len(), s.len() as int));
        }
    }
    if exists|front: Seq<char>| s == #[trigger] (front + ":"@) + p {
        let front = choose|front: Seq<char>| s == #[trigger] (front + ":"@) + p;
        assert(s.subrange(s.len() - t.len(), s.len() as int) =~= t);
    }
}

/// The port in four hexadecimal capitals.
pub open spec fn is_port(s: Seq<char>, port: u16) -> bool {
    &&& s.len() == 4
    &&& capital_value(s[0]) * 4096 + capital_value(s[1]) * 256 + capital_value(s[2]) * 16
        + capital_value(s[3]) == port
    &&& forall|i: int| 0 <= i < 4 ==> 0 <= capital_value(#[trigger] s[i]) < 16
}

/// The value of a hexadecimal digit that is no small letter.
pub open spec fn capital_value(c: char) -> int {
    if '0' <= c <= '9' {
        c as u32 - 0x30
    } else if 'A' <= c <= 'F' {
        c as u32 - 0x41 + 10
    } else {
        99
    }
}

proof fn four_digits(p: nat)
    requires
        p < 65536,
    ensures
        p / 4096 < 16,
        p / 256 % 16 < 16,
        p / 16 % 16 < 16,
        p % 16 < 16,
        (p / 4096) * 4096 + (p / 256 % 16) * 256 + (p / 16 % 16) * 16 + p % 16 == p,
{
    assert(p == 16 * (p / 16) + p % 16);
    assert(p / 16 == 16 * (p / 256) + p / 16 % 16);
    assert(p / 256 == 16 * (p / 4096) + p / 256 % 16);
}

proof fn port_is_written(port: u16)
    ensures
        is_port(super::reachability::port_hex(port), port),
{
    let p = port as nat;
    let s = super::reachability::port_hex(port);
    four_digits(p);
    assert(capital_value(s[0]) == p / 4096) by {
        digit_is_written(p / 4096);
    }
    assert(capital_value(s[1]) == p / 256 % 16) by {
        digit_is_written(p / 256 % 16);
    }
    assert(capital_value(s[2]) == p / 16 % 16) by {
        digit_is_written(p / 16 % 16);
    }
    assert(capital_value(s[3]) == p % 16) by {
        digit_is_written(p % 16);
    }
    assert forall|i: int| 0 <= i < 4 implies 0 <= capital_value(#[trigger] s[i]) < 16 by {
        assert(i == 0 || i == 1 || i == 2 || i == 3);
    }
}

proof fn digit_is_written(n: nat)
    requires
        n < 16,
    ensures
        capital_value(super::reachability::upper_hex(n)) == n,
{
}

/// The sockets that listen on a port are those that a line behind the head of a table tells.
pub proof fn listeners_are_found(
    port: u16,
    tables: &Vec<String>,
    r: Vec<u64>,
    inode: u64,
) -> (digits: Seq<char>)
    requires
        call_ensures(find_listening_inodes, (port, tables), r),
    ensures
        is_port(digits, port),
        r@.contains(inode) <==> exists|t: int, i: int|
            #![trigger text::split_on(tables@[t]@, '\n')[i]]
            0 <= t < tables@.len() && 1 <= i < text::split_on(tables@[t]@, '\n').len()
                && tells_listener(text::split_on(tables@[t]@, '\n')[i], digits, inode as nat),
{
    let digits = super::reachability::port_hex(port);
    port_is_written(port);
    let all = text::texts(tables@);
    let n = inode as nat;
    let mapped = r@.map_values(|n: u64| n as nat);
    assert(super::reachability::inode_list(r@).contains(n) == r@.contains(inode)) by {
        if mapped.contains(n) {
            let k = choose|k: int| 0 <= k < mapped.len() && mapped[k] == n;
            assert(r@[k] == inode);
        }
        if r@.contains(inode) {
            let k = choose|k: int| 0 <= k < r@.len() && r@[k] == inode;
            assert(mapped[k] == n);
        }
    }
    assert(super::reachability::listening(all, port).contains(n)
        == super::reachability::is_listening(all, port, n));
    if super::reachability::is_listening(all, port, n) {
        let t = choose|t: int|
            0 <= t < all.len() && super::reachability::table_shows(#[trigger] all[t], port, n);
        assert(all[t] == tables@[t]@);
        let lines = text::split_on(tables@[t]@, '\n');
        let i = choose|i: int|
            1 <= i < lines.len() && super::reachability::listening_inode(
                #[trigger] lines[i],
                port,
            ) == Some(n);
        suffix_is_behind(text::words_of(lines[i])[1], digits);
        assert(tells_listener(text::split_on(tables@[t]@, '\n')[i], digits, n));
    }
    if exists|t: int, i: int|
        #![trigger text::split_on(tables@[t]@, '\n')[i]]
        0 <= t < tables@.len() && 1 <= i < text::split_on(tables@[t]@, '\n').len()
            && tells_listener(text::split_on(tables@[t]@, '\n')[i], digits, n) {
        let (t, i) = choose|t: int, i: int|
            #![trigger text::split_on(tables@[t]@, '\n')[i]]
            0 <= t < tables@.len() && 1 <= i < text::split_on(tables@[t]@, '\n').len()
                && tells_listener(text::split_on(tables@[t]@, '\n')[i], digits, n);
        let line = text::split_on(tables@[t]@, '\n')[i];
        suffix_is_behind(text::words_of(line)[1], digits);
        assert(all[t] == tables@[t]@);
        assert(super::reachability::listening_inode(line, port) == Some(n));
        assert(super::reachability::table_shows(all[t], port, n));
    }
    digits
}

/// A target is an address and a port, with brackets around an IPv6 address.
pub proof fn targets_are_written(ip: &IpAddress, port: u16, r: String, shown: String)
    requires
        call_ensures(target_of, (ip, port), r),
        call_ensures(IpAddress::to_text, (ip,), shown),
    ensures
        ip@ is V4 ==> r@ == shown@ + ":"@ + number::decimal(port as nat),
        ip@ is V6 ==> r@ == "["@ + shown@ + "]:"@ + number::decimal(port as nat),
{
}

} // verus!
