//! What the installation and the questions before it promise.
use super::gather::{prompt_of, Ask, Field, GatherSession};
use super::install::{
    account_directory, needs_binary, needs_units, state_directory, temporary_name, unit_files,
    useradd_args, InstallAction, InstallEvent, InstallFault, InstallResult, InstallSession,
};
use super::dns::generate_random_hex;
use super::interactive::{
    plan_lines, provider_choice, provider_menu, says_yes, validate_email, validate_fqdn,
    GatheredConfig,
};
use super::note::{self, Note};
use super::planner::Plan;
use super::reachability::{find_occupying_process, ProcessEntry};
use super::units::{render_service_unit, render_socket_unit, ServiceUnitParams};
use super::verify::{closing_summary, failure_guidance};
use crate::cert::providers::{requires_eab, resolve_directory_url};
use crate::cli::{effective_provider, SetupArgs};
use crate::config::Config;
use crate::control::client::{self, Span, Tone};
use crate::control::client_laws::{is_labelled, labelled_rows, lines_are_rows};
use crate::digest;
use crate::net::IpFacts;
use crate::number;
use crate::text;
use vstd::prelude::*;

verus! {

/// What went wrong, in front of the cause.
pub open spec fn fault_words(fault: InstallFault, ca: Option<String>) -> Seq<char> {
    match fault {
        InstallFault::RunUseradd => "failed to execute useradd: "@,
        InstallFault::FindCurrentExe => "cannot determine current exe: "@,
        InstallFault::CreatePrefix => "failed to create prefix directory: "@,
        InstallFault::CopyBinary => "failed to copy binary to temp path: "@,
        InstallFault::ReadBinaryMetadata => "failed to read metadata: "@,
        InstallFault::SetBinaryPermissions => "failed to set binary permissions: "@,
        InstallFault::RenameBinary => "failed to rename binary atomically: "@,
        InstallFault::CreateStateDir => "failed to create state directory: "@,
        InstallFault::ReadStateMetadata => "failed to read state dir metadata: "@,
        InstallFault::SetStatePermissions => "failed to set state dir permissions: "@,
        InstallFault::OpenDatabase => "failed to open database: "@,
        InstallFault::ReadRootCa => "failed to read root CA at "@ + (match ca {
            Some(p) => p@,
            None => Seq::empty(),
        }) + ": "@,
        InstallFault::SaveConfig => "failed to save config: "@,
        InstallFault::SaveAccount => "failed to store pre-registered ACME credentials: "@,
        InstallFault::WriteSocketUnit => "failed to write socket unit: "@,
        InstallFault::WriteServiceUnit => "failed to write service unit: "@,
        InstallFault::RunEnable => "failed to enable and start services: "@,
    }
}

/// An installation fails where an action fails, the user cannot be created or the services do
/// not start. Otherwise it goes on, does only what is missing or differs, and notes whether
/// it changed the host.
pub proof fn installations_go_on(
    s: &mut InstallSession,
    event: InstallEvent,
    plan: &Plan,
    g: &GatheredConfig,
    account: bool,
    dir: &str,
    r: Result<Vec<Note>, String>,
    binary: bool,
    units: bool,
)
    requires
        call_ensures(InstallSession::step, (s, event, plan, g, account, dir), r),
        event matches InstallEvent::Binaries { current, installed } ==> call_ensures(
            needs_binary,
            (&current, &installed),
            binary,
        ),
        event matches InstallEvent::Units { socket, service } ==> call_ensures(
            needs_units,
            (&socket, &service, plan),
            units,
        ),
    ensures
        ({
            let a = old(s)@;
            let b = final(s)@;
            let found = event matches InstallEvent::Found(x) && x;
            let ran = event matches InstallEvent::Ran { success, .. } && success;
            let same_binary = event is Binaries && !binary;
            let same_units = event is Units && !units;
            let makes = a.action is CreateGroup || a.action is CreateUser
                || a.action is InstallBinary || a.action is CreateState || a.action is WriteUnits;
            &&& event matches InstallEvent::Failed { fault, cause } ==> (r matches Err(e) && e@
                == fault_words(fault, g.acme_root_ca_path) + cause@)
            &&& r is Err <==> event is Failed || (a.action is CreateUser && !ran) || (
            a.action is EnableUnits && !ran)
            &&& r is Err ==> b == a
            &&& r is Err && event !is Failed && a.action is EnableUnits ==> r->Err_0@
                == "failed to start weaver-server services"@
            &&& r is Ok ==> {
                &&& b.changed == (a.changed || makes)
                &&& a.action is CheckGroup && found ==> b.action is CheckUser
                &&& a.action is CheckGroup && !found ==> b.action is CreateGroup
                &&& a.action is CreateGroup ==> b.action is CheckUser
                &&& a.action is CheckUser && found ==> b.action is ReadBinaries
                &&& a.action is CheckUser && !found ==> b.action is CheckUserGroup
                &&& a.action is CheckUserGroup ==> b.action == (InstallAction::CreateUser {
                    in_group: found,
                })
                &&& a.action is CreateUser ==> b.action is ReadBinaries
                &&& a.action is ReadBinaries && same_binary ==> b.action is CheckState
                &&& a.action is ReadBinaries && !same_binary ==> b.action is InstallBinary
                &&& a.action is InstallBinary ==> b.action is CheckState
                &&& a.action is CheckState && found ==> b.action is OwnState
                &&& a.action is CheckState && !found ==> b.action is CreateState
                &&& a.action is CreateState || a.action is OwnState ==> b.action is CheckService
                &&& a.action is CheckService && found ==> b.action is StopService
                &&& a.action is CheckService && !found ==> b.action is OpenStore
                &&& a.action is StopService ==> b.action is OpenStore
                &&& a.action is OpenStore && g.acme_root_ca_path is Some ==> b.action is ReadRootCa
                &&& a.action is OpenStore && g.acme_root_ca_path is None ==> b.action is SaveConfig
                &&& a.action is ReadRootCa ==> b.action is SaveConfig
                &&& a.action is SaveConfig && account ==> b.action is SaveAccount
                &&& a.action is SaveConfig && !account ==> b.action is OwnDatabase
                &&& a.action is SaveAccount ==> b.action is OwnDatabase
                &&& a.action is OwnDatabase ==> b.action is ReadUnits
                &&& a.action is ReadUnits && same_units ==> b.action is EnableUnits
                &&& a.action is ReadUnits && !same_units ==> b.action is WriteUnits
                &&& a.action is WriteUnits ==> b.action is EnableUnits
                &&& a.action is EnableUnits || a.action is Finish ==> b.action is Finish
                &&& a.action is ReadRootCa ==> (event matches InstallEvent::RootCa(pem)
                    ==> b.root_ca == Some(pem@))
                &&& !(a.action is ReadRootCa && event is RootCa) ==> b.root_ca == a.root_ca
            }
        }),
{
}

/// An installation begins with the group, and has changed nothing.
pub proof fn installations_begin(r: (InstallSession, Vec<Note>))
    requires
        call_ensures(InstallSession::new, (), r),
    ensures
        r.0@.action is CheckGroup && !r.0@.changed && r.0@.root_ca is None,
        r.1@.len() == 1 && r.1@[0].text@ == "Executing installation..."@ && r.1@[0].mark is Heading,
{
    let v = note::notes_of(r.1@);
    assert(v.len() == r.1@.len());
    assert(v[0] == r.1@[0]@);
}

/// The configuration that is saved has what was gathered, the usual ports at every address,
/// and the certificate that was read; the result tells where things are.
pub proof fn gathered_values_are_configured(
    s: &InstallSession,
    g: &GatheredConfig,
    c: Config,
    plan: &Plan,
    r: InstallResult,
    prefix: &str,
    binary: String,
)
    requires
        call_ensures(InstallSession::config, (s, g), c),
        call_ensures(InstallSession::result, (s, plan), r),
        prefix@ == plan.prefix@,
        call_ensures(text::join_path, (prefix, "weaver-server"), binary),
    ensures
        c.root_domain@ == g.root_domain@,
        c.admin_email@ == g.admin_email@,
        c.acme_provider@ == g.acme_provider@,
        c.listen_http.port == 80 && c.listen_https.port == 443,
        c.listen_http.ip@ == IpFacts::V6(seq![0, 0, 0, 0, 0, 0, 0, 0]),
        c.listen_https.ip@ == IpFacts::V6(seq![0, 0, 0, 0, 0, 0, 0, 0]),
        c.control_socket@ == "/run/weaver/control.sock"@,
        text::opt(c.acme_directory) == text::opt(g.acme_directory),
        text::opt(c.acme_eab_kid) == text::opt(g.acme_eab_kid),
        text::opt(c.acme_eab_hmac) == text::opt(g.acme_eab_hmac),
        text::opt(c.acme_root_ca_pem) == s@.root_ca,
        c.acme_fallback_providers@.len() == 0,
        r.changed == s@.changed,
        r.binary_path@ == binary@,
        r.db_path@ == plan.db_path@,
{
}

/// A binary is installed where none is or where the digests differ, and the units are written
/// where they are not what they should be.
pub proof fn differences_are_installed(
    current: &Option<Vec<u8>>,
    installed: &Option<Vec<u8>>,
    r: bool,
    socket: &Option<String>,
    service: &Option<String>,
    plan: &Plan,
    q: bool,
    files: (String, String),
)
    requires
        call_ensures(needs_binary, (current, installed), r),
        call_ensures(needs_units, (socket, service, plan), q),
        call_ensures(unit_files, (plan,), files),
    ensures
        installed is None ==> r,
        current is None && installed is Some ==> r,
        *current matches Some(x) ==> (*installed matches Some(y) ==> (r <==> digest::sha256(x@)
            != digest::sha256(y@))),
        q <==> !(text::opt(*socket) == Some(files.0@) && text::opt(*service) == Some(files.1@)),
{
}

/// The service unit runs the installed binary with the database, as the user, and the socket
/// unit is fixed.
pub proof fn units_are_rendered(plan: &Plan, files: (String, String), socket: String, p: &ServiceUnitParams<'_>, service: String)
    requires
        call_ensures(unit_files, (plan,), files),
        call_ensures(render_socket_unit, (), socket),
        call_ensures(render_service_unit, (p,), service),
        p.prefix@ == plan.prefix@,
        p.db_path@ == plan.db_path@,
        p.user@ == plan.user@,
    ensures
        files.0@ == socket@,
        files.1@ == service@,
{
}

/// The line stands in the text of a unit.
pub open spec fn has_line(unit: Seq<char>, line: Seq<char>) -> bool {
    text::has(unit, line + "\n"@)
}

proof fn lines_stand(lines: Seq<Seq<char>>, i: int)
    requires
        0 <= i < lines.len(),
    ensures
        has_line(super::units::unit_text(lines), lines[i]),
    decreases lines.len(),
{
    reveal_strlit("\n");
    assert("\n"@ =~= seq!['\n']);
    let all = super::units::unit_text(lines);
    let part = lines[i] + "\n"@;
    let head = lines[0] + seq!['\n'];
    let rest = lines.subrange(1, lines.len() as int);
    let tail = super::units::unit_text(rest);
    if i == 0 {
        assert(all.subrange(0, part.len() as int) =~= part);
        assert(text::stands_at(all, part, 0));
    } else {
        lines_stand(rest, i - 1);
        let at = choose|at: int| text::stands_at(tail, part, at);
        let from = head.len() + at;
        assert(all.subrange(from, from + part.len()) =~= tail.subrange(at, at + part.len()));
        assert(text::stands_at(all, part, from));
    }
}

/// These lines stand in every service unit.
pub proof fn service_units_say(p: &ServiceUnitParams<'_>, r: String, dir: &str)
    requires
        call_ensures(render_service_unit, (p,), r),
        call_ensures(text::trim_trailing, (p.prefix, '/'), dir),
    ensures
        has_line(r@, "User="@ + p.user@),
        has_line(r@, "Group="@ + p.user@),
        has_line(
            r@,
            "ExecStart="@ + dir@ + "/weaver-server run --db "@ + p.db_path@,
        ),
        has_line(r@, "Type=notify"@),
        has_line(r@, "Requires=weaver-server.socket"@),
        has_line(r@, "Restart=always"@),
        has_line(r@, "CapabilityBoundingSet="@),
        has_line(r@, "NoNewPrivileges=yes"@),
        has_line(r@, "ProtectSystem=strict"@),
        has_line(r@, "ProtectHome=yes"@),
        has_line(r@, "PrivateTmp=yes"@),
        has_line(r@, "PrivateDevices=yes"@),
        has_line(r@, "MemoryDenyWriteExecute=yes"@),
        has_line(r@, "ReadWritePaths=/var/lib/weaver"@),
        has_line(r@, "WantedBy=multi-user.target"@),
{
    let lines = super::units::service_lines(p.prefix@, p.db_path@, p.user@);
    lines_stand(lines, 3);
    lines_stand(lines, 8);
    lines_stand(lines, 9);
    lines_stand(lines, 10);
    lines_stand(lines, 11);
    lines_stand(lines, 12);
    lines_stand(lines, 17);
    lines_stand(lines, 18);
    lines_stand(lines, 19);
    lines_stand(lines, 20);
    lines_stand(lines, 21);
    lines_stand(lines, 22);
    lines_stand(lines, 29);
    lines_stand(lines, 32);
    lines_stand(lines, 36);
}

/// The user is a system user without a home or a shell, in its group where that is there.
pub proof fn users_are_created(
    user: &str,
    grouped: bool,
    r: Vec<String>,
    pid: u32,
    tmp: String,
    parent: Option<&str>,
    dir: String,
    given: Option<&str>,
    provider: &str,
    account: Option<String>,
    known: Option<String>,
)
    requires
        call_ensures(useradd_args, (user, grouped), r),
        call_ensures(temporary_name, (pid,), tmp),
        call_ensures(state_directory, (parent,), dir),
        call_ensures(account_directory, (given, provider), account),
        call_ensures(resolve_directory_url, (provider, None::<&str>), known),
    ensures
        grouped ==> text::texts(r@) == seq![
            "--system"@,
            "--no-create-home"@,
            "--shell"@,
            "/usr/sbin/nologin"@,
            "-g"@,
            user@,
            user@,
        ],
        !grouped ==> text::texts(r@) == seq![
            "--system"@,
            "--no-create-home"@,
            "--shell"@,
            "/usr/sbin/nologin"@,
            user@,
        ],
        tmp@ == "weaver-server.tmp."@ + number::decimal(pid as nat),
        parent matches Some(p) ==> dir@ == p@,
        parent is None ==> dir@ == "/var/lib/weaver"@,
        given matches Some(d) ==> text::opt(account) == Some(d@),
        given is None ==> text::opt(account) == text::opt(known),
{
}

/// A value that is given is taken where it will do, refused where it will not, and asked for
/// where there is none; an answer that will not do is complained of.
pub proof fn given_values_are_checked(
    argument: &Option<String>,
    value: &str,
    domain: Result<Option<String>, String>,
    email: Result<Option<String>, String>,
    good_domain: bool,
    good_email: bool,
    domain_complaint: Option<&'static str>,
    email_complaint: Option<&'static str>,
)
    requires
        call_ensures(Field::given, (Field::RootDomain, argument), domain),
        call_ensures(Field::given, (Field::Email, argument), email),
        *argument matches Some(v) ==> value@ == v@,
        call_ensures(validate_fqdn, (value,), good_domain),
        call_ensures(validate_email, (value,), good_email),
        call_ensures(Field::complaint, (Field::RootDomain, value), domain_complaint),
        call_ensures(Field::complaint, (Field::Email, value), email_complaint),
    ensures
        argument is None ==> (domain matches Ok(None)) && (email matches Ok(None)),
        argument is Some && good_domain ==> (domain matches Ok(Some(d)) && d@ == value@),
        argument is Some && !good_domain ==> (domain matches Err(e) && e@
            == "Error: Invalid root domain '"@ + value@ + "'. Must be a valid FQDN."@),
        argument is Some && good_email ==> (email matches Ok(Some(d)) && d@ == value@),
        argument is Some && !good_email ==> (email matches Err(e) && e@
            == "Error: Invalid email '"@ + value@ + "'."@),
        good_domain <==> domain_complaint is None,
        good_email <==> email_complaint is None,
        domain_complaint matches Some(s) ==> s@
            == "Invalid root domain. Please provide a valid FQDN (e.g. example.com)."@,
        email_complaint matches Some(s) ==> s@
            == "Invalid email. Please provide a valid email address."@,
{
}

/// Without anybody to ask, the domain, the address and what the provider demands have to be
/// on the command line, and be valid.
pub proof fn headless_setups_are_complete(
    s: &GatherSession,
    r: Result<(), String>,
    domain: &str,
    email: &str,
    provider: &str,
    good_domain: bool,
    good_email: bool,
    eab: bool,
)
    requires
        call_ensures(GatherSession::check_headless, (s,), r),
        s@.root_domain matches Some(d) ==> domain@ == d,
        s@.email matches Some(e) ==> email@ == e,
        call_ensures(GatherSession::provider, (s,), provider),
        call_ensures(validate_fqdn, (domain,), good_domain),
        call_ensures(validate_email, (email,), good_email),
        call_ensures(requires_eab, (provider,), eab),
    ensures
        ({
            let bound = s@.kid is Some && s@.hmac is Some;
            &&& r is Ok <==> s@.root_domain is Some && s@.email is Some && good_domain && good_email
                && (!eab || bound)
            &&& r matches Err(e) ==> {
                &&& s@.root_domain is None ==> e@
                    == "Error: Missing required option --root-domain in headless mode"@
                &&& s@.root_domain is Some && s@.email is None ==> e@
                    == "Error: Missing required option --email in headless mode"@
                &&& s@.root_domain is Some && s@.email is Some ==> {
                    &&& !good_domain ==> e@ == "Error: Invalid root domain '"@ + domain@
                        + "'. Must be a valid FQDN."@
                    &&& good_domain && !good_email ==> e@ == "Error: Invalid email '"@ + email@
                        + "'."@
                    &&& good_domain && good_email ==> e@ == "Error: Provider '"@ + provider@
                        + "' requires both --acme-eab-kid and --acme-eab-hmac in headless mode"@
                }
            }
        }),
{
    reveal_strlit("' requires both ");
    reveal_strlit("--acme-eab-kid and --acme-eab-hmac");
    reveal_strlit(" in headless mode");
    reveal_strlit("' requires both --acme-eab-kid and --acme-eab-hmac in headless mode");
    if let Err(e) = r {
        let head = "Error: Provider '"@ + provider@;
        assert(head + "' requires both "@ + "--acme-eab-kid and --acme-eab-hmac"@
            + " in headless mode"@ =~= head
            + "' requires both --acme-eab-kid and --acme-eab-hmac in headless mode"@);
    }
}

/// What the command line gives is what the questions begin with.
pub proof fn sessions_begin_with_the_arguments(
    args: &SetupArgs,
    hmac: Option<String>,
    s: GatherSession,
    provider: &str,
    effective: String,
)
    requires
        call_ensures(GatherSession::new, (args, hmac), s),
        provider@ == args.acme_provider@,
        call_ensures(effective_provider, (provider, args.acme_directory is Some), effective),
    ensures
        s@.ask is Nothing,
        s@.root_domain == text::opt(args.root_domain),
        s@.email == text::opt(args.email),
        s@.provider == effective@,
        s@.directory == text::opt(args.acme_directory),
        s@.kid == text::opt(args.acme_eab_kid),
        s@.hmac == text::opt(hmac),
        s@.root_ca == text::opt(args.acme_root_ca),
{
}

/// An answer is kept for what was asked, and nothing else changes but the question. An answer
/// that will not do is asked for again. The provider is asked for only where nothing has
/// chosen one, its binding only where it needs one or a custom one is said to.
pub proof fn questions_follow_the_answers(
    s: &mut GatherSession,
    answer: &str,
    r: Result<Option<&'static str>, String>,
    good_domain: bool,
    good_email: bool,
    chosen: Option<&'static str>,
    yes: bool,
    provider: &str,
    eab: bool,
)
    requires
        call_ensures(GatherSession::answer, (s, answer), r),
        call_ensures(validate_fqdn, (answer,), good_domain),
        call_ensures(validate_email, (answer,), good_email),
        call_ensures(provider_choice, (answer,), chosen),
        call_ensures(says_yes, (answer,), yes),
        provider@ == old(s)@.provider,
        call_ensures(requires_eab, (provider,), eab),
    ensures
        ({
            let a = old(s)@;
            let b = final(s)@;
            let asks = a.kid is None && a.directory is None && a.provider == "letsencrypt"@;
            let accepted = !(a.ask is RootDomain && !good_domain) && !(a.ask is Email
                && !good_email) && !(a.ask is Provider && chosen is None);
            &&& r matches Ok(said) ==> (said is None <==> accepted)
            &&& r is Ok && !accepted ==> b == a
            &&& r is Ok && accepted ==> {
                &&& a.ask is RootDomain ==> b.root_domain == Some(answer@)
                &&& a.ask !is RootDomain ==> b.root_domain == a.root_domain
                &&& a.ask is Email ==> b.email == Some(answer@)
                &&& a.ask !is Email ==> b.email == a.email
                &&& a.ask is Provider ==> b.provider == chosen->0@
                &&& a.ask !is Provider ==> b.provider == a.provider
                &&& a.ask is Directory ==> b.directory == Some(answer@)
                &&& a.ask !is Directory ==> b.directory == a.directory
                &&& a.ask is EabKid ==> b.kid == Some(answer@)
                &&& a.ask !is EabKid ==> b.kid == a.kid
                &&& a.ask is EabHmac ==> b.hmac == Some(answer@)
                &&& a.ask !is EabHmac ==> b.hmac == a.hmac
                &&& a.ask is RootCa && answer@.len() > 0 ==> b.root_ca == Some(answer@)
                &&& a.ask !is RootCa || answer@.len() == 0 ==> b.root_ca == a.root_ca
                &&& a.ask is RootDomain && a.email is None ==> b.ask is Email
                &&& (a.ask is RootDomain && a.email is Some) || a.ask is Email ==> (asks
                    <==> b.ask is Provider) && (!asks <==> b.ask is Nothing)
                &&& a.ask is Provider && chosen->0@ == "custom"@ ==> b.ask is Directory
                &&& a.ask is Directory && eab ==> b.ask is EabKid
                &&& a.ask is Directory && !eab && a.provider == "custom"@ ==> b.ask is NeedsEab
                &&& a.ask is EabKid ==> b.ask is EabHmac
                &&& a.ask is EabHmac && eab ==> b.ask is Nothing
                &&& a.ask is EabHmac && !eab ==> b.ask is RootCa
                &&& a.ask is NeedsEab && yes ==> b.ask is EabKid
                &&& a.ask is NeedsEab && !yes ==> b.ask is RootCa
                &&& a.ask is RootCa || a.ask is Nothing ==> b.ask is Nothing
            }
        }),
{
}

/// What was gathered is what is used, once the domain and the address are there.
pub proof fn gathered_values_are_used(
    s: GatherSession,
    args: &SetupArgs,
    db: &str,
    r: Option<GatheredConfig>,
)
    requires
        call_ensures(GatherSession::finish, (s, args, db), r),
    ensures
        r is Some <==> s@.root_domain is Some && s@.email is Some,
        r matches Some(g) ==> {
            &&& s@.root_domain == Some(g.root_domain@)
            &&& s@.email == Some(g.admin_email@)
            &&& g.acme_provider@ == s@.provider
            &&& text::opt(g.acme_directory) == s@.directory
            &&& text::opt(g.acme_eab_kid) == s@.kid
            &&& text::opt(g.acme_eab_hmac) == s@.hmac
            &&& text::opt(g.acme_root_ca_path) == s@.root_ca
            &&& g.db_path@ == db@
            &&& g.user@ == args.user@
            &&& g.prefix@ == args.prefix@
            &&& g.skip_reachability_check == args.skip_reachability_check
        },
{
}

/// Each question has its words; the provider and the binding have a default answer.
pub proof fn questions_are_asked(ask: Ask, r: (&'static str, Option<&'static str>))
    requires
        call_ensures(prompt_of, (ask,), r),
    ensures
        ask is RootDomain ==> r.0@ == "Root domain"@,
        ask is Email ==> r.0@ == "Admin email"@,
        ask is Provider ==> r.0@ == "Select provider"@,
        ask is Directory ==> r.0@ == "ACME directory URL"@,
        ask is EabKid ==> r.0@ == "EAB Key Identifier (KID)"@,
        ask is EabHmac ==> r.0@ == "EAB HMAC Key"@,
        ask is NeedsEab ==> r.0@ == "Does this directory require EAB? [y/N]"@,
        ask is RootCa ==> r.0@ == "Custom Root CA PEM path (optional, press enter to skip)"@,
        ask is Provider ==> r.1 is Some && r.1->0@ == "1"@,
        ask is NeedsEab ==> r.1 is Some && r.1->0@ == "n"@,
        !(ask is Provider || ask is NeedsEab) ==> r.1 is None,
{
}

/// The line is one text.
pub open spec fn is_single(l: Seq<Span>, words: Seq<char>, tone: Tone) -> bool {
    l.len() == 1 && l[0].text@ == words && l[0].tone == tone
}

/// The plan that is confirmed shows the domain, the account, and what goes where; the
/// directory is shown where one was given.
#[verifier::rlimit(60)]
pub proof fn plans_are_shown(c: &GatheredConfig, v: Vec<Vec<Span>>, prefix: &str, binary: String)
    requires
        call_ensures(plan_lines, (c,), v),
        prefix@ == c.prefix@,
        call_ensures(text::join_path, (prefix, "weaver-server"), binary),
    ensures
        ({
            let at: int = if c.acme_directory is Some {
                7
            } else {
                6
            };
            &&& v@.len() == at + 9
            &&& is_single(v@[0]@, "Weaver Server Setup Plan"@, Tone::CyanBold)
            &&& v@[1]@.len() == 0
            &&& is_single(v@[2]@, "Domain & ACME"@, Tone::WhiteBold)
            &&& is_labelled(v@[3]@, "Root Domain:"@, c.root_domain@, Tone::GreenBold)
            &&& is_labelled(v@[4]@, "Admin Email:"@, c.admin_email@, Tone::White)
            &&& is_labelled(v@[5]@, "Provider:"@, c.acme_provider@, Tone::Yellow)
            &&& c.acme_directory matches Some(d) ==> is_labelled(
                v@[6]@,
                "Directory:"@,
                d@,
                Tone::DarkCyan,
            )
            &&& c.acme_eab_kid is Some ==> is_labelled(
                v@[at]@,
                "EAB Account:"@,
                "configured (registration included)"@,
                Tone::Green,
            )
            &&& c.acme_eab_kid is None ==> is_labelled(
                v@[at]@,
                "EAB Account:"@,
                "none"@,
                Tone::Grey,
            )
            &&& v@[at + 1]@.len() == 0
            &&& is_single(v@[at + 2]@, "Host & Services"@, Tone::WhiteBold)
            &&& is_labelled(v@[at + 3]@, "Binary Path:"@, binary@, Tone::Plain)
            &&& is_labelled(v@[at + 4]@, "Database:"@, c.db_path@, Tone::Plain)
            &&& is_labelled(v@[at + 5]@, "System User:"@, c.user@ + ":"@ + c.user@, Tone::Plain)
            &&& is_labelled(v@[at + 6]@, "Sockets:"@, "[::]:80, [::]:443"@, Tone::Plain)
            &&& is_labelled(
                v@[at + 7]@,
                "Systemd Units:"@,
                "weaver-server.socket, weaver-server.service"@,
                Tone::Plain,
            )
            &&& v@[at + 8]@.len() == 0
        }),
{
    let lines = client::lines_of(v@);
    let at: int = if c.acme_directory is Some {
        7
    } else {
        6
    };
    assert(lines.len() == v@.len());
    assert(lines.len() == at + 9);
    lines_are_rows(v@, 0);
    assert(v@[0]@[0]@ == lines[0][0]);
    lines_are_rows(v@, 1);
    lines_are_rows(v@, 2);
    assert(v@[2]@[0]@ == lines[2][0]);
    lines_are_rows(v@, 3);
    assert(lines[3].take(4) =~= lines[3]);
    labelled_rows(v@[3]@, "Root Domain:"@, client::styled(c.root_domain@, Tone::GreenBold));
    lines_are_rows(v@, 4);
    assert(lines[4].take(4) =~= lines[4]);
    labelled_rows(v@[4]@, "Admin Email:"@, client::styled(c.admin_email@, Tone::White));
    lines_are_rows(v@, 5);
    assert(lines[5].take(4) =~= lines[5]);
    labelled_rows(v@[5]@, "Provider:"@, client::styled(c.acme_provider@, Tone::Yellow));
    if let Some(d) = c.acme_directory {
        lines_are_rows(v@, 6);
        assert(lines[6].take(4) =~= lines[6]);
        labelled_rows(v@[6]@, "Directory:"@, client::styled(d@, Tone::DarkCyan));
    }
    let eab = if c.acme_eab_kid is Some {
        client::styled("configured (registration included)"@, Tone::Green)
    } else {
        client::styled("none"@, Tone::Grey)
    };
    lines_are_rows(v@, at);
    assert(lines[at].take(4) =~= lines[at]);
    labelled_rows(v@[at]@, "EAB Account:"@, eab);
    lines_are_rows(v@, at + 1);
    lines_are_rows(v@, at + 2);
    assert(v@[at + 2]@[0]@ == lines[at + 2][0]);
    lines_are_rows(v@, at + 3);
    assert(lines[at + 3].take(4) =~= lines[at + 3]);
    labelled_rows(v@[at + 3]@, "Binary Path:"@, client::styled(binary@, Tone::Plain));
    lines_are_rows(v@, at + 4);
    assert(lines[at + 4].take(4) =~= lines[at + 4]);
    labelled_rows(v@[at + 4]@, "Database:"@, client::styled(c.db_path@, Tone::Plain));
    lines_are_rows(v@, at + 5);
    assert(lines[at + 5].take(4) =~= lines[at + 5]);
    labelled_rows(v@[at + 5]@, "System User:"@, client::styled(c.user@ + ":"@ + c.user@, Tone::Plain));
    lines_are_rows(v@, at + 6);
    assert(lines[at + 6].take(4) =~= lines[at + 6]);
    labelled_rows(v@[at + 6]@, "Sockets:"@, client::styled("[::]:80, [::]:443"@, Tone::Plain));
    lines_are_rows(v@, at + 7);
    assert(lines[at + 7].take(4) =~= lines[at + 7]);
    labelled_rows(v@[at + 7]@, "Systemd Units:"@, client::styled("weaver-server.socket, weaver-server.service"@, Tone::Plain));
    lines_are_rows(v@, at + 8);
}

/// After a failure it is told where to look.
pub proof fn failures_come_with_guidance(v: Vec<Vec<Span>>)
    requires
        call_ensures(failure_guidance, (), v),
    ensures
        v@.len() == 6,
        v@[0]@.len() == 0,
        is_single(v@[1]@, "Troubleshooting:"@, Tone::RedBold),
        is_single(v@[2]@, "  Inspect daemon logs with:"@, Tone::Plain),
        is_single(
            v@[3]@,
            "    journalctl -u weaver-server -n 50 --no-pager"@,
            Tone::YellowBold,
        ),
        is_single(v@[4]@, "  Check service status with:"@, Tone::Plain),
        is_single(v@[5]@, "    systemctl status weaver-server.service"@, Tone::YellowBold),
{
    let lines = client::lines_of(v@);
    assert(lines.len() == v@.len());
    lines_are_rows(v@, 0);
    lines_are_rows(v@, 1);
    assert(v@[1]@[0]@ == lines[1][0]);
    lines_are_rows(v@, 2);
    assert(v@[2]@[0]@ == lines[2][0]);
    lines_are_rows(v@, 3);
    assert(v@[3]@[0]@ == lines[3][0]);
    lines_are_rows(v@, 4);
    assert(v@[4]@[0]@ == lines[4][0]);
    lines_are_rows(v@, 5);
    assert(v@[5]@[0]@ == lines[5][0]);
}

/// After a success it is told where the relay is and how it is managed.
pub proof fn successes_are_summarized(domain: &str, v: Vec<Vec<Span>>)
    requires
        call_ensures(closing_summary, (domain,), v),
    ensures
        v@.len() == 12,
        v@[0]@.len() == 0 && v@[2]@.len() == 0 && v@[7]@.len() == 0 && v@[11]@.len() == 0,
        is_single(v@[1]@, "Weaver Server Setup Complete"@, Tone::GreenBold),
        is_single(v@[3]@, "Service Status"@, Tone::WhiteBold),
        is_labelled(v@[4]@, "Relay URL:"@, "https://"@ + domain@, Tone::CyanBold),
        is_labelled(v@[5]@, "Status:"@, "Active & Serving"@, Tone::GreenBold),
        is_labelled(v@[6]@, "Sockets:"@, "[::]:80, [::]:443"@, Tone::Plain),
        is_single(v@[8]@, "Management"@, Tone::WhiteBold),
        is_labelled(
            v@[9]@,
            "Service Control:"@,
            "systemctl status weaver-server.service"@,
            Tone::Yellow,
        ),
        is_labelled(v@[10]@, "Live Logs:"@, "journalctl -u weaver-server -f"@, Tone::Yellow),
{
    let lines = client::lines_of(v@);
    assert(lines.len() == v@.len());
    lines_are_rows(v@, 0);
    lines_are_rows(v@, 2);
    lines_are_rows(v@, 7);
    lines_are_rows(v@, 11);
    lines_are_rows(v@, 1);
    assert(v@[1]@[0]@ == lines[1][0]);
    lines_are_rows(v@, 3);
    assert(v@[3]@[0]@ == lines[3][0]);
    lines_are_rows(v@, 8);
    assert(v@[8]@[0]@ == lines[8][0]);
    lines_are_rows(v@, 4);
    assert(lines[4].take(4) =~= lines[4]);
    labelled_rows(v@[4]@, "Relay URL:"@, client::styled("https://"@ + domain@, Tone::CyanBold));
    lines_are_rows(v@, 5);
    assert(lines[5].take(4) =~= lines[5]);
    labelled_rows(v@[5]@, "Status:"@, client::styled("Active & Serving"@, Tone::GreenBold));
    lines_are_rows(v@, 6);
    assert(lines[6].take(4) =~= lines[6]);
    labelled_rows(v@[6]@, "Sockets:"@, client::styled("[::]:80, [::]:443"@, Tone::Plain));
    lines_are_rows(v@, 9);
    assert(lines[9].take(4) =~= lines[9]);
    labelled_rows(v@[9]@, "Service Control:"@, client::styled("systemctl status weaver-server.service"@, Tone::Yellow));
    lines_are_rows(v@, 10);
    assert(lines[10].take(4) =~= lines[10]);
    labelled_rows(v@[10]@, "Live Logs:"@, client::styled("journalctl -u weaver-server -f"@, Tone::Yellow));
}

/// The row has these five texts.
pub open spec fn has_texts(
    l: Seq<Span>,
    a: Seq<char>,
    b: Seq<char>,
    c: Seq<char>,
    d: Seq<char>,
    e: Seq<char>,
) -> bool {
    l.len() == 5 && l[0].text@ == a && l[1].text@ == b && l[2].text@ == c && l[3].text@ == d
        && l[4].text@ == e
}

/// The menu lists the five providers under the numbers by which they are chosen.
pub proof fn providers_are_listed(v: Vec<Vec<Span>>)
    requires
        call_ensures(provider_menu, (), v),
    ensures
        v@.len() == 6,
        has_texts(v@[0]@, "#"@, "Provider"@, "EAB"@, "Quota"@, "Notes"@),
        has_texts(
            v@[1]@,
            "1"@,
            "Let's Encrypt (default)"@,
            "no"@,
            "50/week"@,
            "Standard Web PKI; no account needed"@,
        ),
        has_texts(
            v@[2]@,
            "2"@,
            "Google Trust Services"@,
            "required"@,
            "Very high"@,
            "Requires GCP project and EAB credentials"@,
        ),
        has_texts(
            v@[3]@,
            "3"@,
            "ZeroSSL"@,
            "required"@,
            "Unlimited"@,
            "Requires ZeroSSL account and EAB credentials"@,
        ),
        has_texts(
            v@[4]@,
            "4"@,
            "Buypass"@,
            "no"@,
            "20/week"@,
            "No account needed; 180-day certificates"@,
        ),
        has_texts(
            v@[5]@,
            "5"@,
            "Custom ACME"@,
            "optional"@,
            "Custom"@,
            "Custom ACME URL (Pebble, step-ca, internal CA)"@,
        ),
{
    let lines = client::lines_of(v@);
    assert(lines.len() == v@.len());
    lines_are_rows(v@, 0);
    assert(v@[0]@[0]@ == lines[0][0] && v@[0]@[1]@ == lines[0][1] && v@[0]@[2]@ == lines[0][2]);
    assert(v@[0]@[3]@ == lines[0][3] && v@[0]@[4]@ == lines[0][4]);
    lines_are_rows(v@, 1);
    assert(v@[1]@[0]@ == lines[1][0] && v@[1]@[1]@ == lines[1][1] && v@[1]@[2]@ == lines[1][2]);
    assert(v@[1]@[3]@ == lines[1][3] && v@[1]@[4]@ == lines[1][4]);
    lines_are_rows(v@, 2);
    assert(v@[2]@[0]@ == lines[2][0] && v@[2]@[1]@ == lines[2][1] && v@[2]@[2]@ == lines[2][2]);
    assert(v@[2]@[3]@ == lines[2][3] && v@[2]@[4]@ == lines[2][4]);
    lines_are_rows(v@, 3);
    assert(v@[3]@[0]@ == lines[3][0] && v@[3]@[1]@ == lines[3][1] && v@[3]@[2]@ == lines[3][2]);
    assert(v@[3]@[3]@ == lines[3][3] && v@[3]@[4]@ == lines[3][4]);
    lines_are_rows(v@, 4);
    assert(v@[4]@[0]@ == lines[4][0] && v@[4]@[1]@ == lines[4][1] && v@[4]@[2]@ == lines[4][2]);
    assert(v@[4]@[3]@ == lines[4][3] && v@[4]@[4]@ == lines[4][4]);
    lines_are_rows(v@, 5);
    assert(v@[5]@[0]@ == lines[5][0] && v@[5]@[1]@ == lines[5][1] && v@[5]@[2]@ == lines[5][2]);
    assert(v@[5]@[3]@ == lines[5][3] && v@[5]@[4]@ == lines[5][4]);
}

/// The questions begin with what is missing; what is given has to do.
pub proof fn questions_begin(
    s: &mut GatherSession,
    r: Result<(), String>,
    domain: &str,
    email: &str,
    good_domain: bool,
    good_email: bool,
)
    requires
        call_ensures(GatherSession::begin, (s,), r),
        old(s)@.root_domain matches Some(d) ==> domain@ == d,
        old(s)@.email matches Some(e) ==> email@ == e,
        call_ensures(validate_fqdn, (domain,), good_domain),
        call_ensures(validate_email, (email,), good_email),
    ensures
        ({
            let a = old(s)@;
            let b = final(s)@;
            let asks = a.kid is None && a.directory is None && a.provider == "letsencrypt"@;
            let bad_domain = a.root_domain is Some && !good_domain;
            let bad_email = a.root_domain is Some && good_domain && a.email is Some && !good_email;
            &&& r is Err <==> bad_domain || bad_email
            &&& r is Err ==> b == a
            &&& r matches Err(e) ==> {
                &&& bad_domain ==> e@ == "Error: Invalid root domain '"@ + domain@
                    + "'. Must be a valid FQDN."@
                &&& bad_email ==> e@ == "Error: Invalid email '"@ + email@ + "'."@
            }
            &&& r is Ok ==> {
                &&& b.root_domain == a.root_domain && b.email == a.email && b.provider == a.provider
                &&& b.directory == a.directory && b.kid == a.kid && b.hmac == a.hmac
                &&& b.root_ca == a.root_ca
                &&& a.root_domain is None <==> b.ask is RootDomain
                &&& a.root_domain is Some && a.email is None <==> b.ask is Email
                &&& a.root_domain is Some && a.email is Some && asks <==> b.ask is Provider
                &&& a.root_domain is Some && a.email is Some && !asks <==> b.ask is Nothing
            }
        }),
{
}

/// A token is the random bytes in hexadecimal; without any it is made of the time and the
/// number of the process.
pub proof fn tokens_are_made(
    len: usize,
    random: Option<Vec<u8>>,
    now: u128,
    pid: u32,
    r: String,
    bytes: &[u8],
    hex: String,
)
    requires
        call_ensures(generate_random_hex, (len, random, now, pid), r),
        random matches Some(b) ==> bytes@ == b@,
        random is None ==> bytes@.len() == len && forall|i: int|
            0 <= i < len ==> #[trigger] bytes@[i] == digest::sha256(
                vstd::utf8::encode_utf8(
                    number::decimal(now as nat) + ":"@ + number::decimal(pid as nat),
                ),
            )[i % 32],
        random is None ==> digest::sha256(
            vstd::utf8::encode_utf8(
                number::decimal(now as nat) + ":"@ + number::decimal(pid as nat),
            ),
        ).len() == 32,
        call_ensures(number::hex_string, (bytes,), hex),
    ensures
        r@ == hex@,
{
    if random is None {
        let d = digest::sha256(vstd::utf8::encode_utf8(super::dns::fallback_seed(now, pid)));
        assert(bytes@ =~= super::dns::repeated(d, len as int));
    }
}

/// The link is that of a socket with this number.
pub open spec fn is_socket_link(link: Seq<char>, digits: Seq<char>) -> bool {
    link == "socket:["@ + digits + "]"@
}

/// The entry is that of a process which holds one of the sockets.
pub open spec fn sits_on(e: ProcessEntry, inodes: Set<nat>) -> bool {
    &&& e.name matches Some(name)
    &&& number::parsed_unsigned(name@, u32::MAX as nat) is Some
    &&& exists|i: int, digits: Seq<char>|
        0 <= i < e.links@.len() && #[trigger] is_socket_link(e.links@[i]@, digits) && (
        number::parsed_unsigned(digits, u64::MAX as nat) matches Some(n) && inodes.contains(n))
}

proof fn occupying_is_sitting(e: ProcessEntry, inodes: Set<nat>)
    ensures
        super::reachability::occupies(e, inodes) == sits_on(e, inodes),
{
    reveal_strlit("socket:[");
    reveal_strlit("]");
    let links = text::texts(e.links@);
    if super::reachability::holds_socket(links, inodes) {
        let i = choose|i: int|
            0 <= i < links.len() && (super::reachability::socket_inode(#[trigger] links[i]) matches Some(
                n,
            ) && inodes.contains(n));
        let link = links[i];
        let digits = link.subrange(8, link.len() - 1);
        assert(link =~= "socket:["@ + digits + "]"@);
        assert(is_socket_link(e.links@[i]@, digits));
    }
    if exists|i: int, digits: Seq<char>|
        0 <= i < e.links@.len() && #[trigger] is_socket_link(e.links@[i]@, digits) && (
        number::parsed_unsigned(digits, u64::MAX as nat) matches Some(n) && inodes.contains(n)) {
        let (i, digits) = choose|i: int, digits: Seq<char>|
            0 <= i < e.links@.len() && #[trigger] is_socket_link(e.links@[i]@, digits) && (
            number::parsed_unsigned(digits, u64::MAX as nat) matches Some(n) && inodes.contains(n));
        let link = links[i];
        assert(link == e.links@[i]@);
        assert(digits.len() > 0 || number::parsed_unsigned(digits, u64::MAX as nat) is None);
        assert(link.subrange(8, link.len() - 1) =~= digits);
        assert("socket:["@.is_prefix_of(link)) by {
            assert(link.subrange(0, 8) =~= "socket:["@);
        }
        assert(link.last() == ']');
    }
}

/// The port is occupied by the first process that holds one of its sockets.
pub proof fn occupants_hold_a_socket(
    port: u16,
    tables: &Vec<String>,
    entries: &Vec<ProcessEntry>,
    r: Option<(u32, String)>,
    k: int,
)
    requires
        call_ensures(find_occupying_process, (port, tables, entries), r),
        forall|i: int| 0 <= i < entries@.len() ==> (#[trigger] entries@[i]).name is Some,
    ensures
        ({
            let inodes = super::reachability::listening(text::texts(tables@), port);
            &&& r is None && 0 <= k < entries@.len() ==> !sits_on(entries@[k], inodes)
            &&& r matches Some(p) ==> exists|i: int|
                0 <= i < entries@.len() && sits_on(#[trigger] entries@[i], inodes) && number::parsed_unsigned(entries@[i].name->0@, u32::MAX as nat) == Some(
                    p.0 as nat,
                ) && (entries@[i].command is None ==> p.1@ == "unknown"@) && (
                entries@[i].command matches Some(c) ==> p.1@ == text::trimmed(c@))
        }),
{
    let inodes = super::reachability::listening(text::texts(tables@), port);
    occupant_is_first(entries@, inodes, k);
    if 0 <= k < entries@.len() {
        occupying_is_sitting(entries@[k], inodes);
    }
    if r is Some {
        let i = choose|i: int|
            0 <= i < entries@.len() && super::reachability::occupies(#[trigger] entries@[i], inodes)
                && super::reachability::occupant(entries@, inodes)->0
                == super::reachability::process_of(entries@[i]);
        occupying_is_sitting(entries@[i], inodes);
    }
}

proof fn occupant_is_first(entries: Seq<ProcessEntry>, inodes: Set<nat>, k: int)
    requires
        forall|i: int| 0 <= i < entries.len() ==> (#[trigger] entries[i]).name is Some,
    ensures
        super::reachability::occupant(entries, inodes) is None && 0 <= k < entries.len()
            ==> !super::reachability::occupies(entries[k], inodes),
        super::reachability::occupant(entries, inodes) is Some ==> exists|i: int|
            0 <= i < entries.len() && super::reachability::occupies(#[trigger] entries[i], inodes)
                && super::reachability::occupant(entries, inodes)->0
                == super::reachability::process_of(entries[i]),
    decreases entries.len(),
{
    if entries.len() > 0 {
        assert(entries[0].name is Some);
        let rest = entries.subrange(1, entries.len() as int);
        assert forall|i: int| 0 <= i < rest.len() implies (#[trigger] rest[i]).name is Some by {
            assert(entries[i + 1].name is Some);
        }
        occupant_is_first(rest, inodes, k - 1);
        if !super::reachability::occupies(entries[0], inodes) {
            if super::reachability::occupant(rest, inodes) is Some {
                let i = choose|i: int|
                    0 <= i < rest.len() && super::reachability::occupies(#[trigger] rest[i], inodes)
                        && super::reachability::occupant(rest, inodes)->0
                        == super::reachability::process_of(rest[i]);
                assert(entries[i + 1] == rest[i]);
            }
            if 0 < k < entries.len() {
                assert(rest[k - 1] == entries[k]);
            }
        }
    }
}

} // verus!
