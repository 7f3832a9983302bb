//! What the start of the server, its end, its notifications and its command line promise.
use super::lifecycle::{
    config_failure, listener_failure, warns_about_root, ServerError, ServerStage,
};
use super::listener::{plan_listeners, Inheritance, ListenPlan, ListenerError, Role};
use crate::cli::{
    configured, effective_provider, hmac_source, parse_listen_addr, path_or, uninstall_options,
    validate_cert_name, version_text, CertCommands, ConfigureArgs, HmacSource, ListenArg,
    UninstallArgs,
};
use crate::config::{join, Config, ConfigError};
use crate::notify::{
    notify, notify_ready, notify_ready_with_cert_status, notify_stopping, Notification,
    NotifyTarget,
};
use crate::number;
use crate::setup::uninstall::UninstallOptions;
use crate::text;
use vstd::prelude::*;

verus! {

/// Sockets are inherited exactly where the supervisor passes two of them to this process.
/// They are bound where it passes none, or passes them to another process; any other number
/// is an error.
pub proof fn sockets_are_inherited_or_bound(
    fds: Option<&str>,
    pid: Option<&str>,
    own: u32,
    r: Result<ListenPlan, ListenerError>,
    named: Option<u64>,
    count: Option<u64>,
    why: &'static str,
)
    requires
        call_ensures(plan_listeners, (fds, pid, own), r),
        pid is Some ==> call_ensures(number::parse_unsigned, (pid->0, u32::MAX as u64), named),
        pid is None ==> named is None,
        fds is Some ==> call_ensures(number::parse_unsigned, (fds->0, usize::MAX as u64), count),
        fds is Some ==> call_ensures(number::parse_failure, (fds->0, usize::MAX as u64), why),
    ensures
        ({
            let ours = fds is Some && (named is None || named == Some(own as u64));
            &&& r == Ok::<ListenPlan, ListenerError>(ListenPlan::Bind) <==> !ours
            &&& r == Ok::<ListenPlan, ListenerError>(ListenPlan::Inherit) <==> ours && count == Some(
                2u64,
            )
            &&& r is Err <==> ours && count != Some(2u64)
            &&& r matches Err(e) ==> {
                &&& e matches ListenerError::Activation(s)
                &&& count is None ==> s@ == "Invalid LISTEN_FDS '"@ + fds->0@ + "': "@ + why@
                &&& count matches Some(n) ==> s@
                    == "Expected exactly 2 sockets in LISTEN_FDS matching HTTP and HTTPS, got "@
                    + number::decimal(n as nat)
            }
        }),
{
}

/// A socket goes to the edge with its port, and each edge takes one. A socket of another port
/// is refused, and nothing is complete without both.
pub proof fn sockets_go_by_their_port(
    i: &mut Inheritance,
    fd: i32,
    port: u16,
    r: Result<Role, ListenerError>,
    http_port: u16,
    https_port: u16,
    fresh: Inheritance,
    done: &Inheritance,
    q: Result<(i32, i32), ListenerError>,
)
    requires
        call_ensures(Inheritance::take, (i, fd, port), r),
        call_ensures(Inheritance::new, (http_port, https_port), fresh),
        call_ensures(Inheritance::finish, (done,), q),
    ensures
        ({
            let a = old(i)@;
            let b = final(i)@;
            let first = port == a.http_port && a.http is None;
            let second = !first && port == a.https_port && a.https is None;
            &&& r == Ok::<Role, ListenerError>(Role::Http) <==> first
            &&& r == Ok::<Role, ListenerError>(Role::Https) <==> second
            &&& b.http_port == a.http_port && b.https_port == a.https_port
            &&& first ==> b.http == Some(fd) && b.https == a.https
            &&& second ==> b.https == Some(fd) && b.http == a.http
            &&& r is Err ==> b == a
            &&& r matches Err(e) ==> (e matches ListenerError::Activation(s) && s@
                == "Inherited socket fd "@ + number::signed_decimal(fd as int) + " bound to port "@
                + number::decimal(port as nat) + " matches neither HTTP port "@ + number::decimal(
                a.http_port as nat,
            ) + " nor HTTPS port "@ + number::decimal(a.https_port as nat))
            &&& fresh@.http_port == http_port && fresh@.https_port == https_port
            &&& fresh@.http is None && fresh@.https is None
            &&& q is Ok <==> done@.http is Some && done@.https is Some
            &&& q matches Ok(pair) ==> done@.http == Some(pair.0) && done@.https == Some(pair.1)
            &&& q matches Err(e) ==> (e matches ListenerError::Activation(s) && s@
                == "LISTEN_FDS sockets did not contain both HTTP and HTTPS listeners"@)
        }),
{
}

/// Each failure of a listener is told in words.
pub proof fn listener_errors_are_told(e: &ListenerError, r: String)
    requires
        call_ensures(ListenerError::message, (e,), r),
    ensures
        *e matches ListenerError::Activation(w) ==> r@ == "Socket activation error: "@ + w@,
        *e matches ListenerError::Bind { addr, source } ==> r@ == "Failed to bind "@ + addr@ + ": "@
            + source@,
{
}

/// A bad configuration ends the server with code 78 and anything else with 1; each failure is
/// told in words.
pub proof fn failures_end_the_server(
    e: &ServerError,
    code: i32,
    report: String,
    message: String,
    list: String,
)
    requires
        call_ensures(ServerError::exit_code, (e,), code),
        call_ensures(ServerError::report, (e,), report),
        call_ensures(ServerError::message, (e,), message),
        *e matches ServerError::MissingConfig(v) ==> call_ensures(join, (&v, ", "), list),
        *e matches ServerError::ValidationConfig(v) ==> call_ensures(join, (&v, "; "), list),
    ensures
        *e is MissingConfig || *e is ValidationConfig <==> code == 78,
        !(*e is MissingConfig || *e is ValidationConfig) <==> code == 1,
        *e matches ServerError::Store(s) ==> report@ == "Store error: "@ + s@ && message@
            == report@,
        *e is MissingConfig ==> report@ == "Configuration missing required keys: "@ + list@
            && message@ == report@,
        *e is ValidationConfig ==> report@ == "Configuration validation failed: "@ + list@
            && message@ == report@,
        *e matches ServerError::Bind { addr, source } ==> report@ == "Failed to bind "@ + addr@
            + ": "@ + source@ && message@ == report@,
        *e matches ServerError::Activation(s) ==> report@ == "Socket activation failed: "@ + s@
            && message@ == "Socket activation error: "@ + s@,
        *e matches ServerError::Tls(s) ==> report@ == "TLS error: "@ + s@ && message@
            == "TLS configuration error: "@ + s@,
{
}

/// What is wrong with the configuration or the listeners becomes the failure of the server;
/// a configuration that cannot be read counts as invalid.
pub proof fn failures_keep_their_cause(
    c: ConfigError,
    r: ServerError,
    l: ListenerError,
    q: ServerError,
)
    requires
        call_ensures(config_failure, (c,), r),
        call_ensures(listener_failure, (l,), q),
    ensures
        c matches ConfigError::MissingKeys(v) ==> (r matches ServerError::MissingConfig(w)
            && text::texts(w@) == text::texts(v@)),
        c matches ConfigError::ValidationFailed(v) ==> (r matches ServerError::ValidationConfig(w)
            && text::texts(w@) == text::texts(v@)),
        c matches ConfigError::DeserializationFailed(s) ==> (
        r matches ServerError::ValidationConfig(w) && w@.len() == 1 && w@[0]@ == s@),
        c matches ConfigError::Store(s) ==> (r matches ServerError::Store(w) && w@
            == "Invalid path: "@ + s@),
        l matches ListenerError::Bind { addr, source } ==> (q matches ServerError::Bind {
            addr: a,
            source: b,
        } && a@ == addr@ && b@ == source@),
        l matches ListenerError::Activation(s) ==> (q matches ServerError::Activation(w) && w@
            == s@),
{
    if let ConfigError::DeserializationFailed(s) = c {
        if let ServerError::ValidationConfig(w) = r {
            let t = text::texts(w@);
            assert(t == seq![s@]);
            assert(t.len() == w@.len());
            assert(t[0] == w@[0]@);
        }
    }
}

/// Running as root is warned of outside a container only.
pub proof fn root_is_warned_of(euid: u32, docker: bool, container: bool, r: bool)
    requires
        call_ensures(warns_about_root, (euid, docker, container), r),
    ensures
        r <==> euid == 0 && !(docker || container),
{
}

/// The server goes through these stages in this order. Up to the registration of signals a
/// failure ends it with an error that names its cause; from then on none does.
pub proof fn servers_go_through_stages(
    stage: ServerStage,
    failure: Option<&str>,
    r: Result<ServerStage, ServerError>,
)
    requires
        call_ensures(ServerStage::step, (stage, failure), r),
    ensures
        ({
            let early = stage is OpenStore || stage is LoadConfig || stage is AcquireListeners
                || stage is InitCertificates || stage is ConfigureTls || stage is BindControl
                || stage is RegisterSignals;
            &&& r is Err <==> failure is Some && early
            &&& r matches Ok(next) ==> {
                &&& stage is OpenStore ==> next is LoadConfig
                &&& stage is LoadConfig ==> next is AcquireListeners
                &&& stage is AcquireListeners ==> next is InitCertificates
                &&& stage is InitCertificates ==> next is ConfigureTls
                &&& stage is ConfigureTls ==> next is BindControl
                &&& stage is BindControl ==> next is RegisterSignals
                &&& stage is RegisterSignals ==> next is StartServing
                &&& stage is StartServing ==> next is NotifyReady
                &&& stage is NotifyReady ==> next is OrderRootCertificate
                &&& stage is OrderRootCertificate ==> next is Serve
                &&& stage is Serve ==> next is NotifyStopping
                &&& stage is NotifyStopping ==> next is Drain
                &&& stage is Drain ==> next is CloseStore
                &&& stage is CloseStore || stage is Done ==> next is Done
            }
            &&& r matches Err(e) ==> {
                let cause = failure->0@;
                &&& stage is OpenStore ==> (e matches ServerError::Store(s) && s@ == cause)
                &&& stage is ConfigureTls ==> (e matches ServerError::Tls(s) && s@ == cause)
                &&& stage is InitCertificates ==> (e matches ServerError::Activation(s) && s@
                    == "Failed to initialize CertManager: "@ + cause)
                &&& stage is BindControl ==> (e matches ServerError::Activation(s) && s@
                    == "Failed to bind control socket: "@ + cause)
                &&& stage is LoadConfig || stage is AcquireListeners || stage is RegisterSignals
                    ==> (e matches ServerError::Activation(s) && s@ == cause)
            }
        }),
{
    reveal_strlit("");
    if let Some(c) = failure {
        assert(""@ + c@ =~= c@);
    }
}

/// The notification goes to the socket that the variable names.
pub open spec fn goes_to(r: Option<Notification>, socket: Option<Vec<u8>>, words: Seq<char>) -> bool {
    &&& r is Some <==> socket is Some && socket->0@.len() > 0
    &&& r matches Some(n) ==> {
        let v = socket->0@;
        &&& n.message@ == words
        &&& v[0] == 0x40 ==> (n.target matches NotifyTarget::Abstract(name) && v == seq![0x40u8]
            + name@)
        &&& v[0] != 0x40 ==> (n.target matches NotifyTarget::Path(path) && path@ == v)
    }
}

/// The supervisor is told each state where it names a socket, at that socket: one in the
/// abstract namespace where the name starts with an at sign, otherwise a path.
pub proof fn the_supervisor_is_told(
    socket: Option<Vec<u8>>,
    state: &str,
    r: Option<Notification>,
    ready: Option<Notification>,
    status: &str,
    with_status: Option<Notification>,
    stopping: Option<Notification>,
)
    requires
        call_ensures(notify, (state, socket), r),
        call_ensures(notify_ready, (socket,), ready),
        call_ensures(notify_ready_with_cert_status, (status, socket), with_status),
        call_ensures(notify_stopping, (socket,), stopping),
    ensures
        goes_to(r, socket, state@),
        goes_to(ready, socket, "READY=1\nSTATUS=listening; certificate: pending\n"@),
        goes_to(
            with_status,
            socket,
            "READY=1\nSTATUS=listening; certificate: "@ + status@ + "\n"@,
        ),
        goes_to(stopping, socket, "STOPPING=1\n"@),
{
    if let Some(v) = socket {
        if v@.len() > 0 {
            assert(v@ =~= seq![v@[0]] + v@.subrange(1, v@.len() as int));
        }
    }
}

/// A certificate command takes `root` or a name with a dot, or no name at all.
pub proof fn certificate_names_are_checked(name: &Option<String>, r: Result<(), String>)
    requires
        call_ensures(validate_cert_name, (name,), r),
    ensures
        r is Ok <==> match *name {
            None => true,
            Some(n) => n@ == "root"@ || exists|i: int| 0 <= i < n@.len() && #[trigger] n@[i] == '.',
        },
        r matches Err(e) ==> e@ == "Error: Invalid hostname '"@ + name->0@
            + "'. Must be a fully qualified domain name (containing '.') or 'root'."@,
{
    if let Some(n) = *name {
        if n@.contains('.') {
            let i = choose|i: int| 0 <= i < n@.len() && n@[i] == '.';
            assert(n@[i] == '.');
        }
    }
}

/// Every certificate command has its name checked.
pub proof fn certificate_commands_are_checked(c: &CertCommands, name: &Option<String>, r: Result<(), String>, q: Result<(), String>)
    requires
        call_ensures(CertCommands::check, (c,), r),
        call_ensures(validate_cert_name, (name,), q),
        *c matches CertCommands::Status { name: n, .. } ==> *name == n,
        *c matches CertCommands::Wait { name: n, .. } ==> *name == n,
        *c matches CertCommands::Renew { name: n, .. } ==> *name == n,
    ensures
        r is Ok <==> q is Ok,
        r is Err ==> r->Err_0@ == q->Err_0@,
{
}

/// What the command line leaves out: a path has its default, a directory makes the default
/// provider a custom one, and a key on the command line goes before a file.
pub proof fn defaults_are_filled_in(
    given: Option<String>,
    default: &str,
    path: String,
    provider: &str,
    directory: bool,
    effective: String,
    hmac: &Option<String>,
    file: &Option<String>,
    source: HmacSource,
    version: &str,
    protocol: u32,
    shown: String,
)
    requires
        call_ensures(path_or, (given, default), path),
        call_ensures(effective_provider, (provider, directory), effective),
        call_ensures(hmac_source, (hmac, file), source),
        call_ensures(version_text, (version, protocol), shown),
    ensures
        given matches Some(p) ==> path@ == p@,
        given is None ==> path@ == default@,
        directory && provider@ == "letsencrypt"@ ==> effective@ == "custom"@,
        !directory || provider@ != "letsencrypt"@ ==> effective@ == provider@,
        *hmac matches Some(h) ==> (source matches HmacSource::Given(s) && s@ == h@),
        hmac is None ==> (*file matches Some(f) ==> (source matches HmacSource::File(s) && s@
            == f@)),
        hmac is None && file is None <==> source is Absent,
        shown@ == version@ + " (protocol v"@ + number::decimal(protocol as nat) + ")"@,
{
}

/// What the command line says is what is uninstalled and configured.
pub proof fn arguments_are_taken(
    u: UninstallArgs,
    db: String,
    o: UninstallOptions,
    args: ConfigureArgs,
    domain: String,
    email: String,
    hmac: Option<String>,
    ca: Option<String>,
    c: Config,
    provider: &str,
    effective: String,
)
    requires
        call_ensures(uninstall_options, (u, db), o),
        call_ensures(configured, (args, domain, email, hmac, ca), c),
        provider@ == args.acme_provider@,
        call_ensures(effective_provider, (provider, args.acme_directory is Some), effective),
    ensures
        o.prefix@ == u.prefix@,
        o.db_path@ == db@,
        o.user@ == u.user@,
        o.purge == u.purge,
        o.headless == u.headless,
        c.root_domain@ == domain@,
        c.admin_email@ == email@,
        c.acme_provider@ == effective@,
        c.listen_http == args.listen_http,
        c.listen_https == args.listen_https,
        c.control_socket@ == args.control_socket@,
        text::opt(c.acme_directory) == text::opt(args.acme_directory),
        text::opt(c.acme_eab_kid) == text::opt(args.acme_eab_kid),
        text::opt(c.acme_eab_hmac) == text::opt(hmac),
        text::opt(c.acme_root_ca_pem) == text::opt(ca),
        c.acme_fallback_providers@.len() == 0,
{
}

/// An argument to listen on is a port, with a colon in front or not, where it is a number that
/// fits, and otherwise an address.
pub proof fn listen_arguments_are_read(
    s: &str,
    r: ListenArg,
    trimmed: &str,
    port: &str,
    n: Option<u64>,
)
    requires
        call_ensures(parse_listen_addr, (s,), r),
        call_ensures(text::trim, (s,), trimmed),
        trimmed@ == port@ || trimmed@ == seq![':'] + port@,
        port@.len() > 0 ==> port@[0] != ':',
        call_ensures(number::parse_unsigned, (port, 65535), n),
    ensures
        n is Some <==> r is Port,
        r matches ListenArg::Port(p) ==> n == Some(p as u64),
        r matches ListenArg::Address(a) ==> a@ == trimmed@,
{
    if trimmed@ == seq![':'] + port@ {
        assert(trimmed@.subrange(1, trimmed@.len() as int) =~= port@);
    }
}

} // verus!
