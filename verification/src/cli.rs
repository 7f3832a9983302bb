//! Command-line arguments, and what is decided from them alone.
use crate::config::Config;
use crate::net::SocketAddress;
use crate::number;
use crate::setup::uninstall::UninstallOptions;
use crate::text;
use vstd::prelude::*;

verus! {

/// Where the state database is unless the command line says otherwise.
pub const DEFAULT_DB: &'static str = "/var/lib/weaver/weaver.db";

/// Where the control socket is unless the command line says otherwise.
pub const DEFAULT_SOCKET: &'static str = "/run/weaver/control.sock";

/// The exit code of a command that was used wrongly.
pub const USAGE_EXIT: i32 = 2;

/// Subcommands for certificate operations.
#[derive(Debug, Clone)]
pub enum CertCommands {
    /// Shows certificate summary table or detailed status for a single hostname.
    Status {
        /// Hostname to inspect (or "root" for base domain). If omitted, displays all certificates.
        name: Option<String>,
        /// Maximum number of historical cert events to return in detail view (default: 10).
        limit: Option<usize>,
        /// Outputs the result as raw JSON.
        json: bool,
    },
    /// Streams certificate state transitions until Issued or Failed.
    Wait {
        /// Hostname to wait for (defaults to root domain).
        name: Option<String>,
        /// Maximum timeout in seconds (default: 300).
        timeout: Option<u64>,
        /// Outputs streamed transitions as raw JSON lines.
        json: bool,
    },
    /// Manually triggers renewal for a hostname or all active certificates.
    Renew {
        /// Hostname to renew (defaults to root domain).
        name: Option<String>,
        /// Renew all active hostnames plus the root domain.
        all: bool,
        /// Bypass rate limits and in-flight concurrency caps.
        force: bool,
        /// Wait for renewal to complete (streams transitions until Issued or Failed).
        wait: bool,
        /// Outputs the renewal response as raw JSON.
        json: bool,
    },
}

/// Arguments for host setup and systemd installation.
#[derive(Debug, Clone)]
pub struct SetupArgs {
    /// Base domain for routed public tunnels (e.g. "example.com").
    pub root_domain: Option<String>,
    /// Administrator contact email for ACME registration.
    pub email: Option<String>,
    /// ACME directory provider (default: letsencrypt).
    pub acme_provider: String,
    /// Custom ACME directory URL (implies provider "custom").
    pub acme_directory: Option<String>,
    /// External Account Binding Key Identifier.
    pub acme_eab_kid: Option<String>,
    /// External Account Binding HMAC key.
    pub acme_eab_hmac: Option<String>,
    /// Path to file containing External Account Binding HMAC key.
    pub acme_eab_hmac_file: Option<String>,
    /// Optional path to custom Root CA certificate file in PEM format.
    pub acme_root_ca: Option<String>,
    /// Non-interactive headless execution mode.
    pub headless: bool,
    /// Skip connect-back reachability verification.
    pub skip_reachability_check: bool,
    /// Dedicated system user for the service.
    pub user: String,
    /// Binary installation prefix directory.
    pub prefix: String,
    /// Internal flag signaling that interactive prompt values are already provided.
    pub no_prompt_values: bool,
}

/// Arguments for removing systemd units and relay installation.
#[derive(Debug, Clone)]
pub struct UninstallArgs {
    /// Binary installation prefix directory.
    pub prefix: String,
    /// Dedicated system user for the service.
    pub user: String,
    /// Purge database state directory and remove system user.
    pub purge: bool,
    /// Non-interactive headless execution mode.
    pub headless: bool,
}

/// Arguments for initializing or updating the server configuration.
#[derive(Debug, Clone)]
pub struct ConfigureArgs {
    /// Base domain for routed public tunnels (e.g. "example.com").
    pub root_domain: Option<String>,
    /// Administrator contact email for ACME registration.
    pub email: Option<String>,
    /// ACME directory provider (default: letsencrypt).
    pub acme_provider: String,
    /// HTTP listen socket address or port (e.g. 80, 8080, [::]:80, 0.0.0.0:80).
    pub listen_http: SocketAddress,
    /// HTTPS listen socket address or port (e.g. 443, 8443, [::]:443, 0.0.0.0:443).
    pub listen_https: SocketAddress,
    /// Filesystem path for the UNIX domain control socket.
    pub control_socket: String,
    /// Custom ACME directory URL (required when acme_provider is "custom").
    pub acme_directory: Option<String>,
    /// External Account Binding Key Identifier.
    pub acme_eab_kid: Option<String>,
    /// External Account Binding HMAC key.
    pub acme_eab_hmac: Option<String>,
    /// Path to file containing External Account Binding HMAC key.
    pub acme_eab_hmac_file: Option<String>,
    /// Optional path to custom Root CA certificate file in PEM format.
    pub acme_root_ca: Option<String>,
    /// Non-interactive headless execution mode.
    pub headless: bool,
}

/// What a listen argument names.
#[derive(Debug, PartialEq, Eq)]
pub enum ListenArg {
    /// A port on every address.
    Port(u16),
    /// An address with its port, still in text.
    Address(String),
}

/// The argument without white space around it, and without a colon at its start.
pub open spec fn bare_port(arg: Seq<char>) -> Seq<char> {
    let t = text::trimmed(arg);
    if t.len() > 0 && t[0] == ':' {
        t.subrange(1, t.len() as int)
    } else {
        t
    }
}

/// Parses a socket address or bare port (e.g. "8080" or ":8080" stands for "[::]:8080").
pub fn parse_listen_addr(s: &str) -> (r: ListenArg)
    ensures
        match number::parsed_unsigned(bare_port(s@), u16::MAX as nat) {
            Some(port) => r matches ListenArg::Port(p) && p == port,
            None => r matches ListenArg::Address(a) && a@ == text::trimmed(s@),
        },
{
    let trimmed = text::trim(s);
    let v = text::chars_of(trimmed);
    let n: usize = v.len();
    let port = if n > 0 && v[0] == ':' {
        trimmed.substring_char(1, n)
    } else {
        trimmed
    };
    match number::parse_unsigned(port, u16::MAX as u64) {
        Some(p) => ListenArg::Port(p as u16),
        None => ListenArg::Address(trimmed.to_owned()),
    }
}

/// A name that a certificate command takes: a name with a dot, or "root".
pub open spec fn is_cert_name(name: Seq<char>) -> bool {
    name == "root"@ || name.contains('.')
}

/// Validates that a hostname argument is a valid FQDN or the alias "root".
pub fn validate_cert_name(name: &Option<String>) -> (r: Result<(), String>)
    ensures
        match *name {
            Some(n) => if is_cert_name(n@) {
                r is Ok
            } else {
                r matches Err(e) && e@ == "Error: Invalid hostname '"@ + n@
                    + "'. Must be a fully qualified domain name (containing '.') or 'root'."@
            },
            None => r is Ok,
        },
{
    let n = match name {
        Some(n) => n,
        None => return Ok(()),
    };
    if text::same(n.as_str(), "root") {
        return Ok(());
    }
    let v = text::chars_of(n.as_str());
    let mut i: usize = 0;
    while i < v.len()
        invariant
            v@ == n@,
            *name == Some(*n),
            i <= v@.len(),
            forall|j: int| 0 <= j < i ==> v@[j] != '.',
        decreases v@.len() - i,
    {
        if v[i] == '.' {
            assert(n@.contains(n@[i as int]));
            return Ok(());
        }
        i += 1;
    }
    assert(!n@.contains('.'));
    Err(
        text::cat3(
            "Error: Invalid hostname '",
            n.as_str(),
            "'. Must be a fully qualified domain name (containing '.') or 'root'.",
        ),
    )
}

impl CertCommands {
    /// The hostname of the command.
    pub open spec fn target(self) -> Option<Seq<char>> {
        match self {
            CertCommands::Status { name, .. } => text::opt(name),
            CertCommands::Wait { name, .. } => text::opt(name),
            CertCommands::Renew { name, .. } => text::opt(name),
        }
    }

    /// Checks the hostname of the command.
    pub fn check(&self) -> (r: Result<(), String>)
        ensures
            r is Ok <==> (self.target() matches Some(n) ==> is_cert_name(n)),
            r matches Err(e) ==> e@ == "Error: Invalid hostname '"@ + self.target()->0
                + "'. Must be a fully qualified domain name (containing '.') or 'root'."@,
    {
        match self {
            CertCommands::Status { name, .. } => validate_cert_name(name),
            CertCommands::Wait { name, .. } => validate_cert_name(name),
            CertCommands::Renew { name, .. } => validate_cert_name(name),
        }
    }
}

/// A path from the command line, or its default.
pub fn path_or(given: Option<String>, default: &str) -> (r: String)
    ensures
        r@ == (match given {
            Some(p) => p@,
            None => default@,
        }),
{
    match given {
        Some(p) => p,
        None => default.to_owned(),
    }
}

/// The version that the command shows.
pub fn version_text(version: &str, protocol: u32) -> (r: String)
    ensures
        r@ == version@ + " (protocol v"@ + number::decimal(protocol as nat) + ")"@,
{
    let n = number::decimal_of(protocol as u64);
    text::cat4(version, " (protocol v", n.as_str(), ")")
}

/// The provider: a custom directory makes the default provider a custom one.
pub open spec fn provider_with(provider: Seq<char>, has_directory: bool) -> Seq<char> {
    if has_directory && provider == "letsencrypt"@ {
        "custom"@
    } else {
        provider
    }
}

/// The provider, where a custom directory makes the default one a custom one.
pub fn effective_provider(provider: &str, has_directory: bool) -> (r: String)
    ensures
        r@ == provider_with(provider@, has_directory),
{
    if has_directory && text::same(provider, "letsencrypt") {
        "custom".to_owned()
    } else {
        provider.to_owned()
    }
}

/// Where the HMAC key of External Account Binding comes from.
#[derive(Debug, PartialEq, Eq)]
pub enum HmacSource {
    /// The command line.
    Given(String),
    /// A file, whose white space at either end does not count.
    File(String),
    /// Nowhere.
    Absent,
}

/// Decides where the HMAC key comes from; the command line goes before a file.
pub fn hmac_source(given: &Option<String>, file: &Option<String>) -> (r: HmacSource)
    ensures
        match (*given, *file) {
            (Some(h), _) => r matches HmacSource::Given(s) && s@ == h@,
            (None, Some(f)) => r matches HmacSource::File(s) && s@ == f@,
            (None, None) => r is Absent,
        },
{
    match (given, file) {
        (Some(h), _) => HmacSource::Given(h.clone()),
        (None, Some(f)) => HmacSource::File(f.clone()),
        (None, None) => HmacSource::Absent,
    }
}

/// The options of the uninstallation.
pub fn uninstall_options(args: UninstallArgs, db_path: String) -> (r: UninstallOptions)
    ensures
        r.prefix@ == args.prefix@,
        r.db_path@ == db_path@,
        r.user@ == args.user@,
        r.purge == args.purge,
        r.headless == args.headless,
{
    UninstallOptions {
        prefix: args.prefix,
        db_path,
        user: args.user,
        purge: args.purge,
        headless: args.headless,
    }
}

/// The configuration that the configure command saves.
pub fn configured(
    args: ConfigureArgs,
    root_domain: String,
    admin_email: String,
    eab_hmac: Option<String>,
    root_ca_pem: Option<String>,
) -> (r: Config)
    ensures
        r.root_domain@ == root_domain@,
        r.admin_email@ == admin_email@,
        r.acme_provider@ == provider_with(args.acme_provider@, args.acme_directory is Some),
        r.listen_http == args.listen_http,
        r.listen_https == args.listen_https,
        r.control_socket@ == args.control_socket@,
        r.acme_directory == args.acme_directory,
        r.acme_eab_kid == args.acme_eab_kid,
        r.acme_eab_hmac == eab_hmac,
        r.acme_root_ca_pem == root_ca_pem,
        r.acme_fallback_providers@.len() == 0,
{
    let acme_provider = effective_provider(
        args.acme_provider.as_str(),
        args.acme_directory.is_some(),
    );
    Config {
        root_domain,
        admin_email,
        acme_provider,
        listen_http: args.listen_http,
        listen_https: args.listen_https,
        control_socket: args.control_socket,
        acme_directory: args.acme_directory,
        acme_eab_kid: args.acme_eab_kid,
        acme_eab_hmac: eab_hmac,
        acme_root_ca_pem: root_ca_pem,
        acme_fallback_providers: Vec::new(),
    }
}

} // verus!
