//! Privilege verification and `sudo` re-execution.
//!
//! A command that needs root re-executes the binary via `sudo`, forwarding
//! gathered answers through CLI arguments alongside `--no-prompt-values` to
//! prevent duplicate interactive prompts.
use super::interactive::GatheredConfig;
use super::uninstall::UninstallOptions;
use crate::text;
use vstd::prelude::*;

verus! {

/// Whether a user id is that of root.
pub fn is_root(euid: u32) -> (r: bool)
    ensures
        r == (euid == 0),
{
    euid == 0
}

/// How a command gets root privileges.
#[derive(Debug, Clone, Copy, PartialEq, Eq, Structural)]
pub enum Elevation {
    /// It has them.
    Ready,
    /// It cannot get them without a password, and nobody is there to type it.
    Refused,
    /// It is executed again via `sudo`.
    Sudo,
}

/// The exit code of a command that cannot get root privileges.
pub const REFUSED_EXIT: i32 = 2;

/// Decides how a command gets root privileges; in headless mode only `sudo`
/// without a password will do.
pub fn elevation(root: bool, is_headless: bool, passwordless: bool) -> (r: Elevation)
    ensures
        r == (if root {
            Elevation::Ready
        } else if is_headless && !passwordless {
            Elevation::Refused
        } else {
            Elevation::Sudo
        }),
{
    if root {
        Elevation::Ready
    } else if is_headless && !passwordless {
        Elevation::Refused
    } else {
        Elevation::Sudo
    }
}

/// The exit code of a command that was executed again.
pub fn elevated_exit(code: Option<i32>) -> (r: i32)
    ensures
        r == (match code {
            Some(c) => c,
            None => 1,
        }),
{
    match code {
        Some(c) => c,
        None => 1,
    }
}

/// An option and its value, where it has one.
pub open spec fn option_args(name: Seq<char>, value: Option<String>) -> Seq<Seq<char>> {
    match value {
        Some(v) => seq![name, v@],
        None => seq![],
    }
}

/// A flag, where it is set.
pub open spec fn flag_args(name: Seq<char>, set: bool) -> Seq<Seq<char>> {
    if set {
        seq![name]
    } else {
        seq![]
    }
}

/// The arguments of `sudo` that execute the setup again.
pub open spec fn setup_args(exe: Seq<char>, c: GatheredConfig, is_headless: bool) -> Seq<
    Seq<char>,
> {
    flag_args("-n"@, is_headless) + seq![
        exe,
        "setup"@,
        "--root-domain"@,
        c.root_domain@,
        "--email"@,
        c.admin_email@,
        "--acme-provider"@,
        c.acme_provider@,
        "--db"@,
        c.db_path@,
        "--user"@,
        c.user@,
        "--prefix"@,
        c.prefix@,
    ] + option_args("--acme-directory"@, c.acme_directory) + option_args(
        "--acme-eab-kid"@,
        c.acme_eab_kid,
    ) + option_args("--acme-eab-hmac"@, c.acme_eab_hmac) + option_args(
        "--acme-root-ca"@,
        c.acme_root_ca_path,
    ) + flag_args("--skip-reachability-check"@, c.skip_reachability_check) + flag_args(
        "--headless"@,
        is_headless,
    ) + seq!["--no-prompt-values"@]
}

fn push_text(v: &mut Vec<String>, s: &str)
    ensures
        text::texts(final(v)@) == text::texts(old(v)@).push(s@),
{
    let ghost before = text::texts(v@);
    v.push(s.to_owned());
    assert(text::texts(v@) =~= before.push(s@));
}

fn push_option(v: &mut Vec<String>, name: &str, value: &Option<String>)
    ensures
        text::texts(final(v)@) == text::texts(old(v)@) + option_args(name@, *value),
{
    let ghost before = text::texts(v@);
    if let Some(s) = value {
        push_text(v, name);
        push_text(v, s.as_str());
    }
    assert(text::texts(v@) =~= before + option_args(name@, *value));
}

fn push_flag(v: &mut Vec<String>, name: &str, set: bool)
    ensures
        text::texts(final(v)@) == text::texts(old(v)@) + flag_args(name@, set),
{
    let ghost before = text::texts(v@);
    if set {
        push_text(v, name);
    }
    assert(text::texts(v@) =~= before + flag_args(name@, set));
}

/// The arguments of `sudo` that execute the setup again with the gathered
/// answers.
pub fn setup_elevation_args(exe: &str, config: &GatheredConfig, is_headless: bool) -> (r: Vec<
    String,
>)
    ensures
        text::texts(r@) == setup_args(exe@, *config, is_headless),
{
    let mut v: Vec<String> = Vec::new();
    assert(text::texts(v@) =~= Seq::<Seq<char>>::empty());
    push_flag(&mut v, "-n", is_headless);
    push_text(&mut v, exe);
    push_text(&mut v, "setup");
    push_text(&mut v, "--root-domain");
    push_text(&mut v, config.root_domain.as_str());
    push_text(&mut v, "--email");
    push_text(&mut v, config.admin_email.as_str());
    push_text(&mut v, "--acme-provider");
    push_text(&mut v, config.acme_provider.as_str());
    push_text(&mut v, "--db");
    push_text(&mut v, config.db_path.as_str());
    push_text(&mut v, "--user");
    push_text(&mut v, config.user.as_str());
    push_text(&mut v, "--prefix");
    push_text(&mut v, config.prefix.as_str());
    push_option(&mut v, "--acme-directory", &config.acme_directory);
    push_option(&mut v, "--acme-eab-kid", &config.acme_eab_kid);
    push_option(&mut v, "--acme-eab-hmac", &config.acme_eab_hmac);
    push_option(&mut v, "--acme-root-ca", &config.acme_root_ca_path);
    push_flag(&mut v, "--skip-reachability-check", config.skip_reachability_check);
    push_flag(&mut v, "--headless", is_headless);
    push_text(&mut v, "--no-prompt-values");
    assert(text::texts(v@) =~= setup_args(exe@, *config, is_headless));
    v
}

/// The arguments of `sudo` that execute the uninstallation again.
pub open spec fn uninstall_args(exe: Seq<char>, o: UninstallOptions) -> Seq<Seq<char>> {
    flag_args("-n"@, o.headless) + seq![
        exe,
        "uninstall"@,
        "--prefix"@,
        o.prefix@,
        "--db"@,
        o.db_path@,
        "--user"@,
        o.user@,
    ] + flag_args("--purge"@, o.purge) + flag_args("--headless"@, o.headless)
}

/// The arguments of `sudo` that execute the uninstallation again.
pub fn uninstall_elevation_args(exe: &str, opts: &UninstallOptions) -> (r: Vec<String>)
    ensures
        text::texts(r@) == uninstall_args(exe@, *opts),
{
    let mut v: Vec<String> = Vec::new();
    assert(text::texts(v@) =~= Seq::<Seq<char>>::empty());
    push_flag(&mut v, "-n", opts.headless);
    push_text(&mut v, exe);
    push_text(&mut v, "uninstall");
    push_text(&mut v, "--prefix");
    push_text(&mut v, opts.prefix.as_str());
    push_text(&mut v, "--db");
    push_text(&mut v, opts.db_path.as_str());
    push_text(&mut v, "--user");
    push_text(&mut v, opts.user.as_str());
    push_flag(&mut v, "--purge", opts.purge);
    push_flag(&mut v, "--headless", opts.headless);
    assert(text::texts(v@) =~= uninstall_args(exe@, *opts));
    v
}

} // verus!
