//! The setup command from the gathered configuration on: in which order it
//! confirms, verifies, plans, installs and verifies again, and how it ends.
use super::dns::DnsProbeResult;
use super::interactive::GatheredConfig;
use super::planner::{ExistingInstall, PortReachability, SystemProbe};
use crate::cert::providers::{directory_of, resolve_directory_url};
use crate::text;
use vstd::prelude::*;

verus! {

/// The directory of the default provider.
pub const FALLBACK_DIRECTORY: &'static str = "https://acme-v02.api.letsencrypt.org/directory";

/// What the setup does next.
#[derive(Debug, Clone, Copy, PartialEq, Eq, Structural)]
pub enum SetupStage {
    /// Show the plan and have it confirmed.
    Confirm,
    /// Get root privileges.
    Elevate,
    /// See whether systemd runs the host.
    CheckSystemd,
    /// See whether the platform is supported.
    CheckPlatform,
    /// Look for an existing installation.
    DetectExisting,
    /// Resolve the root domain and a probe subdomain.
    ProbeDns,
    /// See whether public traffic reaches this machine.
    CheckReachability,
    /// Decide on the installation.
    MakePlan,
    /// Read the root CA certificate.
    ReadRootCa,
    /// Register the ACME account with the directory.
    RegisterAccount,
    /// Install.
    Install,
    /// Verify the deployment.
    Verify,
    /// Nothing: the setup is complete.
    Finish,
}

/// How the setup ends before it is complete.
#[derive(Debug, PartialEq, Eq)]
pub struct SetupExit {
    /// The exit code.
    pub code: i32,
    /// What is printed.
    pub message: String,
    /// Diagnostic instructions follow.
    pub guidance: bool,
}

/// How the setup ends before it is complete.
pub struct ExitFacts {
    pub code: i32,
    pub message: Seq<char>,
    pub guidance: bool,
}

impl View for SetupExit {
    type V = ExitFacts;

    open spec fn view(&self) -> ExitFacts {
        ExitFacts { code: self.code, message: self.message@, guidance: self.guidance }
    }
}

impl SetupStage {
    /// How far along the stage is.
    pub open spec fn rank(self) -> int {
        match self {
            SetupStage::Confirm => 0,
            SetupStage::Elevate => 1,
            SetupStage::CheckSystemd => 2,
            SetupStage::CheckPlatform => 3,
            SetupStage::DetectExisting => 4,
            SetupStage::ProbeDns => 5,
            SetupStage::CheckReachability => 6,
            SetupStage::MakePlan => 7,
            SetupStage::ReadRootCa => 8,
            SetupStage::RegisterAccount => 9,
            SetupStage::Install => 10,
            SetupStage::Verify => 11,
            SetupStage::Finish => 12,
        }
    }

    /// The stage that follows once this one is through.
    pub open spec fn next(self) -> SetupStage {
        match self {
            SetupStage::Confirm => SetupStage::Elevate,
            SetupStage::Elevate => SetupStage::CheckSystemd,
            SetupStage::CheckSystemd => SetupStage::CheckPlatform,
            SetupStage::CheckPlatform => SetupStage::DetectExisting,
            SetupStage::DetectExisting => SetupStage::ProbeDns,
            SetupStage::ProbeDns => SetupStage::CheckReachability,
            SetupStage::CheckReachability => SetupStage::MakePlan,
            SetupStage::MakePlan => SetupStage::ReadRootCa,
            SetupStage::ReadRootCa => SetupStage::RegisterAccount,
            SetupStage::RegisterAccount => SetupStage::Install,
            SetupStage::Install => SetupStage::Verify,
            SetupStage::Verify => SetupStage::Finish,
            SetupStage::Finish => SetupStage::Finish,
        }
    }

    /// How the setup ends where this stage fails; none where it goes on
    /// regardless.
    pub open spec fn exit(self, cause: Seq<char>, directory: Seq<char>) -> Option<ExitFacts> {
        let failed = |message: Seq<char>, guidance: bool|
            Some(ExitFacts { code: 1, message, guidance });
        match self {
            SetupStage::Confirm => Some(
                ExitFacts { code: 0, message: "Setup cancelled by user."@, guidance: false },
            ),
            SetupStage::Elevate => Some(ExitFacts { code: 2, message: cause, guidance: false }),
            SetupStage::CheckSystemd => failed(
                "the server component supports systemd Linux only"@,
                false,
            ),
            SetupStage::CheckPlatform => failed(
                "unsupported target platform: Linux x86_64 or aarch64 required"@,
                false,
            ),
            SetupStage::DetectExisting => None,
            SetupStage::ProbeDns => failed("DNS verification failed: "@ + cause, false),
            SetupStage::CheckReachability => None,
            SetupStage::MakePlan => failed("Setup cannot proceed: "@ + cause, false),
            SetupStage::ReadRootCa => failed("Error reading root CA file: "@ + cause, false),
            SetupStage::RegisterAccount => failed(
                "Failed to validate ACME credentials against "@ + directory + ": "@ + cause,
                false,
            ),
            SetupStage::Install => failed("Installation failed: "@ + cause, true),
            SetupStage::Verify => failed("Deployment verification failed: "@ + cause, true),
            SetupStage::Finish => None,
        }
    }

    /// The first stage: a run whose answers were forwarded has been confirmed
    /// and has its privileges.
    pub fn first(no_prompt_values: bool) -> (r: SetupStage)
        ensures
            r == (if no_prompt_values {
                SetupStage::CheckSystemd
            } else {
                SetupStage::Confirm
            }),
    {
        if no_prompt_values {
            SetupStage::CheckSystemd
        } else {
            SetupStage::Confirm
        }
    }

    fn advance(self) -> (r: SetupStage)
        ensures
            r == self.next(),
    {
        match self {
            SetupStage::Confirm => SetupStage::Elevate,
            SetupStage::Elevate => SetupStage::CheckSystemd,
            SetupStage::CheckSystemd => SetupStage::CheckPlatform,
            SetupStage::CheckPlatform => SetupStage::DetectExisting,
            SetupStage::DetectExisting => SetupStage::ProbeDns,
            SetupStage::ProbeDns => SetupStage::CheckReachability,
            SetupStage::CheckReachability => SetupStage::MakePlan,
            SetupStage::MakePlan => SetupStage::ReadRootCa,
            SetupStage::ReadRootCa => SetupStage::RegisterAccount,
            SetupStage::RegisterAccount => SetupStage::Install,
            SetupStage::Install => SetupStage::Verify,
            SetupStage::Verify => SetupStage::Finish,
            SetupStage::Finish => SetupStage::Finish,
        }
    }

    /// Takes how the stage went, with the cause where it failed: goes on to the
    /// next one, or ends the setup.
    pub fn step(self, failure: Option<&str>, directory: &str) -> (r: Result<SetupStage, SetupExit>)
        ensures
            match failure {
                None => r == Ok::<SetupStage, SetupExit>(self.next()),
                Some(cause) => match self.exit(cause@, directory@) {
                    None => r == Ok::<SetupStage, SetupExit>(self.next()),
                    Some(e) => r matches Err(exit) && exit@ == e,
                },
            },
    {
        let cause = match failure {
            Some(cause) => cause,
            None => return Ok(self.advance()),
        };
        let (code, message, guidance) = match self {
            SetupStage::Confirm => (0, "Setup cancelled by user.".to_owned(), false),
            SetupStage::Elevate => (2, cause.to_owned(), false),
            SetupStage::CheckSystemd => (
                1,
                "the server component supports systemd Linux only".to_owned(),
                false,
            ),
            SetupStage::CheckPlatform => (
                1,
                "unsupported target platform: Linux x86_64 or aarch64 required".to_owned(),
                false,
            ),
            SetupStage::ProbeDns => (1, text::cat2("DNS verification failed: ", cause), false),
            SetupStage::MakePlan => (1, text::cat2("Setup cannot proceed: ", cause), false),
            SetupStage::ReadRootCa => (
                1,
                text::cat2("Error reading root CA file: ", cause),
                false,
            ),
            SetupStage::RegisterAccount => (
                1,
                text::cat4(
                    "Failed to validate ACME credentials against ",
                    directory,
                    ": ",
                    cause,
                ),
                false,
            ),
            SetupStage::Install => (1, text::cat2("Installation failed: ", cause), true),
            SetupStage::Verify => (1, text::cat2("Deployment verification failed: ", cause), true),
            SetupStage::DetectExisting | SetupStage::CheckReachability
            | SetupStage::Finish => return Ok(self.advance()),
        };
        Err(SetupExit { code, message, guidance })
    }
}

/// The directory that the account is registered with.
pub open spec fn account_url(directory: Option<Seq<char>>, provider: Seq<char>) -> Seq<char> {
    match directory {
        Some(d) => d,
        None => match directory_of(provider, None) {
            Some(d) => d,
            None => FALLBACK_DIRECTORY@,
        },
    }
}

/// The directory that the account is registered with: the given one, the
/// provider's, or else that of the default provider.
pub fn registration_directory(directory: &Option<String>, provider: &str) -> (r: String)
    ensures
        r@ == account_url(text::opt(*directory), provider@),
{
    match directory {
        Some(d) => d.clone(),
        None => match resolve_directory_url(provider, None) {
            Some(d) => d,
            None => FALLBACK_DIRECTORY.to_owned(),
        },
    }
}

/// What the planner is given, on a host that passed the preflight checks.
pub fn system_probe(
    gathered: &GatheredConfig,
    existing_install: Option<ExistingInstall>,
    dns: DnsProbeResult,
    port_80: PortReachability,
    port_443: PortReachability,
    is_headless: bool,
) -> (r: SystemProbe)
    ensures
        r.systemd_present && r.supported_arch,
        r.target_domain@ == gathered.root_domain@,
        r.existing_install == existing_install,
        r.root_ips == dns.root_ips,
        r.probe_ips == dns.probe_ips,
        r.port_80 == port_80,
        r.port_443 == port_443,
        r.is_headless == is_headless,
        !r.confirmed_domain_change,
        r.skip_reachability_check == gathered.skip_reachability_check,
        r.db_path@ == gathered.db_path@,
        r.user@ == gathered.user@,
        r.prefix@ == gathered.prefix@,
        r.acme_provider@ == gathered.acme_provider@,
        r.has_eab == gathered.acme_eab_kid is Some,
{
    SystemProbe {
        systemd_present: true,
        supported_arch: true,
        target_domain: gathered.root_domain.clone(),
        existing_install,
        root_ips: dns.root_ips,
        probe_ips: dns.probe_ips,
        port_80,
        port_443,
        is_headless,
        confirmed_domain_change: false,
        skip_reachability_check: gathered.skip_reachability_check,
        db_path: gathered.db_path.clone(),
        user: gathered.user.clone(),
        prefix: gathered.prefix.clone(),
        acme_provider: gathered.acme_provider.clone(),
        has_eab: gathered.acme_eab_kid.is_some(),
    }
}

/// Whether the installation was up to date already.
pub fn is_up_to_date(changed: bool, is_upgrade: bool) -> (r: bool)
    ensures
        r == (!changed && is_upgrade),
{
    !changed && is_upgrade
}

/// Nothing is installed before the host, its DNS records and the ACME account
/// have been verified: a failure up to there leaves the host as it was.
pub proof fn installs_only_what_was_verified(stage: SetupStage, cause: Seq<char>, url: Seq<char>)
    requires
        stage.rank() < SetupStage::Install.rank(),
        !(stage is DetectExisting || stage is CheckReachability),
    ensures
        stage.exit(cause, url) is Some,
        stage.next().rank() == stage.rank() + 1,
{
}

} // verus!
