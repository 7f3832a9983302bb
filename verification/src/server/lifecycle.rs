//! Startup failures, their exit codes, and the order of startup and shutdown.
use super::listener::ListenerError;
use crate::config::{join, joined, ConfigError};
use crate::text;
use vstd::prelude::*;

verus! {

/// Standard exit code for configuration errors (`EX_CONFIG`).
pub const EX_CONFIG: i32 = 78;

/// How many seconds open connections get to end after a shutdown began.
pub const DRAIN_SECS: u64 = 10;

/// Errors that can cause the server to fail during startup or runtime.
#[derive(Debug, PartialEq, Eq)]
pub enum ServerError {
    /// Failed to open or initialize SQLite state store.
    Store(String),
    /// Missing required configuration keys in database.
    MissingConfig(Vec<String>),
    /// Invalid configuration values.
    ValidationConfig(Vec<String>),
    /// Failed to bind listening socket.
    Bind { addr: String, source: String },
    /// Systemd socket activation error.
    Activation(String),
    /// TLS certificate or rustls setup error.
    Tls(String),
}

/// An error with its texts.
pub enum ServerProblem {
    Store(Seq<char>),
    MissingConfig(Seq<Seq<char>>),
    ValidationConfig(Seq<Seq<char>>),
    Bind { addr: Seq<char>, source: Seq<char> },
    Activation(Seq<char>),
    Tls(Seq<char>),
}

impl View for ServerError {
    type V = ServerProblem;

    open spec fn view(&self) -> ServerProblem {
        match *self {
            ServerError::Store(s) => ServerProblem::Store(s@),
            ServerError::MissingConfig(v) => ServerProblem::MissingConfig(text::texts(v@)),
            ServerError::ValidationConfig(v) => ServerProblem::ValidationConfig(text::texts(v@)),
            ServerError::Bind { addr, source } => ServerProblem::Bind {
                addr: addr@,
                source: source@,
            },
            ServerError::Activation(s) => ServerProblem::Activation(s@),
            ServerError::Tls(s) => ServerProblem::Tls(s@),
        }
    }
}

impl ServerProblem {
    /// What the command prints before it exits.
    pub open spec fn report(self) -> Seq<char> {
        match self {
            ServerProblem::Store(s) => "Store error: "@ + s,
            ServerProblem::MissingConfig(v) => "Configuration missing required keys: "@ + joined(
                v,
                ", "@,
            ),
            ServerProblem::ValidationConfig(v) => "Configuration validation failed: "@ + joined(
                v,
                "; "@,
            ),
            ServerProblem::Bind { addr, source } => "Failed to bind "@ + addr + ": "@ + source,
            ServerProblem::Activation(s) => "Socket activation failed: "@ + s,
            ServerProblem::Tls(s) => "TLS error: "@ + s,
        }
    }

    /// The message of the error.
    pub open spec fn text(self) -> Seq<char> {
        match self {
            ServerProblem::Activation(s) => "Socket activation error: "@ + s,
            ServerProblem::Tls(s) => "TLS configuration error: "@ + s,
            _ => self.report(),
        }
    }

    /// The exit code of the command.
    pub open spec fn exit_code(self) -> i32 {
        match self {
            ServerProblem::MissingConfig(_) => EX_CONFIG,
            ServerProblem::ValidationConfig(_) => EX_CONFIG,
            _ => 1,
        }
    }
}

impl ServerError {
    /// What the command prints before it exits.
    pub fn report(&self) -> (r: String)
        ensures
            r@ == self@.report(),
    {
        match self {
            ServerError::Store(s) => text::cat2("Store error: ", s.as_str()),
            ServerError::MissingConfig(v) => {
                let list = join(v, ", ");
                text::cat2("Configuration missing required keys: ", list.as_str())
            },
            ServerError::ValidationConfig(v) => {
                let list = join(v, "; ");
                text::cat2("Configuration validation failed: ", list.as_str())
            },
            ServerError::Bind { addr, source } => text::cat4(
                "Failed to bind ",
                addr.as_str(),
                ": ",
                source.as_str(),
            ),
            ServerError::Activation(s) => text::cat2("Socket activation failed: ", s.as_str()),
            ServerError::Tls(s) => text::cat2("TLS error: ", s.as_str()),
        }
    }

    /// The message of the error.
    pub fn message(&self) -> (r: String)
        ensures
            r@ == self@.text(),
    {
        match self {
            ServerError::Activation(s) => text::cat2("Socket activation error: ", s.as_str()),
            ServerError::Tls(s) => text::cat2("TLS configuration error: ", s.as_str()),
            _ => self.report(),
        }
    }

    /// The exit code of the command.
    pub fn exit_code(&self) -> (r: i32)
        ensures
            r == self@.exit_code(),
    {
        match self {
            ServerError::MissingConfig(_) => EX_CONFIG,
            ServerError::ValidationConfig(_) => EX_CONFIG,
            _ => 1,
        }
    }
}

/// A configuration that could not be loaded.
pub fn config_failure(error: ConfigError) -> (r: ServerError)
    ensures
        r@ == (match error {
            ConfigError::MissingKeys(keys) => ServerProblem::MissingConfig(text::texts(keys@)),
            ConfigError::ValidationFailed(issues) => ServerProblem::ValidationConfig(
                text::texts(issues@),
            ),
            ConfigError::DeserializationFailed(why) => ServerProblem::ValidationConfig(seq![why@]),
            ConfigError::Store(why) => ServerProblem::Store("Invalid path: "@ + why@),
        }),
{
    match error {
        ConfigError::MissingKeys(keys) => ServerError::MissingConfig(keys),
        ConfigError::ValidationFailed(issues) => ServerError::ValidationConfig(issues),
        ConfigError::DeserializationFailed(why) => {
            let mut issues: Vec<String> = Vec::new();
            let ghost said = why@;
            issues.push(why);
            assert(text::texts(issues@) =~= seq![said]);
            ServerError::ValidationConfig(issues)
        },
        ConfigError::Store(why) => ServerError::Store(text::cat2("Invalid path: ", why.as_str())),
    }
}

/// Listeners that could not be had.
pub fn listener_failure(error: ListenerError) -> (r: ServerError)
    ensures
        r@ == (match error {
            ListenerError::Bind { addr, source } => ServerProblem::Bind {
                addr: addr@,
                source: source@,
            },
            ListenerError::Activation(why) => ServerProblem::Activation(why@),
        }),
{
    match error {
        ListenerError::Bind { addr, source } => ServerError::Bind { addr, source },
        ListenerError::Activation(why) => ServerError::Activation(why),
    }
}

/// Whether to warn about running as root: with effective user 0, outside a
/// container.
pub fn warns_about_root(euid: u32, dockerenv_exists: bool, container_set: bool) -> (r: bool)
    ensures
        r == (euid == 0 && !dockerenv_exists && !container_set),
{
    euid == 0 && !dockerenv_exists && !container_set
}

/// What the server is about to do.
#[derive(Debug, Clone, Copy, PartialEq, Eq, Structural)]
pub enum ServerStage {
    /// Open the store and apply migrations.
    OpenStore,
    /// Load and validate the configuration.
    LoadConfig,
    /// Acquire the HTTP and HTTPS listeners.
    AcquireListeners,
    /// Load the cached certificates.
    InitCertificates,
    /// Build the TLS configuration.
    ConfigureTls,
    /// Bind the control socket.
    BindControl,
    /// Register the handlers of termination signals.
    RegisterSignals,
    /// Start the edges, the control server and the renewal loop.
    StartServing,
    /// Tell the supervisor that the server is ready.
    NotifyReady,
    /// Start the order of the root domain's certificate if it has none.
    OrderRootCertificate,
    /// Wait for a signal or another reason to stop.
    Serve,
    /// Tell the supervisor that the server stops.
    NotifyStopping,
    /// Let open connections end, for at most `DRAIN_SECS` seconds.
    Drain,
    /// Close the store.
    CloseStore,
    /// Nothing: the server is done.
    Done,
}

impl ServerStage {
    /// How far along the stage is.
    pub open spec fn rank(self) -> int {
        match self {
            ServerStage::OpenStore => 0,
            ServerStage::LoadConfig => 1,
            ServerStage::AcquireListeners => 2,
            ServerStage::InitCertificates => 3,
            ServerStage::ConfigureTls => 4,
            ServerStage::BindControl => 5,
            ServerStage::RegisterSignals => 6,
            ServerStage::StartServing => 7,
            ServerStage::NotifyReady => 8,
            ServerStage::OrderRootCertificate => 9,
            ServerStage::Serve => 10,
            ServerStage::NotifyStopping => 11,
            ServerStage::Drain => 12,
            ServerStage::CloseStore => 13,
            ServerStage::Done => 14,
        }
    }

    /// A failure ends the server: nothing is served yet.
    pub open spec fn must_succeed(self) -> bool {
        self.rank() < ServerStage::StartServing.rank()
    }

    /// The text before the cause where the stage fails.
    pub open spec fn failure_prefix(self) -> Seq<char> {
        match self {
            ServerStage::InitCertificates => "Failed to initialize CertManager: "@,
            ServerStage::BindControl => "Failed to bind control socket: "@,
            _ => ""@,
        }
    }

    /// The error of a stage that failed for a cause that is not described by an
    /// error type of its own.
    pub open spec fn failure(self, cause: Seq<char>) -> ServerProblem {
        match self {
            ServerStage::OpenStore => ServerProblem::Store(cause),
            ServerStage::ConfigureTls => ServerProblem::Tls(cause),
            _ => ServerProblem::Activation(self.failure_prefix() + cause),
        }
    }

    /// The stage that follows once this one is through.
    pub fn next(self) -> (r: ServerStage)
        ensures
            self is Done ==> r is Done,
            self !is Done ==> r.rank() == self.rank() + 1,
    {
        match self {
            ServerStage::OpenStore => ServerStage::LoadConfig,
            ServerStage::LoadConfig => ServerStage::AcquireListeners,
            ServerStage::AcquireListeners => ServerStage::InitCertificates,
            ServerStage::InitCertificates => ServerStage::ConfigureTls,
            ServerStage::ConfigureTls => ServerStage::BindControl,
            ServerStage::BindControl => ServerStage::RegisterSignals,
            ServerStage::RegisterSignals => ServerStage::StartServing,
            ServerStage::StartServing => ServerStage::NotifyReady,
            ServerStage::NotifyReady => ServerStage::OrderRootCertificate,
            ServerStage::OrderRootCertificate => ServerStage::Serve,
            ServerStage::Serve => ServerStage::NotifyStopping,
            ServerStage::NotifyStopping => ServerStage::Drain,
            ServerStage::Drain => ServerStage::CloseStore,
            ServerStage::CloseStore => ServerStage::Done,
            ServerStage::Done => ServerStage::Done,
        }
    }

    /// Takes how a stage went: a failure before the server serves ends it with
    /// an error, a later one does not.
    pub fn step(self, failure: Option<&str>) -> (r: Result<ServerStage, ServerError>)
        ensures
            match failure {
                Some(cause) => if self.must_succeed() {
                    r matches Err(e) && e@ == self.failure(cause@)
                } else {
                    r matches Ok(next) && next.rank() == (if self is Done {
                        self.rank()
                    } else {
                        self.rank() + 1
                    })
                },
                None => r matches Ok(next) && next.rank() == (if self is Done {
                    self.rank()
                } else {
                    self.rank() + 1
                }),
            },
    {
        let cause = match failure {
            Some(cause) => cause,
            None => return Ok(self.next()),
        };
        proof {
            reveal_strlit("");
            assert(""@ + cause@ =~= cause@);
        }
        match self {
            ServerStage::OpenStore => Err(ServerError::Store(cause.to_owned())),
            ServerStage::ConfigureTls => Err(ServerError::Tls(cause.to_owned())),
            ServerStage::InitCertificates => Err(
                ServerError::Activation(text::cat2("Failed to initialize CertManager: ", cause)),
            ),
            ServerStage::BindControl => Err(
                ServerError::Activation(text::cat2("Failed to bind control socket: ", cause)),
            ),
            ServerStage::LoadConfig | ServerStage::AcquireListeners
            | ServerStage::RegisterSignals => Err(ServerError::Activation(cause.to_owned())),
            _ => Ok(self.next()),
        }
    }
}

/// Readiness is declared only once everything that can fail has succeeded, and
/// before the first certificate is ordered.
pub proof fn ready_means_serving(stage: ServerStage)
    requires
        stage is NotifyReady,
    ensures
        forall|s: ServerStage| #[trigger] s.must_succeed() ==> s.rank() < stage.rank(),
        ServerStage::OrderRootCertificate.rank() == stage.rank() + 1,
{
}

} // verus!
