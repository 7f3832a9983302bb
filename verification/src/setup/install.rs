//! Idempotent host installation.
//!
//! - System user creation
//! - Atomic binary installation to `<prefix>/weaver-server`
//! - State directory permissions
//! - SQLite database initialization and configuration persistence
//! - Systemd unit deployment (`weaver-server.socket`, `weaver-server.service`)
//! - Service enablement and activation via `systemctl`
use super::interactive::GatheredConfig;
use super::note::{no_notes, note, notes_of, one_note, say, Mark, Note, NoteFacts};
use super::planner::{Plan, PlanFacts};
use super::units::{
    render_service_unit, render_socket_unit, service_unit, ServiceUnitParams, SOCKET_UNIT_TEMPLATE,
};
use crate::cert::providers::{directory_of, resolve_directory_url};
use crate::config::Config;
use crate::digest::{sha256, sha256_digest};
use crate::net::{IpAddress, SocketAddress};
use crate::number;
use crate::text;
use vstd::prelude::*;

verus! {

/// The control socket of an installed server.
pub const CONTROL_SOCKET: &'static str = "/run/weaver/control.sock";

/// Result of an installation execution.
#[derive(Debug, Clone, PartialEq, Eq)]
pub struct InstallResult {
    /// Whether any changes were applied to the host.
    pub changed: bool,
    /// Target binary path.
    pub binary_path: String,
    /// Database path.
    pub db_path: String,
}

/// What the installation does next.
#[derive(Debug, Clone, Copy, PartialEq, Eq, Structural)]
pub enum InstallAction {
    /// See whether the system group exists.
    CheckGroup,
    /// Create the system group.
    CreateGroup,
    /// See whether the system user exists.
    CheckUser,
    /// See whether the group is there for the user to be in.
    CheckUserGroup,
    /// Create the system user, in its group where it has one.
    CreateUser { in_group: bool },
    /// Create the prefix directory, and read this binary and the installed one.
    ReadBinaries,
    /// Copy this binary beside its target, make it executable, and rename it.
    InstallBinary,
    /// See whether the state directory exists.
    CheckState,
    /// Create the state directory, for its user alone.
    CreateState,
    /// Give the state directory to its user.
    OwnState,
    /// See whether the service runs.
    CheckService,
    /// Stop the service.
    StopService,
    /// Open the database.
    OpenStore,
    /// Read the root CA certificate.
    ReadRootCa,
    /// Save the configuration.
    SaveConfig,
    /// Save the registered ACME account.
    SaveAccount,
    /// Give the database and the state directory to their user.
    OwnDatabase,
    /// Read the unit files.
    ReadUnits,
    /// Write the unit files, and let systemd read them.
    WriteUnits,
    /// Enable and start the units.
    EnableUnits,
    /// Nothing: the installation is complete.
    Finish,
}

/// What can fail.
#[derive(Debug, Clone, Copy, PartialEq, Eq, Structural)]
pub enum InstallFault {
    RunUseradd,
    FindCurrentExe,
    CreatePrefix,
    CopyBinary,
    ReadBinaryMetadata,
    SetBinaryPermissions,
    RenameBinary,
    CreateStateDir,
    ReadStateMetadata,
    SetStatePermissions,
    OpenDatabase,
    ReadRootCa,
    SaveConfig,
    SaveAccount,
    WriteSocketUnit,
    WriteServiceUnit,
    RunEnable,
}

/// How an action went.
#[derive(Debug)]
pub enum InstallEvent {
    /// It was done.
    Done,
    /// Whether what was looked for is there.
    Found(bool),
    /// The command ran: whether it succeeded, and its exit code.
    Ran { success: bool, code: Option<i32> },
    /// This binary and the installed one, where they can be read.
    Binaries { current: Option<Vec<u8>>, installed: Option<Vec<u8>> },
    /// The root CA certificate.
    RootCa(String),
    /// The socket unit and the service unit, where they can be read.
    Units { socket: Option<String>, service: Option<String> },
    /// Something failed.
    Failed { fault: InstallFault, cause: String },
}

/// What comes before the cause in the message of a failure.
pub open spec fn fault_text(fault: InstallFault, ca_path: Seq<char>) -> Seq<char> {
    match fault {
        InstallFault::RunUseradd => "failed to execute useradd: "@,
        InstallFault::FindCurrentExe => "cannot determine current exe: "@,
        InstallFault::CreatePrefix => "failed to create prefix directory: "@,
        InstallFault::CopyBinary => "failed to copy binary to temp path: "@,
        InstallFault::ReadBinaryMetadata => "failed to read metadata: "@,
        InstallFault::SetBinaryPermissions => "failed to set binary permissions: "@,
        InstallFault::RenameBinary => "failed to rename binary atomically: "@,
        InstallFault::CreateStateDir => "failed to create state directory: "@,
        InstallFault::ReadStateMetadata => "failed to read state dir metadata: "@,
        InstallFault::SetStatePermissions => "failed to set state dir permissions: "@,
        InstallFault::OpenDatabase => "failed to open database: "@,
        InstallFault::ReadRootCa => "failed to read root CA at "@ + ca_path + ": "@,
        InstallFault::SaveConfig => "failed to save config: "@,
        InstallFault::SaveAccount => "failed to store pre-registered ACME credentials: "@,
        InstallFault::WriteSocketUnit => "failed to write socket unit: "@,
        InstallFault::WriteServiceUnit => "failed to write service unit: "@,
        InstallFault::RunEnable => "failed to enable and start services: "@,
    }
}

fn fault_prefix(fault: InstallFault, ca_path: &str) -> (r: String)
    ensures
        r@ == fault_text(fault, ca_path@),
{
    match fault {
        InstallFault::RunUseradd => "failed to execute useradd: ".to_owned(),
        InstallFault::FindCurrentExe => "cannot determine current exe: ".to_owned(),
        InstallFault::CreatePrefix => "failed to create prefix directory: ".to_owned(),
        InstallFault::CopyBinary => "failed to copy binary to temp path: ".to_owned(),
        InstallFault::ReadBinaryMetadata => "failed to read metadata: ".to_owned(),
        InstallFault::SetBinaryPermissions => "failed to set binary permissions: ".to_owned(),
        InstallFault::RenameBinary => "failed to rename binary atomically: ".to_owned(),
        InstallFault::CreateStateDir => "failed to create state directory: ".to_owned(),
        InstallFault::ReadStateMetadata => "failed to read state dir metadata: ".to_owned(),
        InstallFault::SetStatePermissions => "failed to set state dir permissions: ".to_owned(),
        InstallFault::OpenDatabase => "failed to open database: ".to_owned(),
        InstallFault::ReadRootCa => text::cat3("failed to read root CA at ", ca_path, ": "),
        InstallFault::SaveConfig => "failed to save config: ".to_owned(),
        InstallFault::SaveAccount =>
            "failed to store pre-registered ACME credentials: ".to_owned(),
        InstallFault::WriteSocketUnit => "failed to write socket unit: ".to_owned(),
        InstallFault::WriteServiceUnit => "failed to write service unit: ".to_owned(),
        InstallFault::RunEnable => "failed to enable and start services: ".to_owned(),
    }
}

/// An exit code, as it is shown: the code, or that there is none.
pub open spec fn code_text(code: Option<i32>) -> Seq<char> {
    match code {
        Some(c) => "Some("@ + number::signed_decimal(c as int) + ")"@,
        None => "None"@,
    }
}

fn shown_code(code: Option<i32>) -> (r: String)
    ensures
        r@ == code_text(code),
{
    match code {
        Some(c) => {
            let n = number::signed_decimal_of(c as i64);
            text::cat3("Some(", n.as_str(), ")")
        },
        None => "None".to_owned(),
    }
}

/// The digest of a file that can be read.
pub open spec fn digest_of(content: Option<Vec<u8>>) -> Option<Seq<u8>> {
    match content {
        Some(c) => Some(sha256(c@)),
        None => None,
    }
}

/// Computes the SHA-256 digest of a file that can be read.
pub fn file_sha256(content: &Option<Vec<u8>>) -> (r: Option<Vec<u8>>)
    ensures
        (match r {
            Some(d) => Some(d@),
            None => None,
        }) == digest_of(*content),
{
    match content {
        Some(c) => Some(sha256_digest(c.as_slice())),
        None => None,
    }
}

/// The binary is to be installed: there is none, or its digest differs.
pub open spec fn binary_differs(current: Option<Vec<u8>>, installed: Option<Vec<u8>>) -> bool {
    digest_of(current) != digest_of(installed) || installed is None
}

/// Whether the binary is to be installed.
pub fn needs_binary(current: &Option<Vec<u8>>, installed: &Option<Vec<u8>>) -> (r: bool)
    ensures
        r == binary_differs(*current, *installed),
{
    let a = file_sha256(current);
    let b = file_sha256(installed);
    match (a, b) {
        (Some(x), Some(y)) => {
            let mut i: usize = 0;
            if x.len() != y.len() {
                return true;
            }
            while i < x.len()
                invariant
                    x@.len() == y@.len(),
                    i <= x@.len(),
                    forall|j: int| 0 <= j < i ==> x@[j] == y@[j],
                    digest_of(*current) == Some(x@),
                    digest_of(*installed) == Some(y@),
                decreases x@.len() - i,
            {
                if x[i] != y[i] {
                    return true;
                }
                i += 1;
            }
            assert(x@ =~= y@);
            false
        },
        _ => true,
    }
}

/// The units are to be written: one is missing or differs.
pub open spec fn units_differ(socket: Option<String>, service: Option<String>, plan: PlanFacts)
    -> bool {
    ||| text::opt(socket) != Some(SOCKET_UNIT_TEMPLATE@)
    ||| text::opt(service) != Some(service_unit(plan.prefix, plan.db_path, plan.user))
}

/// The contents of the socket unit and the service unit.
pub fn unit_files(plan: &Plan) -> (r: (String, String))
    ensures
        r.0@ == SOCKET_UNIT_TEMPLATE@,
        r.1@ == service_unit(plan.prefix@, plan.db_path@, plan.user@),
{
    let params = ServiceUnitParams {
        prefix: plan.prefix.as_str(),
        db_path: plan.db_path.as_str(),
        user: plan.user.as_str(),
    };
    (render_socket_unit(), render_service_unit(&params))
}

fn is_text(s: &Option<String>, wanted: &str) -> (r: bool)
    ensures
        r == (text::opt(*s) == Some(wanted@)),
{
    match s {
        Some(s) => text::same(s.as_str(), wanted),
        None => false,
    }
}

/// Whether the units are to be written.
pub fn needs_units(socket: &Option<String>, service: &Option<String>, plan: &Plan) -> (r: bool)
    ensures
        r == units_differ(*socket, *service, plan@),
{
    let (socket_unit, service_unit) = unit_files(plan);
    !is_text(socket, socket_unit.as_str()) || !is_text(service, service_unit.as_str())
}

/// The arguments of `useradd`.
pub fn useradd_args(user: &str, in_group: bool) -> (r: Vec<String>)
    ensures
        text::texts(r@) == seq![
            "--system"@,
            "--no-create-home"@,
            "--shell"@,
            "/usr/sbin/nologin"@,
        ] + (if in_group {
            seq!["-g"@, user@]
        } else {
            seq![]
        }) + seq![user@],
{
    let mut v: Vec<String> = Vec::new();
    v.push("--system".to_owned());
    v.push("--no-create-home".to_owned());
    v.push("--shell".to_owned());
    v.push("/usr/sbin/nologin".to_owned());
    if in_group {
        v.push("-g".to_owned());
        v.push(user.to_owned());
    }
    v.push(user.to_owned());
    assert(text::texts(v@) =~= seq![
        "--system"@,
        "--no-create-home"@,
        "--shell"@,
        "/usr/sbin/nologin"@,
    ] + (if in_group {
        seq!["-g"@, user@]
    } else {
        seq![]
    }) + seq![user@]);
    v
}

/// The name of the binary before it is renamed.
pub fn temporary_name(pid: u32) -> (r: String)
    ensures
        r@ == "weaver-server.tmp."@ + number::decimal(pid as nat),
{
    let n = number::decimal_of(pid as u64);
    text::cat2("weaver-server.tmp.", n.as_str())
}

/// The state directory where the database has no directory of its own.
pub const DEFAULT_STATE_DIR: &'static str = "/var/lib/weaver";

/// The state directory: the directory of the database, where it has one.
pub fn state_directory(parent: Option<&str>) -> (r: String)
    ensures
        r@ == (match parent {
            Some(p) => p@,
            None => DEFAULT_STATE_DIR@,
        }),
{
    match parent {
        Some(p) => p.to_owned(),
        None => DEFAULT_STATE_DIR.to_owned(),
    }
}

/// The directory that a registered account belongs to; none where the provider
/// is not known and no directory is given.
pub fn account_directory(acme_directory: Option<&str>, acme_provider: &str) -> (r: Option<String>)
    ensures
        text::opt(r) == (match acme_directory {
            Some(d) => Some(d@),
            None => directory_of(acme_provider@, None),
        }),
{
    match acme_directory {
        Some(d) => Some(d.to_owned()),
        None => resolve_directory_url(acme_provider, None),
    }
}

/// A port on every address.
pub fn any_address(port: u16) -> (r: SocketAddress)
    ensures
        r.port == port,
        r.ip@ == crate::net::IpFacts::V6(seq![0, 0, 0, 0, 0, 0, 0, 0]),
{
    let segments: [u16; 8] = [0, 0, 0, 0, 0, 0, 0, 0];
    assert(segments@ =~= seq![0u16, 0, 0, 0, 0, 0, 0, 0]);
    SocketAddress { ip: IpAddress::V6(segments), port }
}

/// The configuration is the one that the gathered answers give.
pub open spec fn configures(c: Config, g: GatheredConfig, root_ca: Option<Seq<char>>) -> bool {
    let any = crate::net::IpFacts::V6(seq![0, 0, 0, 0, 0, 0, 0, 0]);
    &&& c.root_domain@ == g.root_domain@
    &&& c.admin_email@ == g.admin_email@
    &&& c.acme_provider@ == g.acme_provider@
    &&& c.listen_http.ip@ == any && c.listen_http.port == 80
    &&& c.listen_https.ip@ == any && c.listen_https.port == 443
    &&& c.control_socket@ == CONTROL_SOCKET@
    &&& text::opt(c.acme_directory) == text::opt(g.acme_directory)
    &&& text::opt(c.acme_eab_kid) == text::opt(g.acme_eab_kid)
    &&& text::opt(c.acme_eab_hmac) == text::opt(g.acme_eab_hmac)
    &&& text::opt(c.acme_root_ca_pem) == root_ca
    &&& c.acme_fallback_providers@.len() == 0
}

fn copied(s: &Option<String>) -> (r: Option<String>)
    ensures
        text::opt(r) == text::opt(*s),
{
    match s {
        Some(s) => Some(s.clone()),
        None => None,
    }
}

/// How far the installation is.
pub struct InstallSession {
    action: InstallAction,
    changed: bool,
    root_ca: Option<String>,
}

/// How far the installation is.
pub struct InstallFacts {
    pub action: InstallAction,
    pub changed: bool,
    pub root_ca: Option<Seq<char>>,
}

impl View for InstallSession {
    type V = InstallFacts;

    closed spec fn view(&self) -> InstallFacts {
        InstallFacts {
            action: self.action,
            changed: self.changed,
            root_ca: text::opt(self.root_ca),
        }
    }
}

/// What an installation goes by.
pub struct InstallGiven {
    pub plan: PlanFacts,
    pub ca_path: Option<Seq<char>>,
    pub has_account: bool,
    pub state_dir: Seq<char>,
}

impl InstallGiven {
    /// Where the binary goes.
    pub open spec fn target(self) -> Seq<char> {
        text::in_directory(self.plan.prefix, "weaver-server"@)
    }
}

/// The note before the database is opened.
pub open spec fn database_note() -> NoteFacts {
    note(Mark::Busy, "Initializing database and configuration..."@)
}

/// The note before the units are enabled.
pub open spec fn enable_note() -> NoteFacts {
    note(Mark::Busy, "Enabling and starting systemd services..."@)
}

impl InstallFacts {
    /// On to another action.
    pub open spec fn to(self, action: InstallAction) -> Self {
        InstallFacts { action, ..self }
    }

    /// On to another action, after a change to the host.
    pub open spec fn changed_to(self, action: InstallAction) -> Self {
        InstallFacts { action, changed: true, ..self }
    }

    /// What follows an action that went in some way, and what is said in
    /// between; or why the installation fails.
    pub open spec fn step(self, event: InstallEvent, given: InstallGiven) -> Result<
        (InstallFacts, Seq<NoteFacts>),
        Seq<char>,
    > {
        let user = given.plan.user;
        if let InstallEvent::Failed { fault, cause } = event {
            Err(
                fault_text(
                    fault,
                    match given.ca_path {
                        Some(p) => p,
                        None => Seq::empty(),
                    },
                ) + cause@,
            )
        } else {
            let found = event matches InstallEvent::Found(b) && b;
            match self.action {
                InstallAction::CheckGroup => if found {
                    Ok((self.to(InstallAction::CheckUser), seq![]))
                } else {
                    Ok(
                        (
                            self.to(InstallAction::CreateGroup),
                            seq![note(Mark::Busy, "Creating system group '"@ + user + "'..."@)],
                        ),
                    )
                },
                InstallAction::CreateGroup => Ok(
                    (self.changed_to(InstallAction::CheckUser), seq![]),
                ),
                InstallAction::CheckUser => if found {
                    Ok(
                        (
                            self.to(InstallAction::ReadBinaries),
                            seq![note(Mark::Quiet, "System user '"@ + user + "' already exists"@)],
                        ),
                    )
                } else {
                    Ok(
                        (
                            self.to(InstallAction::CheckUserGroup),
                            seq![note(Mark::Busy, "Creating system user '"@ + user + "'..."@)],
                        ),
                    )
                },
                InstallAction::CheckUserGroup => Ok(
                    (self.to(InstallAction::CreateUser { in_group: found }), seq![]),
                ),
                InstallAction::CreateUser { .. } => if let InstallEvent::Ran { success, code } =
                    event {
                    if success {
                        Ok(
                            (
                                self.changed_to(InstallAction::ReadBinaries),
                                seq![
                                    note(
                                        Mark::Done,
                                        "System user and group '"@ + user + "' configured"@,
                                    ),
                                ],
                            ),
                        )
                    } else {
                        Err("useradd failed with exit code: "@ + code_text(code))
                    }
                } else {
                    Err("useradd failed with exit code: "@ + code_text(None))
                },
                InstallAction::ReadBinaries => if let InstallEvent::Binaries {
                    current,
                    installed,
                } = event {
                    if binary_differs(current, installed) {
                        Ok(
                            (
                                self.to(InstallAction::InstallBinary),
                                seq![
                                    note(
                                        Mark::Busy,
                                        "Installing binary to "@ + given.target() + "..."@,
                                    ),
                                ],
                            ),
                        )
                    } else {
                        Ok(
                            (
                                self.to(InstallAction::CheckState),
                                seq![note(Mark::Quiet, "Binary is already up to date"@)],
                            ),
                        )
                    }
                } else {
                    Ok(
                        (
                            self.to(InstallAction::InstallBinary),
                            seq![
                                note(
                                    Mark::Busy,
                                    "Installing binary to "@ + given.target() + "..."@,
                                ),
                            ],
                        ),
                    )
                },
                InstallAction::InstallBinary => Ok(
                    (
                        self.changed_to(InstallAction::CheckState),
                        seq![note(Mark::Done, "Binary installed (mode 0755)"@)],
                    ),
                ),
                InstallAction::CheckState => if found {
                    Ok((self.to(InstallAction::OwnState), seq![]))
                } else {
                    Ok(
                        (
                            self.to(InstallAction::CreateState),
                            seq![
                                note(
                                    Mark::Busy,
                                    "Creating state directory "@ + given.state_dir + "..."@,
                                ),
                            ],
                        ),
                    )
                },
                InstallAction::CreateState => Ok(
                    (
                        self.changed_to(InstallAction::CheckService),
                        seq![note(Mark::Done, "State directory configured (mode 0700)"@)],
                    ),
                ),
                InstallAction::OwnState => Ok((self.to(InstallAction::CheckService), seq![])),
                InstallAction::CheckService => if found {
                    Ok(
                        (
                            self.to(InstallAction::StopService),
                            seq![
                                note(Mark::Busy, "Stopping weaver-server.service for update..."@),
                            ],
                        ),
                    )
                } else {
                    Ok((self.to(InstallAction::OpenStore), seq![database_note()]))
                },
                InstallAction::StopService => Ok(
                    (self.to(InstallAction::OpenStore), seq![database_note()]),
                ),
                InstallAction::OpenStore => if given.ca_path is Some {
                    Ok((self.to(InstallAction::ReadRootCa), seq![]))
                } else {
                    Ok((self.to(InstallAction::SaveConfig), seq![]))
                },
                InstallAction::ReadRootCa => Ok(
                    (
                        InstallFacts {
                            action: InstallAction::SaveConfig,
                            root_ca: match event {
                                InstallEvent::RootCa(pem) => Some(pem@),
                                _ => self.root_ca,
                            },
                            ..self
                        },
                        seq![],
                    ),
                ),
                InstallAction::SaveConfig => if given.has_account {
                    Ok((self.to(InstallAction::SaveAccount), seq![]))
                } else {
                    Ok((self.to(InstallAction::OwnDatabase), seq![]))
                },
                InstallAction::SaveAccount => Ok((self.to(InstallAction::OwnDatabase), seq![])),
                InstallAction::OwnDatabase => Ok((self.to(InstallAction::ReadUnits), seq![])),
                InstallAction::ReadUnits => if event matches InstallEvent::Units {
                    socket,
                    service,
                } && !units_differ(socket, service, given.plan) {
                    Ok(
                        (
                            self.to(InstallAction::EnableUnits),
                            seq![
                                note(Mark::Quiet, "Systemd units already up to date"@),
                                enable_note(),
                            ],
                        ),
                    )
                } else {
                    Ok(
                        (
                            self.to(InstallAction::WriteUnits),
                            seq![note(Mark::Busy, "Writing systemd unit files..."@)],
                        ),
                    )
                },
                InstallAction::WriteUnits => Ok(
                    (
                        self.changed_to(InstallAction::EnableUnits),
                        seq![
                            note(Mark::Done, "Systemd units written and reloaded"@),
                            enable_note(),
                        ],
                    ),
                ),
                InstallAction::EnableUnits => if event matches InstallEvent::Ran {
                    success,
                    code,
                } && success {
                    Ok(
                        (
                            self.to(InstallAction::Finish),
                            seq![note(Mark::Done, "Sockets and services activated"@)],
                        ),
                    )
                } else {
                    Err("failed to start weaver-server services"@)
                },
                InstallAction::Finish => Ok((self, seq![])),
            }
        }
    }
}

impl InstallSession {
    /// Nothing has been done; the heading is said.
    pub fn new() -> (r: (Self, Vec<Note>))
        ensures
            r.0@ == (InstallFacts {
                action: InstallAction::CheckGroup,
                changed: false,
                root_ca: None,
            }),
            notes_of(r.1@) == seq![note(Mark::Heading, "Executing installation..."@)],
    {
        let session = InstallSession {
            action: InstallAction::CheckGroup,
            changed: false,
            root_ca: None,
        };
        (session, one_note(Mark::Heading, "Executing installation...".to_owned()))
    }

    /// What is to be done next.
    pub fn action(&self) -> (r: InstallAction)
        ensures
            r == self@.action,
    {
        self.action
    }

    /// The configuration to save.
    pub fn config(&self, gathered: &GatheredConfig) -> (r: Config)
        ensures
            configures(r, *gathered, self@.root_ca),
    {
        Config {
            root_domain: gathered.root_domain.clone(),
            admin_email: gathered.admin_email.clone(),
            acme_provider: gathered.acme_provider.clone(),
            listen_http: any_address(80),
            listen_https: any_address(443),
            control_socket: CONTROL_SOCKET.to_owned(),
            acme_directory: copied(&gathered.acme_directory),
            acme_eab_kid: copied(&gathered.acme_eab_kid),
            acme_eab_hmac: copied(&gathered.acme_eab_hmac),
            acme_root_ca_pem: copied(&self.root_ca),
            acme_fallback_providers: Vec::new(),
        }
    }

    /// The result of a complete installation.
    pub fn result(&self, plan: &Plan) -> (r: InstallResult)
        ensures
            r.changed == self@.changed,
            r.binary_path@ == text::in_directory(plan.prefix@, "weaver-server"@),
            r.db_path@ == plan.db_path@,
    {
        InstallResult {
            changed: self.changed,
            binary_path: text::join_path(plan.prefix.as_str(), "weaver-server"),
            db_path: plan.db_path.clone(),
        }
    }

    fn go(&mut self, action: InstallAction)
        ensures
            final(self)@ == old(self)@.to(action),
    {
        self.action = action;
    }

    fn go_changed(&mut self, action: InstallAction)
        ensures
            final(self)@ == old(self)@.changed_to(action),
    {
        self.action = action;
        self.changed = true;
    }

    /// Takes how the action went: says something and goes on to the next, or
    /// fails with a message.
    pub fn step(
        &mut self,
        event: InstallEvent,
        plan: &Plan,
        gathered: &GatheredConfig,
        has_account: bool,
        state_dir: &str,
    ) -> (r: Result<Vec<Note>, String>)
        ensures
            ({
                let given = InstallGiven {
                    plan: plan@,
                    ca_path: text::opt(gathered.acme_root_ca_path),
                    has_account,
                    state_dir: state_dir@,
                };
                match old(self)@.step(event, given) {
                    Ok((next, said)) => {
                        &&& r matches Ok(notes)
                        &&& notes_of(notes@) == said
                        &&& final(self)@ == next
                    },
                    Err(why) => {
                        &&& r matches Err(message)
                        &&& message@ == why
                        &&& final(self)@ == old(self)@
                    },
                }
            }),
    {
        let user = plan.user.as_str();
        if let InstallEvent::Failed { fault, cause } = &event {
            let prefix = match &gathered.acme_root_ca_path {
                Some(path) => fault_prefix(*fault, path.as_str()),
                None => {
                    proof {
                        reveal_strlit("");
                        assert(""@ =~= Seq::<char>::empty());
                    }
                    fault_prefix(*fault, "")
                },
            };
            return Err(text::cat2(prefix.as_str(), cause.as_str()));
        }
        let found = match &event {
            InstallEvent::Found(b) => *b,
            _ => false,
        };
        match self.action {
            InstallAction::CheckGroup => if found {
                self.go(InstallAction::CheckUser);
                Ok(no_notes())
            } else {
                self.go(InstallAction::CreateGroup);
                Ok(one_note(Mark::Busy, text::cat3("Creating system group '", user, "'...")))
            },
            InstallAction::CreateGroup => {
                self.go_changed(InstallAction::CheckUser);
                Ok(no_notes())
            },
            InstallAction::CheckUser => if found {
                self.go(InstallAction::ReadBinaries);
                Ok(one_note(Mark::Quiet, text::cat3("System user '", user, "' already exists")))
            } else {
                self.go(InstallAction::CheckUserGroup);
                Ok(one_note(Mark::Busy, text::cat3("Creating system user '", user, "'...")))
            },
            InstallAction::CheckUserGroup => {
                self.go(InstallAction::CreateUser { in_group: found });
                Ok(no_notes())
            },
            InstallAction::CreateUser { .. } => {
                let (success, code) = match &event {
                    InstallEvent::Ran { success, code } => (*success, *code),
                    _ => (false, None),
                };
                if success {
                    self.go_changed(InstallAction::ReadBinaries);
                    Ok(
                        one_note(
                            Mark::Done,
                            text::cat3("System user and group '", user, "' configured"),
                        ),
                    )
                } else {
                    let shown = shown_code(code);
                    Err(text::cat2("useradd failed with exit code: ", shown.as_str()))
                }
            },
            InstallAction::ReadBinaries => {
                let differs = match &event {
                    InstallEvent::Binaries { current, installed } => needs_binary(
                        current,
                        installed,
                    ),
                    _ => true,
                };
                if differs {
                    self.go(InstallAction::InstallBinary);
                    let target = text::join_path(plan.prefix.as_str(), "weaver-server");
                    Ok(
                        one_note(
                            Mark::Busy,
                            text::cat3("Installing binary to ", target.as_str(), "..."),
                        ),
                    )
                } else {
                    self.go(InstallAction::CheckState);
                    Ok(one_note(Mark::Quiet, "Binary is already up to date".to_owned()))
                }
            },
            InstallAction::InstallBinary => {
                self.go_changed(InstallAction::CheckState);
                Ok(one_note(Mark::Done, "Binary installed (mode 0755)".to_owned()))
            },
            InstallAction::CheckState => if found {
                self.go(InstallAction::OwnState);
                Ok(no_notes())
            } else {
                self.go(InstallAction::CreateState);
                Ok(
                    one_note(
                        Mark::Busy,
                        text::cat3("Creating state directory ", state_dir, "..."),
                    ),
                )
            },
            InstallAction::CreateState => {
                self.go_changed(InstallAction::CheckService);
                Ok(one_note(Mark::Done, "State directory configured (mode 0700)".to_owned()))
            },
            InstallAction::OwnState => {
                self.go(InstallAction::CheckService);
                Ok(no_notes())
            },
            InstallAction::CheckService => if found {
                self.go(InstallAction::StopService);
                Ok(
                    one_note(
                        Mark::Busy,
                        "Stopping weaver-server.service for update...".to_owned(),
                    ),
                )
            } else {
                self.go(InstallAction::OpenStore);
                Ok(
                    one_note(
                        Mark::Busy,
                        "Initializing database and configuration...".to_owned(),
                    ),
                )
            },
            InstallAction::StopService => {
                self.go(InstallAction::OpenStore);
                Ok(
                    one_note(
                        Mark::Busy,
                        "Initializing database and configuration...".to_owned(),
                    ),
                )
            },
            InstallAction::OpenStore => {
                if gathered.acme_root_ca_path.is_some() {
                    self.go(InstallAction::ReadRootCa);
                } else {
                    self.go(InstallAction::SaveConfig);
                }
                Ok(no_notes())
            },
            InstallAction::ReadRootCa => {
                if let InstallEvent::RootCa(pem) = event {
                    self.root_ca = Some(pem);
                }
                self.action = InstallAction::SaveConfig;
                Ok(no_notes())
            },
            InstallAction::SaveConfig => {
                if has_account {
                    self.go(InstallAction::SaveAccount);
                } else {
                    self.go(InstallAction::OwnDatabase);
                }
                Ok(no_notes())
            },
            InstallAction::SaveAccount => {
                self.go(InstallAction::OwnDatabase);
                Ok(no_notes())
            },
            InstallAction::OwnDatabase => {
                self.go(InstallAction::ReadUnits);
                Ok(no_notes())
            },
            InstallAction::ReadUnits => {
                let differ = match &event {
                    InstallEvent::Units { socket, service } => needs_units(socket, service, plan),
                    _ => true,
                };
                if differ {
                    self.go(InstallAction::WriteUnits);
                    Ok(one_note(Mark::Busy, "Writing systemd unit files...".to_owned()))
                } else {
                    self.go(InstallAction::EnableUnits);
                    Ok(enable_notes(Mark::Quiet, "Systemd units already up to date"))
                }
            },
            InstallAction::WriteUnits => {
                self.go_changed(InstallAction::EnableUnits);
                Ok(enable_notes(Mark::Done, "Systemd units written and reloaded"))
            },
            InstallAction::EnableUnits => {
                let success = match &event {
                    InstallEvent::Ran { success, .. } => *success,
                    _ => false,
                };
                if success {
                    self.go(InstallAction::Finish);
                    Ok(one_note(Mark::Done, "Sockets and services activated".to_owned()))
                } else {
                    Err("failed to start weaver-server services".to_owned())
                }
            },
            InstallAction::Finish => Ok(no_notes()),
        }
    }
}

fn enable_notes(mark: Mark, said: &str) -> (v: Vec<Note>)
    ensures
        notes_of(v@) == seq![note(mark, said@), enable_note()],
{
    let mut v = no_notes();
    say(&mut v, mark, said.to_owned());
    say(&mut v, Mark::Busy, "Enabling and starting systemd services...".to_owned());
    assert(notes_of(v@) =~= seq![note(mark, said@), enable_note()]);
    v
}

/// The action changes the host, beyond what every run sets again.
pub open spec fn is_change(action: InstallAction) -> bool {
    ||| action is CreateGroup
    ||| action is CreateUser
    ||| action is InstallBinary
    ||| action is CreateState
    ||| action is WriteUnits
}

/// An installation reports a change exactly if it made one: what is in place
/// already is left alone.
pub proof fn changes_are_reported(f: InstallFacts, event: InstallEvent, given: InstallGiven)
    ensures
        f.step(event, given) matches Ok((next, said)) ==> next.changed == (f.changed || is_change(
            f.action,
        )),
{
}

/// Nothing that is up to date is replaced.
pub proof fn up_to_date_is_left_alone(f: InstallFacts, event: InstallEvent, given: InstallGiven)
    ensures
        f.step(event, given) matches Ok((next, said)) ==> {
            &&& next.action is InstallBinary ==> (event matches InstallEvent::Binaries {
                current,
                installed,
            } ==> binary_differs(current, installed))
            &&& next.action is WriteUnits && f.action !is WriteUnits ==> (event matches
                InstallEvent::Units { socket, service } ==> units_differ(
                socket,
                service,
                given.plan,
            ))
            &&& next.action is CreateGroup ==> !(event matches InstallEvent::Found(b) && b)
        },
{
}

/// A failure that is reported ends the installation, whatever it was doing.
pub proof fn failures_end_the_installation(
    f: InstallFacts,
    event: InstallEvent,
    given: InstallGiven,
)
    requires
        event is Failed,
    ensures
        f.step(event, given) is Err,
{
}

} // verus!
