//! Socket acquisition for HTTP and HTTPS edges.
//!
//! Supports systemd socket activation via `LISTEN_FDS` with strict port-to-role
//! matching, falling back to binding the configured addresses.
use crate::number;
use crate::text;
use vstd::prelude::*;

verus! {

/// The first file descriptor that systemd passes.
pub const FIRST_FD: i32 = 3;

/// Errors occurring during listener binding or socket activation.
#[derive(Debug, PartialEq, Eq)]
pub enum ListenerError {
    /// Failure during systemd socket activation.
    Activation(String),
    /// Failure to bind a listening socket to a specific address.
    Bind { addr: String, source: String },
}

impl ListenerError {
    /// The message of the error.
    pub open spec fn text(self) -> Seq<char> {
        match self {
            ListenerError::Activation(why) => "Socket activation error: "@ + why@,
            ListenerError::Bind { addr, source } => "Failed to bind "@ + addr@ + ": "@ + source@,
        }
    }

    /// The message of the error.
    pub fn message(&self) -> (r: String)
        ensures
            r@ == self.text(),
    {
        match self {
            ListenerError::Activation(why) => text::cat2("Socket activation error: ", why.as_str()),
            ListenerError::Bind { addr, source } => text::cat4(
                "Failed to bind ",
                addr.as_str(),
                ": ",
                source.as_str(),
            ),
        }
    }
}

/// Where the listening sockets come from.
#[derive(Debug, Clone, Copy, PartialEq, Eq, Structural)]
pub enum ListenPlan {
    /// They are bound to the configured addresses.
    Bind,
    /// They are the two that the supervisor passed.
    Inherit,
}

/// The variable `LISTEN_PID` names another process.
pub open spec fn is_for_another(listen_pid: Option<Seq<char>>, own_pid: u32) -> bool {
    match listen_pid {
        Some(s) => match number::parsed_unsigned(s, u32::MAX as nat) {
            Some(pid) => pid != own_pid,
            None => false,
        },
        None => false,
    }
}

/// Where the sockets come from, or why activation fails.
pub open spec fn plan_of(
    listen_fds: Option<Seq<char>>,
    listen_pid: Option<Seq<char>>,
    own_pid: u32,
) -> Result<ListenPlan, Seq<char>> {
    match listen_fds {
        None => Ok(ListenPlan::Bind),
        Some(fds) => if is_for_another(listen_pid, own_pid) {
            Ok(ListenPlan::Bind)
        } else {
            match number::parsed_unsigned(fds, usize::MAX as nat) {
                None => Err(
                    "Invalid LISTEN_FDS '"@ + fds + "': "@ + number::failure_of(
                        fds,
                        usize::MAX as nat,
                    ),
                ),
                Some(n) => if n == 2 {
                    Ok(ListenPlan::Inherit)
                } else {
                    Err(
                        "Expected exactly 2 sockets in LISTEN_FDS matching HTTP and HTTPS, got "@
                            + number::decimal(n),
                    )
                },
            }
        },
    }
}

/// Decides where the listening sockets come from.
///
/// If `LISTEN_FDS` is set for this process, exactly two sockets are inherited.
/// Otherwise sockets are bound to the configured addresses.
pub fn plan_listeners(listen_fds: Option<&str>, listen_pid: Option<&str>, own_pid: u32) -> (r:
    Result<ListenPlan, ListenerError>)
    ensures
        match plan_of(view_of(listen_fds), view_of(listen_pid), own_pid) {
            Ok(plan) => r == Ok::<ListenPlan, ListenerError>(plan),
            Err(why) => r matches Err(ListenerError::Activation(s)) && s@ == why,
        },
{
    let fds = match listen_fds {
        Some(fds) => fds,
        None => return Ok(ListenPlan::Bind),
    };
    if let Some(s) = listen_pid {
        if let Some(pid) = number::parse_unsigned(s, u32::MAX as u64) {
            if pid != own_pid as u64 {
                return Ok(ListenPlan::Bind);
            }
        }
    }
    match number::parse_unsigned(fds, usize::MAX as u64) {
        Some(n) => if n == 2 {
            Ok(ListenPlan::Inherit)
        } else {
            let count = number::decimal_of(n);
            Err(
                ListenerError::Activation(
                    text::cat2(
                        "Expected exactly 2 sockets in LISTEN_FDS matching HTTP and HTTPS, got ",
                        count.as_str(),
                    ),
                ),
            )
        },
        None => {
            let why = number::parse_failure(fds, usize::MAX as u64);
            Err(
                ListenerError::Activation(
                    text::cat4("Invalid LISTEN_FDS '", fds, "': ", why),
                ),
            )
        },
    }
}

/// The text of an optional text.
pub open spec fn view_of(s: Option<&str>) -> Option<Seq<char>> {
    match s {
        Some(s) => Some(s@),
        None => None,
    }
}

/// Which edge a socket serves.
#[derive(Debug, Clone, Copy, PartialEq, Eq, Structural)]
pub enum Role {
    Http,
    Https,
}

/// The inherited sockets, by the edge they serve.
pub struct Inheritance {
    http_port: u16,
    https_port: u16,
    http: Option<i32>,
    https: Option<i32>,
}

/// The configured ports, and the file descriptors found for them.
pub struct InheritanceFacts {
    pub http_port: u16,
    pub https_port: u16,
    pub http: Option<i32>,
    pub https: Option<i32>,
}

impl InheritanceFacts {
    /// The edge that a socket bound to a port serves: each edge takes one.
    pub open spec fn role(self, port: u16) -> Option<Role> {
        if port == self.http_port && self.http is None {
            Some(Role::Http)
        } else if port == self.https_port && self.https is None {
            Some(Role::Https)
        } else {
            None
        }
    }

    /// The sockets with another one.
    pub open spec fn with(self, role: Role, fd: i32) -> Self {
        match role {
            Role::Http => InheritanceFacts { http: Some(fd), ..self },
            Role::Https => InheritanceFacts { https: Some(fd), ..self },
        }
    }

    /// Why a socket is not wanted.
    pub open spec fn stranger(self, fd: i32, port: u16) -> Seq<char> {
        "Inherited socket fd "@ + number::signed_decimal(fd as int) + " bound to port "@
            + number::decimal(port as nat) + " matches neither HTTP port "@ + number::decimal(
            self.http_port as nat,
        ) + " nor HTTPS port "@ + number::decimal(self.https_port as nat)
    }
}

impl View for Inheritance {
    type V = InheritanceFacts;

    closed spec fn view(&self) -> InheritanceFacts {
        InheritanceFacts {
            http_port: self.http_port,
            https_port: self.https_port,
            http: self.http,
            https: self.https,
        }
    }
}

impl Inheritance {
    /// No socket has been looked at.
    pub fn new(http_port: u16, https_port: u16) -> (r: Self)
        ensures
            r@ == (InheritanceFacts { http_port, https_port, http: None, https: None }),
    {
        Inheritance { http_port, https_port, http: None, https: None }
    }

    /// Takes a socket that is bound to a port; returns the edge it serves.
    pub fn take(&mut self, fd: i32, port: u16) -> (r: Result<Role, ListenerError>)
        ensures
            match old(self)@.role(port) {
                Some(role) => r == Ok::<Role, ListenerError>(role) && final(self)@ == old(
                    self,
                )@.with(role, fd),
                None => {
                    &&& r matches Err(ListenerError::Activation(s))
                    &&& s@ == old(self)@.stranger(fd, port)
                    &&& final(self)@ == old(self)@
                },
            },
    {
        if port == self.http_port && self.http.is_none() {
            self.http = Some(fd);
            Ok(Role::Http)
        } else if port == self.https_port && self.https.is_none() {
            self.https = Some(fd);
            Ok(Role::Https)
        } else {
            let n = number::signed_decimal_of(fd as i64);
            let p = number::decimal_of(port as u64);
            let h = number::decimal_of(self.http_port as u64);
            let s = number::decimal_of(self.https_port as u64);
            let first = text::cat4("Inherited socket fd ", n.as_str(), " bound to port ", p.as_str());
            let why = text::cat5(
                first.as_str(),
                " matches neither HTTP port ",
                h.as_str(),
                " nor HTTPS port ",
                s.as_str(),
            );
            Err(ListenerError::Activation(why))
        }
    }

    /// The sockets of the two edges.
    pub fn finish(&self) -> (r: Result<(i32, i32), ListenerError>)
        ensures
            match (self@.http, self@.https) {
                (Some(http), Some(https)) => r == Ok::<(i32, i32), ListenerError>((http, https)),
                _ => {
                    &&& r matches Err(ListenerError::Activation(s))
                    &&& s@ == "LISTEN_FDS sockets did not contain both HTTP and HTTPS listeners"@
                },
            },
    {
        match (self.http, self.https) {
            (Some(http), Some(https)) => Ok((http, https)),
            _ => Err(
                ListenerError::Activation(
                    "LISTEN_FDS sockets did not contain both HTTP and HTTPS listeners".to_owned(),
                ),
            ),
        }
    }
}

/// Two sockets that were both taken serve both edges, one each, whatever order
/// they came in.
pub proof fn two_sockets_serve_both_edges(f: InheritanceFacts, fd1: i32, port1: u16, fd2: i32, port2: u16)
    requires
        f.http is None,
        f.https is None,
        f.role(port1) is Some,
        f.with(f.role(port1)->0, fd1).role(port2) is Some,
    ensures
        ({
            let once = f.with(f.role(port1)->0, fd1);
            let twice = once.with(once.role(port2)->0, fd2);
            twice.http is Some && twice.https is Some && f.role(port1) != once.role(port2)
        }),
{
}

} // verus!
