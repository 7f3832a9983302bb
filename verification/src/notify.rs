//! Systemd notification: what is sent to the supervisor, and where.
//!
//! Communicates daemon readiness and stopping states to systemd using the
//! protocol specified in sd_notify(3) over the socket named by the variable
//! `NOTIFY_SOCKET`.
use crate::text;
use vstd::prelude::*;

verus! {

/// Where a notification goes.
#[derive(Debug, PartialEq, Eq)]
pub enum NotifyTarget {
    /// A socket in the abstract namespace, by its name.
    Abstract(Vec<u8>),
    /// A socket in the filesystem, by its path.
    Path(Vec<u8>),
}

/// A notification for the supervisor.
#[derive(Debug, PartialEq, Eq)]
pub struct Notification {
    pub target: NotifyTarget,
    pub message: String,
}

/// Where a notification goes.
pub enum TargetFacts {
    Abstract(Seq<u8>),
    Path(Seq<u8>),
}

impl View for NotifyTarget {
    type V = TargetFacts;

    open spec fn view(&self) -> TargetFacts {
        match *self {
            NotifyTarget::Abstract(name) => TargetFacts::Abstract(name@),
            NotifyTarget::Path(path) => TargetFacts::Path(path@),
        }
    }
}

/// The socket that the value of `NOTIFY_SOCKET` names: none where it is unset
/// or empty; a leading `@` stands for the abstract namespace.
pub open spec fn target_of(socket: Option<Seq<u8>>) -> Option<TargetFacts> {
    match socket {
        None => None,
        Some(v) => if v.len() == 0 {
            None
        } else if v[0] == 0x40 {
            Some(TargetFacts::Abstract(v.subrange(1, v.len() as int)))
        } else {
            Some(TargetFacts::Path(v))
        },
    }
}

/// The notification says `message`, and goes where the socket's value says; there
/// is none where it names no socket.
pub open spec fn notifies(
    r: Option<Notification>,
    socket: Option<Vec<u8>>,
    message: Seq<char>,
) -> bool {
    let value = match socket {
        Some(v) => Some(v@),
        None => None,
    };
    match (r, target_of(value)) {
        (Some(n), Some(t)) => n.target@ == t && n.message@ == message,
        (None, None) => true,
        _ => false,
    }
}

/// Prepares a raw notification message for the systemd supervisor if
/// `NOTIFY_SOCKET` is set.
///
/// Returns `None` if `NOTIFY_SOCKET` was absent (no-op).
pub fn notify(state: &str, socket: Option<Vec<u8>>) -> (r: Option<Notification>)
    ensures
        notifies(r, socket, state@),
{
    match socket {
        Some(value) => {
            if value.len() == 0 {
                return None;
            }
            let target = if value[0] == 0x40 {
                let mut name: Vec<u8> = Vec::new();
                let mut i: usize = 1;
                while i < value.len()
                    invariant
                        1 <= i <= value@.len(),
                        name@ == value@.subrange(1, i as int),
                    decreases value@.len() - i,
                {
                    name.push(value[i]);
                    i += 1;
                    assert(name@ =~= value@.subrange(1, i as int));
                }
                NotifyTarget::Abstract(name)
            } else {
                NotifyTarget::Path(value)
            };
            Some(Notification { target, message: state.to_owned() })
        },
        None => None,
    }
}

/// Notifies systemd that listeners are active and the daemon is ready to receive connections.
pub fn notify_ready(socket: Option<Vec<u8>>) -> (r: Option<Notification>)
    ensures
        notifies(r, socket, "READY=1\nSTATUS=listening; certificate: pending\n"@),
{
    notify("READY=1\nSTATUS=listening; certificate: pending\n", socket)
}

/// Notifies systemd of readiness, with the state of the root domain's certificate.
pub fn notify_ready_with_cert_status(status: &str, socket: Option<Vec<u8>>) -> (r: Option<
    Notification,
>)
    ensures
        notifies(r, socket, "READY=1\nSTATUS=listening; certificate: "@ + status@ + "\n"@),
{
    let state = text::cat3("READY=1\nSTATUS=listening; certificate: ", status, "\n");
    notify(state.as_str(), socket)
}

/// Notifies systemd that the daemon is initiating graceful shutdown.
pub fn notify_stopping(socket: Option<Vec<u8>>) -> (r: Option<Notification>)
    ensures
        notifies(r, socket, "STOPPING=1\n"@),
{
    notify("STOPPING=1\n", socket)
}

/// Nothing is sent exactly where the variable is unset or empty.
pub proof fn silent_without_a_socket(socket: Option<Seq<u8>>)
    ensures
        target_of(socket) is None <==> socket is None || socket->0.len() == 0,
{
}

} // verus!
