//! Uninstallation workflow.
//!
//! - Stops and disables systemd service and socket units
//! - Removes systemd unit files and triggers `daemon-reload`
//! - Removes the installed `weaver-server` binary
//! - Preserves state data and user by default
//! - Optionally purges the state directory and the user
use super::interactive::{is_yes, says_yes};
use super::note::{no_notes, note, notes_of, one_note, say, Mark, Note, NoteFacts};
use crate::text;
use vstd::prelude::*;

verus! {

/// Arguments configuring the uninstall command.
#[derive(Debug, Clone, PartialEq, Eq)]
pub struct UninstallOptions {
    /// Installation prefix where binary is located.
    pub prefix: String,
    /// Path to SQLite database / state directory.
    pub db_path: String,
    /// System service username.
    pub user: String,
    /// Whether to purge database and system user.
    pub purge: bool,
    /// Whether running non-interactively.
    pub headless: bool,
}

/// What the uninstallation does next.
#[derive(Debug, Clone, Copy, PartialEq, Eq, Structural)]
pub enum UninstallAction {
    /// Stop and disable the service and socket units.
    DisableUnits,
    /// Remove the unit files that exist.
    RemoveUnits,
    /// Let systemd read its units again.
    ReloadUnits,
    /// See whether the binary exists.
    CheckBinary,
    /// Remove the binary.
    RemoveBinary,
    /// Ask whether all data is to be purged.
    AskPurge,
    /// See whether the state directory exists.
    CheckState,
    /// Remove the state directory.
    RemoveState,
    /// Delete the system user.
    RemoveUser,
    /// Delete the system group.
    RemoveGroup,
    /// Nothing: the uninstallation is complete.
    Finish,
}

/// How an action went.
#[derive(Debug)]
pub enum UninstallEvent {
    /// It was done; how it went does not matter.
    Done,
    /// Whether the file or directory exists.
    Exists(bool),
    /// The file or directory was removed, or why not.
    Removed(Option<String>),
    /// What was answered, if anything.
    Answer(Option<String>),
    /// Whether the command succeeded.
    Succeeded(bool),
}

/// Where the binary is.
pub open spec fn binary_of(o: UninstallOptions) -> Seq<char> {
    text::in_directory(o.prefix@, "weaver-server"@)
}

/// What is said before the first action.
pub open spec fn opening() -> Seq<NoteFacts> {
    seq![
        note(Mark::Heading, "Uninstalling Weaver Server..."@),
        note(Mark::Busy, "Stopping and disabling systemd units..."@),
    ]
}

/// What follows once the binary has been dealt with.
pub open spec fn after_binary(o: UninstallOptions, state_dir: Seq<char>, said: NoteFacts) -> (
    UninstallAction,
    Seq<NoteFacts>,
) {
    if o.purge {
        (
            if o.headless {
                UninstallAction::CheckState
            } else {
                UninstallAction::AskPurge
            },
            seq![
                said,
                note(Mark::Alarm, "Warning: --purge specified"@),
                note(
                    Mark::Bare,
                    "  This will permanently delete the state directory ("@ + state_dir
                        + ") and delete user '"@ + o.user@ + "'."@,
                ),
                note(
                    Mark::Bare,
                    "  Ensure any critical certificates or database backups are preserved."@,
                ),
            ],
        )
    } else {
        (
            UninstallAction::Finish,
            seq![
                said,
                note(Mark::Quiet, "Data directory preserved at "@ + state_dir),
                note(Mark::Quiet, "System user '"@ + o.user@ + "' preserved"@),
            ],
        )
    }
}

/// The action after one that went in some way, and what is said in between.
pub open spec fn uninstall_step(
    action: UninstallAction,
    event: UninstallEvent,
    o: UninstallOptions,
    state_dir: Seq<char>,
) -> (UninstallAction, Seq<NoteFacts>) {
    match action {
        UninstallAction::DisableUnits => (UninstallAction::RemoveUnits, seq![]),
        UninstallAction::RemoveUnits => (UninstallAction::ReloadUnits, seq![]),
        UninstallAction::ReloadUnits => (
            UninstallAction::CheckBinary,
            seq![note(Mark::Done, "Systemd units removed"@)],
        ),
        UninstallAction::CheckBinary => if event matches UninstallEvent::Exists(b) && b {
            (UninstallAction::RemoveBinary, seq![])
        } else {
            after_binary(
                o,
                state_dir,
                note(Mark::Quiet, "Binary not present at "@ + binary_of(o)),
            )
        },
        UninstallAction::RemoveBinary => after_binary(
            o,
            state_dir,
            match event {
                UninstallEvent::Removed(Some(e)) => note(
                    Mark::Failed,
                    "Failed to remove binary at "@ + binary_of(o) + ": "@ + e@,
                ),
                _ => note(Mark::Done, "Binary removed from "@ + binary_of(o)),
            },
        ),
        UninstallAction::AskPurge => if event matches UninstallEvent::Answer(Some(a)) && is_yes(
            a@,
        ) {
            (UninstallAction::CheckState, seq![])
        } else {
            (
                UninstallAction::Finish,
                seq![
                    note(Mark::Busy, "Purge cancelled by user. Data preserved at "@ + state_dir),
                ],
            )
        },
        UninstallAction::CheckState => if event matches UninstallEvent::Exists(b) && b {
            (UninstallAction::RemoveState, seq![])
        } else {
            (UninstallAction::RemoveUser, seq![])
        },
        UninstallAction::RemoveState => (
            UninstallAction::RemoveUser,
            seq![
                match event {
                    UninstallEvent::Removed(Some(e)) => note(
                        Mark::Failed,
                        "Failed to remove state directory "@ + state_dir + ": "@ + e@,
                    ),
                    _ => note(Mark::Done, "State directory purged ("@ + state_dir + ")"@),
                },
            ],
        ),
        UninstallAction::RemoveUser => (
            UninstallAction::RemoveGroup,
            seq![
                if event matches UninstallEvent::Succeeded(b) && b {
                    note(Mark::Done, "User '"@ + o.user@ + "' removed"@)
                } else {
                    note(Mark::Quiet, "User '"@ + o.user@ + "' was not removed or does not exist"@)
                },
            ],
        ),
        UninstallAction::RemoveGroup => (UninstallAction::Finish, seq![]),
        UninstallAction::Finish => (UninstallAction::Finish, seq![]),
    }
}

/// The notes before the first action.
pub fn uninstall_opening() -> (r: Vec<Note>)
    ensures
        notes_of(r@) == opening(),
{
    let mut v = no_notes();
    say(&mut v, Mark::Heading, "Uninstalling Weaver Server...".to_owned());
    say(&mut v, Mark::Busy, "Stopping and disabling systemd units...".to_owned());
    assert(notes_of(v@) =~= opening());
    v
}

fn follow_binary(opts: &UninstallOptions, state_dir: &str, mark: Mark, said: String) -> (r: (
    UninstallAction,
    Vec<Note>,
))
    ensures
        (r.0, notes_of(r.1@)) == after_binary(*opts, state_dir@, note(mark, said@)),
{
    let ghost first = note(mark, said@);
    let mut v = no_notes();
    say(&mut v, mark, said);
    if opts.purge {
        say(&mut v, Mark::Alarm, "Warning: --purge specified".to_owned());
        say(
            &mut v,
            Mark::Bare,
            text::cat5(
                "  This will permanently delete the state directory (",
                state_dir,
                ") and delete user '",
                opts.user.as_str(),
                "'.",
            ),
        );
        say(
            &mut v,
            Mark::Bare,
            "  Ensure any critical certificates or database backups are preserved.".to_owned(),
        );
        assert(notes_of(v@) =~= after_binary(*opts, state_dir@, first).1);
        if opts.headless {
            (UninstallAction::CheckState, v)
        } else {
            (UninstallAction::AskPurge, v)
        }
    } else {
        say(&mut v, Mark::Quiet, text::cat2("Data directory preserved at ", state_dir));
        say(&mut v, Mark::Quiet, text::cat3("System user '", opts.user.as_str(), "' preserved"));
        assert(notes_of(v@) =~= after_binary(*opts, state_dir@, first).1);
        (UninstallAction::Finish, v)
    }
}

/// Takes how an action went; returns the next one, and what is said in between.
pub fn uninstall_next(
    action: UninstallAction,
    event: &UninstallEvent,
    opts: &UninstallOptions,
    state_dir: &str,
) -> (r: (UninstallAction, Vec<Note>))
    ensures
        (r.0, notes_of(r.1@)) == uninstall_step(action, *event, *opts, state_dir@),
{
    let binary = text::join_path(opts.prefix.as_str(), "weaver-server");
    match action {
        UninstallAction::DisableUnits => (UninstallAction::RemoveUnits, no_notes()),
        UninstallAction::RemoveUnits => (UninstallAction::ReloadUnits, no_notes()),
        UninstallAction::ReloadUnits => (
            UninstallAction::CheckBinary,
            one_note(Mark::Done, "Systemd units removed".to_owned()),
        ),
        UninstallAction::CheckBinary => match event {
            UninstallEvent::Exists(true) => (UninstallAction::RemoveBinary, no_notes()),
            _ => follow_binary(
                opts,
                state_dir,
                Mark::Quiet,
                text::cat2("Binary not present at ", binary.as_str()),
            ),
        },
        UninstallAction::RemoveBinary => match event {
            UninstallEvent::Removed(Some(e)) => follow_binary(
                opts,
                state_dir,
                Mark::Failed,
                text::cat4("Failed to remove binary at ", binary.as_str(), ": ", e.as_str()),
            ),
            _ => follow_binary(
                opts,
                state_dir,
                Mark::Done,
                text::cat2("Binary removed from ", binary.as_str()),
            ),
        },
        UninstallAction::AskPurge => {
            let confirmed = match event {
                UninstallEvent::Answer(Some(a)) => says_yes(a.as_str()),
                _ => false,
            };
            if confirmed {
                (UninstallAction::CheckState, no_notes())
            } else {
                (
                    UninstallAction::Finish,
                    one_note(
                        Mark::Busy,
                        text::cat2("Purge cancelled by user. Data preserved at ", state_dir),
                    ),
                )
            }
        },
        UninstallAction::CheckState => match event {
            UninstallEvent::Exists(true) => (UninstallAction::RemoveState, no_notes()),
            _ => (UninstallAction::RemoveUser, no_notes()),
        },
        UninstallAction::RemoveState => match event {
            UninstallEvent::Removed(Some(e)) => (
                UninstallAction::RemoveUser,
                one_note(
                    Mark::Failed,
                    text::cat4(
                        "Failed to remove state directory ",
                        state_dir,
                        ": ",
                        e.as_str(),
                    ),
                ),
            ),
            _ => (
                UninstallAction::RemoveUser,
                one_note(Mark::Done, text::cat3("State directory purged (", state_dir, ")")),
            ),
        },
        UninstallAction::RemoveUser => match event {
            UninstallEvent::Succeeded(true) => (
                UninstallAction::RemoveGroup,
                one_note(Mark::Done, text::cat3("User '", opts.user.as_str(), "' removed")),
            ),
            _ => (
                UninstallAction::RemoveGroup,
                one_note(
                    Mark::Quiet,
                    text::cat3(
                        "User '",
                        opts.user.as_str(),
                        "' was not removed or does not exist",
                    ),
                ),
            ),
        },
        UninstallAction::RemoveGroup => (UninstallAction::Finish, no_notes()),
        UninstallAction::Finish => (UninstallAction::Finish, no_notes()),
    }
}

/// The action takes data or the user away, or leads straight to that.
pub open spec fn purges(action: UninstallAction) -> bool {
    action is CheckState || action is RemoveState || action is RemoveUser || action is RemoveGroup
}

/// How far along an action is.
pub open spec fn uninstall_rank(action: UninstallAction) -> int {
    match action {
        UninstallAction::DisableUnits => 0,
        UninstallAction::RemoveUnits => 1,
        UninstallAction::ReloadUnits => 2,
        UninstallAction::CheckBinary => 3,
        UninstallAction::RemoveBinary => 4,
        UninstallAction::AskPurge => 5,
        UninstallAction::CheckState => 6,
        UninstallAction::RemoveState => 7,
        UninstallAction::RemoveUser => 8,
        UninstallAction::RemoveGroup => 9,
        UninstallAction::Finish => 10,
    }
}

/// State and user are preserved unless a purge was asked for and, where somebody
/// is there to ask, confirmed.
pub proof fn data_is_preserved_by_default(
    action: UninstallAction,
    event: UninstallEvent,
    o: UninstallOptions,
    state_dir: Seq<char>,
)
    requires
        !purges(action),
        purges(uninstall_step(action, event, o, state_dir).0),
    ensures
        action is AskPurge ==> (event matches UninstallEvent::Answer(Some(a)) && is_yes(a@)),
        action !is AskPurge ==> o.purge && o.headless,
{
}

/// A purge is asked about only where it was asked for.
pub proof fn only_a_purge_is_asked_about(
    action: UninstallAction,
    event: UninstallEvent,
    o: UninstallOptions,
    state_dir: Seq<char>,
)
    ensures
        uninstall_step(action, event, o, state_dir).0 is AskPurge ==> o.purge && !o.headless,
{
}

/// Every action brings the uninstallation further, whatever comes of it.
pub proof fn uninstallation_ends(
    action: UninstallAction,
    event: UninstallEvent,
    o: UninstallOptions,
    state_dir: Seq<char>,
)
    requires
        action !is Finish,
    ensures
        uninstall_rank(uninstall_step(action, event, o, state_dir).0) > uninstall_rank(action),
{
}

} // verus!
