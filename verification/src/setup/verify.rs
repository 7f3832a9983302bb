//! Verification and certificate wait workflow of the setup command.
//!
//! - Service activation via `systemctl is-active`
//! - Certificate issuance via control socket
//! - HTTPS endpoint reachability using system trust store
use super::note::{no_notes, note, notes_of, one_note, say, Mark, Note, NoteFacts};
use crate::control::client::{
    labelled, labelled_line, lines_of, row_of, single, single_line, span, styled, Span, SpanFacts,
    Tone,
};
use crate::text;
use vstd::prelude::*;

verus! {

/// How often the units are looked at before they count as not active.
pub const ACTIVATION_TRIES: u32 = 30;

/// How many milliseconds lie between two looks at the units.
pub const ACTIVATION_PAUSE_MILLIS: u64 = 500;

/// How many seconds the certificate is waited for.
pub const CERT_WAIT_SECS: u64 = 300;

/// What the verification does next.
#[derive(Debug, Clone, Copy, PartialEq, Eq, Structural)]
pub enum VerifyAction {
    /// See whether both units are active.
    CheckUnits,
    /// Pause before the next look at the units.
    Pause,
    /// Wait for the certificate over the control socket.
    AwaitCertificate,
    /// Request the root page over HTTPS.
    CheckHttps,
    /// Nothing: the deployment is verified.
    Finish,
}

/// How the HTTPS request went.
#[derive(Debug)]
pub enum HttpsOutcome {
    /// It succeeded, and the client printed this.
    Succeeded(String),
    /// It failed, and the client printed this.
    Failed(String),
    /// The client could not be run.
    NoClient,
}

/// How an action went.
#[derive(Debug)]
pub enum VerifyEvent {
    /// Whether the socket and the service are active.
    Units { socket: bool, service: bool },
    /// The pause is over.
    Paused,
    /// The exit code of the wait for the certificate.
    Certificate(i32),
    /// How the HTTPS request went.
    Https(HttpsOutcome),
}

/// Why the verification fails, and what is said before.
#[derive(Debug)]
pub struct VerifyFailure {
    pub notes: Vec<Note>,
    pub message: String,
}

/// How far the verification is.
pub struct VerifyFacts {
    pub action: VerifyAction,
    pub tries_left: nat,
}

/// What is said of the HTTPS request; it never fails the setup.
pub open spec fn https_note(outcome: HttpsOutcome, domain: Seq<char>) -> NoteFacts {
    match outcome {
        HttpsOutcome::Succeeded(out) => note(
            Mark::Done,
            "HTTPS GET https://"@ + domain + "/ succeeded (HTTP "@ + text::trimmed(out@) + ")"@,
        ),
        HttpsOutcome::Failed(err) => if text::has(err@, "certificate"@) || text::has(
            err@,
            "SSL"@,
        ) {
            note(
                Mark::Warning,
                "HTTPS endpoint reached; certificate verification failed against system roots (expected for staging/Pebble environments)"@,
            )
        } else {
            note(Mark::Warning, "HTTPS request warning: "@ + text::trimmed(err@))
        },
        HttpsOutcome::NoClient => note(
            Mark::Quiet,
            "curl command not found, skipping local HTTPS check"@,
        ),
    }
}

/// The note on the HTTPS request.
pub fn judge_https(outcome: &HttpsOutcome, domain: &str) -> (r: Note)
    ensures
        r@ == https_note(*outcome, domain@),
{
    match outcome {
        HttpsOutcome::Succeeded(out) => Note {
            mark: Mark::Done,
            text: text::cat5(
                "HTTPS GET https://",
                domain,
                "/ succeeded (HTTP ",
                text::trim(out.as_str()),
                ")",
            ),
        },
        HttpsOutcome::Failed(err) => {
            if text::contains(err.as_str(), "certificate") || text::contains(err.as_str(), "SSL") {
                Note {
                    mark: Mark::Warning,
                    text:
                        "HTTPS endpoint reached; certificate verification failed against system roots (expected for staging/Pebble environments)".to_owned(),
                }
            } else {
                Note {
                    mark: Mark::Warning,
                    text: text::cat2("HTTPS request warning: ", text::trim(err.as_str())),
                }
            }
        },
        HttpsOutcome::NoClient => Note {
            mark: Mark::Quiet,
            text: "curl command not found, skipping local HTTPS check".to_owned(),
        },
    }
}

impl VerifyFacts {
    /// What follows an action, and what is said in between; or what is said at the
    /// end, and why the verification fails. The pause also follows the last look.
    pub open spec fn step(self, event: VerifyEvent, domain: Seq<char>) -> Result<
        (VerifyFacts, Seq<NoteFacts>),
        (Seq<NoteFacts>, Seq<char>),
    > {
        match self.action {
            VerifyAction::CheckUnits => if event matches VerifyEvent::Units { socket, service }
                && socket && service {
                Ok(
                    (
                        VerifyFacts { action: VerifyAction::AwaitCertificate, ..self },
                        seq![
                            note(Mark::Done, "Services active and running"@),
                            note(
                                Mark::Busy,
                                "Waiting for certificate issuance for '"@ + domain
                                    + "' (timeout: 300s)..."@,
                            ),
                        ],
                    ),
                )
            } else {
                Ok(
                    (
                        VerifyFacts {
                            action: VerifyAction::Pause,
                            tries_left: if self.tries_left > 0 {
                                (self.tries_left - 1) as nat
                            } else {
                                0
                            },
                        },
                        seq![],
                    ),
                )
            },
            VerifyAction::Pause => if self.tries_left == 0 {
                Err(
                    (
                        seq![note(Mark::Missed, "Services failed to activate"@)],
                        "weaver-server systemd units did not become active"@,
                    ),
                )
            } else {
                Ok((VerifyFacts { action: VerifyAction::CheckUnits, ..self }, seq![]))
            },
            VerifyAction::AwaitCertificate => if event matches VerifyEvent::Certificate(code)
                && code == 0 {
                Ok(
                    (
                        VerifyFacts { action: VerifyAction::CheckHttps, ..self },
                        seq![note(Mark::Busy, "Testing HTTPS GET https://"@ + domain + "/..."@)],
                    ),
                )
            } else {
                Err(
                    (seq![], "certificate issuance failed or timed out for '"@ + domain + "'"@),
                )
            },
            VerifyAction::CheckHttps => Ok(
                (
                    VerifyFacts { action: VerifyAction::Finish, ..self },
                    match event {
                        VerifyEvent::Https(outcome) => seq![https_note(outcome, domain)],
                        _ => seq![],
                    },
                ),
            ),
            VerifyAction::Finish => Ok((self, seq![])),
        }
    }

    /// How many actions can still follow.
    pub open spec fn measure(self) -> nat {
        match self.action {
            VerifyAction::CheckUnits => 2 * self.tries_left + 5,
            VerifyAction::Pause => 2 * self.tries_left + 6,
            VerifyAction::AwaitCertificate => 2,
            VerifyAction::CheckHttps => 1,
            VerifyAction::Finish => 0,
        }
    }
}

/// A deployment that is being verified.
pub struct VerifySession {
    action: VerifyAction,
    tries_left: u32,
}

impl View for VerifySession {
    type V = VerifyFacts;

    closed spec fn view(&self) -> VerifyFacts {
        VerifyFacts { action: self.action, tries_left: self.tries_left as nat }
    }
}

impl VerifySession {
    /// Nothing has been verified; the heading is said.
    pub fn new() -> (r: (Self, Vec<Note>))
        ensures
            r.0@ == (VerifyFacts {
                action: VerifyAction::CheckUnits,
                tries_left: ACTIVATION_TRIES as nat,
            }),
            notes_of(r.1@) == seq![
                note(Mark::Heading, "Verifying deployment..."@),
                note(Mark::Busy, "Verifying service activation..."@),
            ],
    {
        let mut v = no_notes();
        say(&mut v, Mark::Heading, "Verifying deployment...".to_owned());
        say(&mut v, Mark::Busy, "Verifying service activation...".to_owned());
        assert(notes_of(v@) =~= seq![
            note(Mark::Heading, "Verifying deployment..."@),
            note(Mark::Busy, "Verifying service activation..."@),
        ]);
        (VerifySession { action: VerifyAction::CheckUnits, tries_left: ACTIVATION_TRIES }, v)
    }

    /// What is to be done next.
    pub fn action(&self) -> (r: VerifyAction)
        ensures
            r == self@.action,
    {
        self.action
    }

    /// Takes how the action went: says something and goes on to the next, or
    /// fails with a message.
    pub fn step(&mut self, event: &VerifyEvent, root_domain: &str) -> (r: Result<
        Vec<Note>,
        VerifyFailure,
    >)
        ensures
            match old(self)@.step(*event, root_domain@) {
                Ok((next, said)) => {
                    &&& r matches Ok(notes)
                    &&& notes_of(notes@) == said
                    &&& final(self)@ == next
                },
                Err((said, why)) => {
                    &&& r matches Err(failure)
                    &&& notes_of(failure.notes@) == said
                    &&& failure.message@ == why
                    &&& final(self)@ == old(self)@
                },
            },
    {
        match self.action {
            VerifyAction::CheckUnits => {
                let active = match event {
                    VerifyEvent::Units { socket, service } => *socket && *service,
                    _ => false,
                };
                if active {
                    self.action = VerifyAction::AwaitCertificate;
                    let mut v = no_notes();
                    let waiting = text::cat3(
                        "Waiting for certificate issuance for '",
                        root_domain,
                        "' (timeout: 300s)...",
                    );
                    say(&mut v, Mark::Done, "Services active and running".to_owned());
                    say(&mut v, Mark::Busy, waiting);
                    assert(notes_of(v@) =~= seq![
                        note(Mark::Done, "Services active and running"@),
                        note(Mark::Busy, waiting@),
                    ]);
                    Ok(v)
                } else {
                    self.action = VerifyAction::Pause;
                    if self.tries_left > 0 {
                        self.tries_left = self.tries_left - 1;
                    }
                    Ok(no_notes())
                }
            },
            VerifyAction::Pause => if self.tries_left == 0 {
                Err(
                    VerifyFailure {
                        notes: one_note(Mark::Missed, "Services failed to activate".to_owned()),
                        message: "weaver-server systemd units did not become active".to_owned(),
                    },
                )
            } else {
                self.action = VerifyAction::CheckUnits;
                Ok(no_notes())
            },
            VerifyAction::AwaitCertificate => {
                let issued = match event {
                    VerifyEvent::Certificate(code) => *code == 0,
                    _ => false,
                };
                if issued {
                    self.action = VerifyAction::CheckHttps;
                    Ok(
                        one_note(
                            Mark::Busy,
                            text::cat3("Testing HTTPS GET https://", root_domain, "/..."),
                        ),
                    )
                } else {
                    Err(
                        VerifyFailure {
                            notes: no_notes(),
                            message: text::cat3(
                                "certificate issuance failed or timed out for '",
                                root_domain,
                                "'",
                            ),
                        },
                    )
                }
            },
            VerifyAction::CheckHttps => {
                self.action = VerifyAction::Finish;
                match event {
                    VerifyEvent::Https(outcome) => {
                        let n = judge_https(outcome, root_domain);
                        Ok(one_note(n.mark, n.text))
                    },
                    _ => Ok(no_notes()),
                }
            },
            VerifyAction::Finish => Ok(no_notes()),
        }
    }
}

/// The arguments of `curl` for the root page.
pub fn curl_args(root_domain: &str) -> (r: Vec<String>)
    ensures
        text::texts(r@) == seq![
            "--fail"@,
            "--silent"@,
            "--show-error"@,
            "-o"@,
            "/dev/null"@,
            "-w"@,
            "%{http_code}"@,
            "https://"@ + root_domain@ + "/"@,
        ],
{
    let mut v: Vec<String> = Vec::new();
    v.push("--fail".to_owned());
    v.push("--silent".to_owned());
    v.push("--show-error".to_owned());
    v.push("-o".to_owned());
    v.push("/dev/null".to_owned());
    v.push("-w".to_owned());
    v.push("%{http_code}".to_owned());
    v.push(text::cat3("https://", root_domain, "/"));
    assert(text::texts(v@) =~= seq![
        "--fail"@,
        "--silent"@,
        "--show-error"@,
        "-o"@,
        "/dev/null"@,
        "-w"@,
        "%{http_code}"@,
        "https://"@ + root_domain@ + "/"@,
    ]);
    v
}

/// The diagnostic instructions after a failure.
pub open spec fn guidance_view() -> Seq<Seq<SpanFacts>> {
    seq![
        seq![],
        single(styled("Troubleshooting:"@, Tone::RedBold)),
        single(styled("  Inspect daemon logs with:"@, Tone::Plain)),
        single(styled("    journalctl -u weaver-server -n 50 --no-pager"@, Tone::YellowBold)),
        single(styled("  Check service status with:"@, Tone::Plain)),
        single(styled("    systemctl status weaver-server.service"@, Tone::YellowBold)),
    ]
}

/// The lines of the diagnostic instructions after a failure.
pub fn failure_guidance() -> (v: Vec<Vec<Span>>)
    ensures
        lines_of(v@) == guidance_view(),
{
    let mut v: Vec<Vec<Span>> = Vec::new();
    v.push(Vec::new());
    v.push(single_line(span("Troubleshooting:", Tone::RedBold)));
    v.push(single_line(span("  Inspect daemon logs with:", Tone::Plain)));
    v.push(
        single_line(span("    journalctl -u weaver-server -n 50 --no-pager", Tone::YellowBold)),
    );
    v.push(single_line(span("  Check service status with:", Tone::Plain)));
    v.push(single_line(span("    systemctl status weaver-server.service", Tone::YellowBold)));
    proof {
        assert(row_of(Seq::<Span>::empty()) =~= Seq::<SpanFacts>::empty());
        assert(lines_of(v@) =~= guidance_view());
    }
    v
}

/// The closing summary.
pub open spec fn summary_view(domain: Seq<char>) -> Seq<Seq<SpanFacts>> {
    seq![
        seq![],
        single(styled("Weaver Server Setup Complete"@, Tone::GreenBold)),
        seq![],
        single(styled("Service Status"@, Tone::WhiteBold)),
        labelled("Relay URL:"@, styled("https://"@ + domain, Tone::CyanBold)),
        labelled("Status:"@, styled("Active & Serving"@, Tone::GreenBold)),
        labelled("Sockets:"@, styled("[::]:80, [::]:443"@, Tone::Plain)),
        seq![],
        single(styled("Management"@, Tone::WhiteBold)),
        labelled(
            "Service Control:"@,
            styled("systemctl status weaver-server.service"@, Tone::Yellow),
        ),
        labelled("Live Logs:"@, styled("journalctl -u weaver-server -f"@, Tone::Yellow)),
        seq![],
    ]
}

/// The lines of the closing summary.
pub fn closing_summary(root_domain: &str) -> (v: Vec<Vec<Span>>)
    ensures
        lines_of(v@) == summary_view(root_domain@),
{
    let url = text::cat2("https://", root_domain);
    let mut v: Vec<Vec<Span>> = Vec::new();
    v.push(Vec::new());
    v.push(single_line(span("Weaver Server Setup Complete", Tone::GreenBold)));
    v.push(Vec::new());
    v.push(single_line(span("Service Status", Tone::WhiteBold)));
    v.push(labelled_line("Relay URL:", span(url.as_str(), Tone::CyanBold)));
    v.push(labelled_line("Status:", span("Active & Serving", Tone::GreenBold)));
    v.push(labelled_line("Sockets:", span("[::]:80, [::]:443", Tone::Plain)));
    v.push(Vec::new());
    v.push(single_line(span("Management", Tone::WhiteBold)));
    v.push(
        labelled_line(
            "Service Control:",
            span("systemctl status weaver-server.service", Tone::Yellow),
        ),
    );
    v.push(labelled_line("Live Logs:", span("journalctl -u weaver-server -f", Tone::Yellow)));
    v.push(Vec::new());
    proof {
        assert(row_of(Seq::<Span>::empty()) =~= Seq::<SpanFacts>::empty());
        assert(lines_of(v@) =~= summary_view(root_domain@));
    }
    v
}

/// The verification ends: every action brings it further, and it looks at the
/// units no more often than it may.
pub proof fn verification_ends(f: VerifyFacts, event: VerifyEvent, domain: Seq<char>)
    requires
        f.action !is Finish,
        f.action is CheckUnits ==> f.tries_left > 0,
    ensures
        f.step(event, domain) matches Ok((next, said)) ==> {
            &&& next.measure() < f.measure()
            &&& next.action is CheckUnits ==> next.tries_left > 0
        },
{
}

/// Setup counts as complete only with active units and an issued certificate;
/// what the HTTPS request shows is for information.
pub proof fn complete_means_issued(f: VerifyFacts, event: VerifyEvent, domain: Seq<char>)
    ensures
        f.step(event, domain) matches Ok((next, said)) ==> {
            &&& next.action is AwaitCertificate && f.action !is AwaitCertificate ==> (event matches
                VerifyEvent::Units { socket, service } && socket && service)
            &&& next.action is CheckHttps && f.action !is CheckHttps ==> (event matches
                VerifyEvent::Certificate(code) && code == 0)
            &&& next.action is Finish ==> f.action is CheckHttps || f.action is Finish
        },
        f.action is CheckHttps ==> f.step(event, domain) is Ok,
{
}

} // verus!
