//! Gathering the setup configuration, from arguments and from answers.
use super::interactive::{
    chosen_provider, is_email, is_fqdn, is_yes, provider_choice, says_yes, validate_email,
    validate_fqdn, GatheredConfig,
};
use crate::cert::providers::{needs_eab, requires_eab};
use crate::cli::{effective_provider, provider_with, SetupArgs};
use crate::text;
use vstd::prelude::*;

verus! {

/// What a root domain that is no domain name is answered.
pub open spec fn bad_domain(domain: Seq<char>) -> Seq<char> {
    "Error: Invalid root domain '"@ + domain + "'. Must be a valid FQDN."@
}

/// What an email address that is none is answered.
pub open spec fn bad_email(email: Seq<char>) -> Seq<char> {
    "Error: Invalid email '"@ + email + "'."@
}

fn domain_error(domain: &str) -> (r: String)
    ensures
        r@ == bad_domain(domain@),
{
    text::cat3("Error: Invalid root domain '", domain, "'. Must be a valid FQDN.")
}

fn email_error(email: &str) -> (r: String)
    ensures
        r@ == bad_email(email@),
{
    text::cat3("Error: Invalid email '", email, "'.")
}

/// A value that the configuration cannot do without.
#[derive(Debug, Clone, Copy, PartialEq, Eq, Structural)]
pub enum Field {
    RootDomain,
    Email,
}

impl Field {
    /// The value will do.
    pub open spec fn accepts(self, value: Seq<char>) -> bool {
        match self {
            Field::RootDomain => is_fqdn(value),
            Field::Email => is_email(value),
        }
    }

    /// What a given value that will not do is answered.
    pub open spec fn refusal(self, value: Seq<char>) -> Seq<char> {
        match self {
            Field::RootDomain => bad_domain(value),
            Field::Email => bad_email(value),
        }
    }

    /// What a typed value that will not do is answered.
    pub open spec fn complaint_view(self) -> Seq<char> {
        match self {
            Field::RootDomain =>
                "Invalid root domain. Please provide a valid FQDN (e.g. example.com)."@,
            Field::Email => "Invalid email. Please provide a valid email address."@,
        }
    }

    /// What is asked.
    pub fn prompt(self) -> (r: &'static str)
        ensures
            r@ == (match self {
                Field::RootDomain => "Root domain"@,
                Field::Email => "Admin email"@,
            }),
    {
        match self {
            Field::RootDomain => "Root domain",
            Field::Email => "Admin email",
        }
    }

    fn check(self, value: &str) -> (r: bool)
        ensures
            r == self.accepts(value@),
    {
        match self {
            Field::RootDomain => validate_fqdn(value),
            Field::Email => validate_email(value),
        }
    }

    /// Takes the argument of a command: the value, or nothing where it has to be
    /// asked for, or why it will not do.
    pub fn given(self, argument: &Option<String>) -> (r: Result<Option<String>, String>)
        ensures
            match *argument {
                None => r matches Ok(None),
                Some(v) => if self.accepts(v@) {
                    r matches Ok(Some(value)) && value@ == v@
                } else {
                    r matches Err(e) && e@ == self.refusal(v@)
                },
            },
    {
        match argument {
            None => Ok(None),
            Some(v) => if self.check(v.as_str()) {
                Ok(Some(v.as_str().to_owned()))
            } else {
                match self {
                    Field::RootDomain => Err(domain_error(v.as_str())),
                    Field::Email => Err(email_error(v.as_str())),
                }
            },
        }
    }

    /// Takes an answer; a complaint means that it is asked again.
    pub fn complaint(self, answer: &str) -> (r: Option<&'static str>)
        ensures
            self.accepts(answer@) ==> r is None,
            !self.accepts(answer@) ==> (r matches Some(why) && why@ == self.complaint_view()),
    {
        if self.check(answer) {
            return None;
        }
        match self {
            Field::RootDomain => Some(
                "Invalid root domain. Please provide a valid FQDN (e.g. example.com).",
            ),
            Field::Email => Some("Invalid email. Please provide a valid email address."),
        }
    }
}

/// Why arguments do not do in headless mode, where `credentials` names the two
/// that External Account Binding needs.
pub open spec fn headless_problem(
    root_domain: Option<Seq<char>>,
    email: Option<Seq<char>>,
    provider: Seq<char>,
    has_eab: bool,
    credentials: Seq<char>,
) -> Option<Seq<char>> {
    match (root_domain, email) {
        (None, _) => Some("Error: Missing required option --root-domain in headless mode"@),
        (_, None) => Some("Error: Missing required option --email in headless mode"@),
        (Some(rd), Some(mail)) => if !is_fqdn(rd) {
            Some(bad_domain(rd))
        } else if !is_email(mail) {
            Some(bad_email(mail))
        } else if needs_eab(provider) && !has_eab {
            Some(
                "Error: Provider '"@ + provider + "' requires both "@ + credentials
                    + " in headless mode"@,
            )
        } else {
            None
        },
    }
}

/// Checks the arguments of a command in headless mode.
pub fn check_headless(
    root_domain: &Option<String>,
    email: &Option<String>,
    provider: &str,
    has_eab: bool,
    credentials: &str,
) -> (r: Result<(), String>)
    ensures
        match headless_problem(
            text::opt(*root_domain),
            text::opt(*email),
            provider@,
            has_eab,
            credentials@,
        ) {
            Some(why) => r matches Err(e) && e@ == why,
            None => r is Ok,
        },
{
    let rd = match root_domain {
        Some(rd) => rd,
        None => return Err(
            "Error: Missing required option --root-domain in headless mode".to_owned(),
        ),
    };
    let mail = match email {
        Some(mail) => mail,
        None => return Err("Error: Missing required option --email in headless mode".to_owned()),
    };
    if !validate_fqdn(rd.as_str()) {
        return Err(domain_error(rd.as_str()));
    }
    if !validate_email(mail.as_str()) {
        return Err(email_error(mail.as_str()));
    }
    if requires_eab(provider) && !has_eab {
        return Err(
            text::cat5(
                "Error: Provider '",
                provider,
                "' requires both ",
                credentials,
                " in headless mode",
            ),
        );
    }
    Ok(())
}

/// What is asked next.
#[derive(Debug, Clone, Copy, PartialEq, Eq, Structural)]
pub enum Ask {
    RootDomain,
    Email,
    Provider,
    Directory,
    EabKid,
    EabHmac,
    NeedsEab,
    RootCa,
    /// Nothing: everything is gathered.
    Nothing,
}

/// The prompt of a question, and the answer that an empty line stands for.
pub fn prompt_of(ask: Ask) -> (r: (&'static str, Option<&'static str>))
    ensures
        r.0@ == prompt_text(ask),
        r.1 matches Some(d) ==> d@ == default_answer(ask)->0,
        r.1 is Some <==> default_answer(ask) is Some,
{
    match ask {
        Ask::RootDomain => ("Root domain", None),
        Ask::Email => ("Admin email", None),
        Ask::Provider => ("Select provider", Some("1")),
        Ask::Directory => ("ACME directory URL", None),
        Ask::EabKid => ("EAB Key Identifier (KID)", None),
        Ask::EabHmac => ("EAB HMAC Key", None),
        Ask::NeedsEab => ("Does this directory require EAB? [y/N]", Some("n")),
        Ask::RootCa => ("Custom Root CA PEM path (optional, press enter to skip)", None),
        Ask::Nothing => ("", None),
    }
}

/// The prompt of a question.
pub open spec fn prompt_text(ask: Ask) -> Seq<char> {
    match ask {
        Ask::RootDomain => "Root domain"@,
        Ask::Email => "Admin email"@,
        Ask::Provider => "Select provider"@,
        Ask::Directory => "ACME directory URL"@,
        Ask::EabKid => "EAB Key Identifier (KID)"@,
        Ask::EabHmac => "EAB HMAC Key"@,
        Ask::NeedsEab => "Does this directory require EAB? [y/N]"@,
        Ask::RootCa => "Custom Root CA PEM path (optional, press enter to skip)"@,
        Ask::Nothing => ""@,
    }
}

/// The answer that an empty line stands for.
pub open spec fn default_answer(ask: Ask) -> Option<Seq<char>> {
    match ask {
        Ask::Provider => Some("1"@),
        Ask::NeedsEab => Some("n"@),
        _ => None,
    }
}

/// What has been gathered, and what is asked next.
pub struct GatherFacts {
    pub ask: Ask,
    pub root_domain: Option<Seq<char>>,
    pub email: Option<Seq<char>>,
    pub provider: Seq<char>,
    pub directory: Option<Seq<char>>,
    pub kid: Option<Seq<char>>,
    pub hmac: Option<Seq<char>>,
    pub root_ca: Option<Seq<char>>,
}

impl GatherFacts {
    /// On to another question.
    pub open spec fn to(self, ask: Ask) -> Self {
        GatherFacts { ask, ..self }
    }

    /// The provider is asked for: nothing on the command line has chosen one.
    pub open spec fn asks_provider(self) -> bool {
        self.kid is None && self.directory is None && self.provider == "letsencrypt"@
    }

    /// On once the email address is settled.
    pub open spec fn past_email(self) -> Self {
        if self.asks_provider() {
            self.to(Ask::Provider)
        } else {
            self.to(Ask::Nothing)
        }
    }

    /// On once the root domain is settled.
    pub open spec fn past_domain(self) -> Result<Self, Seq<char>> {
        match self.email {
            Some(mail) => if is_email(mail) {
                Ok(self.past_email())
            } else {
                Err(bad_email(mail))
            },
            None => Ok(self.to(Ask::Email)),
        }
    }

    /// The first question, or why the arguments do not do.
    pub open spec fn begun(self) -> Result<Self, Seq<char>> {
        match self.root_domain {
            Some(rd) => if is_fqdn(rd) {
                self.past_domain()
            } else {
                Err(bad_domain(rd))
            },
            None => Ok(self.to(Ask::RootDomain)),
        }
    }

    /// On once the provider and its directory are settled.
    pub open spec fn past_provider(self) -> Self {
        if needs_eab(self.provider) {
            self.to(Ask::EabKid)
        } else if self.provider == "custom"@ {
            self.to(Ask::NeedsEab)
        } else {
            self.to(Ask::Nothing)
        }
    }

    /// What follows an answer: the next question, perhaps after a complaint, or
    /// why the arguments do not do.
    pub open spec fn answered(self, answer: Seq<char>) -> Result<
        (Self, Option<Seq<char>>),
        Seq<char>,
    > {
        match self.ask {
            Ask::RootDomain => if is_fqdn(answer) {
                match (GatherFacts { root_domain: Some(answer), ..self }).past_domain() {
                    Ok(next) => Ok((next, None)),
                    Err(why) => Err(why),
                }
            } else {
                Ok(
                    (
                        self,
                        Some("Invalid domain name. Must be a valid FQDN (e.g. example.com)."@),
                    ),
                )
            },
            Ask::Email => if is_email(answer) {
                Ok(((GatherFacts { email: Some(answer), ..self }).past_email(), None))
            } else {
                Ok((self, Some("Invalid email address."@)))
            },
            Ask::Provider => match chosen_provider(answer) {
                Some(p) => {
                    let next = GatherFacts { provider: p, ..self };
                    if p == "custom"@ {
                        Ok((next.to(Ask::Directory), None))
                    } else {
                        Ok((next.past_provider(), None))
                    }
                },
                None => Ok((self, Some("Invalid selection. Please enter 1, 2, 3, 4, or 5."@))),
            },
            Ask::Directory => Ok(
                ((GatherFacts { directory: Some(answer), ..self }).past_provider(), None),
            ),
            Ask::EabKid => Ok(
                ((GatherFacts { kid: Some(answer), ..self }).to(Ask::EabHmac), None),
            ),
            Ask::EabHmac => Ok(
                (
                    (GatherFacts { hmac: Some(answer), ..self }).to(
                        if needs_eab(self.provider) {
                            Ask::Nothing
                        } else {
                            Ask::RootCa
                        },
                    ),
                    None,
                ),
            ),
            Ask::NeedsEab => Ok(
                (
                    self.to(
                        if is_yes(answer) {
                            Ask::EabKid
                        } else {
                            Ask::RootCa
                        },
                    ),
                    None,
                ),
            ),
            Ask::RootCa => Ok(
                (
                    (GatherFacts {
                        root_ca: if answer.len() == 0 {
                            self.root_ca
                        } else {
                            Some(answer)
                        },
                        ..self
                    }).to(Ask::Nothing),
                    None,
                ),
            ),
            Ask::Nothing => Ok((self, None)),
        }
    }
}

/// The setup configuration as it is being gathered.
pub struct GatherSession {
    ask: Ask,
    root_domain: Option<String>,
    email: Option<String>,
    provider: String,
    directory: Option<String>,
    kid: Option<String>,
    hmac: Option<String>,
    root_ca: Option<String>,
}

impl View for GatherSession {
    type V = GatherFacts;

    closed spec fn view(&self) -> GatherFacts {
        GatherFacts {
            ask: self.ask,
            root_domain: text::opt(self.root_domain),
            email: text::opt(self.email),
            provider: self.provider@,
            directory: text::opt(self.directory),
            kid: text::opt(self.kid),
            hmac: text::opt(self.hmac),
            root_ca: text::opt(self.root_ca),
        }
    }
}

/// What the arguments give, before anything is asked.
pub open spec fn given(args: SetupArgs, hmac: Option<Seq<char>>) -> GatherFacts {
    GatherFacts {
        ask: Ask::Nothing,
        root_domain: text::opt(args.root_domain),
        email: text::opt(args.email),
        provider: provider_with(args.acme_provider@, args.acme_directory is Some),
        directory: text::opt(args.acme_directory),
        kid: text::opt(args.acme_eab_kid),
        hmac,
        root_ca: text::opt(args.acme_root_ca),
    }
}

fn copied(s: &Option<String>) -> (r: Option<String>)
    ensures
        text::opt(r) == text::opt(*s),
{
    match s {
        Some(s) => Some(s.clone()),
        None => None,
    }
}

impl GatherSession {
    /// Takes what the arguments give: nothing is asked.
    pub fn new(args: &SetupArgs, eab_hmac: Option<String>) -> (r: Self)
        ensures
            r@ == given(*args, text::opt(eab_hmac)),
    {
        GatherSession {
            ask: Ask::Nothing,
            root_domain: copied(&args.root_domain),
            email: copied(&args.email),
            provider: effective_provider(
                args.acme_provider.as_str(),
                args.acme_directory.is_some(),
            ),
            directory: copied(&args.acme_directory),
            kid: copied(&args.acme_eab_kid),
            hmac: eab_hmac,
            root_ca: copied(&args.acme_root_ca),
        }
    }

    /// What is asked next.
    pub fn ask(&self) -> (r: Ask)
        ensures
            r == self@.ask,
    {
        self.ask
    }

    /// The provider.
    pub fn provider(&self) -> (r: &str)
        ensures
            r@ == self@.provider,
    {
        self.provider.as_str()
    }

    /// Checks the arguments in headless mode.
    pub fn check_headless(&self) -> (r: Result<(), String>)
        ensures
            match headless_problem(
                self@.root_domain,
                self@.email,
                self@.provider,
                self@.kid is Some && self@.hmac is Some,
                "--acme-eab-kid and --acme-eab-hmac"@,
            ) {
                Some(why) => r matches Err(e) && e@ == why,
                None => r is Ok,
            },
    {
        check_headless(
            &self.root_domain,
            &self.email,
            self.provider.as_str(),
            self.kid.is_some() && self.hmac.is_some(),
            "--acme-eab-kid and --acme-eab-hmac",
        )
    }

    fn pass_email(&mut self)
        ensures
            final(self)@ == old(self)@.past_email(),
    {
        if self.kid.is_none() && self.directory.is_none() && text::same(
            self.provider.as_str(),
            "letsencrypt",
        ) {
            self.ask = Ask::Provider;
        } else {
            self.ask = Ask::Nothing;
        }
    }

    fn pass_domain(&mut self) -> (r: Result<(), String>)
        ensures
            match old(self)@.past_domain() {
                Ok(next) => r is Ok && final(self)@ == next,
                Err(why) => (r matches Err(e) && e@ == why) && final(self)@ == old(self)@,
            },
    {
        match &self.email {
            Some(mail) => {
                if !validate_email(mail.as_str()) {
                    return Err(email_error(mail.as_str()));
                }
                self.pass_email();
            },
            None => {
                self.ask = Ask::Email;
            },
        }
        Ok(())
    }

    fn pass_provider(&mut self)
        ensures
            final(self)@ == old(self)@.past_provider(),
    {
        if requires_eab(self.provider.as_str()) {
            self.ask = Ask::EabKid;
        } else if text::same(self.provider.as_str(), "custom") {
            self.ask = Ask::NeedsEab;
        } else {
            self.ask = Ask::Nothing;
        }
    }

    /// Begins to ask: finds the first question, or why the arguments do not do.
    pub fn begin(&mut self) -> (r: Result<(), String>)
        ensures
            match old(self)@.begun() {
                Ok(next) => r is Ok && final(self)@ == next,
                Err(why) => (r matches Err(e) && e@ == why) && final(self)@ == old(self)@,
            },
    {
        match &self.root_domain {
            Some(rd) => if validate_fqdn(rd.as_str()) {
                self.pass_domain()
            } else {
                Err(domain_error(rd.as_str()))
            },
            None => {
                self.ask = Ask::RootDomain;
                Ok(())
            },
        }
    }

    /// Takes an answer: finds the next question, perhaps with a complaint, or
    /// why the arguments do not do.
    pub fn answer(&mut self, answer: &str) -> (r: Result<Option<&'static str>, String>)
        ensures
            match old(self)@.answered(answer@) {
                Ok((next, complaint)) => {
                    &&& r matches Ok(said)
                    &&& (match said {
                        Some(s) => complaint == Some(s@),
                        None => complaint is None,
                    })
                    &&& final(self)@ == next
                },
                Err(why) => r matches Err(e) && e@ == why,
            },
    {
        match self.ask {
            Ask::RootDomain => {
                if !validate_fqdn(answer) {
                    return Ok(
                        Some("Invalid domain name. Must be a valid FQDN (e.g. example.com)."),
                    );
                }
                self.root_domain = Some(answer.to_owned());
                match self.pass_domain() {
                    Ok(_) => Ok(None),
                    Err(e) => Err(e),
                }
            },
            Ask::Email => {
                if !validate_email(answer) {
                    return Ok(Some("Invalid email address."));
                }
                self.email = Some(answer.to_owned());
                self.pass_email();
                Ok(None)
            },
            Ask::Provider => match provider_choice(answer) {
                Some(p) => {
                    self.provider = p.to_owned();
                    if text::same(p, "custom") {
                        self.ask = Ask::Directory;
                    } else {
                        self.pass_provider();
                    }
                    Ok(None)
                },
                None => Ok(Some("Invalid selection. Please enter 1, 2, 3, 4, or 5.")),
            },
            Ask::Directory => {
                self.directory = Some(answer.to_owned());
                self.pass_provider();
                Ok(None)
            },
            Ask::EabKid => {
                self.kid = Some(answer.to_owned());
                self.ask = Ask::EabHmac;
                Ok(None)
            },
            Ask::EabHmac => {
                self.hmac = Some(answer.to_owned());
                self.ask = if requires_eab(self.provider.as_str()) {
                    Ask::Nothing
                } else {
                    Ask::RootCa
                };
                Ok(None)
            },
            Ask::NeedsEab => {
                self.ask = if says_yes(answer) {
                    Ask::EabKid
                } else {
                    Ask::RootCa
                };
                Ok(None)
            },
            Ask::RootCa => {
                if answer.unicode_len() > 0 {
                    self.root_ca = Some(answer.to_owned());
                }
                self.ask = Ask::Nothing;
                Ok(None)
            },
            Ask::Nothing => Ok(None),
        }
    }

    /// The gathered configuration; none as long as the root domain or the email
    /// address is missing.
    pub fn finish(self, args: &SetupArgs, db_path: &str) -> (r: Option<GatheredConfig>)
        ensures
            r is Some <==> self@.root_domain is Some && self@.email is Some,
            r matches Some(g) ==> {
                &&& g.root_domain@ == self@.root_domain->0
                &&& g.admin_email@ == self@.email->0
                &&& g.acme_provider@ == self@.provider
                &&& text::opt(g.acme_directory) == self@.directory
                &&& text::opt(g.acme_eab_kid) == self@.kid
                &&& text::opt(g.acme_eab_hmac) == self@.hmac
                &&& text::opt(g.acme_root_ca_path) == self@.root_ca
                &&& g.db_path@ == db_path@
                &&& g.user@ == args.user@
                &&& g.prefix@ == args.prefix@
                &&& g.skip_reachability_check == args.skip_reachability_check
            },
    {
        match (self.root_domain, self.email) {
            (Some(root_domain), Some(admin_email)) => Some(
                GatheredConfig {
                    root_domain,
                    admin_email,
                    acme_provider: self.provider,
                    acme_directory: self.directory,
                    acme_eab_kid: self.kid,
                    acme_eab_hmac: self.hmac,
                    acme_root_ca_path: self.root_ca,
                    db_path: db_path.to_owned(),
                    user: args.user.clone(),
                    prefix: args.prefix.clone(),
                    skip_reachability_check: args.skip_reachability_check,
                },
            ),
            _ => None,
        }
    }
}

impl GatherFacts {
    /// The root domain and the email address are settled wherever the questions
    /// are past them.
    pub open spec fn sound(self) -> bool {
        &&& self.ask !is RootDomain ==> (self.root_domain matches Some(rd) && is_fqdn(rd))
        &&& self.ask !is RootDomain && self.ask !is Email ==> (self.email matches Some(mail)
            && is_email(mail))
    }
}

/// Whatever is answered, the questions end with a valid root domain and email
/// address.
pub proof fn answers_are_valid(f: GatherFacts, answer: Seq<char>)
    ensures
        f.begun() matches Ok(next) ==> next.sound(),
        f.sound() ==> (f.answered(answer) matches Ok((next, complaint)) ==> next.sound()),
{
}

/// A complaint comes with the same question again and changes nothing.
pub proof fn complaints_ask_again(f: GatherFacts, answer: Seq<char>)
    ensures
        f.answered(answer) matches Ok((next, complaint)) ==> (complaint is Some ==> next == f),
{
}

/// A provider that requires External Account Binding is set up with both
/// credentials.
pub proof fn required_credentials_are_asked_for(f: GatherFacts, answer: Seq<char>)
    requires
        f.ask is Provider,
    ensures
        f.answered(answer) matches Ok((next, complaint)) ==> (complaint is None && needs_eab(
            next.provider,
        ) && next.provider != "custom"@ ==> next.ask is EabKid),
{
}

} // verus!
