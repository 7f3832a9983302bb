//! Interactive prompting and validation for the setup command.
//!
//! Validates domain names and admin email, edits typed answers, and lays out the
//! plan before installation.
use crate::control::client::{
    labelled, labelled_line, lines_of, row_of, single, single_line, span, styled, Span, SpanFacts,
    Tone,
};
use crate::text;
use vstd::prelude::*;

verus! {

/// Configuration values gathered interactively or via CLI arguments.
#[derive(Debug, Clone, PartialEq, Eq)]
pub struct GatheredConfig {
    pub root_domain: String,
    pub admin_email: String,
    pub acme_provider: String,
    pub acme_directory: Option<String>,
    pub acme_eab_kid: Option<String>,
    pub acme_eab_hmac: Option<String>,
    pub acme_root_ca_path: Option<String>,
    pub db_path: String,
    pub user: String,
    pub prefix: String,
    pub skip_reachability_check: bool,
}

/// A letter, a digit or a hyphen, in ASCII.
pub open spec fn is_label_char(c: char) -> bool {
    'a' <= c <= 'z' || 'A' <= c <= 'Z' || '0' <= c <= '9' || c == '-'
}

/// A label of a domain name.
pub open spec fn is_label(p: Seq<char>) -> bool {
    &&& 1 <= p.len() <= 63
    &&& p[0] != '-'
    &&& p.last() != '-'
    &&& forall|i: int| 0 <= i < p.len() ==> is_label_char(#[trigger] p[i])
}

/// A fully qualified domain name: two or more labels, in all at most 253
/// characters. White space around it and dots at its end do not count.
pub open spec fn is_fqdn(domain: Seq<char>) -> bool {
    let d = text::without_trailing(text::trimmed(domain), '.');
    let labels = text::split_on(d, '.');
    &&& 1 <= d.len() <= 253
    &&& labels.len() >= 2
    &&& forall|i: int| 0 <= i < labels.len() ==> is_label(#[trigger] labels[i])
}

fn valid_label(p: &str) -> (r: bool)
    ensures
        r == is_label(p@),
{
    let v = text::chars_of(p);
    let n: usize = v.len();
    if n < 1 || n > 63 || v[0] == '-' || v[n - 1] == '-' {
        return false;
    }
    let mut i: usize = 0;
    while i < n
        invariant
            v@ == p@,
            n == v@.len(),
            i <= n,
            forall|j: int| 0 <= j < i ==> is_label_char(#[trigger] p@[j]),
        decreases n - i,
    {
        let c = v[i];
        if !(('a' <= c && c <= 'z') || ('A' <= c && c <= 'Z') || ('0' <= c && c <= '9') || c
            == '-') {
            assert(!is_label_char(p@[i as int]));
            return false;
        }
        i += 1;
    }
    true
}

/// Validates whether a domain name is a structurally valid Fully Qualified Domain Name (FQDN).
pub fn validate_fqdn(domain: &str) -> (r: bool)
    ensures
        r == is_fqdn(domain@),
{
    let d = text::trim_trailing(text::trim(domain), '.');
    let n: usize = d.unicode_len();
    if n < 1 || n > 253 {
        return false;
    }
    let labels = text::split(d, '.');
    let ghost all = text::split_on(d@, '.');
    if labels.len() < 2 {
        return false;
    }
    let mut i: usize = 0;
    while i < labels.len()
        invariant
            all == text::texts(labels@),
            all == text::split_on(d@, '.'),
            d@ == text::without_trailing(text::trimmed(domain@), '.'),
            i <= labels@.len(),
            forall|j: int| 0 <= j < i ==> is_label(#[trigger] all[j]),
        decreases labels@.len() - i,
    {
        assert(all[i as int] == labels@[i as int]@);
        if !valid_label(labels[i].as_str()) {
            assert(!is_label(all[i as int]));
            return false;
        }
        i += 1;
    }
    true
}

/// An address with plausible email syntax: something, one `@`, and a domain
/// with a dot that is not at either end.
pub open spec fn is_email(email: Seq<char>) -> bool {
    let parts = text::split_on(text::trimmed(email), '@');
    &&& parts.len() == 2
    &&& parts[0].len() > 0
    &&& parts[1].len() > 0
    &&& parts[1].contains('.')
    &&& parts[1][0] != '.'
    &&& parts[1].last() != '.'
}

/// Validates whether an email string contains standard plausible email syntax.
pub fn validate_email(email: &str) -> (r: bool)
    ensures
        r == is_email(email@),
{
    let parts = text::split(text::trim(email), '@');
    let ghost all = text::split_on(text::trimmed(email@), '@');
    if parts.len() != 2 {
        return false;
    }
    assert(all[0] == parts@[0]@ && all[1] == parts@[1]@);
    let user: usize = parts[0].as_str().unicode_len();
    let domain = text::chars_of(parts[1].as_str());
    let n: usize = domain.len();
    if user == 0 || n == 0 || domain[0] == '.' || domain[n - 1] == '.' {
        return false;
    }
    let mut i: usize = 0;
    while i < n
        invariant
            domain@ == all[1],
            all == text::split_on(text::trimmed(email@), '@'),
            n == domain@.len(),
            i <= n,
            forall|j: int| 0 <= j < i ==> domain@[j] != '.',
            n > 0,
            all.len() == 2,
            all[0].len() > 0,
            all[1][0] != '.',
            all[1].last() != '.',
        decreases n - i,
    {
        if domain[i] == '.' {
            assert(all[1].contains(all[1][i as int]));
            return true;
        }
        i += 1;
    }
    false
}

/// The answer to a prompt: the typed line without white space around it, or the
/// default where there is nothing else.
pub open spec fn answer_of(line: Seq<char>, default: Option<Seq<char>>) -> Seq<char> {
    if text::trimmed(line).len() == 0 && default is Some {
        default->0
    } else {
        text::trimmed(line)
    }
}

/// The answer to a prompt, from the typed line.
pub fn prompt_answer(line: &str, default: Option<&str>) -> (r: String)
    ensures
        r@ == answer_of(line@, crate::server::listener::view_of(default)),
{
    let typed = text::trim(line);
    if let Some(d) = default {
        if typed.unicode_len() == 0 {
            return d.to_owned();
        }
    }
    typed.to_owned()
}

/// The answer means yes.
pub open spec fn is_yes(answer: Seq<char>) -> bool {
    text::lower(answer) == "y"@ || text::lower(answer) == "yes"@
}

/// Whether an answer means yes.
pub fn says_yes(answer: &str) -> (r: bool)
    ensures
        r == is_yes(answer@),
{
    let lower = text::lowered(answer);
    text::same(lower.as_str(), "y") || text::same(lower.as_str(), "yes")
}

/// The text without line ends at its end.
pub open spec fn without_line_end(s: Seq<char>) -> Seq<char>
    decreases s.len(),
{
    if s.len() > 0 && (s.last() == '\r' || s.last() == '\n') {
        without_line_end(s.drop_last())
    } else {
        s
    }
}

/// A secret read from a line that was not typed on a terminal.
pub fn piped_secret(line: &str) -> (r: String)
    ensures
        r@ == without_line_end(line@),
{
    let v = text::chars_of(line);
    let mut end: usize = v.len();
    assert(line@.take(end as int) =~= line@);
    while end > 0 && (v[end - 1] == '\r' || v[end - 1] == '\n')
        invariant
            v@ == line@,
            end <= v@.len(),
            without_line_end(line@) == without_line_end(line@.take(end as int)),
        decreases end,
    {
        assert(line@.take(end as int).drop_last() =~= line@.take(end - 1));
        end -= 1;
    }
    assert(line@.subrange(0, end as int) =~= line@.take(end as int));
    line.substring_char(0, end).to_owned()
}

/// A key that is pressed while a secret is typed.
#[derive(Debug, Clone, Copy, PartialEq, Eq, Structural)]
pub enum Key {
    Enter,
    /// Control and C.
    Interrupt,
    Char(char),
    Backspace,
    Other,
}

/// What is shown for a key.
#[derive(Debug, Clone, Copy, PartialEq, Eq, Structural)]
pub enum Echo {
    /// The secret is complete.
    Done,
    /// The program ends.
    Quit,
    /// A star.
    Star,
    /// The last star is taken back.
    Erase,
    /// Nothing.
    Nothing,
}

/// The exit code after an interrupt.
pub const INTERRUPTED: i32 = 130;

/// A secret that is being typed.
pub struct MaskedInput {
    typed: Vec<char>,
}

impl View for MaskedInput {
    type V = Seq<char>;

    closed spec fn view(&self) -> Seq<char> {
        self.typed@
    }
}

impl MaskedInput {
    /// Nothing is typed.
    pub fn new() -> (r: Self)
        ensures
            r@ == Seq::<char>::empty(),
    {
        MaskedInput { typed: Vec::new() }
    }

    /// Takes a key.
    pub fn press(&mut self, key: Key) -> (r: Echo)
        ensures
            match key {
                Key::Enter => r is Done && final(self)@ == old(self)@,
                Key::Interrupt => r is Quit && final(self)@ == old(self)@,
                Key::Char(c) => r is Star && final(self)@ == old(self)@.push(c),
                Key::Backspace => if old(self)@.len() > 0 {
                    r is Erase && final(self)@ == old(self)@.drop_last()
                } else {
                    r is Nothing && final(self)@ == old(self)@
                },
                Key::Other => r is Nothing && final(self)@ == old(self)@,
            },
    {
        match key {
            Key::Enter => Echo::Done,
            Key::Interrupt => Echo::Quit,
            Key::Char(c) => {
                self.typed.push(c);
                Echo::Star
            },
            Key::Backspace => if self.typed.len() > 0 {
                let _ = self.typed.pop();
                Echo::Erase
            } else {
                Echo::Nothing
            },
            Key::Other => Echo::Nothing,
        }
    }

    /// The secret.
    pub fn text(&self) -> (r: String)
        ensures
            r@ == self@,
    {
        let n: usize = self.typed.len();
        let r = text::string_of(self.typed.as_slice(), 0, n);
        assert(self.typed@.subrange(0, n as int) =~= self.typed@);
        r
    }
}

/// Typing a character and taking it back leaves the secret as it was.
pub proof fn backspace_undoes_typing(typed: Seq<char>, c: char)
    ensures
        typed.push(c).drop_last() == typed,
{
    assert(typed.push(c).drop_last() =~= typed);
}

/// The provider that an answer chooses; a custom one needs its directory, too.
pub open spec fn chosen_provider(choice: Seq<char>) -> Option<Seq<char>> {
    let c = text::trimmed(choice);
    if c == "1"@ || c == "letsencrypt"@ {
        Some("letsencrypt"@)
    } else if c == "2"@ || c == "google"@ {
        Some("google"@)
    } else if c == "3"@ || c == "zerossl"@ {
        Some("zerossl"@)
    } else if c == "4"@ || c == "buypass"@ {
        Some("buypass"@)
    } else if c == "5"@ || c == "custom"@ {
        Some("custom"@)
    } else {
        None
    }
}

/// The provider that an answer to the menu chooses.
pub fn provider_choice(choice: &str) -> (r: Option<&'static str>)
    ensures
        match r {
            Some(p) => chosen_provider(choice@) == Some(p@),
            None => chosen_provider(choice@) is None,
        },
{
    let c = text::trim(choice);
    if text::same(c, "1") || text::same(c, "letsencrypt") {
        Some("letsencrypt")
    } else if text::same(c, "2") || text::same(c, "google") {
        Some("google")
    } else if text::same(c, "3") || text::same(c, "zerossl") {
        Some("zerossl")
    } else if text::same(c, "4") || text::same(c, "buypass") {
        Some("buypass")
    } else if text::same(c, "5") || text::same(c, "custom") {
        Some("custom")
    } else {
        None
    }
}

/// A row of the provider menu.
pub open spec fn menu_row(
    number: SpanFacts,
    provider: SpanFacts,
    eab: SpanFacts,
    quota: Seq<char>,
    notes: Seq<char>,
) -> Seq<SpanFacts> {
    seq![number, provider, eab, styled(quota, Tone::Plain), styled(notes, Tone::Plain)]
}

/// The provider menu: its header and its rows.
pub open spec fn menu_view() -> Seq<Seq<SpanFacts>> {
    seq![
        seq![
            styled("#"@, Tone::CyanBold),
            styled("Provider"@, Tone::CyanBold),
            styled("EAB"@, Tone::CyanBold),
            styled("Quota"@, Tone::CyanBold),
            styled("Notes"@, Tone::CyanBold),
        ],
        menu_row(
            styled("1"@, Tone::GreenBold),
            styled("Let's Encrypt (default)"@, Tone::GreenBold),
            styled("no"@, Tone::Grey),
            "50/week"@,
            "Standard Web PKI; no account needed"@,
        ),
        menu_row(
            styled("2"@, Tone::Bold),
            styled("Google Trust Services"@, Tone::White),
            styled("required"@, Tone::YellowBold),
            "Very high"@,
            "Requires GCP project and EAB credentials"@,
        ),
        menu_row(
            styled("3"@, Tone::Bold),
            styled("ZeroSSL"@, Tone::White),
            styled("required"@, Tone::YellowBold),
            "Unlimited"@,
            "Requires ZeroSSL account and EAB credentials"@,
        ),
        menu_row(
            styled("4"@, Tone::Bold),
            styled("Buypass"@, Tone::White),
            styled("no"@, Tone::Grey),
            "20/week"@,
            "No account needed; 180-day certificates"@,
        ),
        menu_row(
            styled("5"@, Tone::Bold),
            styled("Custom ACME"@, Tone::DarkCyan),
            styled("optional"@, Tone::Grey),
            "Custom"@,
            "Custom ACME URL (Pebble, step-ca, internal CA)"@,
        ),
    ]
}

fn five(a: Span, b: Span, c: Span, d: Span, e: Span) -> (v: Vec<Span>)
    ensures
        row_of(v@) == seq![a@, b@, c@, d@, e@],
{
    let mut v: Vec<Span> = Vec::new();
    v.push(a);
    v.push(b);
    v.push(c);
    v.push(d);
    v.push(e);
    assert(row_of(v@) =~= seq![a@, b@, c@, d@, e@]);
    v
}

/// The rows of the provider menu, its header first.
pub fn provider_menu() -> (v: Vec<Vec<Span>>)
    ensures
        lines_of(v@) == menu_view(),
{
    let mut v: Vec<Vec<Span>> = Vec::new();
    v.push(
        five(
            span("#", Tone::CyanBold),
            span("Provider", Tone::CyanBold),
            span("EAB", Tone::CyanBold),
            span("Quota", Tone::CyanBold),
            span("Notes", Tone::CyanBold),
        ),
    );
    v.push(
        five(
            span("1", Tone::GreenBold),
            span("Let's Encrypt (default)", Tone::GreenBold),
            span("no", Tone::Grey),
            span("50/week", Tone::Plain),
            span("Standard Web PKI; no account needed", Tone::Plain),
        ),
    );
    v.push(
        five(
            span("2", Tone::Bold),
            span("Google Trust Services", Tone::White),
            span("required", Tone::YellowBold),
            span("Very high", Tone::Plain),
            span("Requires GCP project and EAB credentials", Tone::Plain),
        ),
    );
    v.push(
        five(
            span("3", Tone::Bold),
            span("ZeroSSL", Tone::White),
            span("required", Tone::YellowBold),
            span("Unlimited", Tone::Plain),
            span("Requires ZeroSSL account and EAB credentials", Tone::Plain),
        ),
    );
    v.push(
        five(
            span("4", Tone::Bold),
            span("Buypass", Tone::White),
            span("no", Tone::Grey),
            span("20/week", Tone::Plain),
            span("No account needed; 180-day certificates", Tone::Plain),
        ),
    );
    v.push(
        five(
            span("5", Tone::Bold),
            span("Custom ACME", Tone::DarkCyan),
            span("optional", Tone::Grey),
            span("Custom", Tone::Plain),
            span("Custom ACME URL (Pebble, step-ca, internal CA)", Tone::Plain),
        ),
    );
    assert(lines_of(v@) =~= menu_view());
    v
}

/// The plan as it is shown before it is confirmed.
pub open spec fn plan_view(c: GatheredConfig) -> Seq<Seq<SpanFacts>> {
    let directory = match c.acme_directory {
        Some(d) => seq![labelled("Directory:"@, styled(d@, Tone::DarkCyan))],
        None => seq![],
    };
    let eab = if c.acme_eab_kid is Some {
        styled("configured (registration included)"@, Tone::Green)
    } else {
        styled("none"@, Tone::Grey)
    };
    seq![
        single(styled("Weaver Server Setup Plan"@, Tone::CyanBold)),
        seq![],
        single(styled("Domain & ACME"@, Tone::WhiteBold)),
        labelled("Root Domain:"@, styled(c.root_domain@, Tone::GreenBold)),
        labelled("Admin Email:"@, styled(c.admin_email@, Tone::White)),
        labelled("Provider:"@, styled(c.acme_provider@, Tone::Yellow)),
    ] + directory + seq![
        labelled("EAB Account:"@, eab),
        seq![],
        single(styled("Host & Services"@, Tone::WhiteBold)),
        labelled(
            "Binary Path:"@,
            styled(text::in_directory(c.prefix@, "weaver-server"@), Tone::Plain),
        ),
        labelled("Database:"@, styled(c.db_path@, Tone::Plain)),
        labelled("System User:"@, styled(c.user@ + ":"@ + c.user@, Tone::Plain)),
        labelled("Sockets:"@, styled("[::]:80, [::]:443"@, Tone::Plain)),
        labelled(
            "Systemd Units:"@,
            styled("weaver-server.socket, weaver-server.service"@, Tone::Plain),
        ),
        seq![],
    ]
}

/// The lines that show the plan before it is confirmed.
pub fn plan_lines(c: &GatheredConfig) -> (v: Vec<Vec<Span>>)
    ensures
        lines_of(v@) == plan_view(*c),
{
    let binary = text::join_path(c.prefix.as_str(), "weaver-server");
    let owner = text::cat3(c.user.as_str(), ":", c.user.as_str());
    let mut v: Vec<Vec<Span>> = Vec::new();
    v.push(single_line(span("Weaver Server Setup Plan", Tone::CyanBold)));
    v.push(Vec::new());
    v.push(single_line(span("Domain & ACME", Tone::WhiteBold)));
    v.push(labelled_line("Root Domain:", span(c.root_domain.as_str(), Tone::GreenBold)));
    v.push(labelled_line("Admin Email:", span(c.admin_email.as_str(), Tone::White)));
    v.push(labelled_line("Provider:", span(c.acme_provider.as_str(), Tone::Yellow)));
    if let Some(d) = &c.acme_directory {
        v.push(labelled_line("Directory:", span(d.as_str(), Tone::DarkCyan)));
    }
    let eab = if c.acme_eab_kid.is_some() {
        span("configured (registration included)", Tone::Green)
    } else {
        span("none", Tone::Grey)
    };
    v.push(labelled_line("EAB Account:", eab));
    v.push(Vec::new());
    v.push(single_line(span("Host & Services", Tone::WhiteBold)));
    v.push(labelled_line("Binary Path:", span(binary.as_str(), Tone::Plain)));
    v.push(labelled_line("Database:", span(c.db_path.as_str(), Tone::Plain)));
    v.push(labelled_line("System User:", span(owner.as_str(), Tone::Plain)));
    v.push(labelled_line("Sockets:", span("[::]:80, [::]:443", Tone::Plain)));
    v.push(
        labelled_line(
            "Systemd Units:",
            span("weaver-server.socket, weaver-server.service", Tone::Plain),
        ),
    );
    v.push(Vec::new());
    proof {
        assert(row_of(Seq::<Span>::empty()) =~= Seq::<SpanFacts>::empty());
        assert(lines_of(v@) =~= plan_view(*c));
    }
    v
}

/// Whether a shown plan is carried out: without asking in headless mode, else
/// where the answer means yes.
pub fn plan_confirmed(is_headless: bool, answer: Option<&str>) -> (r: bool)
    ensures
        r == (is_headless || (answer matches Some(a) && is_yes(a@))),
{
    if is_headless {
        return true;
    }
    match answer {
        Some(a) => says_yes(a),
        None => false,
    }
}

} // verus!
