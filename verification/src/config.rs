//! Server configuration: which values are required, and which are valid.
use crate::json;
use crate::json::{JsonDocument, JsonKind};
use crate::net::SocketAddress;
use crate::text;
use vstd::prelude::*;

verus! {

/// Configuration errors during loading or validation.
#[derive(Debug, PartialEq, Eq)]
pub enum ConfigError {
    /// Required configuration keys are missing.
    MissingKeys(Vec<String>),
    /// Configuration values failed validation constraints.
    ValidationFailed(Vec<String>),
    /// Failed to deserialize configuration JSON.
    DeserializationFailed(String),
    /// Store or database error occurred while loading configuration.
    Store(String),
}

/// What an error says, as text.
pub enum ConfigProblem {
    MissingKeys(Seq<Seq<char>>),
    ValidationFailed(Seq<Seq<char>>),
    DeserializationFailed(Seq<char>),
    Store(Seq<char>),
}

impl View for ConfigError {
    type V = ConfigProblem;

    open spec fn view(&self) -> ConfigProblem {
        match *self {
            ConfigError::MissingKeys(v) => ConfigProblem::MissingKeys(text::texts(v@)),
            ConfigError::ValidationFailed(v) => ConfigProblem::ValidationFailed(text::texts(v@)),
            ConfigError::DeserializationFailed(s) => ConfigProblem::DeserializationFailed(s@),
            ConfigError::Store(s) => ConfigProblem::Store(s@),
        }
    }
}

/// Server configuration representing operational parameters and ACME provisioning settings.
#[derive(Debug, Clone, PartialEq, Eq)]
pub struct Config {
    /// Base domain for routed public tunnels (e.g. "example.com").
    pub root_domain: String,
    /// Administrator contact email for ACME registration.
    pub admin_email: String,
    /// ACME directory provider (e.g. "letsencrypt", "letsencrypt-staging", "google", "zerossl", "buypass", "custom").
    pub acme_provider: String,
    /// HTTP listen socket address for cleartext traffic and ACME http-01 challenge solving.
    pub listen_http: SocketAddress,
    /// HTTPS listen socket address for TLS termination.
    pub listen_https: SocketAddress,
    /// Filesystem path for the UNIX domain control socket.
    pub control_socket: String,
    /// Custom ACME directory URL (required when acme_provider is "custom").
    pub acme_directory: Option<String>,
    /// External Account Binding Key Identifier (required for Google Trust Services and ZeroSSL).
    pub acme_eab_kid: Option<String>,
    /// External Account Binding HMAC key.
    pub acme_eab_hmac: Option<String>,
    /// Optional PEM-encoded custom Root CA certificate for private ACME directories (e.g. Pebble/StepCA).
    pub acme_root_ca_pem: Option<String>,
    /// Ordered fallback ACME providers if primary provider fails.
    pub acme_fallback_providers: Vec<String>,
}

/// The keys that a configuration must have.
pub open spec fn required_keys() -> Seq<Seq<char>> {
    seq![
        "root_domain"@,
        "admin_email"@,
        "acme_provider"@,
        "listen_http"@,
        "listen_https"@,
        "control_socket"@,
    ]
}

/// A key that is absent or null.
pub open spec fn is_missing(doc: json::DocumentFacts, key: Seq<char>) -> bool {
    match doc.member(key) {
        None => true,
        Some(k) => k is Null,
    }
}

/// The keys that a document lacks, in the order of the list.
pub open spec fn missing_keys(doc: json::DocumentFacts, keys: Seq<Seq<char>>) -> Seq<Seq<char>> {
    keys.filter(|k: Seq<char>| is_missing(doc, k))
}

/// Why a stored configuration is refused before its values are read.
pub open spec fn shape_problem(stored: Option<Result<json::DocumentFacts, Seq<char>>>) -> Option<
    ConfigProblem,
> {
    match stored {
        None => Some(ConfigProblem::MissingKeys(required_keys())),
        Some(Err(e)) => Some(ConfigProblem::DeserializationFailed(e)),
        Some(Ok(doc)) => if doc is Other {
            Some(ConfigProblem::DeserializationFailed("root JSON is not an object"@))
        } else if missing_keys(doc, required_keys()).len() > 0 {
            Some(ConfigProblem::MissingKeys(missing_keys(doc, required_keys())))
        } else {
            None
        },
    }
}

/// The keys that a configuration must have.
pub fn required_key_list() -> (v: Vec<String>)
    ensures
        text::texts(v@) == required_keys(),
{
    let mut v: Vec<String> = Vec::new();
    v.push("root_domain".to_owned());
    v.push("admin_email".to_owned());
    v.push("acme_provider".to_owned());
    v.push("listen_http".to_owned());
    v.push("listen_https".to_owned());
    v.push("control_socket".to_owned());
    assert(text::texts(v@) =~= required_keys());
    v
}

/// Whether a key is absent or null.
fn missing(doc: &JsonDocument, key: &str) -> (r: bool)
    ensures
        r == is_missing(doc@, key@),
{
    match doc.member(key) {
        None => true,
        Some(JsonKind::Null) => true,
        Some(_) => false,
    }
}

/// Checks that a document is an object that has every required key.
pub fn check_document(doc: &JsonDocument) -> (r: Option<ConfigError>)
    ensures
        (match r {
            Some(e) => Some(e@),
            None => None,
        }) == shape_problem(Some(Ok(doc@))),
{
    if let JsonDocument::Other = doc {
        return Some(
            ConfigError::DeserializationFailed("root JSON is not an object".to_owned()),
        );
    }
    let keys = required_key_list();
    let ghost all = text::texts(keys@);
    let ghost lacks = |k: Seq<char>| is_missing(doc@, k);
    let mut found: Vec<String> = Vec::new();
    let mut i: usize = 0;
    assert(all.take(0).filter(lacks) == Seq::<Seq<char>>::empty()) by {
        reveal(Seq::filter);
    }
    while i < keys.len()
        invariant
            i <= keys@.len(),
            all == text::texts(keys@),
            lacks == (|k: Seq<char>| is_missing(doc@, k)),
            text::texts(found@) == all.take(i as int).filter(lacks),
        decreases keys@.len() - i,
    {
        let ghost done = text::texts(found@);
        proof {
            reveal(Seq::filter);
            assert(all.take(i + 1).drop_last() == all.take(i as int));
            assert(all.take(i + 1).last() == keys@[i as int]@);
        }
        if missing(doc, keys[i].as_str()) {
            found.push(keys[i].clone());
            assert(text::texts(found@) == done.push(keys@[i as int]@));
        }
        i += 1;
    }
    assert(all.take(all.len() as int) == all);
    assert(text::texts(found@) == missing_keys(doc@, required_keys()));
    if found.len() > 0 {
        Some(ConfigError::MissingKeys(found))
    } else {
        None
    }
}

/// Checks the shape of the stored configuration: present, JSON, an object, and
/// with every required key.
pub fn check_stored(stored: Option<&str>) -> (r: Option<ConfigError>)
    ensures
        (match r {
            Some(e) => Some(e@),
            None => None,
        }) == shape_problem(
            match stored {
                Some(s) => Some(json::parsed_json(s@)),
                None => None,
            },
        ),
{
    match stored {
        None => Some(ConfigError::MissingKeys(required_key_list())),
        Some(s) => match json::parse_json(s) {
            Err(e) => Some(ConfigError::DeserializationFailed(e)),
            Ok(doc) => check_document(&doc),
        },
    }
}

/// A value that is absent or blank.
pub open spec fn is_blank(o: Option<String>) -> bool {
    match o {
        Some(s) => text::trimmed(s@).len() == 0,
        None => true,
    }
}

/// Whether a value is absent or blank.
fn blank(o: &Option<String>) -> (r: bool)
    ensures
        r == is_blank(*o),
{
    match o {
        Some(s) => {
            let t = text::trim(s.as_str());
            text::chars_of(t).len() == 0
        },
        None => true,
    }
}

impl Config {
    /// What is wrong with the values, in the order in which it is reported.
    pub open spec fn issues(&self) -> Seq<Seq<char>> {
        let email = text::trimmed(self.admin_email@);
        let provider = text::lower(self.acme_provider@);
        let domain_issue = if text::trimmed(self.root_domain@).len() == 0 {
            seq!["root_domain must not be empty"@]
        } else {
            seq![]
        };
        let email_issue = if !text::has(email, "@"@) || !text::has(email, "."@) {
            seq!["admin_email '"@ + email + "' is not a valid email address"@]
        } else {
            seq![]
        };
        let kid_issue = if is_blank(self.acme_eab_kid) {
            seq!["acme_provider '"@ + provider + "' requires acme_eab_kid"@]
        } else {
            seq![]
        };
        let hmac_issue = if is_blank(self.acme_eab_hmac) {
            seq!["acme_provider '"@ + provider + "' requires acme_eab_hmac"@]
        } else {
            seq![]
        };
        let provider_issues = if provider == "google"@ || provider == "zerossl"@ {
            kid_issue + hmac_issue
        } else if provider == "custom"@ && is_blank(self.acme_directory) {
            seq!["acme_provider 'custom' requires acme_directory URL"@]
        } else {
            seq![]
        };
        domain_issue + email_issue + provider_issues
    }

    /// Checks the values. A provider's name is read in any case; of the names
    /// that are looked for none is the lower-case form of a text with
    /// characters beyond ASCII.
    pub fn validate(&self) -> (r: Result<(), ConfigError>)
        ensures
            match r {
                Ok(()) => self.issues().len() == 0,
                Err(e) => self.issues().len() > 0 && e@ == ConfigProblem::ValidationFailed(
                    self.issues(),
                ),
            },
    {
        let mut found: Vec<String> = Vec::new();
        if text::chars_of(text::trim(self.root_domain.as_str())).len() == 0 {
            found.push("root_domain must not be empty".to_owned());
        }
        let email = text::trim(self.admin_email.as_str());
        if !text::contains(email, "@") || !text::contains(email, ".") {
            let mut m = "admin_email '".to_owned();
            m.append(email);
            m.append("' is not a valid email address");
            found.push(m);
        }
        let provider = text::lowered(self.acme_provider.as_str());
        if text::same(provider.as_str(), "google") || text::same(provider.as_str(), "zerossl") {
            if blank(&self.acme_eab_kid) {
                let mut m = "acme_provider '".to_owned();
                m.append(provider.as_str());
                m.append("' requires acme_eab_kid");
                found.push(m);
            }
            if blank(&self.acme_eab_hmac) {
                let mut m = "acme_provider '".to_owned();
                m.append(provider.as_str());
                m.append("' requires acme_eab_hmac");
                found.push(m);
            }
        } else if text::same(provider.as_str(), "custom") && blank(&self.acme_directory) {
            found.push("acme_provider 'custom' requires acme_directory URL".to_owned());
        }
        assert(text::texts(found@) =~= self.issues());
        if found.len() > 0 {
            Err(ConfigError::ValidationFailed(found))
        } else {
            Ok(())
        }
    }
}

/// Texts with a separator between them.
pub open spec fn joined(v: Seq<Seq<char>>, separator: Seq<char>) -> Seq<char>
    decreases v.len(),
{
    if v.len() == 0 {
        Seq::empty()
    } else if v.len() == 1 {
        v[0]
    } else {
        joined(v.drop_last(), separator) + separator + v.last()
    }
}

/// Joins texts with a separator between them.
pub fn join(v: &Vec<String>, separator: &str) -> (r: String)
    ensures
        r@ == joined(text::texts(v@), separator@),
{
    let ghost all = text::texts(v@);
    let mut r = String::new();
    let mut i: usize = 0;
    while i < v.len()
        invariant
            i <= v@.len(),
            all == text::texts(v@),
            r@ == joined(all.take(i as int), separator@),
        decreases v@.len() - i,
    {
        if i > 0 {
            r.append(separator);
        }
        r.append(v[i].as_str());
        proof {
            let next = all.take(i + 1);
            assert(next.drop_last() == all.take(i as int));
            assert(next.last() == v@[i as int]@);
        }
        i += 1;
    }
    assert(all.take(all.len() as int) == all);
    r
}

impl ConfigProblem {
    /// The message of the error.
    pub open spec fn message(self) -> Seq<char> {
        match self {
            ConfigProblem::MissingKeys(v) => "Configuration missing required keys: "@ + joined(
                v,
                ", "@,
            ),
            ConfigProblem::ValidationFailed(v) => "Configuration validation failed: "@ + joined(
                v,
                "; "@,
            ),
            ConfigProblem::DeserializationFailed(s) => "Config deserialization failed: "@ + s,
            ConfigProblem::Store(s) => "Store error: "@ + s,
        }
    }
}

impl ConfigError {
    /// The message of the error.
    pub fn message(&self) -> (r: String)
        ensures
            r@ == self@.message(),
    {
        match self {
            ConfigError::MissingKeys(v) => {
                let mut m = "Configuration missing required keys: ".to_owned();
                let list = join(v, ", ");
                m.append(list.as_str());
                m
            },
            ConfigError::ValidationFailed(v) => {
                let mut m = "Configuration validation failed: ".to_owned();
                let list = join(v, "; ");
                m.append(list.as_str());
                m
            },
            ConfigError::DeserializationFailed(s) => {
                let mut m = "Config deserialization failed: ".to_owned();
                m.append(s.as_str());
                m
            },
            ConfigError::Store(s) => {
                let mut m = "Store error: ".to_owned();
                m.append(s.as_str());
                m
            },
        }
    }
}

/// A configuration that passes has a domain, a plausible e-mail address, and
/// what its provider demands.
pub proof fn valid_config_is_complete(c: Config)
    requires
        c.issues().len() == 0,
    ensures
        text::trimmed(c.root_domain@).len() > 0,
        text::has(text::trimmed(c.admin_email@), "@"@),
        text::has(text::trimmed(c.admin_email@), "."@),
        text::lower(c.acme_provider@) == "google"@ || text::lower(c.acme_provider@) == "zerossl"@
            ==> !is_blank(c.acme_eab_kid) && !is_blank(c.acme_eab_hmac),
        text::lower(c.acme_provider@) == "custom"@ ==> !is_blank(c.acme_directory),
{
    reveal_strlit("google");
    reveal_strlit("zerossl");
    reveal_strlit("custom");
    assert("custom"@ != "google"@) by {
        assert("custom"@[0] != "google"@[0]);
    }
    assert("custom"@ != "zerossl"@) by {
        assert("custom"@.len() != "zerossl"@.len());
    }
}

} // verus!
