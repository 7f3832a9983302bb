//! ACME issuance: which directories are tried, how upstream failures are
//! classified, how an order proceeds and which challenges it leaves behind.
use super::challenge::ChallengeRegistry;
use super::pem;
use super::providers;
use crate::config::Config;
use crate::number;
use crate::text;
use base64::Engine;
use vstd::prelude::*;

verus! {

/// Errors returned by the ACME issuance workflow.
#[derive(Debug)]
pub enum AcmeError {
    /// Upstream CA rejected request due to rate limits.
    RateLimited { detail: String, retry_after_secs: Option<u64> },
    /// Upstream CA server error (HTTP 5xx).
    ServerError { status: Option<u16>, detail: String },
    /// All primary and fallback directories failed.
    AllProvidersFailed(String),
    /// Other failure during ordering, cryptographic operations, or validation.
    Other(String),
}

/// An issuance error with its text.
pub enum AcmeProblem {
    RateLimited { detail: Seq<char>, retry_after_secs: Option<u64> },
    ServerError { status: Option<u16>, detail: Seq<char> },
    AllProvidersFailed(Seq<char>),
    Other(Seq<char>),
}

impl View for AcmeError {
    type V = AcmeProblem;

    open spec fn view(&self) -> AcmeProblem {
        match *self {
            AcmeError::RateLimited { detail, retry_after_secs } => AcmeProblem::RateLimited {
                detail: detail@,
                retry_after_secs,
            },
            AcmeError::ServerError { status, detail } => AcmeProblem::ServerError {
                status,
                detail: detail@,
            },
            AcmeError::AllProvidersFailed(s) => AcmeProblem::AllProvidersFailed(s@),
            AcmeError::Other(s) => AcmeProblem::Other(s@),
        }
    }
}

/// An optional number as `{:?}` writes it.
pub open spec fn debug_number(n: Option<nat>) -> Seq<char> {
    match n {
        Some(n) => "Some("@ + number::decimal(n) + ")"@,
        None => "None"@,
    }
}

/// An optional number as `{:?}` writes it.
pub fn debug_optional(n: Option<u64>) -> (r: String)
    ensures
        r@ == debug_number(
            match n {
                Some(n) => Some(n as nat),
                None => None,
            },
        ),
{
    match n {
        Some(n) => {
            let digits = number::decimal_of(n);
            text::cat3("Some(", digits.as_str(), ")")
        },
        None => "None".to_owned(),
    }
}

impl AcmeProblem {
    /// The message of the error.
    pub open spec fn message(self) -> Seq<char> {
        match self {
            AcmeProblem::RateLimited { detail, retry_after_secs } => "ACME rate limited: "@ + detail
                + " (retry after "@ + debug_number(
                match retry_after_secs {
                    Some(n) => Some(n as nat),
                    None => None,
                },
            ) + "s)"@,
            AcmeProblem::ServerError { status, detail } => "ACME server error ("@ + debug_number(
                match status {
                    Some(n) => Some(n as nat),
                    None => None,
                },
            ) + "): "@ + detail,
            AcmeProblem::AllProvidersFailed(s) => "All ACME providers failed. Last error: "@ + s,
            AcmeProblem::Other(s) => "ACME failure: "@ + s,
        }
    }

    /// Another directory may succeed where this one failed.
    pub open spec fn is_retryable(self) -> bool {
        self is RateLimited || self is ServerError
    }

    /// The delay that the CA asked for.
    pub open spec fn retry_after(self) -> Option<u64> {
        match self {
            AcmeProblem::RateLimited { retry_after_secs, .. } => retry_after_secs,
            _ => None,
        }
    }
}

impl Clone for AcmeError {
    fn clone(&self) -> (r: Self)
        ensures
            r == *self,
    {
        match self {
            AcmeError::RateLimited { detail, retry_after_secs } => AcmeError::RateLimited {
                detail: detail.clone(),
                retry_after_secs: *retry_after_secs,
            },
            AcmeError::ServerError { status, detail } => AcmeError::ServerError {
                status: *status,
                detail: detail.clone(),
            },
            AcmeError::AllProvidersFailed(s) => AcmeError::AllProvidersFailed(s.clone()),
            AcmeError::Other(s) => AcmeError::Other(s.clone()),
        }
    }
}

impl AcmeError {
    /// Returns true if this error indicates rate limiting.
    pub fn is_rate_limited(&self) -> (r: bool)
        ensures
            r == self@ is RateLimited,
    {
        match self {
            AcmeError::RateLimited { .. } => true,
            _ => false,
        }
    }

    /// Returns true if this error indicates an upstream server failure.
    pub fn is_server_error(&self) -> (r: bool)
        ensures
            r == self@ is ServerError,
    {
        match self {
            AcmeError::ServerError { .. } => true,
            _ => false,
        }
    }

    /// The delay that the CA asked for.
    pub fn retry_after_secs(&self) -> (r: Option<u64>)
        ensures
            r == self@.retry_after(),
    {
        match self {
            AcmeError::RateLimited { retry_after_secs, .. } => *retry_after_secs,
            _ => None,
        }
    }

    /// The message of the error.
    pub fn message(&self) -> (r: String)
        ensures
            r@ == self@.message(),
    {
        match self {
            AcmeError::RateLimited { detail, retry_after_secs } => {
                let after = debug_optional(*retry_after_secs);
                text::cat5(
                    "ACME rate limited: ",
                    detail.as_str(),
                    " (retry after ",
                    after.as_str(),
                    "s)",
                )
            },
            AcmeError::ServerError { status, detail } => {
                let wide: Option<u64> = match status {
                    Some(s) => Some(*s as u64),
                    None => None,
                };
                let code = debug_optional(wide);
                text::cat4("ACME server error (", code.as_str(), "): ", detail.as_str())
            },
            AcmeError::AllProvidersFailed(s) => text::cat2(
                "All ACME providers failed. Last error: ",
                s.as_str(),
            ),
            AcmeError::Other(s) => text::cat2("ACME failure: ", s.as_str()),
        }
    }
}

/// A failure that the ACME client reports: a problem document of the server,
/// or anything else by its message.
#[derive(Debug)]
pub enum UpstreamError {
    Problem { kind: Option<String>, detail: Option<String>, status: Option<u16> },
    Other(String),
}

/// The problem type names a rate limit.
pub open spec fn names_rate_limit(kind: Option<String>) -> bool {
    kind matches Some(k) && (text::has(k@, "rateLimited"@) || text::has(k@, "rate-limit"@))
}

/// How an upstream failure is classified: status 429 or a rate-limit type is a
/// rate limit, any other status from 500 on a server error.
pub open spec fn classified(e: UpstreamError) -> AcmeProblem {
    match e {
        UpstreamError::Other(s) => AcmeProblem::Other(s@),
        UpstreamError::Problem { kind, detail, status } => {
            let text = match detail {
                Some(d) => d@,
                None => "ACME error"@,
            };
            if status == Some(429u16) || names_rate_limit(kind) {
                AcmeProblem::RateLimited { detail: text, retry_after_secs: None }
            } else if status matches Some(s) && s >= 500 {
                AcmeProblem::ServerError { status, detail: text }
            } else {
                AcmeProblem::Other(
                    "API error ("@ + debug_number(
                        match status {
                            Some(n) => Some(n as nat),
                            None => None,
                        },
                    ) + "): "@ + text,
                )
            }
        },
    }
}

/// Converts an upstream failure into an `AcmeError`, classifying rate limits and server errors.
pub fn map_instant_acme_error(err: UpstreamError) -> (r: AcmeError)
    ensures
        r@ == classified(err),
{
    match err {
        UpstreamError::Other(s) => AcmeError::Other(s),
        UpstreamError::Problem { kind, detail, status } => {
            let text = match detail {
                Some(d) => d,
                None => "ACME error".to_owned(),
            };
            let too_many = match status {
                Some(s) => s == 429,
                None => false,
            };
            let named = match &kind {
                Some(k) => text::contains(k.as_str(), "rateLimited") || text::contains(
                    k.as_str(),
                    "rate-limit",
                ),
                None => false,
            };
            let failing = match status {
                Some(s) => s >= 500,
                None => false,
            };
            if too_many || named {
                AcmeError::RateLimited { detail: text, retry_after_secs: None }
            } else if failing {
                AcmeError::ServerError { status, detail: text }
            } else {
                let wide: Option<u64> = match status {
                    Some(s) => Some(s as u64),
                    None => None,
                };
                let code = debug_optional(wide);
                AcmeError::Other(text::cat4("API error (", code.as_str(), "): ", text.as_str()))
            }
        },
    }
}

/// An issued certificate chain and its matching private key.
#[derive(Debug)]
pub struct IssuedCertificate {
    pub name: String,
    pub cert_pem: String,
    pub key_pem: String,
    pub not_before: i64,
    pub not_after: i64,
    pub directory: String,
}

/// The providers and directories of a list.
pub open spec fn pairs(v: Seq<(String, String)>) -> Seq<(Seq<char>, Seq<char>)> {
    v.map_values(|p: (String, String)| (p.0@, p.1@))
}

/// A directory stands in the list.
pub open spec fn lists_url(list: Seq<(Seq<char>, Seq<char>)>, url: Seq<char>) -> bool {
    exists|i: int| 0 <= i < list.len() && (#[trigger] list[i]).1 == url
}

/// The list with the directory of a provider behind it, unless it has none or
/// it is listed.
pub open spec fn with_fallback(list: Seq<(Seq<char>, Seq<char>)>, id: Seq<char>) -> Seq<
    (Seq<char>, Seq<char>),
> {
    match providers::directory_of(id, None) {
        Some(url) => if lists_url(list, url) {
            list
        } else {
            list.push((id, url))
        },
        None => list,
    }
}

/// The list with the directories of the fallback providers behind it.
pub open spec fn with_fallbacks(
    list: Seq<(Seq<char>, Seq<char>)>,
    ids: Seq<Seq<char>>,
) -> Seq<(Seq<char>, Seq<char>)>
    decreases ids.len(),
{
    if ids.len() == 0 {
        list
    } else {
        with_fallback(with_fallbacks(list, ids.drop_last()), ids.last())
    }
}

/// The directories to try: that of the primary provider first, then those of
/// the fallback providers, each once.
pub open spec fn directory_list(c: Config) -> Seq<(Seq<char>, Seq<char>)> {
    let primary = match providers::directory_of(c.acme_provider@, text::opt(c.acme_directory)) {
        Some(url) => seq![(c.acme_provider@, url)],
        None => seq![],
    };
    with_fallbacks(primary, text::texts(c.acme_fallback_providers@))
}

/// What External Account Binding needs: the key identifier and the HMAC key.
#[derive(Debug)]
pub struct EabKey {
    pub kid: String,
    pub hmac: Vec<u8>,
}

/// What `base64` decodes a text to with the URL-safe alphabet, unpadded.
pub uninterp spec fn base64_url_unpadded(s: Seq<char>) -> Result<Seq<u8>, Seq<char>>;

/// What `base64` decodes a text to with the standard alphabet, padded.
pub uninterp spec fn base64_standard(s: Seq<char>) -> Result<Seq<u8>, Seq<char>>;

/// What `base64` decodes a text to with the URL-safe alphabet, padded.
pub uninterp spec fn base64_url(s: Seq<char>) -> Result<Seq<u8>, Seq<char>>;

/// The views of a decoding.
pub open spec fn decoding(r: Result<Vec<u8>, String>) -> Result<Seq<u8>, Seq<char>> {
    match r {
        Ok(b) => Ok(b@),
        Err(e) => Err(e@),
    }
}

/// Calls `decode` of `base64::engine::general_purpose::URL_SAFE_NO_PAD`; the
/// bytes, or the error's text, are determined by the input.
#[verifier::external_body]
fn decode_url_unpadded(s: &str) -> (r: Result<Vec<u8>, String>)
    ensures
        decoding(r) == base64_url_unpadded(s@),
{
    base64::engine::general_purpose::URL_SAFE_NO_PAD.decode(s).map_err(|e| e.to_string())
}

/// Calls `decode` of `base64::engine::general_purpose::STANDARD`; the bytes, or
/// the error's text, are determined by the input.
#[verifier::external_body]
fn decode_standard(s: &str) -> (r: Result<Vec<u8>, String>)
    ensures
        decoding(r) == base64_standard(s@),
{
    base64::engine::general_purpose::STANDARD.decode(s).map_err(|e| e.to_string())
}

/// Calls `decode` of `base64::engine::general_purpose::URL_SAFE`; the bytes, or
/// the error's text, are determined by the input.
#[verifier::external_body]
fn decode_url(s: &str) -> (r: Result<Vec<u8>, String>)
    ensures
        decoding(r) == base64_url(s@),
{
    base64::engine::general_purpose::URL_SAFE.decode(s).map_err(|e| e.to_string())
}

/// The first decoding that succeeded, or the last failure.
pub open spec fn first_success(
    a: Result<Seq<u8>, Seq<char>>,
    b: Result<Seq<u8>, Seq<char>>,
    c: Result<Seq<u8>, Seq<char>>,
) -> Result<Seq<u8>, Seq<char>> {
    if a is Ok {
        a
    } else if b is Ok {
        b
    } else {
        c
    }
}

/// Picks the first decoding that succeeded, or the last failure.
pub fn first_decoded(
    a: Result<Vec<u8>, String>,
    b: Result<Vec<u8>, String>,
    c: Result<Vec<u8>, String>,
) -> (r: Result<Vec<u8>, String>)
    ensures
        decoding(r) == first_success(decoding(a), decoding(b), decoding(c)),
{
    match a {
        Ok(v) => Ok(v),
        Err(_) => match b {
            Ok(v) => Ok(v),
            Err(_) => c,
        },
    }
}

/// What is bound to a new account: the configured key, if both of its parts
/// are given; without them, nothing, unless the provider mandates it.
pub open spec fn eab_binding(
    provider_id: Seq<char>,
    kid: Option<Seq<char>>,
    hmac: Option<Seq<char>>,
    decoded: Result<Seq<u8>, Seq<char>>,
) -> Result<Option<(Seq<char>, Seq<u8>)>, AcmeProblem> {
    if kid is Some && hmac is Some {
        match decoded {
            Ok(b) => Ok(Some((kid->0, b))),
            Err(e) => Err(AcmeProblem::Other("Invalid base64 in acme_eab_hmac: "@ + e)),
        }
    } else if providers::needs_eab(provider_id) {
        Err(
            AcmeProblem::Other(
                "Provider '"@ + provider_id
                    + "' mandates EAB, but acme_eab_kid/acme_eab_hmac are unset"@,
            ),
        )
    } else {
        Ok(None)
    }
}

/// The views of a binding.
pub open spec fn binding(r: Result<Option<EabKey>, AcmeError>) -> Result<
    Option<(Seq<char>, Seq<u8>)>,
    AcmeProblem,
> {
    match r {
        Ok(Some(k)) => Ok(Some((k.kid@, k.hmac@))),
        Ok(None) => Ok(None),
        Err(e) => Err(e@),
    }
}

/// How the account of a directory is obtained.
#[derive(Debug, Clone, Copy, PartialEq, Eq, Structural)]
pub enum AccountStep {
    /// Restore it from the stored credentials.
    Restore,
    /// The restored account is used.
    UseRestored,
    /// Register a new account.
    Create,
}

/// ACME protocol client engine.
pub struct AcmeEngine {
    pub config: Config,
}

impl AcmeEngine {
    /// Creates a new ACME engine instance.
    pub fn new(config: Config) -> (r: Self)
        ensures
            r.config == config,
    {
        AcmeEngine { config }
    }

    /// Resolves the list of ACME directories to try: primary provider first, then fallbacks.
    pub fn resolve_directory_list(&self) -> (list: Vec<(String, String)>)
        ensures
            pairs(list@) == directory_list(self.config),
    {
        let mut list: Vec<(String, String)> = Vec::new();
        let custom: Option<&str> = match &self.config.acme_directory {
            Some(d) => Some(d.as_str()),
            None => None,
        };
        if let Some(url) = providers::resolve_directory_url(
            self.config.acme_provider.as_str(),
            custom,
        ) {
            list.push((self.config.acme_provider.clone(), url));
        }
        let ghost primary = pairs(list@);
        let ghost ids = text::texts(self.config.acme_fallback_providers@);
        assert(primary =~= (match providers::directory_of(
            self.config.acme_provider@,
            text::opt(self.config.acme_directory),
        ) {
            Some(url) => seq![(self.config.acme_provider@, url)],
            None => seq![],
        }));
        let mut i: usize = 0;
        while i < self.config.acme_fallback_providers.len()
            invariant
                i <= self.config.acme_fallback_providers@.len(),
                ids == text::texts(self.config.acme_fallback_providers@),
                pairs(list@) == with_fallbacks(primary, ids.take(i as int)),
            decreases self.config.acme_fallback_providers@.len() - i,
        {
            let fallback = self.config.acme_fallback_providers[i].as_str();
            let ghost done = pairs(list@);
            assert(ids.take(i + 1).drop_last() == ids.take(i as int));
            assert(ids.take(i + 1).last() == fallback@);
            if let Some(url) = providers::resolve_directory_url(fallback, None) {
                let mut listed: bool = false;
                let mut j: usize = 0;
                while j < list.len()
                    invariant
                        j <= list@.len(),
                        done == pairs(list@),
                        listed == exists|k: int|
                            0 <= k < j && (#[trigger] done[k]).1 == url@,
                    decreases list@.len() - j,
                {
                    if text::same(list[j].1.as_str(), url.as_str()) {
                        assert(done[j as int].1 == url@);
                        listed = true;
                    }
                    j += 1;
                }
                assert(listed == lists_url(done, url@));
                if !listed {
                    list.push((fallback.to_owned(), url));
                    assert(pairs(list@) =~= done.push((fallback@, url@)));
                }
            }
            i += 1;
        }
        assert(ids.take(ids.len() as int) == ids);
        list
    }

    /// How the account of a directory is obtained: credentials that can be
    /// read are restored, and where there are none, or restoring fails, a new
    /// account is registered.
    pub fn account_step(readable_credentials: bool, restored: Option<bool>) -> (r: AccountStep)
        ensures
            r == (if !readable_credentials || restored == Some(false) {
                AccountStep::Create
            } else if restored == Some(true) {
                AccountStep::UseRestored
            } else {
                AccountStep::Restore
            }),
    {
        if !readable_credentials {
            AccountStep::Create
        } else {
            match restored {
                None => AccountStep::Restore,
                Some(true) => AccountStep::UseRestored,
                Some(false) => AccountStep::Create,
            }
        }
    }

    /// The contact that a new account is registered with.
    pub fn contact(&self) -> (r: String)
        ensures
            r@ == "mailto:"@ + self.config.admin_email@,
    {
        text::cat2("mailto:", self.config.admin_email.as_str())
    }

    /// Binds an account to the decoded key, if keys are provided or required.
    pub fn bind_eab(&self, provider_id: &str, decoded: Result<Vec<u8>, String>) -> (r: Result<
        Option<EabKey>,
        AcmeError,
    >)
        ensures
            binding(r) == eab_binding(
                provider_id@,
                text::opt(self.config.acme_eab_kid),
                text::opt(self.config.acme_eab_hmac),
                decoding(decoded),
            ),
    {
        match (&self.config.acme_eab_kid, &self.config.acme_eab_hmac) {
            (Some(kid), Some(_)) => match decoded {
                Ok(hmac) => Ok(Some(EabKey { kid: kid.clone(), hmac })),
                Err(e) => Err(
                    AcmeError::Other(text::cat2("Invalid base64 in acme_eab_hmac: ", e.as_str())),
                ),
            },
            _ => if providers::requires_eab(provider_id) {
                Err(
                    AcmeError::Other(
                        text::cat3(
                            "Provider '",
                            provider_id,
                            "' mandates EAB, but acme_eab_kid/acme_eab_hmac are unset",
                        ),
                    ),
                )
            } else {
                Ok(None)
            },
        }
    }

    /// Prepares External Account Binding if keys are provided or required. The
    /// HMAC key may be in base64url or base64, padded or not.
    pub fn prepare_eab(&self, provider_id: &str) -> (r: Result<Option<EabKey>, AcmeError>)
        ensures
            ({
                let hmac = match self.config.acme_eab_hmac {
                    Some(h) => h@,
                    None => ""@,
                };
                binding(r) == eab_binding(
                    provider_id@,
                    text::opt(self.config.acme_eab_kid),
                    text::opt(self.config.acme_eab_hmac),
                    first_success(
                        base64_url_unpadded(hmac),
                        base64_standard(hmac),
                        base64_url(hmac),
                    ),
                )
            }),
    {
        let hmac: &str = match &self.config.acme_eab_hmac {
            Some(h) => h.as_str(),
            None => "",
        };
        let decoded = first_decoded(
            decode_url_unpadded(hmac),
            decode_standard(hmac),
            decode_url(hmac),
        );
        self.bind_eab(provider_id, decoded)
    }
}

/// No directory is listed twice.
pub open spec fn urls_distinct(list: Seq<(Seq<char>, Seq<char>)>) -> bool {
    forall|i: int, j: int|
        0 <= i < j < list.len() ==> (#[trigger] list[i]).1 != (#[trigger] list[j]).1
}

proof fn fallbacks_extend(list: Seq<(Seq<char>, Seq<char>)>, ids: Seq<Seq<char>>)
    requires
        urls_distinct(list),
    ensures
        urls_distinct(with_fallbacks(list, ids)),
        list.is_prefix_of(with_fallbacks(list, ids)),
    decreases ids.len(),
{
    if ids.len() > 0 {
        fallbacks_extend(list, ids.drop_last());
        let before = with_fallbacks(list, ids.drop_last());
        let after = with_fallbacks(list, ids);
        assert(before.is_prefix_of(after));
        assert(after.take(list.len() as int) =~= before.take(list.len() as int));
        assert forall|i: int, j: int| 0 <= i < j < after.len() implies (#[trigger] after[i]).1 != (
        #[trigger] after[j]).1 by {
            assert(after[i] == before[i]);
            if j < before.len() {
                assert(after[j] == before[j]);
            }
        }
    } else {
        assert(list.take(list.len() as int) == list);
    }
}

/// The primary directory is tried first, and no directory twice.
pub proof fn primary_is_first(c: Config)
    ensures
        urls_distinct(directory_list(c)),
        providers::directory_of(c.acme_provider@, text::opt(c.acme_directory)) matches Some(url)
            ==> directory_list(c).len() > 0 && directory_list(c)[0] == (c.acme_provider@, url),
{
    let primary = match providers::directory_of(c.acme_provider@, text::opt(c.acme_directory)) {
        Some(url) => seq![(c.acme_provider@, url)],
        None => seq![],
    };
    let ids = text::texts(c.acme_fallback_providers@);
    fallbacks_extend(primary, ids);
    if primary.len() > 0 {
        assert(with_fallbacks(primary, ids)[0] == primary[0]);
    }
}

/// An attempt to issue a certificate, directory by directory.
pub struct Failover {
    directories: Vec<(String, String)>,
    at: usize,
}

/// What follows an attempt against a directory.
#[derive(Debug)]
pub enum FailoverStep {
    /// The certificate was issued.
    Issued(IssuedCertificate),
    /// The next directory is tried.
    TryNext,
    /// The attempt failed for good.
    Failed(AcmeError),
}

/// What follows an attempt, as text.
pub enum FailoverFacts {
    Issued,
    TryNext,
    Failed(AcmeProblem),
}

/// What follows an attempt against the directory at a place among so many, which
/// failed with an error or issued the certificate.
pub open spec fn after_attempt(
    count: int,
    place: int,
    error: Option<AcmeProblem>,
) -> FailoverFacts {
    match error {
        None => FailoverFacts::Issued,
        Some(e) => if !e.is_retryable() {
            FailoverFacts::Failed(e)
        } else if place + 1 < count {
            FailoverFacts::TryNext
        } else {
            FailoverFacts::Failed(AcmeProblem::AllProvidersFailed(e.message()))
        },
    }
}

/// What attempts against directory after directory come to, from a place on, if
/// they fail in this way; and how many directories are tried.
pub open spec fn after_failures(count: int, place: int, errors: Seq<AcmeProblem>) -> (
    FailoverFacts,
    int,
)
    decreases errors.len(),
{
    if errors.len() == 0 {
        (FailoverFacts::TryNext, place)
    } else {
        match after_attempt(count, place, Some(errors[0])) {
            FailoverFacts::TryNext => after_failures(
                count,
                place + 1,
                errors.subrange(1, errors.len() as int),
            ),
            end => (end, place + 1),
        }
    }
}

/// Where every directory is rate limited or has a server error, each of them is
/// tried once, in order, and the attempt fails with the last error.
pub proof fn all_directories_are_tried(count: int, place: int, errors: Seq<AcmeProblem>)
    requires
        0 <= place < count,
        errors.len() == count - place,
        forall|i: int| 0 <= i < errors.len() ==> (#[trigger] errors[i]).is_retryable(),
    ensures
        after_failures(count, place, errors) == (
            FailoverFacts::Failed(AcmeProblem::AllProvidersFailed(errors.last().message())),
            count,
        ),
    decreases errors.len(),
{
    assert(errors[0].is_retryable());
    if place + 1 < count {
        let rest = errors.subrange(1, errors.len() as int);
        assert forall|i: int| 0 <= i < rest.len() implies (#[trigger] rest[i]).is_retryable() by {
            assert(rest[i] == errors[i + 1]);
        }
        all_directories_are_tried(count, place + 1, rest);
        assert(rest.last() == errors.last());
    }
}

impl FailoverStep {
    /// What follows, as text.
    pub open spec fn facts(self) -> FailoverFacts {
        match self {
            FailoverStep::Issued(_) => FailoverFacts::Issued,
            FailoverStep::TryNext => FailoverFacts::TryNext,
            FailoverStep::Failed(e) => FailoverFacts::Failed(e@),
        }
    }
}

impl Failover {
    /// A directory is under trial.
    pub closed spec fn wf(&self) -> bool {
        self.at < self.directories@.len()
    }

    /// The directories in order.
    pub closed spec fn list(&self) -> Seq<(Seq<char>, Seq<char>)> {
        pairs(self.directories@)
    }

    /// The place of the directory under trial.
    pub closed spec fn place(&self) -> int {
        self.at as int
    }

    /// Starts with the first directory; without one there is nothing to try.
    pub fn start(directories: Vec<(String, String)>) -> (r: Result<Self, AcmeError>)
        ensures
            match r {
                Ok(f) => f.wf() && f.list() == pairs(directories@) && f.place() == 0,
                Err(e) => directories@.len() == 0 && e@ == AcmeProblem::Other(
                    "No ACME directories available"@,
                ),
            },
            r is Ok == (directories@.len() > 0),
    {
        if directories.len() == 0 {
            Err(AcmeError::Other("No ACME directories available".to_owned()))
        } else {
            Ok(Failover { directories, at: 0 })
        }
    }

    /// The provider and the directory under trial.
    pub fn current(&self) -> (r: (&str, &str))
        requires
            self.wf(),
        ensures
            (r.0@, r.1@) == self.list()[self.place()],
    {
        let entry = &self.directories[self.at];
        (entry.0.as_str(), entry.1.as_str())
    }

    /// Decides what follows the outcome of the directory under trial: rate
    /// limits and server errors fail over while a directory is left, and then
    /// mean that every directory failed; anything else ends the attempt.
    pub fn after(&mut self, outcome: Result<IssuedCertificate, AcmeError>) -> (r: FailoverStep)
        requires
            old(self).wf(),
        ensures
            final(self).wf(),
            final(self).list() == old(self).list(),
            r.facts() == after_attempt(
                old(self).list().len() as int,
                old(self).place(),
                match outcome {
                    Ok(_) => None,
                    Err(e) => Some(e@),
                },
            ),
            outcome matches Ok(cert) ==> r == FailoverStep::Issued(cert),
            outcome matches Err(e) ==> !e@.is_retryable() ==> r == FailoverStep::Failed(e),
            final(self).place() == (if r is TryNext {
                old(self).place() + 1
            } else {
                old(self).place()
            }),
    {
        match outcome {
            Ok(cert) => FailoverStep::Issued(cert),
            Err(e) => if !e.is_rate_limited() && !e.is_server_error() {
                FailoverStep::Failed(e)
            } else if self.at < self.directories.len() - 1 {
                self.at += 1;
                FailoverStep::TryNext
            } else {
                FailoverStep::Failed(AcmeError::AllProvidersFailed(e.message()))
            },
        }
    }
}

/// The challenge types that are answered.
#[derive(Debug, Clone, Copy, PartialEq, Eq, Structural)]
pub enum ChallengeKind {
    Http01,
    TlsAlpn01,
}

/// The challenge to answer: HTTP-01 where cleartext HTTP is served, else
/// TLS-ALPN-01, and HTTP-01 where nothing else is offered.
pub open spec fn chosen_challenge(http_enabled: bool, has_http: bool, has_alpn: bool) -> Option<
    ChallengeKind,
> {
    if http_enabled && has_http {
        Some(ChallengeKind::Http01)
    } else if has_alpn {
        Some(ChallengeKind::TlsAlpn01)
    } else if has_http {
        Some(ChallengeKind::Http01)
    } else {
        None
    }
}

/// Chooses the challenge to answer.
pub fn choose_challenge(http_enabled: bool, has_http: bool, has_alpn: bool) -> (r: Option<
    ChallengeKind,
>)
    ensures
        r == chosen_challenge(http_enabled, has_http, has_alpn),
{
    if http_enabled && has_http {
        Some(ChallengeKind::Http01)
    } else if has_alpn {
        Some(ChallengeKind::TlsAlpn01)
    } else if has_http {
        Some(ChallengeKind::Http01)
    } else {
        None
    }
}

/// A chosen challenge is one that is offered, and one is chosen whenever one
/// is offered.
pub proof fn chosen_challenge_is_offered(http_enabled: bool, has_http: bool, has_alpn: bool)
    ensures
        chosen_challenge(http_enabled, has_http, has_alpn) == Some(ChallengeKind::Http01)
            ==> has_http,
        chosen_challenge(http_enabled, has_http, has_alpn) == Some(ChallengeKind::TlsAlpn01)
            ==> has_alpn,
        chosen_challenge(http_enabled, has_http, has_alpn) is Some == (has_http || has_alpn),
{
}

} // verus!
