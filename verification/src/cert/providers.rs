//! ACME certificate authority provider catalog: metadata, directory URLs, EAB
//! requirements, rate limit quotas, and credential instructions for
//! first-class supported ACME providers.
use crate::text;
use vstd::prelude::*;

verus! {

/// A provider of the catalog.
#[derive(Debug, Clone, Copy, PartialEq, Eq)]
pub struct AcmeProviderInfo {
    pub id: &'static str,
    pub directory: &'static str,
    pub eab_required: bool,
    pub quota: &'static str,
    pub guidance: &'static str,
}

/// What a provider entry says, as text.
pub struct ProviderFacts {
    pub id: Seq<char>,
    pub directory: Seq<char>,
    pub eab_required: bool,
    pub quota: Seq<char>,
    pub guidance: Seq<char>,
}

impl View for AcmeProviderInfo {
    type V = ProviderFacts;

    open spec fn view(&self) -> ProviderFacts {
        ProviderFacts {
            id: self.id@,
            directory: self.directory@,
            eab_required: self.eab_required,
            quota: self.quota@,
            guidance: self.guidance@,
        }
    }
}

/// The catalog of supported ACME providers.
pub open spec fn catalog() -> Seq<ProviderFacts> {
    seq![
        ProviderFacts {
            id: "letsencrypt"@,
            directory: "https://acme-v02.api.letsencrypt.org/directory"@,
            eab_required: false,
            quota: "50 new certs / week / registered domain (renewals exempt); 300 orders / 3 h; free increase via https://isrg.formstack.com/forms/rate_limit_adjustment_request"@,
            guidance: "—"@,
        },
        ProviderFacts {
            id: "letsencrypt-staging"@,
            directory: "https://acme-staging-v02.api.letsencrypt.org/directory"@,
            eab_required: false,
            quota: "very high, untrusted certs"@,
            guidance: "—"@,
        },
        ProviderFacts {
            id: "google"@,
            directory: "https://dv.acme-v02.api.pki.goog/directory"@,
            eab_required: true,
            quota: "very high, adjustable in GCP"@,
            guidance: "GCP project → enable Public Certificate Authority API → gcloud publicca external-account-keys create → keyId + b64MacKey. Key must be used within 7 days of creation. Docs: https://cloud.google.com/certificate-manager/docs/public-ca-tutorial"@,
        },
        ProviderFacts {
            id: "zerossl"@,
            directory: "https://acme.zerossl.com/v2/DV90"@,
            eab_required: true,
            quota: "unlimited 90-day"@,
            guidance: "free account → Developer → EAB Credentials for ACME Clients. Docs: https://zerossl.com/documentation/acme/"@,
        },
        ProviderFacts {
            id: "buypass"@,
            directory: "https://api.buypass.com/acme/directory"@,
            eab_required: false,
            quota: "20 / week / domain, 180-day certs"@,
            guidance: "—"@,
        },
        ProviderFacts {
            id: "custom"@,
            directory: "any URL"@,
            eab_required: false,
            quota: "—"@,
            guidance: "Pebble, step-ca, internal CAs; optional acme_root_ca_pem to trust the directory endpoint"@,
        },
    ]
}

/// What a list of providers says.
pub open spec fn facts(v: Seq<AcmeProviderInfo>) -> Seq<ProviderFacts> {
    v.map_values(|p: AcmeProviderInfo| p@)
}

/// The first provider of a list with the given identifier, in any case.
pub open spec fn find_in(list: Seq<ProviderFacts>, id: Seq<char>) -> Option<ProviderFacts>
    decreases list.len(),
{
    if list.len() == 0 {
        None
    } else if text::lower(list[0].id) == text::lower(id) {
        Some(list[0])
    } else {
        find_in(list.subrange(1, list.len() as int), id)
    }
}

/// The provider with the given identifier, in any case.
pub open spec fn provider(id: Seq<char>) -> Option<ProviderFacts> {
    find_in(catalog(), id)
}

/// The directory of a provider: the given one for `custom`, else the
/// catalog's.
pub open spec fn directory_of(id: Seq<char>, custom: Option<Seq<char>>) -> Option<Seq<char>> {
    if text::lower(id) == text::lower("custom"@) {
        custom
    } else {
        match provider(id) {
            Some(p) => Some(p.directory),
            None => None,
        }
    }
}

/// The provider mandates External Account Binding.
pub open spec fn needs_eab(id: Seq<char>) -> bool {
    provider(id) matches Some(p) && p.eab_required
}

/// The catalog of supported ACME providers.
pub fn providers() -> (v: Vec<AcmeProviderInfo>)
    ensures
        facts(v@) == catalog(),
{
    let mut v: Vec<AcmeProviderInfo> = Vec::new();
    v.push(
        AcmeProviderInfo {
            id: "letsencrypt",
            directory: "https://acme-v02.api.letsencrypt.org/directory",
            eab_required: false,
            quota: "50 new certs / week / registered domain (renewals exempt); 300 orders / 3 h; free increase via https://isrg.formstack.com/forms/rate_limit_adjustment_request",
            guidance: "—",
        },
    );
    v.push(
        AcmeProviderInfo {
            id: "letsencrypt-staging",
            directory: "https://acme-staging-v02.api.letsencrypt.org/directory",
            eab_required: false,
            quota: "very high, untrusted certs",
            guidance: "—",
        },
    );
    v.push(
        AcmeProviderInfo {
            id: "google",
            directory: "https://dv.acme-v02.api.pki.goog/directory",
            eab_required: true,
            quota: "very high, adjustable in GCP",
            guidance: "GCP project → enable Public Certificate Authority API → gcloud publicca external-account-keys create → keyId + b64MacKey. Key must be used within 7 days of creation. Docs: https://cloud.google.com/certificate-manager/docs/public-ca-tutorial",
        },
    );
    v.push(
        AcmeProviderInfo {
            id: "zerossl",
            directory: "https://acme.zerossl.com/v2/DV90",
            eab_required: true,
            quota: "unlimited 90-day",
            guidance: "free account → Developer → EAB Credentials for ACME Clients. Docs: https://zerossl.com/documentation/acme/",
        },
    );
    v.push(
        AcmeProviderInfo {
            id: "buypass",
            directory: "https://api.buypass.com/acme/directory",
            eab_required: false,
            quota: "20 / week / domain, 180-day certs",
            guidance: "—",
        },
    );
    v.push(
        AcmeProviderInfo {
            id: "custom",
            directory: "any URL",
            eab_required: false,
            quota: "—",
            guidance: "Pebble, step-ca, internal CAs; optional acme_root_ca_pem to trust the directory endpoint",
        },
    );
    assert(facts(v@) =~= catalog());
    v
}

/// Looks up an ACME provider by identifier.
pub fn find_provider(id: &str) -> (r: Option<AcmeProviderInfo>)
    ensures
        match r {
            Some(p) => provider(id@) == Some(p@),
            None => provider(id@) is None,
        },
{
    let all = providers();
    let ghost list = facts(all@);
    let mut i: usize = 0;
    assert(list.subrange(0, list.len() as int) == list);
    while i < all.len()
        invariant
            i <= all@.len(),
            list == facts(all@),
            list == catalog(),
            find_in(list, id@) == find_in(list.subrange(i as int, list.len() as int), id@),
        decreases all@.len() - i,
    {
        let ghost rest = list.subrange(i as int, list.len() as int);
        assert(rest[0] == all@[i as int]@);
        if text::same_ignoring_case(all[i].id, id) {
            return Some(all[i]);
        }
        assert(rest.subrange(1, rest.len() as int) == list.subrange(i + 1, list.len() as int));
        i += 1;
    }
    None
}

/// Resolves the ACME directory URL for a provider ID.
pub fn resolve_directory_url(provider_id: &str, custom_directory: Option<&str>) -> (r: Option<
    String,
>)
    ensures
        (match r {
            Some(d) => Some(d@),
            None => None,
        }) == directory_of(
            provider_id@,
            match custom_directory {
                Some(c) => Some(c@),
                None => None,
            },
        ),
{
    if text::same_ignoring_case(provider_id, "custom") {
        match custom_directory {
            Some(c) => Some(c.to_owned()),
            None => None,
        }
    } else {
        match find_provider(provider_id) {
            Some(p) => Some(p.directory.to_owned()),
            None => None,
        }
    }
}

/// Checks whether a given provider ID mandates External Account Binding.
pub fn requires_eab(provider_id: &str) -> (r: bool)
    ensures
        r == needs_eab(provider_id@),
{
    match find_provider(provider_id) {
        Some(p) => p.eab_required,
        None => false,
    }
}

/// A row of the catalog table.
pub open spec fn table_row(p: ProviderFacts) -> Seq<char> {
    let eab = if p.eab_required {
        "**yes**"@
    } else {
        "no"@
    };
    let label = if p.id == "letsencrypt"@ {
        "`letsencrypt` (default)"@
    } else {
        "`"@ + p.id + "`"@
    };
    let dir = if p.id == "custom"@ {
        p.directory
    } else {
        "`"@ + p.directory + "`"@
    };
    "| "@ + label + " | "@ + dir + " | "@ + eab + " | "@ + p.quota + " | "@ + p.guidance + " |\n"@
}

/// The rows of a list of providers, one below the other.
pub open spec fn table_rows(list: Seq<ProviderFacts>) -> Seq<char>
    decreases list.len(),
{
    if list.len() == 0 {
        Seq::empty()
    } else {
        table_rows(list.drop_last()) + table_row(list.last())
    }
}

/// The catalog table.
pub open spec fn table() -> Seq<char> {
    "| id | directory | EAB | quota (2026) | how to get credentials |\n"@
        + "| -- | -- | -- | -- | -- |\n"@ + table_rows(catalog())
}

fn quoted(s: &str) -> (r: String)
    ensures
        r@ == "`"@ + s@ + "`"@,
{
    let mut r = "`".to_owned();
    r.append(s);
    r.append("`");
    r
}

/// Formats the provider catalog table for display.
pub fn format_providers_table() -> (out: String)
    ensures
        out@ == table(),
{
    let all = providers();
    let ghost list = facts(all@);
    let mut out = "| id | directory | EAB | quota (2026) | how to get credentials |\n".to_owned();
    out.append("| -- | -- | -- | -- | -- |\n");
    let ghost head = out@;
    let mut i: usize = 0;
    assert(list.take(0) == Seq::<ProviderFacts>::empty());
    while i < all.len()
        invariant
            i <= all@.len(),
            list == facts(all@),
            out@ == head + table_rows(list.take(i as int)),
        decreases all@.len() - i,
    {
        let p = all[i];
        assert(list.take(i + 1).drop_last() == list.take(i as int));
        assert(list.take(i + 1).last() == p@);
        let ghost done = out@;
        let label = if text::same(p.id, "letsencrypt") {
            "`letsencrypt` (default)".to_owned()
        } else {
            quoted(p.id)
        };
        let dir = if text::same(p.id, "custom") {
            p.directory.to_owned()
        } else {
            quoted(p.directory)
        };
        let mut row = "| ".to_owned();
        row.append(label.as_str());
        row.append(" | ");
        row.append(dir.as_str());
        row.append(" | ");
        row.append(
            if p.eab_required {
                "**yes**"
            } else {
                "no"
            },
        );
        row.append(" | ");
        row.append(p.quota);
        row.append(" | ");
        row.append(p.guidance);
        row.append(" |\n");
        assert(row@ == table_row(p@));
        out.append(row.as_str());
        i += 1;
        assert(out@ == head + table_rows(list.take(i as int)));
    }
    assert(list.take(list.len() as int) == list);
    out
}

/// Identifiers are looked up in any case.
pub proof fn lookup_ignores_case(a: Seq<char>, b: Seq<char>)
    requires
        text::lower(a) == text::lower(b),
    ensures
        provider(a) == provider(b),
        needs_eab(a) == needs_eab(b),
{
    find_in_ignores_case(catalog(), a, b);
}

proof fn find_in_ignores_case(list: Seq<ProviderFacts>, a: Seq<char>, b: Seq<char>)
    requires
        text::lower(a) == text::lower(b),
    ensures
        find_in(list, a) == find_in(list, b),
    decreases list.len(),
{
    if list.len() > 0 {
        find_in_ignores_case(list.subrange(1, list.len() as int), a, b);
    }
}

} // verus!
