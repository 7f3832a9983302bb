//! The per-hostname certificate lifecycle.
use crate::text;
use vstd::prelude::*;

verus! {

/// Per-hostname certificate lifecycle state machine.
#[derive(Debug, PartialEq, Eq)]
pub enum CertState {
    /// Certificate order has not started or is queued.
    Pending,
    /// ACME order is currently in progress.
    OrderInProgress,
    /// Certificate has been issued and is valid until `not_after`.
    Issued { not_after: i64 },
    /// Certificate order or renewal failed; retry scheduled at `next_retry`.
    Failed { error: String, next_retry: i64 },
    /// Active certificate is being renewed in background; existing cert valid until `not_after`.
    Renewing { not_after: i64 },
}

impl Clone for CertState {
    fn clone(&self) -> (r: Self)
        ensures
            r == *self,
    {
        match self {
            CertState::Pending => CertState::Pending,
            CertState::OrderInProgress => CertState::OrderInProgress,
            CertState::Issued { not_after } => CertState::Issued { not_after: *not_after },
            CertState::Failed { error, next_retry } => CertState::Failed {
                error: error.clone(),
                next_retry: *next_retry,
            },
            CertState::Renewing { not_after } => CertState::Renewing { not_after: *not_after },
        }
    }
}

/// A state with its text.
pub enum StateFacts {
    Pending,
    OrderInProgress,
    Issued { not_after: i64 },
    Failed { error: Seq<char>, next_retry: i64 },
    Renewing { not_after: i64 },
}

impl View for CertState {
    type V = StateFacts;

    open spec fn view(&self) -> StateFacts {
        match *self {
            CertState::Pending => StateFacts::Pending,
            CertState::OrderInProgress => StateFacts::OrderInProgress,
            CertState::Issued { not_after } => StateFacts::Issued { not_after },
            CertState::Failed { error, next_retry } => StateFacts::Failed {
                error: error@,
                next_retry,
            },
            CertState::Renewing { not_after } => StateFacts::Renewing { not_after },
        }
    }
}

impl StateFacts {
    /// A certificate is held, freshly issued or under renewal.
    pub open spec fn holds_certificate(self) -> bool {
        self is Issued || self is Renewing
    }

    /// The expiry of the certificate that is held.
    pub open spec fn expiry(self) -> Option<i64> {
        match self {
            StateFacts::Issued { not_after } => Some(not_after),
            StateFacts::Renewing { not_after } => Some(not_after),
            _ => None,
        }
    }

    /// The label of each state.
    pub open spec fn label(self) -> Seq<char> {
        match self {
            StateFacts::Pending => "pending"@,
            StateFacts::OrderInProgress => "ordering"@,
            StateFacts::Issued { .. } => "issued"@,
            StateFacts::Failed { .. } => "failed"@,
            StateFacts::Renewing { .. } => "renewing"@,
        }
    }
}

impl CertState {
    /// Whether two states are the same.
    pub fn same(&self, other: &CertState) -> (r: bool)
        ensures
            r == (self@ == other@),
    {
        match (self, other) {
            (CertState::Pending, CertState::Pending) => true,
            (CertState::OrderInProgress, CertState::OrderInProgress) => true,
            (CertState::Issued { not_after: a }, CertState::Issued { not_after: b }) => *a == *b,
            (
                CertState::Failed { error: e, next_retry: a },
                CertState::Failed { error: f, next_retry: b },
            ) => *a == *b && text::same(e.as_str(), f.as_str()),
            (CertState::Renewing { not_after: a }, CertState::Renewing { not_after: b }) => *a
                == *b,
            _ => false,
        }
    }

    /// Returns true if a valid certificate is currently available for serving.
    pub fn is_issued(&self) -> (r: bool)
        ensures
            r == self@.holds_certificate(),
    {
        match self {
            CertState::Issued { .. } => true,
            CertState::Renewing { .. } => true,
            _ => false,
        }
    }

    /// Returns the certificate expiration timestamp if one is currently held.
    pub fn not_after(&self) -> (r: Option<i64>)
        ensures
            r == self@.expiry(),
    {
        match self {
            CertState::Issued { not_after } => Some(*not_after),
            CertState::Renewing { not_after } => Some(*not_after),
            _ => None,
        }
    }

    /// Short label suitable for logs and systemd status string.
    pub fn label(&self) -> (r: &'static str)
        ensures
            r@ == self@.label(),
    {
        match self {
            CertState::Pending => "pending",
            CertState::OrderInProgress => "ordering",
            CertState::Issued { .. } => "issued",
            CertState::Failed { .. } => "failed",
            CertState::Renewing { .. } => "renewing",
        }
    }
}

/// A state has an expiry exactly where it holds a certificate.
pub proof fn expiry_means_certificate(s: StateFacts)
    ensures
        s.holds_certificate() == s.expiry() is Some,
{
}

} // verus!
