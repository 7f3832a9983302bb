//! Certificate renewal and backoff policy.
//!
//! Evaluates renewal eligibility according to the one-third remaining lifetime
//! rule, and computes exponential retry backoff (1h to 24h cap) for failed
//! issuances.
use core::time::Duration;
use vstd::prelude::*;

verus! {

/// A difference of timestamps, held within the range of `i64`.
pub open spec fn saturated(n: int) -> int {
    if n > i64::MAX {
        i64::MAX as int
    } else if n < i64::MIN {
        i64::MIN as int
    } else {
        n
    }
}

/// At most a third of the lifetime remains, or none of it.
pub open spec fn renewal_due(not_before: int, not_after: int, now: int) -> bool {
    now >= not_after || saturated(not_after - now) <= super::clock::trunc_div(saturated(not_after - not_before), 3)
}

/// `i64::saturating_sub`.
fn saturating_difference(a: i64, b: i64) -> (r: i64)
    ensures
        r == saturated(a - b),
{
    let d: i128 = (a as i128) - (b as i128);
    if d > i64::MAX as i128 {
        i64::MAX
    } else if d < i64::MIN as i128 {
        i64::MIN
    } else {
        d as i64
    }
}

/// Returns true if a certificate should be renewed.
///
/// A certificate is eligible for renewal when no more than one-third of its
/// total validity lifetime remains (or if it has already expired).
pub fn should_renew(not_before: i64, not_after: i64, now: i64) -> (r: bool)
    ensures
        r == renewal_due(not_before as int, not_after as int, now as int),
{
    if now >= not_after {
        return true;
    }
    let total_lifetime: i64 = saturating_difference(not_after, not_before);
    let remaining: i64 = saturating_difference(not_after, now);
    let third: i64 = if total_lifetime >= 0 {
        total_lifetime / 3
    } else {
        (-((-(total_lifetime as i128)) / 3)) as i64
    };
    remaining <= third
}

/// `1, 2, 4, …`
pub open spec fn doubled(n: nat) -> nat
    decreases n,
{
    if n == 0 {
        1
    } else {
        2 * doubled((n - 1) as nat)
    }
}

/// The seconds to wait after a number of consecutive failures: an hour,
/// doubled for each failure after the first, at most a day; a longer delay
/// that the CA asked for is honored.
pub open spec fn backoff_secs(consecutive_failures: nat, retry_after: Option<u64>) -> nat {
    let doublings: nat = if consecutive_failures <= 1 {
        0
    } else if consecutive_failures > 7 {
        6
    } else {
        (consecutive_failures - 1) as nat
    };
    let uncapped = 3600 * doubled(doublings);
    let backoff: nat = if uncapped > 86400 {
        86400
    } else {
        uncapped
    };
    match retry_after {
        Some(ra) => if ra > backoff {
            ra as nat
        } else {
            backoff
        },
        None => backoff,
    }
}

/// What `Duration::from_secs` makes of a number of seconds.
pub uninterp spec fn duration_of_secs(secs: u64) -> Duration;

/// `Duration::from_secs` gives the duration of that many whole seconds.
pub assume_specification[ Duration::from_secs ](secs: u64) -> (d: Duration)
    ensures
        d == duration_of_secs(secs),
;

/// The seconds to wait after a number of consecutive failures.
pub fn compute_backoff_secs(consecutive_failures: u32, retry_after: Option<u64>) -> (r: u64)
    ensures
        r == backoff_secs(consecutive_failures as nat, retry_after),
{
    proof {
        reveal_with_fuel(doubled, 7);
    }
    let backoff: u64 = if consecutive_failures <= 1 {
        3600
    } else if consecutive_failures == 2 {
        7200
    } else if consecutive_failures == 3 {
        14400
    } else if consecutive_failures == 4 {
        28800
    } else if consecutive_failures == 5 {
        57600
    } else {
        86400
    };
    match retry_after {
        Some(ra) => if ra > backoff {
            ra
        } else {
            backoff
        },
        None => backoff,
    }
}

/// Computes exponential backoff for issuance or renewal failure.
///
/// Starts at 1 hour (3600s), doubles per consecutive failure, and caps at 24 hours (86400s).
/// If the CA returned a `retry_after` delay larger than the computed backoff, honors it.
pub fn compute_backoff(consecutive_failures: u32, retry_after: Option<u64>) -> (r: Duration)
    ensures
        r == duration_of_secs(backoff_secs(consecutive_failures as nat, retry_after) as u64),
{
    Duration::from_secs(compute_backoff_secs(consecutive_failures, retry_after))
}

/// An expired certificate is always due.
pub proof fn expired_is_due(not_before: i64, not_after: i64, now: i64)
    requires
        now >= not_after,
    ensures
        renewal_due(not_before as int, not_after as int, now as int),
{
}

/// Once due, a certificate stays due.
pub proof fn due_stays_due(not_before: i64, not_after: i64, now: i64, later: i64)
    requires
        renewal_due(not_before as int, not_after as int, now as int),
        now <= later,
    ensures
        renewal_due(not_before as int, not_after as int, later as int),
{
}

/// The wait is at least an hour, never shorter than the CA asked for, and
/// without such a demand at most a day.
pub proof fn backoff_is_bounded(failures: u32, retry_after: Option<u64>)
    ensures
        backoff_secs(failures as nat, retry_after) >= 3600,
        retry_after matches Some(ra) ==> backoff_secs(failures as nat, retry_after) >= ra,
        retry_after is None ==> backoff_secs(failures as nat, retry_after) <= 86400,
{
    reveal_with_fuel(doubled, 7);
}

/// Another failure doubles the wait until it is a day long.
pub proof fn backoff_doubles(failures: nat)
    requires
        failures >= 1,
    ensures
        backoff_secs(failures + 1, None) == (if 2 * backoff_secs(failures, None) > 86400 {
            86400
        } else {
            2 * backoff_secs(failures, None)
        }),
{
    reveal_with_fuel(doubled, 7);
}

/// Another failure never shortens the wait.
pub proof fn backoff_never_shrinks(failures: u32, retry_after: Option<u64>)
    ensures
        backoff_secs(failures as nat, retry_after) <= backoff_secs(failures as nat + 1, retry_after),
{
    reveal_with_fuel(doubled, 7);
}

} // verus!
