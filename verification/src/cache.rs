//! Planning of cache reads: positive and negative entries expire on
//! independent TTLs, and every filesystem problem degrades to a cache miss,
//! never to a hard failure.
//!
//! The embedding program stats the hit file and the miss marker for a domain
//! and hands their ages over; the plan tells it what to do next.

use vstd::prelude::*;

verus! {

/// A file of age `age` is expired under `ttl`; a TTL of 0 means it never
/// expires.
pub open spec fn expired(ttl: u64, age: u64) -> bool {
    ttl > 0 && ttl <= age
}

/// Expiry rule shared by hit files and miss markers.
pub fn file_is_expired(ttl: u64, age: u64) -> (r: bool)
    ensures
        r == expired(ttl, age),
{
    ttl > 0 && ttl <= age
}

/// What the embedding program should do for a domain, given the cache state.
#[derive(Clone, Copy, PartialEq, Eq, Structural, Debug)]
pub enum CachePlan {
    /// An unexpired miss marker exists: return the fallback image without
    /// any network activity.
    Negative,
    /// A fresh hit file exists: return its bytes verbatim; a failed read
    /// degrades to a fetch. `remove_marker` asks for an expired miss marker
    /// to be deleted first.
    ReadHit { remove_marker: bool },
    /// Nothing usable is cached: fetch anew. `remove_marker` as above.
    Fetch { remove_marker: bool },
}

/// The age of the miss marker counts as negative caching while unexpired;
/// `None` stands for a missing or unreadable file.
pub open spec fn negatively_cached(marker_age: Option<u64>, neg_ttl: u64) -> bool {
    match marker_age {
        Some(age) => !expired(neg_ttl, age),
        None => false,
    }
}

/// An expired miss marker must be deleted, leaving the directory consistent
/// with a no-negative-cache state.
pub open spec fn marker_stale(marker_age: Option<u64>, neg_ttl: u64) -> bool {
    match marker_age {
        Some(age) => expired(neg_ttl, age),
        None => false,
    }
}

/// A hit file is usable only when present, readable and unexpired.
pub open spec fn hit_fresh(hit_age: Option<u64>, pos_ttl: u64) -> bool {
    match hit_age {
        Some(age) => !expired(pos_ttl, age),
        None => false,
    }
}

/// The full read-side plan.
pub open spec fn cache_plan_spec(
    marker_age: Option<u64>,
    hit_age: Option<u64>,
    neg_ttl: u64,
    pos_ttl: u64,
) -> CachePlan {
    if negatively_cached(marker_age, neg_ttl) {
        CachePlan::Negative
    } else if hit_fresh(hit_age, pos_ttl) {
        CachePlan::ReadHit { remove_marker: marker_stale(marker_age, neg_ttl) }
    } else {
        CachePlan::Fetch { remove_marker: marker_stale(marker_age, neg_ttl) }
    }
}

/// Plan the cache read for one domain. `marker_age` and `hit_age` are the
/// ages in seconds of the miss marker and the hit file, with `None` for a
/// file that is absent or whose age could not be read.
pub fn cache_plan(marker_age: Option<u64>, hit_age: Option<u64>, neg_ttl: u64, pos_ttl: u64) -> (r:
    CachePlan)
    ensures
        r == cache_plan_spec(marker_age, hit_age, neg_ttl, pos_ttl),
{
    let marker_known = marker_age.is_some();
    if let Some(age) = marker_age {
        if !file_is_expired(neg_ttl, age) {
            return CachePlan::Negative;
        }
    }
    let remove_marker = marker_known;
    if let Some(age) = hit_age {
        if !file_is_expired(pos_ttl, age) {
            return CachePlan::ReadHit { remove_marker };
        }
    }
    CachePlan::Fetch { remove_marker }
}

/// Negative-cache idempotence: while the miss marker written by a failed
/// resolution is within the negative TTL, the plan is `Negative` — the
/// fallback is returned with no fetch — whatever the hit file holds.
pub proof fn lemma_negative_cache_short_circuits(
    marker_age: u64,
    hit_age: Option<u64>,
    neg_ttl: u64,
    pos_ttl: u64,
)
    requires
        !expired(neg_ttl, marker_age),
    ensures
        cache_plan_spec(Some(marker_age), hit_age, neg_ttl, pos_ttl) == CachePlan::Negative,
{
}

/// Positive-cache freshness: with no live miss marker, a hit file younger
/// than the positive TTL is served verbatim, and once its age reaches the
/// TTL the plan becomes a fresh fetch.
pub proof fn lemma_positive_cache_freshness(hit_age: u64, neg_ttl: u64, pos_ttl: u64)
    ensures
        !expired(pos_ttl, hit_age) ==> cache_plan_spec(None, Some(hit_age), neg_ttl, pos_ttl)
            == (CachePlan::ReadHit { remove_marker: false }),
        expired(pos_ttl, hit_age) ==> cache_plan_spec(None, Some(hit_age), neg_ttl, pos_ttl)
            == (CachePlan::Fetch { remove_marker: false }),
{
}

/// A TTL of zero never expires: however old the hit file, it is still
/// served.
pub proof fn lemma_zero_ttl_never_expires(age: u64)
    ensures
        !expired(0, age),
{
}

} // verus!
