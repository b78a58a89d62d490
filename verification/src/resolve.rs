//! Orchestration of one resolution: the decision at every step of
//! validate → cache → download → store, as pure functions the embedding
//! program drives. It performs the filesystem and network effects and feeds
//! the results back; every decision between them is made and verified here.

use vstd::prelude::*;
use crate::cache::cache_plan_spec;
use crate::cache::CachePlan;
use crate::domain::valid_domain;
use crate::links::data_image_seq;
use crate::text::occurs_at;
use crate::web::data_decode_of;

verus! {

/// How many of the best candidates one resolution attempt will try.
pub const CANDIDATE_LIMIT: usize = 5;

/// The smallest decoded data-URI payload accepted as a plausible image.
pub const MIN_DATA_ICON_BYTES: usize = 67;

/// The configuration one resolution runs under.
pub struct Config {
    /// Positive TTL in seconds; 0 never expires.
    pub cache_ttl: u64,
    /// Negative TTL in seconds; 0 never expires.
    pub cache_negttl: u64,
    /// Block hosts that resolve to a non-global address.
    pub blacklist_non_global_ips: bool,
    /// Optional blacklist pattern matched against every target host.
    pub blacklist_regex: Option<String>,
    /// Never download; serve only the cache and the fallback.
    pub disable_download: bool,
    /// Per-request download timeout in seconds (applied by the embedding
    /// program).
    pub download_timeout: u64,
}

/// The first decision of a resolution, after the cache files' ages are
/// known.
#[derive(Clone, Copy, PartialEq, Eq, Structural, Debug)]
pub enum ResolvePlan {
    /// The domain failed validation: return the fallback image at once,
    /// touching neither cache nor network.
    Invalid,
    /// An unexpired miss marker exists: return the fallback with no network
    /// activity.
    Negative,
    /// A fresh hit file exists: return its bytes verbatim, deleting a stale
    /// miss marker first when asked.
    CachedHit { remove_marker: bool },
    /// Nothing cached and downloads are disabled: return the fallback
    /// without network activity and without writing a miss marker.
    Disabled { remove_marker: bool },
    /// Nothing cached: download, then store the result.
    Download { remove_marker: bool },
}

/// What `resolve_plan` must decide, stated over the domain validator and
/// the cache planner.
pub open spec fn resolve_plan_spec(
    domain: Seq<char>,
    marker_age: Option<u64>,
    hit_age: Option<u64>,
    cfg: Config,
) -> ResolvePlan {
    if !valid_domain(domain) {
        ResolvePlan::Invalid
    } else {
        match cache_plan_spec(marker_age, hit_age, cfg.cache_negttl, cfg.cache_ttl) {
            CachePlan::Negative => ResolvePlan::Negative,
            CachePlan::ReadHit { remove_marker } => ResolvePlan::CachedHit { remove_marker },
            CachePlan::Fetch { remove_marker } => if cfg.disable_download {
                ResolvePlan::Disabled { remove_marker }
            } else {
                ResolvePlan::Download { remove_marker }
            },
        }
    }
}

/// Decide how a resolution starts: validation first, then the cache, then
/// the download switch.
pub fn resolve_plan(domain: &str, marker_age: Option<u64>, hit_age: Option<u64>, cfg: &Config) -> (r:
    ResolvePlan)
    ensures
        r == resolve_plan_spec(domain@, marker_age, hit_age, *cfg),
{
    if !crate::domain::is_valid_domain(domain) {
        return ResolvePlan::Invalid;
    }
    match crate::cache::cache_plan(marker_age, hit_age, cfg.cache_negttl, cfg.cache_ttl) {
        CachePlan::Negative => ResolvePlan::Negative,
        CachePlan::ReadHit { remove_marker } => ResolvePlan::CachedHit { remove_marker },
        CachePlan::Fetch { remove_marker } => {
            if cfg.disable_download {
                ResolvePlan::Disabled { remove_marker }
            } else {
                ResolvePlan::Download { remove_marker }
            }
        },
    }
}

/// Negative-cache idempotence at the orchestration level: while the miss
/// marker of a failed resolution is within the negative TTL, a valid
/// domain's plan is `Negative` — the fallback is returned and no download
/// step is reached — whatever the hit file holds.
pub proof fn lemma_resolve_negative(
    domain: Seq<char>,
    marker_age: u64,
    hit_age: Option<u64>,
    cfg: Config,
)
    requires
        valid_domain(domain),
        !crate::cache::expired(cfg.cache_negttl, marker_age),
    ensures
        resolve_plan_spec(domain, Some(marker_age), hit_age, cfg) == ResolvePlan::Negative,
{
}

/// Positive-cache freshness at the orchestration level: with no miss
/// marker, a valid domain with a hit file younger than the positive TTL is
/// served from the cache; once the age reaches the TTL, the plan becomes a
/// download (or `Disabled`, which still fetches nothing).
pub proof fn lemma_resolve_freshness(domain: Seq<char>, hit_age: u64, cfg: Config)
    requires
        valid_domain(domain),
    ensures
        !crate::cache::expired(cfg.cache_ttl, hit_age) ==> resolve_plan_spec(
            domain,
            None,
            Some(hit_age),
            cfg,
        ) == (ResolvePlan::CachedHit { remove_marker: false }),
        crate::cache::expired(cfg.cache_ttl, hit_age) && !cfg.disable_download
            ==> resolve_plan_spec(domain, None, Some(hit_age), cfg) == (ResolvePlan::Download {
            remove_marker: false,
        }),
{
}

/// An href that carries its image inline rather than naming a host.
pub open spec fn is_data_href(href: Seq<char>) -> bool {
    occurs_at(href, data_image_seq(), 0)
}

/// The payload a data-URI candidate yields: its decoded body, if it decodes
/// and clears the minimum plausible image size.
pub open spec fn data_payload(href: Seq<char>) -> Option<Seq<u8>> {
    match data_decode_of(href) {
        Some(b) => if b.len() >= MIN_DATA_ICON_BYTES {
            Some(b)
        } else {
            None
        },
        None => None,
    }
}

/// What to do with one candidate, in priority order.
pub enum CandidateAction {
    /// A data URI that decoded to a plausible image: accept these bytes,
    /// ending the attempt.
    Accept { bytes: Vec<u8> },
    /// A data URI that is malformed or decodes below the size floor: skip
    /// to the next candidate.
    Skip,
    /// A network candidate: run the guard on its host, then fetch this URL
    /// with the captured cookie string.
    Fetch { url: String },
}

/// Decide one candidate: inline data is decoded and size-checked here; a
/// network URL is handed back for a guarded fetch.
pub fn candidate_action(icon: &crate::candidates::Icon) -> (r: CandidateAction)
    ensures
        match r {
            CandidateAction::Accept { bytes } => is_data_href(icon.href@) && data_payload(
                icon.href@,
            ) == Some(bytes@),
            CandidateAction::Skip => is_data_href(icon.href@) && data_payload(icon.href@) is None,
            CandidateAction::Fetch { url } => !is_data_href(icon.href@) && url@ == icon.href@,
        },
{
    proof {
        reveal_strlit("data:image");
        assert("data:image"@ =~= data_image_seq());
    }
    let href = icon.href.as_str();
    let n = href.unicode_len();
    if n >= 10 && crate::text::matches_at(href, 0, "data:image") {
        match crate::web::decode_data_url(href) {
            Some(body) => {
                if body.len() >= MIN_DATA_ICON_BYTES {
                    CandidateAction::Accept { bytes: body }
                } else {
                    CandidateAction::Skip
                }
            },
            None => CandidateAction::Skip,
        }
    } else {
        CandidateAction::Fetch { url: href.to_owned() }
    }
}

/// How a finished download attempt ends.
pub enum Resolution {
    /// A candidate yielded a non-empty body: store it as the hit file and
    /// return it.
    Found { bytes: Vec<u8> },
    /// No candidate yielded anything: write the miss marker and return the
    /// fallback image.
    Failed,
}

/// Close a download attempt: a candidate's non-empty body succeeds; no body
/// or an empty one fails the attempt.
pub fn finish_download(buffer: Option<Vec<u8>>) -> (r: Resolution)
    ensures
        match r {
            Resolution::Found { bytes } => match buffer {
                Some(b) => bytes@ == b@ && b@.len() > 0,
                None => false,
            },
            Resolution::Failed => match buffer {
                Some(b) => b@.len() == 0,
                None => true,
            },
        },
{
    match buffer {
        Some(b) => {
            if b.len() > 0 {
                Resolution::Found { bytes: b }
            } else {
                Resolution::Failed
            }
        },
        None => Resolution::Failed,
    }
}

} // verus!
