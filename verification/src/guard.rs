//! The outbound-fetch guard: blocks a host that resolves to a non-global
//! address (when that policy is enabled) or that matches a configured
//! blacklist pattern.
//!
//! The guard must run before every outbound fetch whose target host came
//! from requester- or server-supplied data: the initial domain, a redirect
//! target, and each icon candidate's host.

use vstd::prelude::*;
use crate::ip::IpAddress;
use crate::ip::any_non_global;
use crate::ip::has_non_global;

verus! {

/// Whether the pattern is accepted by the regex compiler; a function of the
/// pattern alone.
pub uninterp spec fn regex_compiles(pat: Seq<char>) -> bool;

/// Whether the compiled pattern matches somewhere in the text; a function of
/// the pattern and the text alone.
pub uninterp spec fn regex_matches(pat: Seq<char>, text: Seq<char>) -> bool;

/// Relies on `regex::Regex::new` (whose success depends on the pattern
/// alone) and `regex::Regex::is_match` (a pure function of pattern and
/// text). `None` reports a pattern the compiler rejects.
#[verifier::external_body]
fn regex_test(pat: &str, text: &str) -> (r: Option<bool>)
    ensures
        r is Some <==> regex_compiles(pat@),
        match r {
            Some(b) => b == regex_matches(pat@, text@),
            None => true,
        },
{
    match regex::Regex::new(pat) {
        Ok(re) => Some(re.is_match(text)),
        Err(_) => None,
    }
}

/// The guard's decision: blocked when the non-global-address policy is on
/// and some resolved address is not globally routable, or when a configured
/// and well-formed blacklist pattern matches the host. A host that did not
/// resolve (`addrs` is `None`) is not blocked by the address step, and a
/// pattern the regex engine refuses does not block.
pub open spec fn blocked_spec(
    host: Seq<char>,
    addrs: Option<Seq<IpAddress>>,
    block_non_global: bool,
    blacklist: Option<Seq<char>>,
) -> bool {
    ||| (block_non_global && match addrs {
        Some(a) => any_non_global(a),
        None => false,
    })
    ||| (match blacklist {
        Some(pat) => regex_compiles(pat) && regex_matches(pat, host),
        None => false,
    })
}

/// Decide whether an outbound fetch to `host` is blocked, given the
/// addresses it resolved to (if resolution succeeded) and the configured
/// policy.
pub fn is_blocked(
    host: &str,
    addrs: Option<&Vec<IpAddress>>,
    block_non_global: bool,
    blacklist: Option<&str>,
) -> (r: bool)
    ensures
        r == blocked_spec(
            host@,
            match addrs {
                Some(a) => Some(a@),
                None => None,
            },
            block_non_global,
            match blacklist {
                Some(p) => Some(p@),
                None => None,
            },
        ),
{
    let mut blocked = false;
    if block_non_global {
        if let Some(a) = addrs {
            if has_non_global(a) {
                blocked = true;
            }
        }
    }
    if !blocked {
        if let Some(pat) = blacklist {
            if let Some(m) = regex_test(pat, host) {
                if m {
                    blocked = true;
                }
            }
        }
    }
    blocked
}

/// A host that resolves only to non-global addresses (for instance loopback
/// or private ones) is blocked whenever the non-global-address policy is on,
/// whatever the blacklist holds.
pub proof fn lemma_non_global_blocked(
    host: Seq<char>,
    addrs: Seq<IpAddress>,
    blacklist: Option<Seq<char>>,
)
    requires
        addrs.len() > 0,
        forall|i: int| 0 <= i < addrs.len() ==> !crate::ip::ip_global(addrs[i]),
    ensures
        blocked_spec(host, Some(addrs), true, blacklist),
{
    assert(!crate::ip::ip_global(addrs[0]));
}

/// With the non-global-address policy off and no blacklist configured, no
/// host is blocked, whatever it resolves to.
pub proof fn lemma_guard_off(host: Seq<char>, addrs: Option<Seq<IpAddress>>)
    ensures
        !blocked_spec(host, addrs, false, None),
{
}

} // verus!
