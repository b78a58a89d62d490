//! Trusted boundary to the outside parsing crates: URL resolution, HTML
//! link extraction, and data-URI decoding. Each call is a pure computation
//! on plain values; its result is given a name that the verified logic's
//! contracts are stated over.

use vstd::prelude::*;
use soup::NodeExt;
use soup::QueryBuilderExt;

verus! {

/// The absolute URL that resolving `rel` against the base URL `base` yields,
/// or nothing when `base` does not parse or the join fails.
pub uninterp spec fn join_of(base: Seq<char>, rel: Seq<char>) -> Option<Seq<char>>;

/// Relies on `url::Url::parse` and `url::Url::join`: both depend on their
/// string arguments alone; the resulting URL is rendered with
/// `String::from`.
#[verifier::external_body]
pub(crate) fn join_url(base: &str, rel: &str) -> (r: Option<String>)
    ensures
        match r {
            Some(u) => join_of(base@, rel@) == Some(u@),
            None => join_of(base@, rel@) is None,
        },
{
    match url::Url::parse(base) {
        Ok(u) => match u.join(rel) {
            Ok(j) => Some(String::from(j)),
            Err(_) => None,
        },
        Err(_) => None,
    }
}

/// The host part of a URL string, or nothing when the URL does not parse or
/// has no host.
pub uninterp spec fn host_of(url: Seq<char>) -> Option<Seq<char>>;

/// Relies on `url::Url::parse` and `url::Url::host_str`: the host is a pure
/// function of the URL string.
#[verifier::external_body]
pub(crate) fn url_host(url: &str) -> (r: Option<String>)
    ensures
        match r {
            Some(h) => host_of(url@) == Some(h@),
            None => host_of(url@) is None,
        },
{
    match url::Url::parse(url) {
        Ok(u) => u.host_str().map(|h| h.to_string()),
        Err(_) => None,
    }
}

/// The host a fetch of `url` would contact, with a URL that does not parse
/// reported as the empty host (which never resolves).
pub fn fetch_host(url: &str) -> (r: String)
    ensures
        r@ == match host_of(url@) {
            Some(h) => h,
            None => Seq::<char>::empty(),
        },
{
    match url_host(url) {
        Some(h) => h,
        None => String::new(),
    }
}

/// The attributes of one `<link>` element, as the HTML parser reports them.
pub struct LinkAttrs {
    pub rel: Option<String>,
    pub href: Option<String>,
    pub sizes: Option<String>,
}

/// Plain-value view of one extracted link.
pub open spec fn link_view(l: LinkAttrs) -> (Option<Seq<char>>, Option<Seq<char>>, Option<
    Seq<char>,
>) {
    (
        match l.rel {
            Some(s) => Some(s@),
            None => None,
        },
        match l.href {
            Some(s) => Some(s@),
            None => None,
        },
        match l.sizes {
            Some(s) => Some(s@),
            None => None,
        },
    )
}

/// The `rel`, `href` and `sizes` attributes of every `<link>` element of the
/// document, in document order; a function of the HTML text alone.
pub uninterp spec fn links_of(html: Seq<char>) -> Seq<
    (Option<Seq<char>>, Option<Seq<char>>, Option<Seq<char>>),
>;

/// Relies on `soup::Soup::new` and its query API (`tag`, `find_all`,
/// `NodeExt::get`): parsing is a pure function of the HTML text, and the
/// query returns the document's `<link>` elements in order, each mapped
/// here to its three attributes.
#[verifier::external_body]
pub(crate) fn extract_links(html: &str) -> (r: Vec<LinkAttrs>)
    ensures
        r@.len() == links_of(html@).len(),
        forall|i: int| 0 <= i < r@.len() ==> link_view(r@[i]) == links_of(html@)[i],
{
    let parsed = soup::Soup::new(html);
    parsed
        .tag("link")
        .find_all()
        .map(|n| LinkAttrs { rel: n.get("rel"), href: n.get("href"), sizes: n.get("sizes") })
        .collect()
}

/// The decoded body of a data URI, or nothing when the string is not a data
/// URL or its payload does not decode.
pub uninterp spec fn data_decode_of(href: Seq<char>) -> Option<Seq<u8>>;

/// Relies on `data_url::DataUrl::process` and `DataUrl::decode_to_vec`:
/// both depend on the URL string alone.
#[verifier::external_body]
pub(crate) fn decode_data_url(href: &str) -> (r: Option<Vec<u8>>)
    ensures
        match r {
            Some(b) => data_decode_of(href@) == Some(b@),
            None => data_decode_of(href@) is None,
        },
{
    match data_url::DataUrl::process(href) {
        Ok(d) => match d.decode_to_vec() {
            Ok((body, _fragment)) => Some(body),
            Err(_) => None,
        },
        Err(_) => None,
    }
}

} // verus!
