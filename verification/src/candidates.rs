//! Icon candidates: discovery from a fetched page, the synthesized
//! `favicon.ico` guesses, and the stable sort by priority.

use vstd::prelude::*;
use crate::cookies::cookie_string_spec;
use crate::links::href_allowed;
use crate::links::rel_icon;
use crate::priority::parse_sizes_spec;
use crate::priority::priority_spec;
use crate::web::join_of;
use crate::web::links_of;
use crate::web::link_view;

verus! {

/// A discovered or guessed icon source: a score (lower is better) and an
/// absolute URL or data URI.
pub struct Icon {
    pub priority: u8,
    pub href: String,
}

impl Icon {
    pub fn new(priority: u8, href: String) -> (r: Icon)
        ensures
            r.priority == priority,
            r.href == href,
    {
        Icon { priority, href }
    }

    /// An equal copy.
    pub fn duplicate(&self) -> (r: Icon)
        ensures
            r == *self,
    {
        Icon { priority: self.priority, href: self.href.clone() }
    }
}

/// Plain-value view of a candidate.
pub open spec fn icon_view(i: Icon) -> (u8, Seq<char>) {
    (i.priority, i.href@)
}

pub open spec fn icons_view(s: Seq<Icon>) -> Seq<(u8, Seq<char>)> {
    s.map_values(|i: Icon| icon_view(i))
}

/// The selector for candidates of one priority.
pub open spec fn prio_pred(p: int) -> spec_fn((u8, Seq<char>)) -> bool {
    |x: (u8, Seq<char>)| x.0 == p
}

/// The candidates of one priority, in discovery order.
pub open spec fn prio_filter(s: Seq<(u8, Seq<char>)>, p: int) -> Seq<(u8, Seq<char>)> {
    s.filter(prio_pred(p))
}

/// Concatenation of the priority buckets below `p`, each in discovery
/// order.
pub open spec fn buckets_upto(s: Seq<(u8, Seq<char>)>, p: int) -> Seq<(u8, Seq<char>)>
    decreases p,
{
    if p <= 0 {
        Seq::empty()
    } else {
        buckets_upto(s, p - 1) + prio_filter(s, p - 1)
    }
}

/// The list sorted ascending by priority, ties kept in discovery order.
pub open spec fn sorted_by_priority(s: Seq<(u8, Seq<char>)>) -> Seq<(u8, Seq<char>)> {
    buckets_upto(s, 256)
}

proof fn lemma_filter_all_true<A>(s: Seq<A>, pred: spec_fn(A) -> bool)
    requires
        forall|i: int| 0 <= i < s.len() ==> pred(#[trigger] s[i]),
    ensures
        s.filter(pred) == s,
    decreases s.len(),
{
    reveal(Seq::filter);
    if s.len() > 0 {
        assert(forall|i: int| 0 <= i < s.drop_last().len() ==> pred(#[trigger] s.drop_last()[i]));
        lemma_filter_all_true(s.drop_last(), pred);
        assert(pred(s.last()));
        assert(s.filter(pred) =~= s);
    } else {
        assert(s.filter(pred) =~= s);
    }
}

proof fn lemma_filter_all_false<A>(s: Seq<A>, pred: spec_fn(A) -> bool)
    requires
        forall|i: int| 0 <= i < s.len() ==> !pred(#[trigger] s[i]),
    ensures
        s.filter(pred) == Seq::<A>::empty(),
    decreases s.len(),
{
    reveal(Seq::filter);
    if s.len() > 0 {
        assert(forall|i: int| 0 <= i < s.drop_last().len() ==> !pred(
            #[trigger] s.drop_last()[i],
        ));
        lemma_filter_all_false(s.drop_last(), pred);
        assert(s.filter(pred) =~= Seq::<A>::empty());
    } else {
        assert(s.filter(pred) =~= Seq::<A>::empty());
    }
}

proof fn lemma_filter_empty<A>(pred: spec_fn(A) -> bool)
    ensures
        Seq::<A>::empty().filter(pred) == Seq::<A>::empty(),
{
    reveal(Seq::filter);
}

proof fn lemma_filter_singleton<A>(x: A, pred: spec_fn(A) -> bool)
    ensures
        pred(x) ==> seq![x].filter(pred) == seq![x],
        !pred(x) ==> seq![x].filter(pred) == Seq::<A>::empty(),
{
    reveal_with_fuel(Seq::filter, 3);
    assert(seq![x].drop_last() =~= Seq::<A>::empty());
    assert(seq![x].last() == x);
    if pred(x) {
        assert(seq![x].filter(pred) =~= seq![x]);
    } else {
        assert(seq![x].filter(pred) =~= Seq::<A>::empty());
    }
}

/// Every element of a bucket concatenation has a priority below the bound,
/// and the concatenation is sorted ascending by priority.
proof fn lemma_buckets_sorted(s: Seq<(u8, Seq<char>)>, p: int)
    requires
        p >= 0,
    ensures
        forall|k: int|
            0 <= k < buckets_upto(s, p).len() ==> (#[trigger] buckets_upto(s, p)[k]).0 < p,
        forall|k1: int, k2: int|
            0 <= k1 <= k2 < buckets_upto(s, p).len() ==> (#[trigger] buckets_upto(s, p)[k1]).0
                <= (#[trigger] buckets_upto(s, p)[k2]).0,
    decreases p,
{
    broadcast use vstd::seq_lib::group_filter_ensures;

    if p > 0 {
        lemma_buckets_sorted(s, p - 1);
        let a = buckets_upto(s, p - 1);
        let b = prio_filter(s, p - 1);
        assert(forall|k: int| 0 <= k < b.len() ==> (#[trigger] b[k]).0 == p - 1);
        assert(forall|k: int| 0 <= k < (a + b).len() ==> (#[trigger] (a + b)[k]).0 < p) by {
            assert(forall|k: int|
                0 <= k < (a + b).len() ==> (a + b)[k] == if k < a.len() {
                    a[k]
                } else {
                    b[k - a.len()]
                });
        }
        assert(forall|k1: int, k2: int|
            0 <= k1 <= k2 < (a + b).len() ==> ((a + b)[k1]).0 <= ((a + b)[k2]).0);
    }
}

/// The sort keeps each priority's candidates exactly, in their discovery
/// order: stability and permutation in one statement.
proof fn lemma_buckets_filter(s: Seq<(u8, Seq<char>)>, p: int, q: int)
    requires
        p >= 0,
        q >= 0,
    ensures
        prio_filter(buckets_upto(s, p), q) == if q < p {
            prio_filter(s, q)
        } else {
            Seq::<(u8, Seq<char>)>::empty()
        },
    decreases p,
{
    broadcast use vstd::seq_lib::group_filter_ensures;

    let pred = prio_pred(q);
    if p <= 0 {
        lemma_filter_empty(pred);
        assert(buckets_upto(s, p) == Seq::<(u8, Seq<char>)>::empty());
    } else {
        lemma_buckets_filter(s, p - 1, q);
        let a = buckets_upto(s, p - 1);
        let b = prio_filter(s, p - 1);
        assert(buckets_upto(s, p) == a + b);
        Seq::filter_distributes_over_add(a, b, pred);
        assert((a + b).filter(pred) == a.filter(pred) + b.filter(pred));
        assert(a.filter(pred) == prio_filter(a, q));
        if q == p - 1 {
            assert(forall|k: int| 0 <= k < b.len() ==> pred(#[trigger] b[k]));
            lemma_filter_all_true(b, pred);
            assert(a.filter(pred) =~= Seq::<(u8, Seq<char>)>::empty());
            assert((a + b).filter(pred) =~= b);
            assert(b == prio_filter(s, q));
        } else {
            assert(forall|k: int| 0 <= k < b.len() ==> !pred(#[trigger] b[k]));
            lemma_filter_all_false(b, pred);
            if q < p - 1 {
                assert((a + b).filter(pred) =~= prio_filter(s, q));
            } else {
                assert((a + b).filter(pred) =~= Seq::<(u8, Seq<char>)>::empty());
            }
        }
    }
}

/// The sorted list is ascending by priority.
pub proof fn lemma_sorted_is_sorted(s: Seq<(u8, Seq<char>)>)
    ensures
        forall|k1: int, k2: int|
            0 <= k1 <= k2 < sorted_by_priority(s).len() ==> (#[trigger] sorted_by_priority(
                s,
            )[k1]).0 <= (#[trigger] sorted_by_priority(s)[k2]).0,
{
    lemma_buckets_sorted(s, 256);
}

/// The sorted list holds, for every priority, exactly the input's
/// candidates of that priority, in their input order.
pub proof fn lemma_sorted_stable(s: Seq<(u8, Seq<char>)>, q: int)
    requires
        0 <= q < 256,
    ensures
        prio_filter(sorted_by_priority(s), q) == prio_filter(s, q),
{
    lemma_buckets_filter(s, 256, q);
}

/// Sorting a non-empty list yields a non-empty list.
pub proof fn lemma_sorted_non_empty(s: Seq<(u8, Seq<char>)>)
    requires
        s.len() > 0,
    ensures
        sorted_by_priority(s).len() > 0,
{
    broadcast use vstd::seq_lib::group_filter_ensures;

    let q = s[0].0 as int;
    lemma_sorted_stable(s, q);
    let pred = prio_pred(q);
    assert(pred(s[0]));
    assert(s.filter(pred).contains(s[0]));
    assert(prio_filter(s, q).len() > 0);
    assert(prio_filter(sorted_by_priority(s), q).len() > 0);
    assert(sorted_by_priority(s).filter(prio_pred(q)).len() <= sorted_by_priority(s).len());
}

/// Stable sort by priority: walk the possible priorities in ascending
/// order, keeping each bucket's discovery order.
pub fn sort_icons(list: &Vec<Icon>) -> (r: Vec<Icon>)
    ensures
        icons_view(r@) == sorted_by_priority(icons_view(list@)),
{
    let vs = Ghost(icons_view(list@));
    let mut out: Vec<Icon> = Vec::new();
    let mut p: u16 = 0;
    assert(icons_view(out@) =~= buckets_upto(vs@, 0));
    while p < 256
        invariant
            vs@ == icons_view(list@),
            0 <= p <= 256,
            icons_view(out@) == buckets_upto(vs@, p as int),
        decreases 256 - p,
    {
        let pred = Ghost(prio_pred(p as int));
        let mut i: usize = 0;
        assert(vs@.take(0).filter(pred@) =~= Seq::<(u8, Seq<char>)>::empty());
        assert(icons_view(out@) =~= buckets_upto(vs@, p as int) + vs@.take(0).filter(pred@));
        while i < list.len()
            invariant
                vs@ == icons_view(list@),
                0 <= i <= list@.len(),
                0 <= p < 256,
                icons_view(out@) == buckets_upto(vs@, p as int) + vs@.take(i as int).filter(
                    pred@,
                ),
                pred@ == prio_pred(p as int),
            decreases list@.len() - i,
        {
            if list[i].priority as u16 == p {
                let ghost prev = out@;
                let dup = list[i].duplicate();
                out.push(dup);
                proof {
                    assert(out@ == prev.push(dup));
                    assert(vs@[i as int] == icon_view(list@[i as int]));
                    assert(pred@(vs@[i as int]));
                    assert(icons_view(out@) =~= icons_view(prev).push(vs@[i as int]));
                    assert(vs@.take(i + 1) =~= vs@.take(i as int) + seq![vs@[i as int]]);
                    Seq::filter_distributes_over_add(
                        vs@.take(i as int),
                        seq![vs@[i as int]],
                        pred@,
                    );
                    lemma_filter_singleton(vs@[i as int], pred@);
                    assert(icons_view(out@) =~= buckets_upto(vs@, p as int) + vs@.take(
                        i + 1,
                    ).filter(pred@));
                }
            } else {
                proof {
                    assert(vs@.take(i + 1) =~= vs@.take(i as int) + seq![vs@[i as int]]);
                    Seq::filter_distributes_over_add(
                        vs@.take(i as int),
                        seq![vs@[i as int]],
                        pred@,
                    );
                    lemma_filter_singleton(vs@[i as int], pred@);
                    assert(icons_view(out@) =~= buckets_upto(vs@, p as int) + vs@.take(
                        i + 1,
                    ).filter(pred@));
                }
            }
            i += 1;
        }
        proof {
            assert(vs@.take(list@.len() as int) =~= vs@);
            assert(icons_view(out@) =~= buckets_upto(vs@, p as int + 1));
        }
        p += 1;
    }
    out
}

pub open spec fn https_prefix() -> Seq<char> {
    seq!['h', 't', 't', 'p', 's', ':', '/', '/']
}

pub open spec fn http_prefix() -> Seq<char> {
    seq!['h', 't', 't', 'p', ':', '/', '/']
}

pub open spec fn favicon_path() -> Seq<char> {
    seq!['/', 'f', 'a', 'v', 'i', 'c', 'o', 'n', '.', 'i', 'c', 'o']
}

/// The blind `favicon.ico` guesses for a domain, secure scheme first.
pub open spec fn blind_guesses(domain: Seq<char>) -> Seq<(u8, Seq<char>)> {
    seq![
        (35u8, https_prefix() + domain + favicon_path()),
        (35u8, http_prefix() + domain + favicon_path()),
    ]
}

/// What one discovered `<link>` contributes: one scored candidate when its
/// `rel` names an icon, its `href` is allowed and resolves against the
/// page's final URL; nothing otherwise.
pub open spec fn link_candidate(
    base: Seq<char>,
    l: (Option<Seq<char>>, Option<Seq<char>>, Option<Seq<char>>),
) -> Seq<(u8, Seq<char>)> {
    match (l.0, l.1) {
        (Some(rel), Some(href)) => if rel_icon(rel) && href_allowed(href) {
            match join_of(base, href) {
                Some(full) => seq![(priority_spec(full, parse_sizes_spec(l.2)), full)],
                None => Seq::empty(),
            }
        } else {
            Seq::empty()
        },
        _ => Seq::empty(),
    }
}

/// The contributions of a run of links, in document order.
pub open spec fn link_candidates(
    base: Seq<char>,
    links: Seq<(Option<Seq<char>>, Option<Seq<char>>, Option<Seq<char>>)>,
) -> Seq<(u8, Seq<char>)>
    decreases links.len(),
{
    if links.len() == 0 {
        Seq::empty()
    } else {
        link_candidates(base, links.drop_last()) + link_candidate(base, links.last())
    }
}

/// The seed guess for a fetched page: `/favicon.ico` against the final
/// (post-redirect) URL, or the blind guesses if that URL does not resolve.
pub open spec fn seed_candidates(domain: Seq<char>, final_url: Seq<char>) -> Seq<
    (u8, Seq<char>),
> {
    match join_of(final_url, favicon_path()) {
        Some(u) => seq![(35u8, u)],
        None => blind_guesses(domain),
    }
}

/// Every candidate of one resolution attempt, in discovery order: the seed
/// first, then the page's qualifying links; with no page, the two blind
/// guesses. `page` is the final URL and the HTML body.
pub open spec fn raw_candidates(domain: Seq<char>, page: Option<(Seq<char>, Seq<char>)>) -> Seq<
    (u8, Seq<char>),
> {
    match page {
        None => blind_guesses(domain),
        Some(p) => seed_candidates(domain, p.0) + link_candidates(p.0, links_of(p.1)),
    }
}

/// A successfully fetched page: its final URL after redirects, the raw
/// `Set-Cookie` header values, and the (size-capped) HTML body.
pub struct FetchedPage {
    pub final_url: String,
    pub set_cookie: Vec<String>,
    pub html: String,
}

/// One blind guess URL: scheme prefix, domain, `/favicon.ico`.
fn guess_url(prefix: &str, domain: &str) -> (r: String)
    ensures
        r@ == prefix@ + domain@ + favicon_path(),
{
    let mut s = String::new();
    s.append(prefix);
    s.append(domain);
    s.append("/favicon.ico");
    proof {
        reveal_strlit("/favicon.ico");
        assert("/favicon.ico"@ =~= favicon_path());
        assert(s@ =~= prefix@ + domain@ + favicon_path());
    }
    s
}

/// Build the scored candidate list for a domain and the cookie string for
/// later downloads. The list is never empty and comes sorted ascending by
/// priority, ties in discovery order.
pub fn icon_candidates(domain: &str, page: Option<&FetchedPage>) -> (r: (Vec<Icon>, String))
    ensures
        icons_view(r.0@) == sorted_by_priority(
            raw_candidates(
                domain@,
                match page {
                    Some(p) => Some((p.final_url@, p.html@)),
                    None => None,
                },
            ),
        ),
        r.0@.len() > 0,
        r.1@ == match page {
            Some(p) => cookie_string_spec(p.set_cookie@),
            None => Seq::<char>::empty(),
        },
{
    proof {
        reveal_strlit("https://");
        reveal_strlit("http://");
        reveal_strlit("/favicon.ico");
        assert("https://"@ =~= https_prefix());
        assert("http://"@ =~= http_prefix());
        assert("/favicon.ico"@ =~= favicon_path());
    }
    let mut raw: Vec<Icon> = Vec::new();
    let mut cookies = String::new();
    match page {
        None => {
            raw.push(Icon::new(35, guess_url("https://", domain)));
            raw.push(Icon::new(35, guess_url("http://", domain)));
            assert(icons_view(raw@) =~= blind_guesses(domain@));
        },
        Some(p) => {
            let ghost base = p.final_url@;
            match crate::web::join_url(p.final_url.as_str(), "/favicon.ico") {
                Some(u) => {
                    raw.push(Icon::new(35, u));
                },
                None => {
                    raw.push(Icon::new(35, guess_url("https://", domain)));
                    raw.push(Icon::new(35, guess_url("http://", domain)));
                },
            }
            assert(icons_view(raw@) =~= seed_candidates(domain@, base));
            let links = crate::web::extract_links(p.html.as_str());
            let ghost ls = links_of(p.html@);
            let mut i: usize = 0;
            assert(ls.take(0) =~= Seq::<
                (Option<Seq<char>>, Option<Seq<char>>, Option<Seq<char>>),
            >::empty());
            while i < links.len()
                invariant
                    links@.len() == ls.len(),
                    forall|k: int| 0 <= k < links@.len() ==> link_view(links@[k]) == ls[k],
                    0 <= i <= links@.len(),
                    base == p.final_url@,
                    ls == links_of(p.html@),
                    icons_view(raw@) == seed_candidates(domain@, base) + link_candidates(
                        base,
                        ls.take(i as int),
                    ),
                decreases links@.len() - i,
            {
                let ghost before = raw@;
                let l = &links[i];
                if let Some(relv) = &l.rel {
                    if crate::links::rel_is_icon(relv.as_str()) {
                        if let Some(hrefv) = &l.href {
                            if crate::links::href_is_allowed(hrefv.as_str()) {
                                match crate::web::join_url(p.final_url.as_str(), hrefv.as_str()) {
                                    Some(full) => {
                                        let sz: Option<&str> = match &l.sizes {
                                            Some(s) => Some(s.as_str()),
                                            None => None,
                                        };
                                        let pr = crate::priority::get_icon_priority(
                                            full.as_str(),
                                            sz,
                                        );
                                        raw.push(Icon::new(pr, full));
                                    },
                                    None => {},
                                }
                            }
                        }
                    }
                }
                proof {
                    assert(link_view(links@[i as int]) == ls[i as int]);
                    assert(icons_view(raw@) =~= icons_view(before) + link_candidate(
                        base,
                        ls[i as int],
                    ));
                    assert(ls.take(i + 1).drop_last() =~= ls.take(i as int));
                    assert(ls.take(i + 1).last() == ls[i as int]);
                    assert(icons_view(raw@) =~= seed_candidates(domain@, base) + link_candidates(
                        base,
                        ls.take(i + 1),
                    ));
                }
                i += 1;
            }
            proof {
                assert(ls.take(ls.len() as int) =~= ls);
            }
            cookies = crate::cookies::cookie_string(&p.set_cookie);
        },
    }
    proof {
        lemma_sorted_non_empty(icons_view(raw@));
    }
    let sorted = sort_icons(&raw);
    (sorted, cookies)
}

proof fn lemma_same_priority_buckets(s: Seq<(u8, Seq<char>)>, p: int)
    requires
        p >= 0,
        forall|i: int| 0 <= i < s.len() ==> (#[trigger] s[i]).0 == 35,
    ensures
        buckets_upto(s, p) == if p <= 35 {
            Seq::<(u8, Seq<char>)>::empty()
        } else {
            s
        },
    decreases p,
{
    if p > 0 {
        lemma_same_priority_buckets(s, p - 1);
        if p - 1 == 35 {
            lemma_filter_all_true(s, prio_pred(35));
            assert(buckets_upto(s, p) =~= s);
        } else {
            lemma_filter_all_false(s, prio_pred(p - 1));
            if p - 1 < 35 {
                assert(buckets_upto(s, p) =~= Seq::<(u8, Seq<char>)>::empty());
            } else {
                assert(buckets_upto(s, p) =~= s);
            }
        }
    }
}

/// With no reachable page, the candidate list is exactly the two blind
/// `favicon.ico` guesses, https first, in discovery order: sorting does not
/// disturb them.
pub proof fn lemma_no_page_candidates(domain: Seq<char>)
    ensures
        sorted_by_priority(raw_candidates(domain, None)) == blind_guesses(domain),
{
    let s = blind_guesses(domain);
    assert(forall|i: int| 0 <= i < s.len() ==> (#[trigger] s[i]).0 == 35);
    lemma_same_priority_buckets(s, 256);
}

} // verus!
