//! Extraction of search results: given the markup of a search page, find the
//! results-list containers, find each result card's title anchor inside them,
//! and normalize each anchor's link into the site's identifier for the title.

use vstd::prelude::*;
use crate::err::ExtractError;
use crate::html::css_selector_ok;
use crate::html::doc_inner_htmls;
use crate::html::doc_inner_htmls_of;
use crate::html::frag_attr_vals;
use crate::html::frag_attr_vals_of;
use crate::html::opt_strs_view;
use crate::html::strs_view;
use crate::text::remove_all;
use crate::text::spec_remove_all;

verus! {

/// One search result: the site's identifier for a title.
pub struct SearchData {
    pub id: String,
}

/// All results of one search, in document order. May be empty.
pub struct SearchResult {
    pub results: Vec<SearchData>,
}

/// The selector for the wrapping element that holds the film list.
pub open spec fn list_css() -> Seq<char> {
    "div.film_list-wrap"@
}

/// The selector for a result card's title anchor.
pub open spec fn anchor_css() -> Seq<char> {
    "div.flw-item > div:nth-child(2) > h3:nth-child(1) > a:nth-child(1)"@
}

/// An anchor's link normalized into an identifier: the literal substring
/// `?ref=search` is deleted, and then every `/`.
pub open spec fn norm_id(href: Seq<char>) -> Seq<char> {
    spec_remove_all(spec_remove_all(href, "?ref=search"@), "/"@)
}

/// The inner markup of each results-list container of the page.
pub open spec fn containers(html: Seq<char>) -> Seq<Seq<char>> {
    if css_selector_ok(list_css()) {
        doc_inner_htmls_of(html, list_css())
    } else {
        Seq::empty()
    }
}

/// The link attribute of each title anchor of one container's markup,
/// re-parsed as a standalone fragment.
pub open spec fn anchor_hrefs(container: Seq<char>) -> Seq<Option<Seq<char>>> {
    if css_selector_ok(anchor_css()) {
        frag_attr_vals_of(container, anchor_css(), "href"@)
    } else {
        Seq::empty()
    }
}

/// The anchors' links of the first `i` containers, concatenated in order.
pub open spec fn hrefs_upto(cs: Seq<Seq<char>>, i: int) -> Seq<Option<Seq<char>>>
    decreases i,
{
    if i <= 0 {
        Seq::empty()
    } else {
        hrefs_upto(cs, i - 1) + anchor_hrefs(cs[i - 1])
    }
}

/// Every title anchor's link of the page, in document order.
pub open spec fn search_hrefs(html: Seq<char>) -> Seq<Option<Seq<char>>> {
    hrefs_upto(containers(html), containers(html).len() as int)
}

/// Whether extraction succeeds: every title anchor carries a link attribute.
pub open spec fn search_ok(html: Seq<char>) -> bool {
    forall|j: int| 0 <= j < search_hrefs(html).len() ==> search_hrefs(html)[j] is Some
}

/// The identifiers the links normalize to, in order.
pub open spec fn ids_of(hrefs: Seq<Option<Seq<char>>>) -> Seq<Seq<char>> {
    hrefs.map_values(
        |o: Option<Seq<char>>| norm_id(if o is Some { o->Some_0 } else { Seq::empty() }),
    )
}

/// The identifiers extracted from the page, in document order.
pub open spec fn search_ids(html: Seq<char>) -> Seq<Seq<char>> {
    ids_of(search_hrefs(html))
}

/// The identifiers a `SearchResult` holds, in order.
pub open spec fn results_view(rs: Seq<SearchData>) -> Seq<Seq<char>> {
    rs.map_values(|d: SearchData| d.id@)
}

/// A shorter prefix of the concatenation is a prefix of a longer one.
proof fn lemma_hrefs_upto_prefix(cs: Seq<Seq<char>>, i: int, n: int)
    requires
        0 <= i <= n,
    ensures
        hrefs_upto(cs, i).len() <= hrefs_upto(cs, n).len(),
        forall|j: int|
            0 <= j < hrefs_upto(cs, i).len() ==> hrefs_upto(cs, n)[j] == hrefs_upto(cs, i)[j],
    decreases n - i,
{
    if i < n {
        lemma_hrefs_upto_prefix(cs, i, n - 1);
        assert(hrefs_upto(cs, n) == hrefs_upto(cs, n - 1) + anchor_hrefs(cs[n - 1]));
        assert forall|j: int| 0 <= j < hrefs_upto(cs, i).len() implies hrefs_upto(cs, n)[j]
            == hrefs_upto(cs, i)[j] by {
            assert(hrefs_upto(cs, n)[j] == hrefs_upto(cs, n - 1)[j]);
        }
    }
}

/// Every identifier the search extraction yields is free of `/`.
pub proof fn lemma_search_ids_no_slash(html: Seq<char>)
    ensures
        forall|j: int, k: int|
            0 <= j < search_ids(html).len() && 0 <= k < search_ids(html)[j].len()
                ==> search_ids(html)[j][k] != '/',
{
    reveal_strlit("/");
    assert("/"@ =~= seq!['/']);
    assert forall|j: int, k: int|
        0 <= j < search_ids(html).len() && 0 <= k < search_ids(html)[j].len() implies search_ids(
        html,
    )[j][k] != '/' by {
        let o = search_hrefs(html)[j];
        let h = if o is Some {
            o->Some_0
        } else {
            Seq::<char>::empty()
        };
        assert(search_ids(html)[j] == norm_id(h));
        crate::text::lemma_remove_all_char_absent(spec_remove_all(h, "?ref=search"@), '/');
    }
}

/// Locates every result card's title anchor of a search page and returns the
/// identifiers their links normalize to, in document order. Fails if and only
/// if some matched anchor has no link attribute; a page without containers or
/// without anchors yields an empty result.
pub fn search_extract(html: &str) -> (r: Result<SearchResult, ExtractError>)
    ensures
        r is Ok <==> search_ok(html@),
        r matches Ok(sr) ==> results_view(sr.results@) == search_ids(html@),
        r matches Err(e) ==> e == ExtractError::MissingHref,
{
    proof {
        reveal_strlit("?ref=search");
        reveal_strlit("/");
    }
    let cs: Vec<String> = match doc_inner_htmls(html, "div.film_list-wrap") {
        Some(v) => v,
        None => Vec::new(),
    };
    let ghost gcs = containers(html@);
    proof {
        assert(strs_view(cs@) =~= gcs);
        assert(gcs.len() == cs@.len());
    }
    let mut out: Vec<SearchData> = Vec::new();
    let mut i: usize = 0;
    proof {
        assert(results_view(out@) =~= ids_of(hrefs_upto(gcs, 0)));
    }
    while i < cs.len()
        invariant
            0 <= i <= cs.len(),
            strs_view(cs@) == gcs,
            gcs == containers(html@),
            gcs.len() == cs@.len(),
            forall|j: int|
                0 <= j < hrefs_upto(gcs, i as int).len() ==> hrefs_upto(gcs, i as int)[j] is Some,
            results_view(out@) == ids_of(hrefs_upto(gcs, i as int)),
        decreases cs.len() - i,
    {
        proof {
            assert(gcs[i as int] == strs_view(cs@)[i as int]);
        }
        let hs: Vec<Option<String>> = match frag_attr_vals(
            cs[i].as_str(),
            "div.flw-item > div:nth-child(2) > h3:nth-child(1) > a:nth-child(1)",
            "href",
        ) {
            Some(v) => v,
            None => Vec::new(),
        };
        let ghost base = hrefs_upto(gcs, i as int);
        let ghost ah = anchor_hrefs(gcs[i as int]);
        proof {
            assert(opt_strs_view(hs@) =~= ah);
            assert(ah.len() == hs@.len());
        }
        let mut k: usize = 0;
        proof {
            assert(base + ah.take(0) =~= base);
        }
        while k < hs.len()
            invariant
                0 <= k <= hs.len(),
                0 <= i < cs.len(),
                strs_view(cs@) == gcs,
                gcs == containers(html@),
                gcs.len() == cs@.len(),
                opt_strs_view(hs@) == ah,
                ah == anchor_hrefs(gcs[i as int]),
                ah.len() == hs@.len(),
                base == hrefs_upto(gcs, i as int),
                forall|j: int| 0 <= j < base.len() ==> base[j] is Some,
                forall|j: int| 0 <= j < k ==> ah[j] is Some,
                results_view(out@) == ids_of(base + ah.take(k as int)),
            decreases hs.len() - k,
        {
            proof {
                assert(ah[k as int] == opt_strs_view(hs@)[k as int]);
            }
            match &hs[k] {
                Some(h) => {
                    let ghost before = out@;
                    proof {
                        reveal_strlit("?ref=search");
                        reveal_strlit("/");
                    }
                    let inner = remove_all(h.as_str(), "?ref=search");
                    let id = remove_all(inner.as_str(), "/");
                    let ghost gid = id@;
                    proof {
                        assert(gid == norm_id(h@));
                    }
                    out.push(SearchData { id });
                    proof {
                        assert(ah[k as int] is Some && ah[k as int]->Some_0 == h@);
                        assert(out@.len() == before.len() + 1);
                        assert(out@[out@.len() - 1].id@ == gid);
                        assert(results_view(before) == ids_of(base + ah.take(k as int)));
                        assert(before.len() == results_view(before).len());
                        assert(ah.take(k as int).len() == k);
                        assert(before.len() == base.len() + k);
                        let old_cat = base + ah.take(k as int);
                        let new_cat = base + ah.take(k + 1);
                        assert(new_cat.len() == base.len() + k + 1);
                        assert forall|j: int|
                            0 <= j < base.len() + k + 1 implies #[trigger] results_view(out@)[j]
                            == ids_of(new_cat)[j] by {
                            assert(results_view(out@)[j] == out@[j].id@);
                            if j < base.len() + k {
                                assert(out@[j] == before[j]);
                                assert(results_view(before)[j] == before[j].id@);
                                if j < base.len() {
                                    assert(new_cat[j] == base[j]);
                                    assert(old_cat[j] == base[j]);
                                } else {
                                    assert(new_cat[j] == ah.take(k + 1)[j - base.len()]);
                                    assert(ah.take(k + 1)[j - base.len()] == ah[j - base.len()]);
                                    assert(old_cat[j] == ah.take(k as int)[j - base.len()]);
                                    assert(ah.take(k as int)[j - base.len()] == ah[j - base.len()]);
                                }
                                assert(ids_of(new_cat)[j] == ids_of(old_cat)[j]);
                            } else {
                                assert(j == base.len() + k);
                                assert(out@[j].id@ == gid);
                                assert(new_cat[j] == ah.take(k + 1)[k as int]);
                                assert(ah.take(k + 1)[k as int] == ah[k as int]);
                                assert(ids_of(new_cat)[j] == norm_id(h@));
                            }
                        }
                        assert(results_view(out@) =~= ids_of(new_cat));
                    }
                },
                None => {
                    proof {
                        let n = gcs.len() as int;
                        assert(hrefs_upto(gcs, i + 1) == base + ah);
                        lemma_hrefs_upto_prefix(gcs, i + 1, n);
                        let p = base.len() + k;
                        assert((base + ah)[p] == ah[k as int]);
                        assert(search_hrefs(html@)[p] == (base + ah)[p]);
                        assert(!search_ok(html@));
                    }
                    return Err(ExtractError::MissingHref);
                },
            }
            k = k + 1;
        }
        proof {
            assert(ah.take(ah.len() as int) =~= ah);
            assert(hrefs_upto(gcs, i + 1) == base + ah);
            assert forall|j: int|
                0 <= j < hrefs_upto(gcs, i + 1).len() implies #[trigger] hrefs_upto(gcs, i + 1)[j]
                is Some by {
                if j < base.len() {
                    assert((base + ah)[j] == base[j]);
                } else {
                    assert((base + ah)[j] == ah[j - base.len()]);
                }
            }
        }
        i = i + 1;
    }
    proof {
        assert(hrefs_upto(gcs, i as int) == search_hrefs(html@));
    }
    Ok(SearchResult { results: out })
}

} // verus!
