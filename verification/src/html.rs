//! Trusted access to the `scraper` crate: parsing HTML and running CSS
//! selectors. The matches a selector produces on a given markup string are a
//! function of the two strings alone, so they are given names here that the
//! wrappers' contracts and the extractors' contracts share.

use vstd::prelude::*;

verus! {

/// Whether `css` is a well-formed CSS selector, as `scraper::Selector::parse`
/// decides.
pub uninterp spec fn css_selector_ok(css: Seq<char>) -> bool;

/// The inner markup of each element matched by the selector `css` over the
/// markup `html` parsed as a full document, in document order.
pub uninterp spec fn doc_inner_htmls_of(html: Seq<char>, css: Seq<char>) -> Seq<Seq<char>>;

/// The value of attribute `attr` (or `None` where the attribute is absent) of
/// each element matched by the selector `css` over the markup `html` parsed
/// as a standalone fragment, in document order.
pub uninterp spec fn frag_attr_vals_of(html: Seq<char>, css: Seq<char>, attr: Seq<char>) -> Seq<
    Option<Seq<char>>,
>;

/// As `frag_attr_vals_of`, but over `html` parsed as a full document.
pub uninterp spec fn doc_attr_vals_of(html: Seq<char>, css: Seq<char>, attr: Seq<char>) -> Seq<
    Option<Seq<char>>,
>;

/// The views of a vector of strings.
pub open spec fn strs_view(v: Seq<String>) -> Seq<Seq<char>> {
    v.map_values(|s: String| s@)
}

/// The views of a vector of optional strings.
pub open spec fn opt_strs_view(v: Seq<Option<String>>) -> Seq<Option<Seq<char>>> {
    v.map_values(
        |o: Option<String>|
            match o {
                Option::Some(s) => Option::Some(s@),
                Option::None => Option::<Seq<char>>::None,
            },
    )
}

/// Relies on `scraper::Selector::parse`: whether a selector string parses
/// depends on the string alone, and `Html::parse_document` and `select` never
/// fail; each match's `inner_html` is read out in document order.
#[verifier::external_body]
pub(crate) fn doc_inner_htmls(html: &str, css: &str) -> (r: Option<Vec<String>>)
    ensures
        r is Some <==> css_selector_ok(css@),
        r matches Some(v) ==> strs_view(v@) == doc_inner_htmls_of(html@, css@),
{
    let sel = match scraper::Selector::parse(css) {
        Ok(s) => s,
        Err(_) => return None,
    };
    let doc = scraper::Html::parse_document(html);
    Some(doc.select(&sel).map(|e| e.inner_html()).collect())
}

/// Relies on `scraper::Selector::parse`, `Html::parse_fragment`, `select` and
/// `ElementRef::attr`: each match's given attribute, in document order.
#[verifier::external_body]
pub(crate) fn frag_attr_vals(html: &str, css: &str, attr: &str) -> (r: Option<Vec<Option<String>>>)
    ensures
        r is Some <==> css_selector_ok(css@),
        r matches Some(v) ==> opt_strs_view(v@) == frag_attr_vals_of(html@, css@, attr@),
{
    let sel = match scraper::Selector::parse(css) {
        Ok(s) => s,
        Err(_) => return None,
    };
    let frag = scraper::Html::parse_fragment(html);
    Some(frag.select(&sel).map(|e| e.attr(attr).map(|a| a.to_string())).collect())
}

/// Relies on `scraper::Selector::parse`, `Html::parse_document`, `select` and
/// `ElementRef::attr`: each match's given attribute, in document order.
#[verifier::external_body]
pub(crate) fn doc_attr_vals(html: &str, css: &str, attr: &str) -> (r: Option<Vec<Option<String>>>)
    ensures
        r is Some <==> css_selector_ok(css@),
        r matches Some(v) ==> opt_strs_view(v@) == doc_attr_vals_of(html@, css@, attr@),
{
    let sel = match scraper::Selector::parse(css) {
        Ok(s) => s,
        Err(_) => return None,
    };
    let doc = scraper::Html::parse_document(html);
    Some(doc.select(&sel).map(|e| e.attr(attr).map(|a| a.to_string())).collect())
}

} // verus!
