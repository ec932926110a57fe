//! Extraction of a title's details: given the markup of a detail page, read
//! the description block, the title heading and the poster image. All three
//! are required; any one missing fails the whole operation.

use vstd::prelude::*;
use crate::err::ExtractError;
use crate::html::css_selector_ok;
use crate::html::doc_attr_vals;
use crate::html::doc_attr_vals_of;
use crate::html::doc_inner_htmls;
use crate::html::doc_inner_htmls_of;
use crate::html::opt_strs_view;
use crate::html::strs_view;
use crate::text::spec_trim;
use crate::text::trim;

verus! {

/// A title's details. All three fields are required; there is no partial
/// result.
pub struct AnimeData {
    pub name: String,
    pub synopsis: String,
    pub poster_image: String,
}

/// The selector for the description block.
pub open spec fn synopsis_css() -> Seq<char> {
    "div.film-description > div"@
}

/// The selector for the title heading.
pub open spec fn name_css() -> Seq<char> {
    "h2.film-name.dynamic-name"@
}

/// The selector for the poster image.
pub open spec fn poster_css() -> Seq<char> {
    "img.film-poster-img"@
}

/// The inner markup of each description block of the page.
pub open spec fn synopsis_matches(html: Seq<char>) -> Seq<Seq<char>> {
    if css_selector_ok(synopsis_css()) {
        doc_inner_htmls_of(html, synopsis_css())
    } else {
        Seq::empty()
    }
}

/// The inner markup of each title heading of the page.
pub open spec fn name_matches(html: Seq<char>) -> Seq<Seq<char>> {
    if css_selector_ok(name_css()) {
        doc_inner_htmls_of(html, name_css())
    } else {
        Seq::empty()
    }
}

/// The image-source attribute of each poster image of the page.
pub open spec fn poster_attrs(html: Seq<char>) -> Seq<Option<Seq<char>>> {
    if css_selector_ok(poster_css()) {
        doc_attr_vals_of(html, poster_css(), "src"@)
    } else {
        Seq::empty()
    }
}

/// Whether extraction succeeds: a description block, a title heading, and a
/// poster image that carries a source attribute are all present.
pub open spec fn detail_ok(html: Seq<char>) -> bool {
    &&& synopsis_matches(html).len() > 0
    &&& name_matches(html).len() > 0
    &&& poster_attrs(html).len() > 0
    &&& poster_attrs(html)[0] is Some
}

/// Which error a failed extraction reports: the elements are sought in the
/// order description, heading, poster, and the first one missing decides.
pub open spec fn spec_detail_err(html: Seq<char>) -> ExtractError {
    if synopsis_matches(html).len() == 0 {
        ExtractError::MissingSynopsis
    } else if name_matches(html).len() == 0 {
        ExtractError::MissingName
    } else if poster_attrs(html).len() == 0 {
        ExtractError::MissingPoster
    } else {
        ExtractError::MissingPosterSrc
    }
}

/// The name a successful extraction yields: the first heading's inner
/// markup, trimmed.
pub open spec fn spec_detail_name(html: Seq<char>) -> Seq<char> {
    spec_trim(name_matches(html)[0])
}

/// The synopsis a successful extraction yields: the first description
/// block's inner markup, trimmed.
pub open spec fn spec_detail_synopsis(html: Seq<char>) -> Seq<char> {
    spec_trim(synopsis_matches(html)[0])
}

/// The poster a successful extraction yields: the first poster image's
/// source attribute, verbatim.
pub open spec fn spec_detail_poster(html: Seq<char>) -> Seq<char> {
    poster_attrs(html)[0]->Some_0
}

/// A successfully extracted name and synopsis carry no leading or trailing
/// whitespace; the poster's source attribute is not trimmed.
pub proof fn lemma_detail_fields_trimmed(html: Seq<char>)
    ensures
        spec_detail_name(html).len() > 0 ==> !crate::text::is_ws(spec_detail_name(html)[0]),
        spec_detail_name(html).len() > 0 ==> !crate::text::is_ws(
            spec_detail_name(html)[spec_detail_name(html).len() - 1],
        ),
        spec_detail_synopsis(html).len() > 0 ==> !crate::text::is_ws(spec_detail_synopsis(html)[0]),
        spec_detail_synopsis(html).len() > 0 ==> !crate::text::is_ws(
            spec_detail_synopsis(html)[spec_detail_synopsis(html).len() - 1],
        ),
{
    crate::text::lemma_trim_no_edge_ws(name_matches(html)[0]);
    crate::text::lemma_trim_no_edge_ws(synopsis_matches(html)[0]);
}

/// Reads a detail page's three required elements. Succeeds if and only if
/// all three are present: the name and synopsis are trimmed of leading and
/// trailing whitespace, the poster's source attribute is taken verbatim.
pub fn detail_extract(html: &str) -> (r: Result<AnimeData, ExtractError>)
    ensures
        r is Ok <==> detail_ok(html@),
        r matches Ok(d) ==> d.name@ == spec_detail_name(html@),
        r matches Ok(d) ==> d.synopsis@ == spec_detail_synopsis(html@),
        r matches Ok(d) ==> d.poster_image@ == spec_detail_poster(html@),
        r matches Err(e) ==> e == spec_detail_err(html@),
{
    let syns: Vec<String> = match doc_inner_htmls(html, "div.film-description > div") {
        Some(v) => v,
        None => Vec::new(),
    };
    proof {
        assert(strs_view(syns@) =~= synopsis_matches(html@));
    }
    if syns.len() == 0 {
        return Err(ExtractError::MissingSynopsis);
    }
    let synopsis = trim(syns[0].as_str());
    proof {
        assert(syns@[0]@ == synopsis_matches(html@)[0]);
    }
    let names: Vec<String> = match doc_inner_htmls(html, "h2.film-name.dynamic-name") {
        Some(v) => v,
        None => Vec::new(),
    };
    proof {
        assert(strs_view(names@) =~= name_matches(html@));
    }
    if names.len() == 0 {
        return Err(ExtractError::MissingName);
    }
    let name = trim(names[0].as_str());
    proof {
        assert(names@[0]@ == name_matches(html@)[0]);
    }
    let mut posters: Vec<Option<String>> = match doc_attr_vals(html, "img.film-poster-img", "src") {
        Some(v) => v,
        None => Vec::new(),
    };
    proof {
        assert(opt_strs_view(posters@) =~= poster_attrs(html@));
    }
    if posters.len() == 0 {
        return Err(ExtractError::MissingPoster);
    }
    proof {
        assert(opt_strs_view(posters@)[0] == poster_attrs(html@)[0]);
    }
    let first = posters.remove(0);
    match first {
        Some(poster_image) => Ok(
            AnimeData { name, synopsis, poster_image },
        ),
        None => Err(ExtractError::MissingPosterSrc),
    }
}

} // verus!
