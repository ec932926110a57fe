//! The errors an extraction can end in: an expected element or attribute was
//! not found in the page. There is no partial success; any one of these fails
//! the whole operation.

use vstd::prelude::*;

verus! {

/// Why an extraction failed.
#[derive(Clone, Copy, Debug, PartialEq, Eq, Structural)]
pub enum ExtractError {
    /// A result card's title anchor has no link attribute.
    MissingHref,
    /// No description block was found on the detail page.
    MissingSynopsis,
    /// No title heading was found on the detail page.
    MissingName,
    /// No poster image was found on the detail page.
    MissingPoster,
    /// The poster image has no source attribute.
    MissingPosterSrc,
}

impl ExtractError {
    /// A short description of the error.
    pub fn message(&self) -> (r: &'static str)
        ensures
            r@ == self.spec_message(),
    {
        match self {
            ExtractError::MissingHref => "a result card's title link has no href attribute",
            ExtractError::MissingSynopsis => "no description block on the detail page",
            ExtractError::MissingName => "no title heading on the detail page",
            ExtractError::MissingPoster => "no poster image on the detail page",
            ExtractError::MissingPosterSrc => "the poster image has no src attribute",
        }
    }

    /// The description `message` returns.
    pub open spec fn spec_message(&self) -> Seq<char> {
        match self {
            ExtractError::MissingHref => "a result card's title link has no href attribute"@,
            ExtractError::MissingSynopsis => "no description block on the detail page"@,
            ExtractError::MissingName => "no title heading on the detail page"@,
            ExtractError::MissingPoster => "no poster image on the detail page"@,
            ExtractError::MissingPosterSrc => "the poster image has no src attribute"@,
        }
    }
}

} // verus!
