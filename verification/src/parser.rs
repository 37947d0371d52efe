//! Markdown rendering, behind a trusted wrapper.

use vstd::prelude::*;

verus! {

/// The HTML the Markdown renderer produces for a source text, as a function
/// of the text alone.
pub uninterp spec fn html_of(source: Seq<char>) -> Seq<char>;

/// The Markdown renderer.
pub struct MdParser;

impl MdParser {
    /// Relies on `markdown::to_html`: the rendered HTML depends on the
    /// source text alone.
    #[verifier::external_body]
    pub fn generate(source: &str) -> (r: String)
        ensures
            r@ == html_of(source@),
    {
        markdown::to_html(source)
    }
}

} // verus!
