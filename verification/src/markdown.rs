//! The Markdown renderer, as the rest of the library sees it: a function
//! from Markdown text to HTML text.

use vstd::prelude::*;

verus! {

/// The HTML text that the renderer gives for the Markdown text `source`.
pub uninterp spec fn markdown_html(source: Seq<char>) -> Seq<char>;

/// Renders Markdown to HTML with `pulldown_cmark::html::push_html`, on the
/// events of `pulldown_cmark::Parser::new` (no extension enabled), into an
/// empty string. Nothing is proved of the renderer: the contract only gives
/// its output a name, as a function of the source text alone.
#[verifier::external_body]
pub(crate) fn render(source: &str) -> (html: String)
    ensures
        html@ == markdown_html(source@),
{
    let mut html = String::new();
    pulldown_cmark::html::push_html(&mut html, pulldown_cmark::Parser::new(source));
    html
}

} // verus!
