//! Markdown to HTML, by way of the `comrak` crate.

use vstd::prelude::*;

verus! {

/// The HTML that `comrak` makes of a markdown text under its default
/// options: the CommonMark rules, with no extension switched on.
pub uninterp spec fn commonmark_html(markdown: Seq<char>) -> Seq<char>;

/// Calls `comrak::markdown_to_html` with `comrak::Options::default()`.
///
/// Nothing is proved of the conversion itself. The contract only gives its
/// result a name, which claims that the HTML depends on the markdown text
/// and on nothing else, and that every text is converted: `comrak` reports
/// no error, and renders what it cannot parse as literal text.
#[verifier::external_body]
fn markdown_to_html(markdown: &str) -> (html: String)
    ensures
        html@ == commonmark_html(markdown@),
{
    comrak::markdown_to_html(markdown, &comrak::Options::default())
}

/// Renders a markdown document as HTML.
///
/// The whole text is converted, its first line included, and the HTML is
/// handed back as the converter made it: no link is rewritten and nothing is
/// sanitised.
pub fn render_markdown(markdown: &str) -> (html: String)
    ensures
        html@ == commonmark_html(markdown@),
{
    markdown_to_html(markdown)
}

} // verus!
