//! HTML-to-Markdown rendering, delegated to an outside collaborator.

use vstd::prelude::*;

verus! {

/// What the Markdown renderer makes of an HTML fragment. The rendering
/// is involved, but it is a deterministic function of the input alone,
/// so it is only named here; contracts downstream speak of this name.
pub uninterp spec fn markdown_of(html: Seq<char>) -> Seq<char>;

/// Relies on `html2md::parse_html`: it parses the HTML fragment and
/// renders it as Markdown, a deterministic function of the input string
/// with no side effects.
#[verifier::external_body]
pub(crate) fn render_markdown(html: &str) -> (r: String)
    ensures
        r@ == markdown_of(html@),
{
    html2md::parse_html(html)
}

} // verus!
