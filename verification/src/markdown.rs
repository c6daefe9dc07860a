//! Markdown to HTML, done by pulldown-cmark.

use vstd::prelude::*;

verus! {

/// The HTML that pulldown-cmark renders for a Markdown source, with
/// footnotes, strikethrough, tables and task lists switched on.
pub uninterp spec fn rendered_html(source: Seq<char>) -> Seq<char>;

/// Parses with `pulldown_cmark::Parser::new_ext` and renders with
/// `pulldown_cmark::html::push_html`. Trusted: the HTML is a function of the
/// source alone.
#[verifier::external_body]
fn cmark_html(source: &str) -> (html: String)
    ensures
        html@ == rendered_html(source@),
{
    let mut options = pulldown_cmark::Options::empty();
    options.insert(pulldown_cmark::Options::ENABLE_FOOTNOTES);
    options.insert(pulldown_cmark::Options::ENABLE_STRIKETHROUGH);
    options.insert(pulldown_cmark::Options::ENABLE_TABLES);
    options.insert(pulldown_cmark::Options::ENABLE_TASKLISTS);
    let mut html = String::with_capacity(source.len());
    pulldown_cmark::html::push_html(&mut html, pulldown_cmark::Parser::new_ext(source, options));
    html
}

/// Renders a Markdown source to HTML.
pub fn markdown_to_html(md_source: &str) -> (html: String)
    ensures
        html@ == rendered_html(md_source@),
{
    cmark_html(md_source)
}

} // verus!
