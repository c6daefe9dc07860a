//! Pages: what a source file becomes, and plain collections of them.

use vstd::prelude::*;
use vstd::std_specs::slice::into_iter_elts;
use crate::error::{ParseError, ParseErrorView};
use crate::record::{lines_record, record_view, yaml_record, FieldValueView, Record};
use crate::frontmatter::{split, split_spec};
use crate::markdown::{markdown_to_html, rendered_html};

verus! {

/// Something that can be written out as an HTML document.
pub trait AsHtml {
    /// The HTML of the value.
    fn as_html(&self) -> String;
}

/// A page that is HTML already.
#[derive(Clone, Debug)]
pub struct HtmlPage {
    pub content: String,
}

impl HtmlPage {
    /// A page with the given HTML.
    pub fn new(content: String) -> (page: HtmlPage)
        ensures
            page.content@ == content@,
    {
        HtmlPage { content }
    }
}

impl AsHtml for HtmlPage {
    fn as_html(&self) -> (html: String)
        ensures
            html@ == self.content@,
    {
        self.content.clone()
    }
}

/// The model of a text or Markdown page.
pub struct PageView {
    pub metadata: Option<Seq<(Seq<char>, FieldValueView)>>,
    pub content: Seq<char>,
}

/// How the front matter of a document is written.
#[derive(Clone, Copy, Debug, PartialEq, Eq, Structural)]
pub enum Syntax {
    /// One `key: value` pair on each line.
    Lines,
    /// A YAML mapping, each value a text or a mapping of texts.
    Yaml,
}

/// The record that a front matter block holds under the given syntax, or
/// `None` where it is malformed.
pub open spec fn record_spec(source: Seq<char>, syntax: Syntax) -> Option<
    Seq<(Seq<char>, FieldValueView)>,
> {
    match syntax {
        Syntax::Lines => lines_record(source),
        Syntax::Yaml => yaml_record(source),
    }
}

/// What parsing a text page yields: the record of its front matter, if it
/// has one, and its body as written.
pub open spec fn text_page_spec(raw: Seq<char>, syntax: Syntax) -> Result<PageView, ParseErrorView> {
    match split_spec(raw) {
        Err(e) => Err(e),
        Ok(parts) => match parts.metadata_source {
            None => Ok(PageView { metadata: None, content: parts.body }),
            Some(source) => match record_spec(source, syntax) {
                None => Err(ParseErrorView::MalformedFrontmatter),
                Some(record) => Ok(PageView { metadata: Some(record), content: parts.body }),
            },
        },
    }
}

/// What parsing a Markdown page yields: as for a text page, with the body
/// rendered to HTML.
pub open spec fn markdown_page_spec(raw: Seq<char>, syntax: Syntax) -> Result<
    PageView,
    ParseErrorView,
> {
    match text_page_spec(raw, syntax) {
        Err(e) => Err(e),
        Ok(page) => Ok(PageView { metadata: page.metadata, content: rendered_html(page.content) }),
    }
}

/// A text document: the record of its front matter, if it has one, and its
/// body.
#[derive(Debug)]
pub struct TextPage {
    pub metadata: Option<Record>,
    pub content: String,
}

impl View for TextPage {
    type V = PageView;

    open spec fn view(&self) -> PageView {
        PageView { metadata: record_view(self.metadata), content: self.content@ }
    }
}

/// The model of a text page parsing's outcome.
pub open spec fn text_page_result_view(r: Result<TextPage, ParseError>) -> Result<
    PageView,
    ParseErrorView,
> {
    match r {
        Ok(p) => Ok(p@),
        Err(e) => Err(e@),
    }
}

impl TextPage {
    /// Parses a text document whose front matter is written in the given
    /// syntax.
    ///
    /// Fails with `MalformedFrontmatter` exactly when the front matter is not
    /// closed or is malformed under the syntax.
    pub fn parse_as(content: String, syntax: Syntax) -> (r: Result<TextPage, ParseError>)
        ensures
            text_page_result_view(r) == text_page_spec(content@, syntax),
    {
        let parts = match split(content.as_str()) {
            Ok(parts) => parts,
            Err(e) => {
                return Err(e);
            },
        };
        match parts.metadata_source {
            None => Ok(TextPage { metadata: None, content: parts.body }),
            Some(source) => {
                let read = match syntax {
                    Syntax::Lines => Record::parse(source.as_str()),
                    Syntax::Yaml => Record::from_yaml(source.as_str()),
                };
                match read {
                    Ok(record) => Ok(TextPage { metadata: Some(record), content: parts.body }),
                    Err(e) => Err(e),
                }
            },
        }
    }

    /// Parses a text document whose front matter is a YAML mapping.
    pub fn parse(content: String) -> (r: Result<TextPage, ParseError>)
        ensures
            text_page_result_view(r) == text_page_spec(content@, Syntax::Yaml),
    {
        TextPage::parse_as(content, Syntax::Yaml)
    }
}

impl AsHtml for TextPage {
    fn as_html(&self) -> (html: String)
        ensures
            html@ == self.content@,
    {
        self.content.clone()
    }
}

/// A Markdown document: the record of its front matter, if it has one, and
/// its body as HTML.
#[derive(Debug)]
pub struct MarkdownPage {
    pub metadata: Option<Record>,
    pub content: String,
}

impl View for MarkdownPage {
    type V = PageView;

    open spec fn view(&self) -> PageView {
        PageView { metadata: record_view(self.metadata), content: self.content@ }
    }
}

/// The model of a Markdown page parsing's outcome.
pub open spec fn markdown_page_result_view(r: Result<MarkdownPage, ParseError>) -> Result<
    PageView,
    ParseErrorView,
> {
    match r {
        Ok(p) => Ok(p@),
        Err(e) => Err(e@),
    }
}

impl MarkdownPage {
    /// Parses a Markdown document whose front matter is written in the given
    /// syntax, and renders its body.
    ///
    /// Fails as `TextPage::parse_as` does.
    pub fn parse_as(content: String, syntax: Syntax) -> (r: Result<MarkdownPage, ParseError>)
        ensures
            markdown_page_result_view(r) == markdown_page_spec(content@, syntax),
    {
        match TextPage::parse_as(content, syntax) {
            Ok(page) => Ok(
                MarkdownPage {
                    metadata: page.metadata,
                    content: markdown_to_html(page.content.as_str()),
                },
            ),
            Err(e) => Err(e),
        }
    }

    /// Parses a Markdown document whose front matter is a YAML mapping, and
    /// renders its body.
    pub fn parse(content: String) -> (r: Result<MarkdownPage, ParseError>)
        ensures
            markdown_page_result_view(r) == markdown_page_spec(content@, Syntax::Yaml),
    {
        MarkdownPage::parse_as(content, Syntax::Yaml)
    }
}

impl AsHtml for MarkdownPage {
    fn as_html(&self) -> (html: String)
        ensures
            html@ == self.content@,
    {
        self.content.clone()
    }
}

/// The members of `s` whose mark in `kept` is set, in their order.
pub open spec fn select<T>(s: Seq<T>, kept: Seq<bool>) -> Seq<T>
    decreases s.len(),
{
    if s.len() == 0 || kept.len() != s.len() {
        Seq::empty()
    } else if kept.last() {
        select(s.drop_last(), kept.drop_last()).push(s.last())
    } else {
        select(s.drop_last(), kept.drop_last())
    }
}

/// Keeps the members of `pages` for which `f` answers `true`, in their order.
pub(crate) fn retain_pages<E, F: Fn(&E) -> bool>(pages: Vec<E>, f: &F) -> (r: (Vec<E>, Ghost<Seq<bool>>))
    requires
        forall|i: int| 0 <= i < pages.len() ==> call_requires(f, (&#[trigger] pages@[i],)),
    ensures
        r.1@.len() == pages.len(),
        forall|i: int| 0 <= i < pages.len() ==> call_ensures(f, (&pages@[i],), #[trigger] r.1@[i]),
        r.0@ == select(pages@, r.1@),
{
    let mut out: Vec<E> = Vec::new();
    let ghost mut kept: Seq<bool> = Seq::empty();
    let ghost all = pages@;
    for page in it: pages
        invariant
            it.seq() == all,
            kept.len() == it.index(),
            forall|i: int| 0 <= i < all.len() ==> call_requires(f, (&#[trigger] all[i],)),
            forall|i: int| 0 <= i < kept.len() ==> call_ensures(f, (&all[i],), #[trigger] kept[i]),
            out@ == select(all.take(it.index() as int), kept),
    {
        let keep = f(&page);
        proof {
            let n = it.index() as int;
            let before = kept;
            kept = before.push(keep);
            assert(all.take(n + 1).drop_last() =~= all.take(n));
            assert(kept.drop_last() =~= before);
            assert(all.take(n + 1).last() == page);
        }
        if keep {
            out.push(page);
        }
    }
    proof {
        assert(all.take(all.len() as int) =~= all);
    }
    (out, Ghost(kept))
}

/// The pages of a directory, in the order in which they were read.
#[derive(Debug)]
pub struct PageCollection<E: AsHtml> {
    pub pages: Vec<E>,
}

impl<E: AsHtml> View for PageCollection<E> {
    type V = Seq<E>;

    open spec fn view(&self) -> Seq<E> {
        self.pages@
    }
}

impl<E: AsHtml> PageCollection<E> {
    /// The collection of the given pages.
    pub fn from_pages(pages: Vec<E>) -> (c: Self)
        ensures
            c@ == pages@,
    {
        PageCollection { pages }
    }

    /// The pages, in their order.
    pub fn into_vec(self) -> (v: Vec<E>)
        ensures
            v@ == self@,
    {
        self.pages
    }

    /// An iterator over the pages, in their order.
    pub fn iter(&self) -> (it: core::slice::Iter<'_, E>)
        ensures
            into_iter_elts(it) == self@,
    {
        self.pages.iter()
    }

    /// Keeps the pages for which `f` answers `true`, in their order.
    pub fn retain<F: Fn(&E) -> bool>(&mut self, f: F)
        requires
            forall|i: int| 0 <= i < old(self)@.len() ==> call_requires(f, (&#[trigger] old(self)@[i],)),
        ensures
            exists|kept: Seq<bool>|
                {
                    &&& kept.len() == old(self)@.len()
                    &&& forall|i: int|
                        0 <= i < kept.len() ==> call_ensures(f, (&old(self)@[i],), #[trigger] kept[i])
                    &&& final(self)@ == select(old(self)@, kept)
                },
    {
        let mut pages: Vec<E> = Vec::new();
        core::mem::swap(&mut self.pages, &mut pages);
        let (out, Ghost(kept)) = retain_pages(pages, &f);
        self.pages = out;
        proof {
            assert(kept.len() == old(self)@.len());
        }
    }
}

} // verus!
