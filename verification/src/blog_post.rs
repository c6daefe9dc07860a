//! Blog posts: Markdown documents with metadata.

use vstd::prelude::*;
use crate::date::Date;
use crate::error::{BuildError, BuildErrorView, ParseErrorView};
use crate::record::{FieldValueView, Record};
use crate::metadata::{
    decode_spec, law_undated_record_decodes, misplaced_mapping, status_field, BlogPostMetadata,
    BlogPostStatus, MetadataView,
};
use crate::record::{find, text_at};
use crate::ordered::Entry;
use crate::canonical::{canonical_url, joined_url};
use crate::page::{markdown_page_spec, AsHtml, MarkdownPage, PageView, Syntax};
use crate::text::text_view;
use crate::path::{html_path, html_path_spec, strip_root, strip_root_spec, RootedPath};

verus! {

/// A post: where it is written to, what its front matter says, and its body
/// as HTML.
#[derive(Debug)]
pub struct BlogPost {
    pub path: String,
    pub root_stripped: bool,
    pub metadata: BlogPostMetadata,
    pub content: String,
}

/// The model of a `BlogPost`.
pub struct PostView {
    pub path: Seq<char>,
    pub root_stripped: bool,
    pub metadata: MetadataView,
    pub content: Seq<char>,
}

impl View for BlogPost {
    type V = PostView;

    open spec fn view(&self) -> PostView {
        PostView {
            path: self.path@,
            root_stripped: self.root_stripped,
            metadata: self.metadata@,
            content: self.content@,
        }
    }
}

/// The record of a page: an empty one where it has no front matter.
pub open spec fn pairs_of(metadata: Option<Seq<(Seq<char>, FieldValueView)>>) -> Seq<
    (Seq<char>, FieldValueView),
> {
    match metadata {
        Some(record) => record,
        None => Seq::empty(),
    }
}

/// The post that a parsed page at `path` makes.
///
/// The front matter is decoded with the summary rendered; a page without
/// front matter has an empty record, and so lacks its title. The path gets the
/// extension `html`. A failure names the file.
pub open spec fn post_of_page(path: Seq<char>, page: PageView) -> Result<PostView, BuildErrorView> {
    match decode_spec(pairs_of(page.metadata), true) {
        Err(error) => Err(BuildErrorView::Parse { path, error }),
        Ok(metadata) => Ok(
            PostView {
                path: html_path_spec(path),
                root_stripped: false,
                metadata,
                content: page.content,
            },
        ),
    }
}

/// What reading a post from the text of the file at `path` yields.
pub open spec fn post_spec(path: Seq<char>, raw: Seq<char>, syntax: Syntax) -> Result<
    PostView,
    BuildErrorView,
> {
    match markdown_page_spec(raw, syntax) {
        Err(error) => Err(BuildErrorView::Parse { path, error }),
        Ok(page) => post_of_page(path, page),
    }
}

/// Status default, for a file: a document whose front matter has no `status`
/// key is read, where it is read at all, as a `Published` post.
pub proof fn law_post_without_status_is_published(
    path: Seq<char>,
    raw: Seq<char>,
    syntax: Syntax,
    page: PageView,
)
    requires
        markdown_page_spec(raw, syntax) == Ok::<PageView, ParseErrorView>(page),
        find(pairs_of(page.metadata), "status"@) is None,
    ensures
        post_spec(path, raw, syntax) matches Ok(post) ==> post.metadata.status
            == BlogPostStatus::Published,
{
}

/// A missing date is no error when a post is read: a document whose front
/// matter holds a title and an author as texts, a valid status or none, and
/// no `date` key is read as a post without a date, whatever the build.
pub proof fn law_post_without_date_is_read(
    path: Seq<char>,
    raw: Seq<char>,
    syntax: Syntax,
    page: PageView,
)
    requires
        markdown_page_spec(raw, syntax) == Ok::<PageView, ParseErrorView>(page),
        !misplaced_mapping(pairs_of(page.metadata)),
        text_at(pairs_of(page.metadata), "title"@) is Some,
        text_at(pairs_of(page.metadata), "author"@) is Some,
        find(pairs_of(page.metadata), "date"@) is None,
        status_field(text_at(pairs_of(page.metadata), "status"@)) is Ok,
    ensures
        post_spec(path, raw, syntax) matches Ok(post) && post.metadata.date is None && Ok::<
            BlogPostStatus,
            ParseErrorView,
        >(post.metadata.status) == status_field(text_at(pairs_of(page.metadata), "status"@)),
{
    law_undated_record_decodes(pairs_of(page.metadata), true);
}

/// The model of a post reading's outcome.
pub open spec fn post_result_view(r: Result<BlogPost, BuildError>) -> Result<
    PostView,
    BuildErrorView,
> {
    match r {
        Ok(p) => Ok(p@),
        Err(e) => Err(e@),
    }
}

impl BlogPost {
    /// Makes a post of a parsed page of the file at `path`.
    pub fn from_page(path: &str, page: MarkdownPage) -> (r: Result<BlogPost, BuildError>)
        ensures
            post_result_view(r) == post_of_page(path@, page@),
    {
        let fields = match page.metadata {
            Some(fields) => fields,
            None => Record::new(),
        };
        match BlogPostMetadata::from_record(&fields, true) {
            Ok(metadata) => Ok(
                BlogPost {
                    path: html_path(path),
                    root_stripped: false,
                    metadata,
                    content: page.content,
                },
            ),
            Err(error) => Err(BuildError::Parse { path: path.to_owned(), error }),
        }
    }

    /// Reads a post from the text of the file at `path`, its front matter
    /// written in the given syntax.
    pub fn parse_as(path: &str, raw: String, syntax: Syntax) -> (r: Result<BlogPost, BuildError>)
        ensures
            post_result_view(r) == post_spec(path@, raw@, syntax),
    {
        match MarkdownPage::parse_as(raw, syntax) {
            Ok(page) => BlogPost::from_page(path, page),
            Err(error) => Err(BuildError::Parse { path: path.to_owned(), error }),
        }
    }

    /// Reads a post from the text of the file at `path`, its front matter
    /// written as a YAML mapping.
    pub fn parse(path: &str, raw: String) -> (r: Result<BlogPost, BuildError>)
        ensures
            post_result_view(r) == post_spec(path@, raw@, Syntax::Yaml),
    {
        BlogPost::parse_as(path, raw, Syntax::Yaml)
    }

    /// The address of the post on the site at `origin`, or `None` where the
    /// origin and the path make no address.
    pub fn canonical_url(&self, origin: &str) -> (r: Option<String>)
        ensures
            text_view(r) == joined_url(origin@, self.path@),
    {
        canonical_url(origin, self.path.as_str())
    }

    /// The path of the post, with the mark of its root.
    pub open spec fn rooted_path(&self) -> RootedPath {
        RootedPath { path: self.path@, root_stripped: self.root_stripped }
    }

    /// Takes the content root off the path, once; nothing else changes.
    pub fn strip_root(&mut self, root: &str)
        ensures
            final(self).rooted_path() == strip_root_spec(old(self).rooted_path(), root@),
            final(self).metadata == old(self).metadata,
            final(self).content == old(self).content,
    {
        strip_root(&mut self.path, &mut self.root_stripped, root);
    }

    /// Tells whether two posts are equal in every field.
    pub fn equals(&self, other: &BlogPost) -> (r: bool)
        ensures
            r == (self@ == other@),
    {
        self.path == other.path && self.root_stripped == other.root_stripped && self.metadata.same(
            &other.metadata,
        ) && self.content == other.content
    }

    /// A copy of the post.
    pub fn duplicate(&self) -> (out: BlogPost)
        ensures
            out@ == self@,
    {
        BlogPost {
            path: self.path.clone(),
            root_stripped: self.root_stripped,
            metadata: self.metadata.duplicate(),
            content: self.content.clone(),
        }
    }
}

impl AsHtml for BlogPost {
    /// The body of the post, as HTML.
    fn as_html(&self) -> (html: String)
        ensures
            html@ == self.content@,
    {
        self.content.clone()
    }
}

impl Entry for BlogPost {
    open spec fn date_of(model: PostView) -> Option<Date> {
        model.metadata.date
    }

    fn date(&self) -> (d: Option<Date>) {
        self.metadata.date
    }

    fn same(&self, other: &Self) -> (b: bool) {
        self.equals(other)
    }
}

} // verus!
