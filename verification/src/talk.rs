//! Talks: documents in several sections, each rendered on its own.

use vstd::prelude::*;
use crate::blog_post::pairs_of;
use crate::date::{parse_date, parsed_ymd, Date, DATE_FORMAT};
use crate::error::{BuildError, BuildErrorView, ParseError, ParseErrorView};
use crate::record::{find, is_mapping_at, text_at, FieldValueView, Record};
use crate::markdown::{markdown_to_html, rendered_html};
use crate::metadata::{
    copy_option_cover, cover_field, cover_of, cover_view, date_of_ymd, same_option_cover,
    split_tags, summary_field, tags_field, Cover, CoverView,
};
use crate::ordered::Entry;
use crate::page::{text_page_spec, AsHtml, PageView, Syntax, TextPage};
use crate::path::{html_path, html_path_spec, strip_root, strip_root_spec, RootedPath};
use crate::text::{
    chars_of, concat_all, concat_texts, copy_option_text, copy_texts, same_option_text,
    same_texts, sections, split_sections, string_of, text_view, texts, views,
};

verus! {

/// The line that ends a section of a talk, with its line feed.
pub const SECTION_BREAK: &'static str = "+++\n";

/// What the front matter says of a talk. A talk always has a date.
#[derive(Debug)]
pub struct TalkMetadata {
    pub title: String,
    pub author: String,
    pub date: Date,
    pub summary: Option<String>,
    pub tags: Vec<String>,
    pub cover: Option<Cover>,
    pub accent_color: Option<String>,
}

/// The model of a `TalkMetadata`.
pub struct TalkMetadataView {
    pub title: Seq<char>,
    pub author: Seq<char>,
    pub date: Date,
    pub summary: Option<Seq<char>>,
    pub tags: Seq<Seq<char>>,
    pub cover: Option<CoverView>,
    pub accent_color: Option<Seq<char>>,
}

impl View for TalkMetadata {
    type V = TalkMetadataView;

    open spec fn view(&self) -> TalkMetadataView {
        TalkMetadataView {
            title: self.title@,
            author: self.author@,
            date: self.date,
            summary: text_view(self.summary),
            tags: texts(self.tags@),
            cover: cover_view(self.cover),
            accent_color: text_view(self.accent_color),
        }
    }
}

/// One of the keys of a talk that hold a text holds a mapping instead.
pub open spec fn talk_misplaced_mapping(record: Seq<(Seq<char>, FieldValueView)>) -> bool {
    ||| is_mapping_at(record, "title"@)
    ||| is_mapping_at(record, "author"@)
    ||| is_mapping_at(record, "date"@)
    ||| is_mapping_at(record, "summary"@)
    ||| is_mapping_at(record, "tags"@)
    ||| is_mapping_at(record, "accent_color"@)
}

/// What decoding the record of a talk's front matter yields.
///
/// A mapping under a key that holds a text makes the block malformed.
/// `title`, `author` and `date` are required, and the first of them that is
/// absent is reported; then a date that is no date. The summary is rendered
/// from Markdown. The cover is an address or attributes. Other keys are
/// ignored.
pub open spec fn talk_decode_spec(record: Seq<(Seq<char>, FieldValueView)>) -> Result<
    TalkMetadataView,
    ParseErrorView,
> {
    if talk_misplaced_mapping(record) {
        Err(ParseErrorView::MalformedFrontmatter)
    } else {
        match text_at(record, "title"@) {
            None => Err(ParseErrorView::MissingRequiredField { field: "title"@ }),
            Some(title) => match text_at(record, "author"@) {
                None => Err(ParseErrorView::MissingRequiredField { field: "author"@ }),
                Some(author) => match text_at(record, "date"@) {
                    None => Err(ParseErrorView::MissingRequiredField { field: "date"@ }),
                    Some(literal) => match parsed_ymd(literal, DATE_FORMAT@) {
                        None => Err(ParseErrorView::InvalidDate { literal }),
                        Some(t) => Ok(
                            TalkMetadataView {
                                title,
                                author,
                                date: date_of_ymd(t),
                                summary: summary_field(text_at(record, "summary"@), true),
                                tags: tags_field(text_at(record, "tags"@)),
                                cover: cover_field(find(record, "cover"@)),
                                accent_color: text_at(record, "accent_color"@),
                            },
                        ),
                    },
                },
            },
        }
    }
}

/// The model of a talk decoding's outcome.
pub open spec fn talk_metadata_result_view(r: Result<TalkMetadata, ParseError>) -> Result<
    TalkMetadataView,
    ParseErrorView,
> {
    match r {
        Ok(m) => Ok(m@),
        Err(e) => Err(e@),
    }
}

impl TalkMetadata {
    /// Decodes the record of a talk's front matter.
    pub fn from_record(fields: &Record) -> (r: Result<TalkMetadata, ParseError>)
        ensures
            talk_metadata_result_view(r) == talk_decode_spec(fields@),
    {
        if fields.has_mapping("title") || fields.has_mapping("author") || fields.has_mapping("date")
            || fields.has_mapping("summary") || fields.has_mapping("tags") || fields.has_mapping(
            "accent_color",
        ) {
            return Err(ParseError::MalformedFrontmatter);
        }
        let title = match fields.get("title") {
            Some(t) => t,
            None => {
                return Err(ParseError::MissingRequiredField { field: "title".to_owned() });
            },
        };
        let author = match fields.get("author") {
            Some(a) => a,
            None => {
                return Err(ParseError::MissingRequiredField { field: "author".to_owned() });
            },
        };
        let date = match fields.get("date") {
            None => {
                return Err(ParseError::MissingRequiredField { field: "date".to_owned() });
            },
            Some(literal) => match parse_date(literal.as_str()) {
                Ok(d) => {
                    proof {
                        assert(date_of_ymd(d.ymd()) == d);
                    }
                    d
                },
                Err(e) => {
                    return Err(e);
                },
            },
        };
        let summary = match fields.get("summary") {
            Some(s) => Some(markdown_to_html(s.as_str())),
            None => None,
        };
        let tags = match fields.get("tags") {
            Some(v) => split_tags(v.as_str()),
            None => {
                let none: Vec<String> = Vec::new();
                proof {
                    assert(texts(none@) =~= Seq::<Seq<char>>::empty());
                }
                none
            },
        };
        Ok(
            TalkMetadata {
                title,
                author,
                date,
                summary,
                tags,
                cover: cover_of(fields.value("cover")),
                accent_color: fields.get("accent_color"),
            },
        )
    }

    /// Tells whether two records are equal in every field.
    pub fn same(&self, other: &TalkMetadata) -> (r: bool)
        ensures
            r == (self@ == other@),
    {
        self.title == other.title && self.author == other.author && self.date == other.date
            && same_option_text(&self.summary, &other.summary) && same_texts(
            &self.tags,
            &other.tags,
        ) && same_option_cover(&self.cover, &other.cover) && same_option_text(
            &self.accent_color,
            &other.accent_color,
        )
    }

    /// A copy of the record.
    pub fn duplicate(&self) -> (out: TalkMetadata)
        ensures
            out@ == self@,
    {
        TalkMetadata {
            title: self.title.clone(),
            author: self.author.clone(),
            date: self.date,
            summary: copy_option_text(&self.summary),
            tags: copy_texts(&self.tags),
            cover: copy_option_cover(&self.cover),
            accent_color: copy_option_text(&self.accent_color),
        }
    }
}

/// A talk: where it is written to, what its front matter says, and its
/// sections as HTML.
#[derive(Debug)]
pub struct Talk {
    pub path: String,
    pub root_stripped: bool,
    pub metadata: TalkMetadata,
    pub content: Vec<String>,
}

/// The model of a `Talk`.
pub struct TalkView {
    pub path: Seq<char>,
    pub root_stripped: bool,
    pub metadata: TalkMetadataView,
    pub content: Seq<Seq<char>>,
}

impl View for Talk {
    type V = TalkView;

    open spec fn view(&self) -> TalkView {
        TalkView {
            path: self.path@,
            root_stripped: self.root_stripped,
            metadata: self.metadata@,
            content: texts(self.content@),
        }
    }
}

/// The sections of a talk's body, each rendered to HTML.
pub open spec fn rendered_sections(body: Seq<char>) -> Seq<Seq<char>> {
    sections(body, SECTION_BREAK@).map_values(|section: Seq<char>| rendered_html(section))
}

/// The talk that a parsed page at `path` makes.
pub open spec fn talk_of_page(path: Seq<char>, page: PageView) -> Result<TalkView, BuildErrorView> {
    match talk_decode_spec(pairs_of(page.metadata)) {
        Err(error) => Err(BuildErrorView::Parse { path, error }),
        Ok(metadata) => Ok(
            TalkView {
                path: html_path_spec(path),
                root_stripped: false,
                metadata,
                content: rendered_sections(page.content),
            },
        ),
    }
}

/// What reading a talk from the text of the file at `path` yields.
pub open spec fn talk_spec(path: Seq<char>, raw: Seq<char>, syntax: Syntax) -> Result<
    TalkView,
    BuildErrorView,
> {
    match text_page_spec(raw, syntax) {
        Err(error) => Err(BuildErrorView::Parse { path, error }),
        Ok(page) => talk_of_page(path, page),
    }
}

/// The model of a talk reading's outcome.
pub open spec fn talk_result_view(r: Result<Talk, BuildError>) -> Result<TalkView, BuildErrorView> {
    match r {
        Ok(t) => Ok(t@),
        Err(e) => Err(e@),
    }
}

/// Splits a talk's body into its sections and renders each.
pub fn render_sections(body: &str) -> (out: Vec<String>)
    ensures
        texts(out@) == rendered_sections(body@),
{
    let parts = split_sections(&chars_of(body), &chars_of(SECTION_BREAK));
    let mut out: Vec<String> = Vec::new();
    let mut i: usize = 0;
    while i < parts.len()
        invariant
            i <= parts.len(),
            views(parts@) == sections(body@, SECTION_BREAK@),
            texts(out@) == rendered_sections(body@).take(i as int),
        decreases parts.len() - i,
    {
        let section = string_of(&parts[i]);
        let html = markdown_to_html(section.as_str());
        let ghost before = texts(out@);
        proof {
            assert(views(parts@)[i as int] == parts@[i as int]@);
            assert(rendered_sections(body@).take(i + 1) =~= rendered_sections(body@).take(
                i as int,
            ).push(html@));
        }
        out.push(html);
        proof {
            assert(texts(out@) =~= before.push(html@));
        }
        i += 1;
    }
    proof {
        assert(rendered_sections(body@).take(i as int) =~= rendered_sections(body@));
    }
    out
}

impl Talk {
    /// Makes a talk of a parsed page of the file at `path`.
    pub fn from_page(path: &str, page: TextPage) -> (r: Result<Talk, BuildError>)
        ensures
            talk_result_view(r) == talk_of_page(path@, page@),
    {
        let fields = match page.metadata {
            Some(fields) => fields,
            None => Record::new(),
        };
        match TalkMetadata::from_record(&fields) {
            Ok(metadata) => Ok(
                Talk {
                    path: html_path(path),
                    root_stripped: false,
                    metadata,
                    content: render_sections(page.content.as_str()),
                },
            ),
            Err(error) => Err(BuildError::Parse { path: path.to_owned(), error }),
        }
    }

    /// Reads a talk from the text of the file at `path`, its front matter
    /// written in the given syntax.
    pub fn parse_as(path: &str, raw: String, syntax: Syntax) -> (r: Result<Talk, BuildError>)
        ensures
            talk_result_view(r) == talk_spec(path@, raw@, syntax),
    {
        match TextPage::parse_as(raw, syntax) {
            Ok(page) => Talk::from_page(path, page),
            Err(error) => Err(BuildError::Parse { path: path.to_owned(), error }),
        }
    }

    /// Reads a talk from the text of the file at `path`, its front matter
    /// written as a YAML mapping.
    pub fn parse(path: &str, raw: String) -> (r: Result<Talk, BuildError>)
        ensures
            talk_result_view(r) == talk_spec(path@, raw@, Syntax::Yaml),
    {
        Talk::parse_as(path, raw, Syntax::Yaml)
    }

    /// The path of the talk, with the mark of its root.
    pub open spec fn rooted_path(&self) -> RootedPath {
        RootedPath { path: self.path@, root_stripped: self.root_stripped }
    }

    /// Takes the content root off the path, once; nothing else changes.
    pub fn strip_root(&mut self, root: &str)
        ensures
            final(self).rooted_path() == strip_root_spec(old(self).rooted_path(), root@),
            final(self).metadata == old(self).metadata,
            final(self).content == old(self).content,
    {
        strip_root(&mut self.path, &mut self.root_stripped, root);
    }

    /// Tells whether two talks are equal in every field.
    pub fn equals(&self, other: &Talk) -> (r: bool)
        ensures
            r == (self@ == other@),
    {
        self.path == other.path && self.root_stripped == other.root_stripped && self.metadata.same(
            &other.metadata,
        ) && same_texts(&self.content, &other.content)
    }

    /// A copy of the talk.
    pub fn duplicate(&self) -> (out: Talk)
        ensures
            out@ == self@,
    {
        Talk {
            path: self.path.clone(),
            root_stripped: self.root_stripped,
            metadata: self.metadata.duplicate(),
            content: copy_texts(&self.content),
        }
    }
}

impl AsHtml for Talk {
    /// The sections of the talk, as HTML, one after the other.
    fn as_html(&self) -> (html: String)
        ensures
            html@ == concat_all(texts(self.content@)),
    {
        concat_texts(&self.content)
    }
}

impl Entry for Talk {
    open spec fn date_of(model: TalkView) -> Option<Date> {
        Some(model.metadata.date)
    }

    fn date(&self) -> (d: Option<Date>) {
        Some(self.metadata.date)
    }

    fn same(&self, other: &Self) -> (b: bool) {
        self.equals(other)
    }
}

} // verus!
