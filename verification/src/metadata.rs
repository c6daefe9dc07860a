//! The metadata of a post: what the front matter says of it.

use vstd::prelude::*;
use crate::date::{parse_date, parsed_ymd, Date, DATE_FORMAT};
use crate::error::{ParseError, ParseErrorView};
use crate::fields::{lookup, Fields};
use crate::record::{
    find, is_mapping_at, lemma_find_in_lift, lift, lines_record, text_at, value_view, FieldValue,
    FieldValueView, Record,
};
use crate::markdown::{markdown_to_html, rendered_html};
use crate::text::{
    chars_of, copy_option_text, copy_texts, lines, lower, same_chars, same_option_text,
    same_texts, split_chars, split_on,
    string_of, text_view, texts, to_lower, trim, trim_range, views,
};

verus! {

/// The state of a post in the life of the site.
///
/// `Draft` and `Test` posts are left out of a build for publishing;
/// `Published` posts are written and listed; `Unlisted` posts are written
/// but not listed.
#[derive(Clone, Copy, Debug, PartialEq, Eq, Structural)]
pub enum BlogPostStatus {
    Draft,
    Test,
    Published,
    Unlisted,
}

impl Default for BlogPostStatus {
    fn default() -> (s: BlogPostStatus)
        ensures
            s == BlogPostStatus::Published,
    {
        BlogPostStatus::Published
    }
}

/// The state that a token names, whatever the case of its letters.
pub open spec fn status_of(token: Seq<char>) -> Option<BlogPostStatus> {
    let t = lower(token);
    if t == "draft"@ {
        Some(BlogPostStatus::Draft)
    } else if t == "test"@ {
        Some(BlogPostStatus::Test)
    } else if t == "published"@ {
        Some(BlogPostStatus::Published)
    } else if t == "unlisted"@ {
        Some(BlogPostStatus::Unlisted)
    } else {
        None
    }
}

/// The model of a status reading's outcome.
pub open spec fn status_result_view(r: Result<BlogPostStatus, ParseError>) -> Result<
    BlogPostStatus,
    ParseErrorView,
> {
    match r {
        Ok(s) => Ok(s),
        Err(e) => Err(e@),
    }
}

/// What reading a status token yields.
pub open spec fn status_result_spec(token: Seq<char>) -> Result<BlogPostStatus, ParseErrorView> {
    match status_of(token) {
        Some(s) => Ok(s),
        None => Err(ParseErrorView::InvalidStatus { token }),
    }
}

/// Reads a status token; a token that names no state is an error, never a
/// default.
pub fn parse_status(token: &str) -> (r: Result<BlogPostStatus, ParseError>)
    ensures
        status_result_view(r) == status_result_spec(token@),
{
    let t = to_lower(&chars_of(token));
    if same_chars(&t, &chars_of("draft")) {
        Ok(BlogPostStatus::Draft)
    } else if same_chars(&t, &chars_of("test")) {
        Ok(BlogPostStatus::Test)
    } else if same_chars(&t, &chars_of("published")) {
        Ok(BlogPostStatus::Published)
    } else if same_chars(&t, &chars_of("unlisted")) {
        Ok(BlogPostStatus::Unlisted)
    } else {
        Err(ParseError::InvalidStatus { token: token.to_owned() })
    }
}

/// The tags that a comma-separated text holds: its pieces, each trimmed, in
/// their order. An empty piece is an empty tag.
pub open spec fn tags_of(value: Seq<char>) -> Seq<Seq<char>> {
    split_on(value, ',').map_values(|piece: Seq<char>| trim(piece))
}

/// Splits a comma-separated text into its tags.
pub fn split_tags(value: &str) -> (tags: Vec<String>)
    ensures
        texts(tags@) == tags_of(value@),
{
    let pieces = split_chars(&chars_of(value), ',');
    let mut tags: Vec<String> = Vec::new();
    let mut i: usize = 0;
    while i < pieces.len()
        invariant
            i <= pieces.len(),
            views(pieces@) == split_on(value@, ','),
            texts(tags@) == tags_of(value@).take(i as int),
        decreases pieces.len() - i,
    {
        let piece = &pieces[i];
        let tag = trim_range(piece, 0, piece.len());
        let ghost before = texts(tags@);
        tags.push(string_of(&tag));
        proof {
            assert(piece@.subrange(0, piece.len() as int) =~= piece@);
            assert(views(pieces@)[i as int] == piece@);
            assert(texts(tags@) =~= before.push(tag@));
            assert(tags_of(value@).take(i + 1) =~= tags_of(value@).take(i as int).push(tag@));
        }
        i += 1;
    }
    proof {
        assert(tags_of(value@).take(i as int) =~= tags_of(value@));
    }
    tags
}

/// The picture at the head of a post: an address, or named attributes.
#[derive(Debug)]
pub enum Cover {
    Url(String),
    Attributes(Fields),
}

impl Cover {
    /// Tells whether two covers are equal.
    pub fn same(&self, other: &Cover) -> (r: bool)
        ensures
            r == (self@ == other@),
    {
        match (self, other) {
            (Cover::Url(a), Cover::Url(b)) => *a == *b,
            (Cover::Attributes(a), Cover::Attributes(b)) => a.same(b),
            _ => false,
        }
    }

    /// The attributes of the picture: those given, or the address alone
    /// under the name `src`.
    pub fn attributes(&self) -> (f: Fields)
        ensures
            f@ == attributes_of(self@),
    {
        match self {
            Cover::Url(u) => {
                let mut f = Fields::new();
                f.insert("src", u.as_str());
                proof {
                    assert(f@ =~= seq![("src"@, u@)]);
                }
                f
            },
            Cover::Attributes(a) => a.duplicate(),
        }
    }

    /// A copy of the cover.
    pub fn duplicate(&self) -> (out: Cover)
        ensures
            out@ == self@,
    {
        match self {
            Cover::Url(u) => Cover::Url(u.clone()),
            Cover::Attributes(a) => Cover::Attributes(a.duplicate()),
        }
    }
}

/// Tells whether two optional covers are both absent or equal.
pub fn same_option_cover(a: &Option<Cover>, b: &Option<Cover>) -> (r: bool)
    ensures
        r == (cover_view(*a) == cover_view(*b)),
{
    match (a, b) {
        (None, None) => true,
        (Some(x), Some(y)) => x.same(y),
        _ => false,
    }
}

/// Copies an optional cover.
pub fn copy_option_cover(c: &Option<Cover>) -> (out: Option<Cover>)
    ensures
        cover_view(out) == cover_view(*c),
{
    match c {
        Some(c) => Some(c.duplicate()),
        None => None,
    }
}

/// The model of a `Cover`.
pub enum CoverView {
    Url(Seq<char>),
    Attributes(Seq<(Seq<char>, Seq<char>)>),
}

/// The attributes of a picture: those given, or the address alone under the
/// name `src`.
pub open spec fn attributes_of(cover: CoverView) -> Seq<(Seq<char>, Seq<char>)> {
    match cover {
        CoverView::Url(u) => seq![("src"@, u)],
        CoverView::Attributes(a) => a,
    }
}

impl View for Cover {
    type V = CoverView;

    open spec fn view(&self) -> CoverView {
        match self {
            Cover::Url(u) => CoverView::Url(u@),
            Cover::Attributes(a) => CoverView::Attributes(a@),
        }
    }
}

/// What the front matter says of a post.
#[derive(Debug)]
pub struct BlogPostMetadata {
    pub title: String,
    pub author: String,
    pub date: Option<Date>,
    pub summary: Option<String>,
    pub tags: Vec<String>,
    pub cover: Option<Cover>,
    pub accent_color: Option<String>,
    pub status: BlogPostStatus,
    pub hn: Option<String>,
    pub lobsters: Option<String>,
}

/// The model of a `BlogPostMetadata`.
pub struct MetadataView {
    pub title: Seq<char>,
    pub author: Seq<char>,
    pub date: Option<Date>,
    pub summary: Option<Seq<char>>,
    pub tags: Seq<Seq<char>>,
    pub cover: Option<CoverView>,
    pub accent_color: Option<Seq<char>>,
    pub status: BlogPostStatus,
    pub hn: Option<Seq<char>>,
    pub lobsters: Option<Seq<char>>,
}

/// The view of an optional cover.
pub open spec fn cover_view(c: Option<Cover>) -> Option<CoverView> {
    match c {
        Some(c) => Some(c@),
        None => None,
    }
}

impl View for BlogPostMetadata {
    type V = MetadataView;

    open spec fn view(&self) -> MetadataView {
        MetadataView {
            title: self.title@,
            author: self.author@,
            date: self.date,
            summary: text_view(self.summary),
            tags: texts(self.tags@),
            cover: cover_view(self.cover),
            accent_color: text_view(self.accent_color),
            status: self.status,
            hn: text_view(self.hn),
            lobsters: text_view(self.lobsters),
        }
    }
}

/// The date with the given year, month and day.
pub open spec fn date_of_ymd(t: (int, int, int)) -> Date {
    Date { year: t.0 as i32, month: t.1 as u32, day: t.2 as u32 }
}

/// The date of a post, given the value of its `date` key: none where the key
/// is absent, an error where the value is no date.
pub open spec fn date_field(value: Option<Seq<char>>) -> Result<Option<Date>, ParseErrorView> {
    match value {
        None => Ok(None),
        Some(literal) => match parsed_ymd(literal, DATE_FORMAT@) {
            Some(t) => Ok(Some(date_of_ymd(t))),
            None => Err(ParseErrorView::InvalidDate { literal }),
        },
    }
}

/// The state of a post, given the value of its `status` key: `Published`
/// where the key is absent, an error where the value names no state.
pub open spec fn status_field(value: Option<Seq<char>>) -> Result<BlogPostStatus, ParseErrorView> {
    match value {
        None => Ok(BlogPostStatus::Published),
        Some(token) => status_result_spec(token),
    }
}

/// The summary of a post, given the value of its `summary` key: rendered
/// from Markdown where `render` is set, as written otherwise.
pub open spec fn summary_field(value: Option<Seq<char>>, render: bool) -> Option<Seq<char>> {
    match value {
        Some(s) => Some(
            if render {
                rendered_html(s)
            } else {
                s
            },
        ),
        None => None,
    }
}

/// The tags of a post, given the value of its `tags` key: none where the key
/// is absent.
pub open spec fn tags_field(value: Option<Seq<char>>) -> Seq<Seq<char>> {
    match value {
        Some(v) => tags_of(v),
        None => Seq::empty(),
    }
}

/// The cover of a post, given the value of its `cover` key: an address where
/// the value is a text, attributes where it is a mapping.
pub open spec fn cover_field(value: Option<FieldValueView>) -> Option<CoverView> {
    match value {
        Some(FieldValueView::Text(u)) => Some(CoverView::Url(u)),
        Some(FieldValueView::Attributes(a)) => Some(CoverView::Attributes(a)),
        None => None,
    }
}

/// Makes the cover of a post of the value of its `cover` key.
pub fn cover_of(value: Option<FieldValue>) -> (cover: Option<Cover>)
    ensures
        cover_view(cover) == cover_field(value_view(value)),
{
    match value {
        Some(FieldValue::Text(u)) => Some(Cover::Url(u)),
        Some(FieldValue::Attributes(a)) => Some(Cover::Attributes(a)),
        None => None,
    }
}

/// One of the keys of a post that hold a text holds a mapping instead.
pub open spec fn misplaced_mapping(record: Seq<(Seq<char>, FieldValueView)>) -> bool {
    ||| is_mapping_at(record, "title"@)
    ||| is_mapping_at(record, "author"@)
    ||| is_mapping_at(record, "date"@)
    ||| is_mapping_at(record, "status"@)
    ||| is_mapping_at(record, "summary"@)
    ||| is_mapping_at(record, "tags"@)
    ||| is_mapping_at(record, "accent_color"@)
    ||| is_mapping_at(record, "hn"@)
    ||| is_mapping_at(record, "lobsters"@)
}

/// What decoding the record of a front matter block yields.
///
/// A mapping under a key that holds a text makes the block malformed. Then
/// the status is read, and a status that names no state is reported. Then
/// `title` and `author` are required, and the first of them that is absent is
/// reported; then a date that is no date. The cover is an address or
/// attributes. Keys that are not known are ignored.
pub open spec fn decode_spec(record: Seq<(Seq<char>, FieldValueView)>, render_summary: bool) -> Result<
    MetadataView,
    ParseErrorView,
> {
    if misplaced_mapping(record) {
        Err(ParseErrorView::MalformedFrontmatter)
    } else {
        match status_field(text_at(record, "status"@)) {
            Err(e) => Err(e),
            Ok(status) => match text_at(record, "title"@) {
                None => Err(ParseErrorView::MissingRequiredField { field: "title"@ }),
                Some(title) => match text_at(record, "author"@) {
                    None => Err(ParseErrorView::MissingRequiredField { field: "author"@ }),
                    Some(author) => match date_field(text_at(record, "date"@)) {
                        Err(e) => Err(e),
                        Ok(date) => Ok(
                            MetadataView {
                                title,
                                author,
                                date,
                                summary: summary_field(text_at(record, "summary"@), render_summary),
                                tags: tags_field(text_at(record, "tags"@)),
                                cover: cover_field(find(record, "cover"@)),
                                accent_color: text_at(record, "accent_color"@),
                                status,
                                hn: text_at(record, "hn"@),
                                lobsters: text_at(record, "lobsters"@),
                            },
                        ),
                    },
                },
            },
        }
    }
}

/// What decoding the text of a front matter block of `key: value` lines
/// yields.
pub open spec fn decode_source_spec(source: Seq<char>, render_summary: bool) -> Result<
    MetadataView,
    ParseErrorView,
> {
    match lines_record(source) {
        None => Err(ParseErrorView::MalformedFrontmatter),
        Some(record) => decode_spec(record, render_summary),
    }
}

/// The model of a decoding's outcome.
pub open spec fn metadata_result_view(r: Result<BlogPostMetadata, ParseError>) -> Result<
    MetadataView,
    ParseErrorView,
> {
    match r {
        Ok(m) => Ok(m@),
        Err(e) => Err(e@),
    }
}

/// Status default: a record without a `status` key decodes, where it decodes
/// at all, to a `Published` post.
pub proof fn law_status_defaults_to_published(
    record: Seq<(Seq<char>, FieldValueView)>,
    render_summary: bool,
)
    requires
        find(record, "status"@) is None,
    ensures
        decode_spec(record, render_summary) matches Ok(m) ==> m.status
            == BlogPostStatus::Published,
{
}

/// Status default, with success: a record that holds a title and an author
/// as texts, a date that the calendar accepts and no other known key decodes
/// to a `Published` post with that date.
pub proof fn law_dated_record_decodes_published(
    record: Seq<(Seq<char>, FieldValueView)>,
    render_summary: bool,
)
    requires
        !misplaced_mapping(record),
        text_at(record, "title"@) is Some,
        text_at(record, "author"@) is Some,
        text_at(record, "date"@) matches Some(literal) && parsed_ymd(literal, DATE_FORMAT@) is Some,
        find(record, "status"@) is None,
    ensures
        decode_spec(record, render_summary) matches Ok(m) && m.status == BlogPostStatus::Published
            && m.date is Some && m.title == text_at(record, "title"@)->0 && m.author == text_at(
            record,
            "author"@,
        )->0,
{
}

/// A status that names no state is reported, whatever else the record holds
/// or lacks: the status never falls back to `Published`.
pub proof fn law_invalid_status_is_reported(
    record: Seq<(Seq<char>, FieldValueView)>,
    render_summary: bool,
)
    requires
        !misplaced_mapping(record),
        text_at(record, "status"@) matches Some(token) && status_of(token) is None,
    ensures
        decode_spec(record, render_summary) == Err::<MetadataView, ParseErrorView>(
            ParseErrorView::InvalidStatus { token: text_at(record, "status"@)->0 },
        ),
{
}

/// The same for text pairs: pairs whose status names no state fail with
/// `InvalidStatus` and that status, and pairs whose status names a state do
/// not fail on its account.
pub proof fn law_pairs_with_invalid_status_fail(
    fields: Seq<(Seq<char>, Seq<char>)>,
    render_summary: bool,
)
    requires
        lookup(fields, "status"@) is Some,
    ensures
        status_of(lookup(fields, "status"@)->0) is None ==> decode_spec(
            lift(fields),
            render_summary,
        ) == Err::<MetadataView, ParseErrorView>(
            ParseErrorView::InvalidStatus { token: lookup(fields, "status"@)->0 },
        ),
        status_of(lookup(fields, "status"@)->0) is Some ==> !(decode_spec(
            lift(fields),
            render_summary,
        ) matches Err(ParseErrorView::InvalidStatus { .. })),
        decode_spec(lift(fields), render_summary) matches Ok(m) ==> Some(m.status) == status_of(
            lookup(fields, "status"@)->0,
        ),
{
    lemma_find_in_lift(fields, "title"@);
    lemma_find_in_lift(fields, "author"@);
    lemma_find_in_lift(fields, "date"@);
    lemma_find_in_lift(fields, "status"@);
    lemma_find_in_lift(fields, "summary"@);
    lemma_find_in_lift(fields, "tags"@);
    lemma_find_in_lift(fields, "accent_color"@);
    lemma_find_in_lift(fields, "hn"@);
    lemma_find_in_lift(fields, "lobsters"@);
}

/// Status default for text pairs: pairs that hold a title, an author and a
/// date that the calendar accepts, and no `status` key, decode to a
/// `Published` post.
pub proof fn law_pairs_without_status_decode_published(
    fields: Seq<(Seq<char>, Seq<char>)>,
    render_summary: bool,
)
    requires
        lookup(fields, "title"@) is Some,
        lookup(fields, "author"@) is Some,
        lookup(fields, "date"@) matches Some(literal) && parsed_ymd(literal, DATE_FORMAT@) is Some,
        lookup(fields, "status"@) is None,
    ensures
        decode_spec(lift(fields), render_summary) matches Ok(m) && m.status
            == BlogPostStatus::Published && m.date is Some,
{
    lemma_find_in_lift(fields, "title"@);
    lemma_find_in_lift(fields, "author"@);
    lemma_find_in_lift(fields, "date"@);
    lemma_find_in_lift(fields, "status"@);
    lemma_find_in_lift(fields, "summary"@);
    lemma_find_in_lift(fields, "tags"@);
    lemma_find_in_lift(fields, "accent_color"@);
    lemma_find_in_lift(fields, "hn"@);
    lemma_find_in_lift(fields, "lobsters"@);
    law_dated_record_decodes_published(lift(fields), render_summary);
}

/// A missing date is no error: a record that holds a title and an author as
/// texts, a valid status or none, and no `date` key decodes to a post
/// without a date.
pub proof fn law_undated_record_decodes(
    record: Seq<(Seq<char>, FieldValueView)>,
    render_summary: bool,
)
    requires
        !misplaced_mapping(record),
        text_at(record, "title"@) is Some,
        text_at(record, "author"@) is Some,
        find(record, "date"@) is None,
        status_field(text_at(record, "status"@)) is Ok,
    ensures
        decode_spec(record, render_summary) matches Ok(m) && m.date is None && Ok::<
            BlogPostStatus,
            ParseErrorView,
        >(m.status) == status_field(text_at(record, "status"@)),
{
}

impl BlogPostMetadata {
    /// Tells whether two records are equal in every field.
    pub fn same(&self, other: &BlogPostMetadata) -> (r: bool)
        ensures
            r == (self@ == other@),
    {
        self.title == other.title && self.author == other.author && self.date == other.date
            && same_option_text(&self.summary, &other.summary) && same_texts(
            &self.tags,
            &other.tags,
        ) && same_option_cover(&self.cover, &other.cover) && same_option_text(
            &self.accent_color,
            &other.accent_color,
        ) && self.status == other.status && same_option_text(&self.hn, &other.hn)
            && same_option_text(&self.lobsters, &other.lobsters)
    }

    /// A copy of the record.
    pub fn duplicate(&self) -> (out: BlogPostMetadata)
        ensures
            out@ == self@,
    {
        BlogPostMetadata {
            title: self.title.clone(),
            author: self.author.clone(),
            date: self.date,
            summary: copy_option_text(&self.summary),
            tags: copy_texts(&self.tags),
            cover: copy_option_cover(&self.cover),
            accent_color: copy_option_text(&self.accent_color),
            status: self.status,
            hn: copy_option_text(&self.hn),
            lobsters: copy_option_text(&self.lobsters),
        }
    }

    /// Decodes the record of a front matter block.
    pub fn from_record(record: &Record, render_summary: bool) -> (r: Result<
        BlogPostMetadata,
        ParseError,
    >)
        ensures
            metadata_result_view(r) == decode_spec(record@, render_summary),
    {
        if record.has_mapping("title") || record.has_mapping("author") || record.has_mapping("date")
            || record.has_mapping("status") || record.has_mapping("summary") || record.has_mapping(
            "tags",
        ) || record.has_mapping("accent_color") || record.has_mapping("hn") || record.has_mapping(
            "lobsters",
        ) {
            return Err(ParseError::MalformedFrontmatter);
        }
        let status = match record.get("status") {
            None => BlogPostStatus::Published,
            Some(token) => match parse_status(token.as_str()) {
                Ok(s) => s,
                Err(e) => {
                    return Err(e);
                },
            },
        };
        let title = match record.get("title") {
            Some(t) => t,
            None => {
                return Err(ParseError::MissingRequiredField { field: "title".to_owned() });
            },
        };
        let author = match record.get("author") {
            Some(a) => a,
            None => {
                return Err(ParseError::MissingRequiredField { field: "author".to_owned() });
            },
        };
        let date = match record.get("date") {
            None => None,
            Some(literal) => match parse_date(literal.as_str()) {
                Ok(d) => {
                    proof {
                        assert(date_of_ymd(d.ymd()) == d);
                    }
                    Some(d)
                },
                Err(e) => {
                    return Err(e);
                },
            },
        };
        let summary = match record.get("summary") {
            Some(s) => if render_summary {
                Some(markdown_to_html(s.as_str()))
            } else {
                Some(s)
            },
            None => None,
        };
        let tags = match record.get("tags") {
            Some(v) => split_tags(v.as_str()),
            None => {
                let none: Vec<String> = Vec::new();
                proof {
                    assert(texts(none@) =~= Seq::<Seq<char>>::empty());
                }
                none
            },
        };
        Ok(
            BlogPostMetadata {
                title,
                author,
                date,
                summary,
                tags,
                cover: cover_of(record.value("cover")),
                accent_color: record.get("accent_color"),
                status,
                hn: record.get("hn"),
                lobsters: record.get("lobsters"),
            },
        )
    }

    /// Decodes a block of text pairs: every value a text.
    pub fn from_fields(fields: &Fields, render_summary: bool) -> (r: Result<
        BlogPostMetadata,
        ParseError,
    >)
        ensures
            metadata_result_view(r) == decode_spec(lift(fields@), render_summary),
    {
        let record = Record::from_fields(fields.duplicate());
        BlogPostMetadata::from_record(&record, render_summary)
    }

    /// Decodes the text of a front matter block of `key: value` lines.
    ///
    /// Fails with `MalformedFrontmatter` where a line is no `key: value` pair,
    /// with `InvalidStatus` where the status names no state, with
    /// `MissingRequiredField` where `title` or `author` is absent, and with
    /// `InvalidDate` where the date is no `YYYY.M.D` date; in this order.
    pub fn decode(source: &str, render_summary: bool) -> (r: Result<BlogPostMetadata, ParseError>)
        ensures
            metadata_result_view(r) == decode_source_spec(source@, render_summary),
    {
        match Record::parse(source) {
            Ok(record) => BlogPostMetadata::from_record(&record, render_summary),
            Err(e) => Err(e),
        }
    }
}

} // verus!
