//! Links to writing that lives elsewhere, listed among the posts.

use vstd::prelude::*;
use crate::date::Date;
use crate::ordered::Entry;
use crate::text::{copy_option_text, copy_texts, same_option_text, same_texts, text_view, texts};

verus! {

/// What is known of a linked piece. It always has a date.
#[derive(Debug)]
pub struct ExternalMetadata {
    pub title: String,
    pub author: String,
    pub date: Date,
    pub summary: Option<String>,
    pub tags: Vec<String>,
}

/// The model of an `ExternalMetadata`.
pub struct ExternalMetadataView {
    pub title: Seq<char>,
    pub author: Seq<char>,
    pub date: Date,
    pub summary: Option<Seq<char>>,
    pub tags: Seq<Seq<char>>,
}

impl View for ExternalMetadata {
    type V = ExternalMetadataView;

    open spec fn view(&self) -> ExternalMetadataView {
        ExternalMetadataView {
            title: self.title@,
            author: self.author@,
            date: self.date,
            summary: text_view(self.summary),
            tags: texts(self.tags@),
        }
    }
}

/// A link to a piece that lives elsewhere. It has no body.
#[derive(Debug)]
pub struct External {
    pub canonical_url: String,
    pub path: String,
    pub metadata: ExternalMetadata,
}

/// The model of an `External`.
pub struct ExternalView {
    pub canonical_url: Seq<char>,
    pub path: Seq<char>,
    pub metadata: ExternalMetadataView,
}

impl View for External {
    type V = ExternalView;

    open spec fn view(&self) -> ExternalView {
        ExternalView {
            canonical_url: self.canonical_url@,
            path: self.path@,
            metadata: self.metadata@,
        }
    }
}

impl External {
    /// Tells whether two links are equal in every field.
    pub fn equals(&self, other: &External) -> (r: bool)
        ensures
            r == (self@ == other@),
    {
        self.canonical_url == other.canonical_url && self.path == other.path
            && self.metadata.title == other.metadata.title && self.metadata.author
            == other.metadata.author && self.metadata.date == other.metadata.date
            && same_option_text(&self.metadata.summary, &other.metadata.summary) && same_texts(
            &self.metadata.tags,
            &other.metadata.tags,
        )
    }

    /// A copy of the link.
    pub fn duplicate(&self) -> (out: External)
        ensures
            out@ == self@,
    {
        External {
            canonical_url: self.canonical_url.clone(),
            path: self.path.clone(),
            metadata: ExternalMetadata {
                title: self.metadata.title.clone(),
                author: self.metadata.author.clone(),
                date: self.metadata.date,
                summary: copy_option_text(&self.metadata.summary),
                tags: copy_texts(&self.metadata.tags),
            },
        }
    }
}

impl Entry for External {
    open spec fn date_of(model: ExternalView) -> Option<Date> {
        Some(model.metadata.date)
    }

    fn date(&self) -> (d: Option<Date>) {
        Some(self.metadata.date)
    }

    fn same(&self, other: &Self) -> (b: bool) {
        self.equals(other)
    }
}

} // verus!
